use wind::error::WindError;
use wind::value::WindValue;

#[test]
fn test_type_safety() {
    let bool_val: WindValue = true.into();
    assert_eq!(bool_val, WindValue::Bool(true));

    let converted_bool: bool = bool_val.try_into().unwrap();
    assert_eq!(converted_bool, true);

    let int_val: WindValue = 42i32.into();
    let converted_int: i32 = int_val.try_into().unwrap();
    assert_eq!(converted_int, 42);

    let string_val: WindValue = "test".into();
    let converted_string: String = string_val.try_into().unwrap();
    assert_eq!(converted_string, "test");

    let bool_val = WindValue::Bool(true);
    let result: Result<i32, _> = bool_val.try_into();
    assert!(result.is_err());
}

#[test]
fn mismatch_names_both_kinds() {
    let result: Result<bool, WindError> = WindValue::I32(3).try_into();
    match result {
        Err(e @ WindError::TypeMismatch { .. }) => {
            assert_eq!(e.message(), "Type mismatch: expected bool, got I32")
        }
        other => panic!("unexpected {:?}", other),
    }
    let result: Result<String, WindError> = WindValue::Array(vec![]).try_into();
    assert_eq!(result.unwrap_err().message(), "Type mismatch: expected String, got Array");
    assert_eq!(WindValue::from(vec![1u8, 2]), WindValue::Bytes(vec![1, 2]));
    assert_eq!(WindValue::from(7i64), WindValue::I64(7));
    assert_eq!(WindValue::from("s".to_string()), WindValue::String("s".to_string()));
}

#[test]
fn equality_is_structural_and_ignores_entry_order() {
    let a = WindValue::Array(vec![
        WindValue::Mapping(vec![
            ("x".to_string(), WindValue::I32(1)),
            ("y".to_string(), WindValue::F64(2.0f64.to_bits())),
            ("x".to_string(), WindValue::I32(3)),
        ]),
        WindValue::Bytes(vec![1]),
    ]);
    let b = WindValue::Array(vec![
        WindValue::Mapping(vec![
            ("y".to_string(), WindValue::F64(2.0f64.to_bits())),
            ("x".to_string(), WindValue::I32(3)),
        ]),
        WindValue::Bytes(vec![1]),
    ]);
    assert_eq!(a, b);
    assert_eq!(a.clone(), a);
    let c = WindValue::Array(vec![
        WindValue::Mapping(vec![
            ("y".to_string(), WindValue::F64(2.0f64.to_bits())),
            ("x".to_string(), WindValue::I32(1)),
        ]),
        WindValue::Bytes(vec![1]),
    ]);
    assert_ne!(a, c);
    assert_ne!(WindValue::I32(1), WindValue::I64(1));
    assert_ne!(WindValue::Array(vec![]), WindValue::Array(vec![WindValue::Bool(false)]));
    assert_ne!(
        WindValue::Mapping(vec![("x".to_string(), WindValue::I32(1))]),
        WindValue::Mapping(vec![])
    );
}

#[test]
fn lookup_in_a_mapping_takes_the_last_entry() {
    let m = WindValue::Mapping(vec![
        ("k".to_string(), WindValue::I32(1)),
        ("k".to_string(), WindValue::I32(2)),
    ]);
    assert_eq!(m.get(&"k".to_string()), Some(&WindValue::I32(2)));
    assert_eq!(m.get(&"absent".to_string()), None);
    assert_eq!(WindValue::I32(1).get(&"k".to_string()), None);
}

#[test]
fn errors_show_their_kind_and_detail() {
    assert_eq!(WindError::Io("reset".to_string()).message(), "IO error: reset");
    assert_eq!(WindError::Serialization("x".to_string()).message(), "Serialization error: x");
    assert_eq!(WindError::ServiceNotFound("A/B".to_string()).message(), "Service not found: A/B");
    assert_eq!(WindError::Connection("c".to_string()).message(), "Connection error: c");
    assert_eq!(WindError::Registry("r".to_string()).message(), "Registry error: r");
    assert_eq!(WindError::Protocol("p".to_string()).message(), "Protocol error: p");
    assert_eq!(WindError::Schema("s".to_string()).message(), "Schema error: s");
    assert_eq!(WindError::Timeout("t".to_string()).message(), "Timeout: t");
}
