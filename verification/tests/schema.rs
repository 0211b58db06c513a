use wind::error::WindError;
use wind::schema::{validate_type, Schema, SchemaRegistry, WindType};
use wind::value::WindValue;

fn reading() -> Schema {
    Schema {
        id: "reading".to_string(),
        version: 1,
        name: "Reading".to_string(),
        description: None,
        fields: vec![
            ("value".to_string(), WindType::F64),
            ("samples".to_string(), WindType::Array(Box::new(WindType::I32))),
            ("meta".to_string(), WindType::Mapping(Box::new(WindType::String))),
        ],
    }
}

fn good() -> WindValue {
    WindValue::Mapping(vec![
        ("meta".to_string(), WindValue::Mapping(vec![])),
        ("samples".to_string(), WindValue::Array(vec![WindValue::I32(1), WindValue::I32(2)])),
        ("value".to_string(), WindValue::F64(1.5f64.to_bits())),
        ("extra".to_string(), WindValue::Bool(true)),
    ])
}

#[test]
fn valid_value_passes() {
    assert!(reading().validate(&good()).is_ok());
}

#[test]
fn violations_are_reported_in_field_order() {
    let schema = reading();
    match schema.validate(&WindValue::I32(1)) {
        Err(WindError::Schema(t)) => assert_eq!(t, "Schema validation requires a Map value"),
        other => panic!("unexpected {:?}", other),
    }
    match schema.validate(&WindValue::Mapping(vec![("samples".to_string(), WindValue::Array(vec![]))])) {
        Err(WindError::Schema(t)) => assert_eq!(t, "Missing required field: value"),
        other => panic!("unexpected {:?}", other),
    }
    let wrong = WindValue::Mapping(vec![
        ("value".to_string(), WindValue::F64(0)),
        ("samples".to_string(), WindValue::Array(vec![WindValue::I32(1), WindValue::String("x".to_string())])),
    ]);
    match schema.validate(&wrong) {
        Err(WindError::TypeMismatch { expected, actual }) => {
            assert_eq!(expected, "I32");
            assert_eq!(actual, "String");
        }
        other => panic!("unexpected {:?}", other),
    }
    let overridden = WindValue::Mapping(vec![
        ("value".to_string(), WindValue::I32(0)),
        ("samples".to_string(), WindValue::Array(vec![])),
        ("meta".to_string(), WindValue::Mapping(vec![])),
        ("value".to_string(), WindValue::F64(0)),
    ]);
    assert!(schema.validate(&overridden).is_ok());
}

#[test]
fn types_are_checked_structurally() {
    assert!(validate_type(&WindValue::Bytes(vec![]), &WindType::Bytes).is_ok());
    match validate_type(&WindValue::Bool(true), &WindType::Array(Box::new(WindType::Mapping(Box::new(WindType::Bool))))) {
        Err(WindError::TypeMismatch { expected, actual }) => {
            assert_eq!(expected, "Array(Map(Bool))");
            assert_eq!(actual, "Bool");
        }
        other => panic!("unexpected {:?}", other),
    }
    match validate_type(&WindValue::Mapping(vec![]), &WindType::Struct("Point".to_string())) {
        Err(WindError::TypeMismatch { expected, actual }) => {
            assert_eq!(expected, "Struct(Point)");
            assert_eq!(actual, "Map");
        }
        other => panic!("unexpected {:?}", other),
    }
}

#[test]
fn registry_of_schemas_validates_by_id() {
    let mut schemas = SchemaRegistry::new();
    assert!(schemas.get("reading").is_none());
    schemas.register(reading());
    assert_eq!(schemas.get("reading").unwrap().version, 1);
    let mut second = reading();
    second.version = 2;
    second.fields.clear();
    schemas.register(second);
    assert_eq!(schemas.get("reading").unwrap().version, 2);
    assert!(schemas.validate("reading", &WindValue::Mapping(vec![])).is_ok());
    match schemas.validate("absent", &good()) {
        Err(WindError::Schema(t)) => assert_eq!(t, "Schema not found: absent"),
        other => panic!("unexpected {:?}", other),
    }
}
