use wind::pattern::ServicePattern;

#[test]
fn test_pattern_matching() {
    let pattern = ServicePattern::new("SENSOR/*/TEMP").unwrap();

    assert!(pattern.matches("SENSOR/ROOM1/TEMP"));
    assert!(pattern.matches("SENSOR/ROOM2/TEMP"));
    assert!(!pattern.matches("SENSOR/ROOM1/HUMIDITY"));
    assert!(!pattern.matches("DETECTOR/ROOM1/TEMP"));
}

#[test]
fn test_complex_patterns() {
    let pattern = ServicePattern::new("DET/CHAMBER_*/STATUS").unwrap();

    assert!(pattern.matches("DET/CHAMBER_1/STATUS"));
    assert!(pattern.matches("DET/CHAMBER_A1/STATUS"));
    assert!(!pattern.matches("DET/ROOM_1/STATUS"));
}

#[test]
fn pattern_keeps_its_text() {
    let pattern = ServicePattern::new("SENSOR/?/[a-c]*").unwrap();
    assert_eq!(pattern.pattern_str(), "SENSOR/?/[a-c]*");
    assert!(pattern.matches("SENSOR/1/beta"));
    assert!(!pattern.matches("SENSOR/12/beta"));
    assert!(!pattern.matches("SENSOR/1/delta"));
}

#[test]
fn invalid_pattern_is_refused() {
    assert!(ServicePattern::new("SENSOR/[").is_err());
    assert!(ServicePattern::new("a***b").is_err());
}
