use wind::connection::Connection;
use wind::error::WindError;

#[test]
fn backoff_doubles_up_to_thirty_seconds_and_gives_up_at_the_tenth_failure() {
    let mut connection = Connection::new("10.0.0.1:7001".to_string());
    assert!(!connection.is_connected());
    assert_eq!(connection.address(), "10.0.0.1:7001");
    let mut delays = Vec::new();
    for _ in 0..9 {
        delays.push(connection.connect_failed("refused").unwrap());
    }
    assert_eq!(delays, vec![1000, 2000, 4000, 8000, 16000, 30000, 30000, 30000, 30000]);
    match connection.connect_failed("refused") {
        Err(WindError::Connection(text)) => {
            assert_eq!(text, "Failed to connect to 10.0.0.1:7001 after 10 attempts: refused")
        }
        other => panic!("expected a connection error, got {:?}", other),
    }
    assert!(connection.connect_failed("again").is_err());
}

#[test]
fn success_starts_the_count_over() {
    let mut connection = Connection::new("h:1".to_string());
    for _ in 0..7 {
        connection.connect_failed("x").unwrap();
    }
    connection.connect_succeeded();
    assert!(connection.is_connected());
    connection.mark_broken();
    assert!(!connection.is_connected());
    assert_eq!(connection.connect_failed("x").unwrap(), 1000);
    assert_eq!(connection.connect_failed("x").unwrap(), 2000);
    connection.disconnect();
    assert!(!connection.is_connected());
    assert_eq!(connection.connect_failed("x").unwrap(), 1000);
}
