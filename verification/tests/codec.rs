use wind::codec::{MessageCodec, MAX_MESSAGE_SIZE};
use wind::error::WindError;
use wind::protocol::{Message, MessagePayload};
use wind::types::{QosParams, ReliabilityLevel, ServiceInfo, ServiceType, SubscriptionMode};
use wind::value::WindValue;

fn sample_value() -> WindValue {
    WindValue::Mapping(vec![
        ("flag".to_string(), WindValue::Bool(true)),
        ("small".to_string(), WindValue::I32(-7)),
        ("big".to_string(), WindValue::I64(i64::MIN)),
        ("ratio".to_string(), WindValue::F32(1.5f32.to_bits())),
        ("exact".to_string(), WindValue::F64(15.0f64.to_bits())),
        ("text".to_string(), WindValue::String("héllo ✓".to_string())),
        ("raw".to_string(), WindValue::Bytes(vec![0, 255, 7])),
        (
            "list".to_string(),
            WindValue::Array(vec![WindValue::I32(i32::MAX), WindValue::Array(vec![]), WindValue::Mapping(vec![])]),
        ),
    ])
}

fn payloads() -> Vec<MessagePayload> {
    vec![
        MessagePayload::RegisterService {
            service: "SENSOR/A".to_string(),
            address: "127.0.0.1:9000".to_string(),
            service_type: ServiceType::Both,
            schema_id: Some("s1".to_string()),
            ttl_ms: u64::MAX,
            tags: vec!["a".to_string(), "".to_string()],
        },
        MessagePayload::ServiceRegistered { service: "S".to_string(), success: false, error: Some("no".to_string()) },
        MessagePayload::DiscoverServices { pattern: "SENSOR/*/TEMP".to_string() },
        MessagePayload::ServicesDiscovered {
            services: vec![
                ServiceInfo {
                    name: "A".to_string(),
                    address: "h:1".to_string(),
                    service_type: ServiceType::Publisher,
                    schema_id: None,
                    ttl_ms: 60000,
                    tags: vec![],
                },
                ServiceInfo {
                    name: "B".to_string(),
                    address: "h:2".to_string(),
                    service_type: ServiceType::RpcServer,
                    schema_id: Some("x".to_string()),
                    ttl_ms: 1,
                    tags: vec!["t1".to_string(), "t2".to_string()],
                },
            ],
        },
        MessagePayload::Subscribe {
            service: "S".to_string(),
            mode: SubscriptionMode::Periodic { interval_ms: 100 },
            qos: QosParams { reliability: ReliabilityLevel::Reliable, durability: true, max_queue_size: 77 },
            schema_id: None,
        },
        MessagePayload::Subscribe {
            service: "S".to_string(),
            mode: SubscriptionMode::Once,
            qos: QosParams::default(),
            schema_id: Some("x".to_string()),
        },
        MessagePayload::SubscribeAck {
            subscription_id: u128::MAX,
            success: true,
            error: None,
            current_value: Some(sample_value()),
        },
        MessagePayload::Unsubscribe { subscription_id: 12345 },
        MessagePayload::Publish { service: "S".to_string(), sequence: 9, value: sample_value(), schema_id: None },
        MessagePayload::RpcCall {
            service: "CALCULATOR".to_string(),
            method: "add".to_string(),
            params: sample_value(),
            schema_id: Some("calc".to_string()),
        },
        MessagePayload::RpcResponse { call_id: 5, result: Ok(WindValue::F64(15.0f64.to_bits())), schema_id: None },
        MessagePayload::RpcResponse { call_id: 6, result: Err("Method not found: sub".to_string()), schema_id: None },
        MessagePayload::Heartbeat,
        MessagePayload::Ping,
        MessagePayload::Pong,
        MessagePayload::Error { error: "bad".to_string(), context: Some("ctx".to_string()) },
    ]
}

#[test]
fn every_message_survives_the_round_trip() {
    for (i, payload) in payloads().into_iter().enumerate() {
        let shown = format!("{:?}", payload);
        let message = Message::stamped(0x0102_0304_0506_0708_090a_0b0c_0d0e_0f10 + i as u128, 1_700_000_000_000_000, payload);
        let frame = MessageCodec::encode(&message).unwrap();
        let back = MessageCodec::decode(&frame[..]).unwrap();
        assert_eq!(back.id, message.id);
        assert_eq!(back.timestamp_us, message.timestamp_us);
        assert_eq!(format!("{:?}", back.payload), shown);
        let again = MessageCodec::encode(&back).unwrap();
        assert_eq!(&again[..], &frame[..]);
        let body = MessageCodec::serialize(&message);
        assert_eq!(&frame[4..], &body[..]);
        assert_eq!(MessageCodec::decode_body(&body).unwrap().id, message.id);
    }
}

#[test]
fn frame_is_length_then_body() {
    let message = Message::stamped(0x0102_0304_0506_0708_090a_0b0c_0d0e_0f10, 0x1122_3344_5566_7788, MessagePayload::Ping);
    let frame = MessageCodec::encode(&message).unwrap();
    let mut expected = vec![0u8, 0, 0, 25];
    expected.extend_from_slice(&[1, 2, 3, 4, 5, 6, 7, 8, 9, 10, 11, 12, 13, 14, 15, 16]);
    expected.extend_from_slice(&[0x11, 0x22, 0x33, 0x44, 0x55, 0x66, 0x77, 0x88]);
    expected.push(11);
    assert_eq!(frame.to_vec(), expected);
}

#[test]
fn values_are_written_with_kind_and_content() {
    let message = Message::stamped(
        0,
        0,
        MessagePayload::Publish {
            service: "ab".to_string(),
            sequence: 258,
            value: WindValue::Array(vec![WindValue::I32(0), WindValue::Bool(true)]),
            schema_id: None,
        },
    );
    let body = MessageCodec::serialize(&message);
    let mut expected = vec![0u8; 24];
    expected.push(7);
    expected.extend_from_slice(&[0, 0, 0, 0, 0, 0, 0, 2, b'a', b'b']);
    expected.extend_from_slice(&[0, 0, 0, 0, 0, 0, 1, 2]);
    expected.push(7);
    expected.extend_from_slice(&[0, 0, 0, 0, 0, 0, 0, 2]);
    expected.extend_from_slice(&[1, 0x80, 0, 0, 0]);
    expected.extend_from_slice(&[0, 1]);
    expected.push(0);
    assert_eq!(body, expected);
}

#[test]
fn oversized_message_is_refused() {
    let message = Message::stamped(
        1,
        2,
        MessagePayload::Publish {
            service: "S".to_string(),
            sequence: 1,
            value: WindValue::Bytes(vec![0u8; MAX_MESSAGE_SIZE]),
            schema_id: None,
        },
    );
    let size = 16 + 8 + 1 + (8 + 1) + 8 + (1 + 8 + MAX_MESSAGE_SIZE) + 1;
    match MessageCodec::encode(&message) {
        Err(WindError::Protocol(text)) => {
            assert_eq!(text, format!("Message too large: {} bytes", size))
        }
        other => panic!("expected a protocol error, got {:?}", other.map(|b| b.len())),
    }
    let fits = Message::stamped(
        1,
        2,
        MessagePayload::Publish {
            service: "S".to_string(),
            sequence: 1,
            value: WindValue::Bytes(vec![0u8; MAX_MESSAGE_SIZE - 52]),
            schema_id: None,
        },
    );
    let frame = MessageCodec::encode(&fits).unwrap();
    assert_eq!(frame.len(), 4 + MAX_MESSAGE_SIZE);
    assert!(MessageCodec::decode(&frame[..]).is_ok());
}

#[test]
fn announced_length_is_checked_first() {
    assert_eq!(MessageCodec::accept_length(0).unwrap(), 0);
    assert_eq!(MessageCodec::accept_length(16 * 1024 * 1024).unwrap(), 16 * 1024 * 1024);
    match MessageCodec::accept_length(16 * 1024 * 1024 + 1) {
        Err(WindError::Protocol(text)) => assert_eq!(text, "Message too large: 16777217 bytes"),
        other => panic!("expected a protocol error, got {:?}", other),
    }
    match MessageCodec::decode(&[0xff, 0xff, 0xff, 0xff]) {
        Err(WindError::Protocol(text)) => assert_eq!(text, "Message too large: 4294967295 bytes"),
        other => panic!("expected a protocol error, got {:?}", other.map(|m| m.id)),
    }
}

#[test]
fn broken_frames_are_refused() {
    let frame = MessageCodec::encode(&Message::stamped(1, 2, MessagePayload::Pong)).unwrap().to_vec();
    assert!(matches!(MessageCodec::decode(&frame[..3]), Err(WindError::Io(_))));
    assert!(matches!(MessageCodec::decode(&frame[..frame.len() - 1]), Err(WindError::Io(_))));
    let mut longer = frame.clone();
    longer.push(0);
    assert!(matches!(MessageCodec::decode(&longer), Err(WindError::Serialization(_))));
    let mut unknown = frame.clone();
    *unknown.last_mut().unwrap() = 200;
    assert!(matches!(MessageCodec::decode(&unknown), Err(WindError::Serialization(_))));
    let mut body = frame[4..].to_vec();
    body.push(1);
    assert!(matches!(MessageCodec::decode_body(&body), Err(WindError::Serialization(_))));

    let text = MessageCodec::encode(&Message::stamped(
        1,
        2,
        MessagePayload::DiscoverServices { pattern: "ab".to_string() },
    ))
    .unwrap()
    .to_vec();
    let mut bad_utf8 = text.clone();
    let last = bad_utf8.len() - 1;
    bad_utf8[last] = 0xff;
    assert!(matches!(MessageCodec::decode(&bad_utf8), Err(WindError::Serialization(_))));
    assert!(MessageCodec::decode(&text).is_ok());
}

#[test]
fn new_messages_get_fresh_ids_and_the_time() {
    let a = Message::new(MessagePayload::Ping);
    let b = Message::new(MessagePayload::Ping);
    assert_ne!(a.id, b.id);
    assert_eq!((a.id >> 76) & 0xf, 4);
    assert_eq!((a.id >> 62) & 0x3, 2);
    assert!(a.timestamp_us > 1_600_000_000_000_000);
    assert!(b.timestamp_us >= a.timestamp_us);
    assert_eq!(uuid::Uuid::from_u128(a.id).get_version_num(), 4);
}
