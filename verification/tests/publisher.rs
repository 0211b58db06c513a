use wind::codec::MessageCodec;
use wind::error::WindError;
use wind::protocol::{Message, MessagePayload};
use wind::publisher::{registration_outcome, Publisher};
use wind::registry::Registry;
use wind::registry_server::RegistryServer;
use wind::subscriber::{Reception, SubscribeAction, SubscribeEvent, SubscribePhase, Subscriber};
use wind::types::{QosParams, ReliabilityLevel, ServiceType, SubscriptionMode};
use wind::value::WindValue;

fn publisher(name: &str) -> Publisher {
    Publisher::new(name.to_string(), "127.0.0.1:0".to_string(), "127.0.0.1:7010".to_string())
}

fn subscribe(service: &str, mode: SubscriptionMode, durability: bool) -> MessagePayload {
    MessagePayload::Subscribe {
        service: service.to_string(),
        mode,
        qos: QosParams { reliability: ReliabilityLevel::BestEffort, durability, max_queue_size: 10 },
        schema_id: None,
    }
}

fn published(d: &wind::publisher::Delivery) -> (u128, String, u64, WindValue) {
    match &d.message {
        MessagePayload::Publish { service, sequence, value, schema_id } => {
            assert!(schema_id.is_none());
            (d.client, service.clone(), *sequence, value.clone())
        }
        other => panic!("not a publication: {:?}", other),
    }
}

#[test]
fn test_basic_pub_sub() {
    let mut registry = Registry::new();
    let mut publisher = publisher("TEST/SERVICE");
    let registration = publisher.registration("127.0.0.1:9000");
    let handled = RegistryServer::handle_message(&mut registry, Message::new(registration), 0);
    assert!(registration_outcome(&handled.reply.unwrap()).is_ok());

    let request = Subscriber::discovery("TEST/SERVICE");
    let answer = RegistryServer::handle_message(&mut registry, Message::new(request), 10)
        .reply
        .unwrap();
    let (phase, action) = Subscriber::advance(
        SubscribePhase::Discovering,
        SubscribeEvent::Message(answer),
        "TEST/SERVICE",
        SubscriptionMode::OnChange,
        QosParams::default(),
    );
    assert_eq!(phase, SubscribePhase::AwaitingAck);
    let request = match action {
        SubscribeAction::Connect { address, request } => {
            assert_eq!(address, "127.0.0.1:9000");
            request
        }
        other => panic!("unexpected action {:?}", other),
    };

    publisher.accept(42);
    let ack = publisher.handle_subscribe(42, Some(request), 20).unwrap();
    let (phase, action) = Subscriber::advance(
        phase,
        SubscribeEvent::Message(ack),
        "TEST/SERVICE",
        SubscriptionMode::OnChange,
        QosParams::default(),
    );
    assert_eq!(phase, SubscribePhase::Streaming);
    assert!(matches!(action, SubscribeAction::Established { replayed: None }));

    publisher.publish(WindValue::String("Hello WIND!".to_string())).unwrap();
    let due = publisher.due_now(30);
    assert_eq!(due.len(), 1);
    let frame = MessageCodec::encode(&Message::stamped(1, 2, MessagePayload::Ping)).unwrap();
    assert_eq!(frame.len(), 4 + 25);
    let mut delivered = Vec::new();
    for d in due {
        let bytes = MessageCodec::encode(&Message::new(d.message)).unwrap();
        let received = MessageCodec::decode(&bytes[..]).unwrap();
        publisher.record_delivery(d.client, "TEST/SERVICE", 30, &WindValue::String("Hello WIND!".to_string()), true);
        let (next, action) = Subscriber::advance(
            phase,
            SubscribeEvent::Message(received.payload),
            "TEST/SERVICE",
            SubscriptionMode::OnChange,
            QosParams::default(),
        );
        assert_eq!(next, SubscribePhase::Streaming);
        if let SubscribeAction::Deliver(v) = action {
            delivered.push(v);
        }
    }
    assert_eq!(delivered, vec![WindValue::String("Hello WIND!".to_string())]);
    assert!(publisher.due_now(31).is_empty());
}

#[test]
fn test_subscription_modes() {
    let mut publisher = publisher("TEST/MODES");
    publisher.accept(1);
    publisher.handle_subscribe(1, Some(subscribe("TEST/MODES", SubscriptionMode::Once, false)), 0);
    publisher.publish(WindValue::I32(1)).unwrap();
    let due = publisher.due_now(0);
    assert_eq!(due.len(), 1);
    assert_eq!(published(&due[0]), (1, "TEST/MODES".to_string(), 1, WindValue::I32(1)));
    publisher.record_delivery(1, "TEST/MODES", 0, &WindValue::I32(1), true);
    publisher.publish(WindValue::I32(2)).unwrap();
    assert!(publisher.due_now(5).is_empty());

    publisher.accept(2);
    publisher.handle_subscribe(
        2,
        Some(subscribe("TEST/MODES", SubscriptionMode::Periodic { interval_ms: 100 }, false)),
        10,
    );
    let mut received = 0;
    let mut t = 10u64;
    while t < 410 {
        let value = WindValue::I64(t as i64);
        publisher.publish(value.clone()).unwrap();
        for d in publisher.due_now(t) {
            assert_eq!(d.client, 2);
            publisher.record_delivery(d.client, "TEST/MODES", t, &value, true);
            received += 1;
        }
        t += 10;
    }
    assert_eq!(received, 4);
}

#[test]
fn sequence_numbers_go_up_with_each_publication() {
    let mut publisher = publisher("T");
    assert_eq!(publisher.sequence_number(), 0);
    assert!(publisher.current_value().is_none());
    publisher.accept(1);
    publisher.handle_subscribe(1, Some(subscribe("T", SubscriptionMode::OnChange, false)), 0);
    let mut seen = Vec::new();
    for i in 0..5 {
        publisher.publish(WindValue::I32(i)).unwrap();
        for d in publisher.due_now(i as u64) {
            let (_, _, sequence, value) = published(&d);
            publisher.record_delivery(1, "T", i as u64, &value, true);
            seen.push(sequence);
        }
    }
    assert_eq!(seen, vec![1, 2, 3, 4, 5]);
    assert_eq!(publisher.current_value(), Some(WindValue::I32(4)));
    assert_eq!(publisher.sequence_number(), 5);
}

#[test]
fn durable_subscriber_is_replayed_the_current_value_once() {
    let mut publisher = publisher("T");
    publisher.publish(WindValue::Bool(true)).unwrap();
    publisher.accept(1);
    publisher.accept(2);
    assert_eq!(publisher.subscriber_count(), 2);
    let ack = publisher.handle_subscribe(1, Some(subscribe("T", SubscriptionMode::Once, true)), 5);
    match ack {
        Some(MessagePayload::SubscribeAck { subscription_id, success, error, current_value }) => {
            assert_eq!(subscription_id, 1);
            assert!(success);
            assert!(error.is_none());
            assert_eq!(current_value, Some(WindValue::Bool(true)));
        }
        other => panic!("unexpected ack {:?}", other),
    }
    let ack = publisher.handle_subscribe(2, Some(subscribe("T", SubscriptionMode::Once, false)), 5);
    assert!(matches!(
        ack,
        Some(MessagePayload::SubscribeAck { success: true, current_value: None, .. })
    ));
    publisher.publish(WindValue::Bool(false)).unwrap();
    let due = publisher.due_now(6);
    assert_eq!(due.len(), 1);
    assert_eq!(due[0].client, 2);
}

#[test]
fn anything_but_a_subscription_drops_the_client() {
    let mut publisher = publisher("T");
    assert!(publisher.handle_subscribe(5, Some(MessagePayload::Ping), 0).is_none());
    publisher.accept(5);
    assert!(publisher.has_client(5));
    match publisher.handle_subscribe(5, Some(MessagePayload::Ping), 0) {
        Some(MessagePayload::SubscribeAck { subscription_id, success, error, current_value }) => {
            assert_eq!(subscription_id, 5);
            assert!(!success);
            assert_eq!(error, Some("Expected Subscribe message".to_string()));
            assert!(current_value.is_none());
        }
        other => panic!("unexpected ack {:?}", other),
    }
    assert!(!publisher.has_client(5));
    publisher.accept(6);
    assert!(publisher.handle_subscribe(6, None, 0).is_some());
    assert_eq!(publisher.subscriber_count(), 0);
}

#[test]
fn failed_write_drops_the_client() {
    let mut publisher = publisher("T");
    for id in [1u128, 2, 3] {
        publisher.accept(id);
        publisher.handle_subscribe(id, Some(subscribe("T", SubscriptionMode::OnChange, false)), 0);
    }
    publisher.handle_subscribe(2, Some(subscribe("U", SubscriptionMode::OnChange, false)), 0);
    let value = WindValue::Bytes(vec![1, 2, 3]);
    publisher.publish(value.clone()).unwrap();
    let due = publisher.due_now(1);
    let mut targets: Vec<(u128, String)> =
        due.iter().map(|d| { let p = published(d); (p.0, p.1) }).collect();
    targets.sort();
    assert_eq!(
        targets,
        vec![
            (1, "T".to_string()),
            (2, "T".to_string()),
            (2, "U".to_string()),
            (3, "T".to_string())
        ]
    );
    publisher.record_delivery(1, "T", 1, &value, true);
    publisher.record_delivery(2, "T", 1, &value, false);
    assert!(!publisher.has_client(2));
    publisher.record_delivery(2, "U", 1, &value, true);
    publisher.record_delivery(3, "T", 1, &value, true);
    assert_eq!(publisher.subscriber_count(), 2);
    assert!(publisher.due_now(2).is_empty());
    publisher.drop_client(1);
    assert_eq!(publisher.subscriber_count(), 1);
}

#[test]
fn registration_messages_describe_the_publisher() {
    let publisher = publisher("SENSOR/A")
        .with_schema("schema-1".to_string())
        .with_ttl_ms(5000)
        .with_tags(vec!["sensor".to_string(), "temperature".to_string()]);
    assert_eq!(publisher.bind_address(), "127.0.0.1:0");
    assert_eq!(publisher.registry_address(), "127.0.0.1:7010");
    assert_eq!(publisher.heartbeat_interval_ms(), 2500);
    match publisher.registration("10.0.0.1:4000") {
        MessagePayload::RegisterService { service, address, service_type, schema_id, ttl_ms, tags } => {
            assert_eq!(service, "SENSOR/A");
            assert_eq!(address, "10.0.0.1:4000");
            assert_eq!(service_type, ServiceType::Publisher);
            assert_eq!(schema_id, Some("schema-1".to_string()));
            assert_eq!(ttl_ms, 5000);
            assert_eq!(tags, vec!["sensor".to_string(), "temperature".to_string()]);
        }
        other => panic!("unexpected message {:?}", other),
    }
    match publisher.heartbeat("10.0.0.1:4000") {
        MessagePayload::RegisterService { service, address, service_type, schema_id, ttl_ms, tags } => {
            assert_eq!(service, "SENSOR/A");
            assert_eq!(address, "10.0.0.1:4000");
            assert_eq!(service_type, ServiceType::Publisher);
            assert_eq!(schema_id, Some("schema-1".to_string()));
            assert_eq!(ttl_ms, 5000);
            assert_eq!(tags, vec!["sensor".to_string(), "temperature".to_string()]);
        }
        other => panic!("unexpected message {:?}", other),
    }
    let fresh = Publisher::new("S".to_string(), "b:0".to_string(), "r:1".to_string());
    assert_eq!(fresh.heartbeat_interval_ms(), 30000);
    assert_eq!(fresh.with_ttl_ms(1).heartbeat_interval_ms(), 0);
}

#[test]
fn registration_outcome_reads_the_answer() {
    let ok = MessagePayload::ServiceRegistered { service: "S".to_string(), success: true, error: None };
    assert!(registration_outcome(&ok).is_ok());
    let refused = MessagePayload::ServiceRegistered {
        service: "S".to_string(),
        success: false,
        error: Some("full".to_string()),
    };
    assert!(matches!(registration_outcome(&refused), Err(WindError::Registry(t)) if t == "full"));
    let silent = MessagePayload::ServiceRegistered { service: "S".to_string(), success: false, error: None };
    assert!(matches!(registration_outcome(&silent), Err(WindError::Registry(t)) if t == "Registration failed"));
    assert!(matches!(
        registration_outcome(&MessagePayload::Pong),
        Err(WindError::Protocol(t)) if t == "Unexpected registry response"
    ));
}

#[test]
fn reception_sorts_messages() {
    assert!(matches!(
        Subscriber::received(MessagePayload::Publish {
            service: "S".to_string(),
            sequence: 1,
            value: WindValue::I32(3),
            schema_id: None
        }),
        Reception::Deliver(WindValue::I32(3))
    ));
    assert!(matches!(
        Subscriber::received(MessagePayload::Error { error: "e".to_string(), context: None }),
        Reception::Stop
    ));
    assert!(matches!(Subscriber::received(MessagePayload::Pong), Reception::Ignore));
}

#[test]
fn heartbeat_keeps_the_entry_as_it_was_registered() {
    let mut registry = Registry::new();
    let publisher = publisher("SENSOR/A")
        .with_schema("schema-1".to_string())
        .with_tags(vec!["sensor".to_string()]);
    let first = Message::new(publisher.registration("h:1"));
    RegistryServer::handle_message(&mut registry, first, 0);
    let renewal = Message::new(publisher.heartbeat("h:1"));
    RegistryServer::handle_message(&mut registry, renewal, 30000);
    let found = registry.lookup_service("SENSOR/A", 80000).unwrap();
    assert_eq!(found.schema_id, Some("schema-1".to_string()));
    assert_eq!(found.tags, vec!["sensor".to_string()]);
    assert!(registry.lookup_service("SENSOR/A", 90001).is_none());
}

#[test]
fn lease_beyond_the_clock_ends_with_the_clock() {
    let mut registry = Registry::new();
    let forever = Message::stamped(1, 2, MessagePayload::RegisterService {
        service: "S".to_string(),
        address: "h:1".to_string(),
        service_type: ServiceType::Publisher,
        schema_id: None,
        ttl_ms: u64::MAX,
        tags: vec![],
    });
    let handled = RegistryServer::handle_message(&mut registry, forever, 1000);
    assert!(matches!(
        handled.reply,
        Some(MessagePayload::ServiceRegistered { success: true, .. })
    ));
    assert!(registry.lookup_service("S", u64::MAX).is_some());
}
