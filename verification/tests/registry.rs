use wind::error::WindError;
use wind::protocol::{Message, MessagePayload};
use wind::registry::{Registry, ServiceEntry};
use wind::registry_server::RegistryServer;
use wind::schema::{Schema, WindType};
use wind::types::{ServiceInfo, ServiceType};

fn info(name: &str, address: &str, ttl_ms: u64) -> ServiceInfo {
    ServiceInfo {
        name: name.to_string(),
        address: address.to_string(),
        service_type: ServiceType::Publisher,
        schema_id: None,
        ttl_ms,
        tags: vec!["sensor".to_string()],
    }
}

fn names(mut list: Vec<ServiceInfo>) -> Vec<String> {
    list.sort_by(|a, b| a.name.cmp(&b.name));
    list.into_iter().map(|i| i.name).collect()
}

#[test]
fn entry_lease_is_heartbeat_plus_ttl() {
    let mut entry = ServiceEntry::new(info("A", "h:1", 500), 500, 1000);
    assert_eq!(entry.registered_at, 1000);
    assert_eq!(entry.last_heartbeat, 1000);
    assert_eq!(entry.expires_at, 1500);
    assert!(!entry.is_expired(1500));
    assert!(entry.is_expired(1501));
    entry.renew(200, 1400);
    assert_eq!(entry.registered_at, 1000);
    assert_eq!(entry.last_heartbeat, 1400);
    assert_eq!(entry.expires_at, 1600);
}

#[test]
fn lookup_finds_what_was_registered_until_replaced() {
    let mut registry = Registry::new();
    registry.register_service(info("N", "a1:1", 1000), 1000, 0).unwrap();
    assert_eq!(registry.lookup_service("N", 10).unwrap().address, "a1:1");
    assert_eq!(registry.lookup_service("N", 1000).unwrap().address, "a1:1");
    registry.register_service(info("N", "a2:2", 1000), 1000, 500).unwrap();
    assert_eq!(registry.lookup_service("N", 600).unwrap().address, "a2:2");
    assert_eq!(registry.lookup_service("N", 1500).unwrap().address, "a2:2");
    assert!(registry.lookup_service("M", 600).is_none());
    let metrics = registry.metrics();
    assert_eq!(metrics.total_registrations, 2);
    assert_eq!(metrics.active_services, 1);
    assert_eq!(metrics.total_lookups, 5);
}

#[test]
fn unrenewed_service_expires() {
    let mut registry = Registry::new();
    registry.register_service(info("TEST/EXPIRY", "h:1", 500), 500, 0).unwrap();
    assert!(registry.lookup_service("TEST/EXPIRY", 500).is_some());
    assert!(registry.lookup_service("TEST/EXPIRY", 1500).is_none());
    assert!(registry.discover_services("TEST/*", 1500).unwrap().is_empty());
    assert!(registry.list_services(1500).is_empty());
    assert_eq!(registry.metrics().active_services, 1);
    registry.cleanup_expired(1500, &vec![]);
    assert_eq!(registry.metrics().active_services, 0);
    assert!(registry.lookup_service("TEST/EXPIRY", 100).is_none());
}

#[test]
fn renewal_extends_the_lease_for_the_same_address_only() {
    let mut registry = Registry::new();
    registry.register_service(info("N", "a:1", 500), 500, 0).unwrap();
    assert!(registry.renew_service("N", "a:1", 500, 400).is_ok());
    assert!(registry.lookup_service("N", 900).is_some());
    assert!(registry.lookup_service("N", 901).is_none());
    match registry.renew_service("N", "b:2", 500, 450) {
        Err(WindError::ServiceNotFound(name)) => assert_eq!(name, "N"),
        other => panic!("expected ServiceNotFound, got {:?}", other),
    }
    match registry.renew_service("ABSENT", "a:1", 500, 450) {
        Err(WindError::ServiceNotFound(name)) => assert_eq!(name, "ABSENT"),
        other => panic!("expected ServiceNotFound, got {:?}", other),
    }
    assert!(registry.lookup_service("N", 900).is_some());
}

#[test]
fn test_service_discovery() {
    let mut registry = Registry::new();
    for name in ["SENSOR/ROOM_A/TEMP", "SENSOR/ROOM_B/TEMP", "DETECTOR/HALL_1/STATUS"] {
        registry.register_service(info(name, "127.0.0.1:0", 60000), 60000, 0).unwrap();
    }
    let temp_services = registry.discover_services("SENSOR/*/TEMP", 500).unwrap();
    assert_eq!(temp_services.len(), 2);
    assert_eq!(names(temp_services), vec!["SENSOR/ROOM_A/TEMP", "SENSOR/ROOM_B/TEMP"]);
    let sensor_services = registry.discover_services("SENSOR/*", 500).unwrap();
    assert_eq!(sensor_services.len(), 2);
    let all_services = registry.discover_services("*", 500).unwrap();
    assert_eq!(all_services.len(), 3);
    assert_eq!(registry.list_services(500).len(), 3);
    assert_eq!(registry.metrics().active_services, 3);
}

#[test]
fn invalid_pattern_is_a_registry_error() {
    let mut registry = Registry::new();
    match registry.discover_services("SENSOR/[", 0) {
        Err(WindError::Registry(text)) => {
            assert!(text.starts_with("Invalid pattern: "));
            assert!(text.len() > "Invalid pattern: ".len());
        }
        other => panic!("expected a registry error, got {:?}", other),
    }
    assert!(registry.watch_services("a***", 0).is_err());
    assert_eq!(registry.metrics().active_watches, 0);
}

#[test]
fn watch_is_told_of_matching_registrations() {
    let mut registry = Registry::new();
    registry.register_service(info("SENSOR/OLD", "h:1", 1000), 1000, 0).unwrap();
    let opened = registry.open_watch(7, "SENSOR/*", 10).unwrap();
    assert_eq!(opened.id, 7);
    assert_eq!(names(opened.current), vec!["SENSOR/OLD"]);
    assert_eq!(registry.metrics().active_watches, 1);

    let due = registry.register_service(info("SENSOR/X", "h:2", 1000), 1000, 20).unwrap();
    assert_eq!(due.len(), 1);
    assert_eq!(due[0].watch, 7);
    assert_eq!(due[0].service.name, "SENSOR/X");
    assert_eq!(due[0].service.address, "h:2");

    let due = registry.register_service(info("OTHER/Y", "h:3", 1000), 1000, 30).unwrap();
    assert!(due.is_empty());
}

#[test]
fn watches_are_notified_in_their_order() {
    let mut registry = Registry::new();
    registry.open_watch(1, "A/*", 0).unwrap();
    registry.open_watch(2, "B/*", 0).unwrap();
    registry.open_watch(3, "*", 0).unwrap();
    let due = registry.register_service(info("A/1", "h:1", 1000), 1000, 0).unwrap();
    let ids: Vec<u128> = due.iter().map(|n| n.watch).collect();
    assert_eq!(ids, vec![1, 3]);
    for i in 0..5u64 {
        let due = registry.register_service(info("B/1", "h:1", 1000), 1000, i).unwrap();
        let ids: Vec<u128> = due.iter().map(|n| n.watch).collect();
        assert_eq!(ids, vec![2, 3]);
    }
}

#[test]
fn watch_ids_are_fresh() {
    let mut registry = Registry::new();
    let a = registry.watch_services("*", 0).unwrap().id;
    let b = registry.watch_services("*", 0).unwrap().id;
    assert_ne!(a, b);
    assert_eq!(registry.metrics().active_watches, 2);
}

#[test]
fn cleanup_drops_closed_watches_and_expired_entries_silently() {
    let mut registry = Registry::new();
    registry.open_watch(1, "*", 0).unwrap();
    registry.open_watch(2, "*", 0).unwrap();
    registry.open_watch(3, "*", 0).unwrap();
    registry.register_service(info("SHORT", "h:1", 100), 100, 0).unwrap();
    registry.register_service(info("LONG", "h:2", 10000), 10000, 0).unwrap();
    registry.cleanup_expired(200, &vec![2]);
    assert_eq!(registry.metrics().active_watches, 2);
    assert_eq!(registry.metrics().active_services, 1);
    assert_eq!(names(registry.list_services(200)), vec!["LONG"]);
    let due = registry.register_service(info("NEW", "h:3", 100), 100, 300).unwrap();
    let ids: Vec<u128> = due.iter().map(|n| n.watch).collect();
    assert_eq!(ids, vec![1, 3]);
    registry.remove_watch(1);
    let due = registry.register_service(info("NEW", "h:3", 100), 100, 300).unwrap();
    let ids: Vec<u128> = due.iter().map(|n| n.watch).collect();
    assert_eq!(ids, vec![3]);
    assert_eq!(registry.metrics().active_watches, 1);
}

#[test]
fn schemas_are_kept_by_id() {
    let mut registry = Registry::new();
    assert!(registry.get_schema("s1").is_none());
    registry.register_schema(Schema {
        id: "s1".to_string(),
        version: 1,
        name: "Reading".to_string(),
        description: None,
        fields: vec![("value".to_string(), WindType::I32)],
    });
    registry.register_schema(Schema {
        id: "s1".to_string(),
        version: 2,
        name: "Reading".to_string(),
        description: Some("second".to_string()),
        fields: vec![],
    });
    let found = registry.get_schema("s1").unwrap();
    assert_eq!(found.version, 2);
    assert_eq!(found.description, Some("second".to_string()));
    assert!(registry.get_schema("s2").is_none());
}

#[test]
fn server_answers_each_message() {
    let mut server = RegistryServer::new("127.0.0.1:7001".to_string());
    assert_eq!(server.bind_address, "127.0.0.1:7001");
    server.registry.open_watch(9, "TEST/*", 0).unwrap();

    let register = Message::stamped(1, 2, MessagePayload::RegisterService {
        service: "TEST/SERVICE".to_string(),
        address: "127.0.0.1:9000".to_string(),
        service_type: ServiceType::Both,
        schema_id: Some("s".to_string()),
        ttl_ms: 500,
        tags: vec!["t".to_string()],
    });
    let handled = RegistryServer::handle_message(&mut server.registry, register, 100);
    match handled.reply {
        Some(MessagePayload::ServiceRegistered { service, success, error }) => {
            assert_eq!(service, "TEST/SERVICE");
            assert!(success);
            assert!(error.is_none());
        }
        other => panic!("unexpected reply {:?}", other),
    }
    assert_eq!(handled.notifications.len(), 1);
    assert_eq!(handled.notifications[0].watch, 9);
    assert_eq!(handled.notifications[0].service.ttl_ms, 500);
    assert!(server.registry.lookup_service("TEST/SERVICE", 600).is_some());
    assert!(server.registry.lookup_service("TEST/SERVICE", 601).is_none());

    let discover = Message::stamped(3, 4, MessagePayload::DiscoverServices {
        pattern: "TEST/*".to_string(),
    });
    let handled = RegistryServer::handle_message(&mut server.registry, discover, 200);
    match handled.reply {
        Some(MessagePayload::ServicesDiscovered { services }) => {
            assert_eq!(services.len(), 1);
            assert_eq!(services[0].address, "127.0.0.1:9000");
            assert_eq!(services[0].schema_id, Some("s".to_string()));
            assert_eq!(services[0].tags, vec!["t".to_string()]);
        }
        other => panic!("unexpected reply {:?}", other),
    }
    assert!(handled.notifications.is_empty());

    let bad = Message::stamped(5, 6, MessagePayload::DiscoverServices { pattern: "[".to_string() });
    match RegistryServer::handle_message(&mut server.registry, bad, 200).reply {
        Some(MessagePayload::Error { error, context }) => {
            assert!(error.starts_with("Registry error: Invalid pattern: "));
            assert_eq!(context, Some("Discovering pattern: [".to_string()));
        }
        other => panic!("unexpected reply {:?}", other),
    }

    let ping = Message::stamped(7, 8, MessagePayload::Ping);
    assert!(matches!(
        RegistryServer::handle_message(&mut server.registry, ping, 200).reply,
        Some(MessagePayload::Pong)
    ));
    let other = Message::stamped(9, 10, MessagePayload::Heartbeat);
    assert!(RegistryServer::handle_message(&mut server.registry, other, 200).reply.is_none());
    assert_eq!(server.registry().metrics().total_registrations, 1);
}
