use wind::error::WindError;
use wind::protocol::{Message, MessagePayload};
use wind::rpc::{RpcAction, RpcClient, RpcServer};
use wind::server::{StartPlan, WindServer};
use wind::subscriber::{SubscribeAction, SubscribeEvent, SubscribePhase, Subscriber};
use wind::types::{QosParams, ServiceInfo, ServiceType, SubscriptionMode};
use wind::value::WindValue;

fn service(name: &str, address: &str, service_type: ServiceType) -> ServiceInfo {
    ServiceInfo {
        name: name.to_string(),
        address: address.to_string(),
        service_type,
        schema_id: Some("schema".to_string()),
        ttl_ms: 60000,
        tags: vec![],
    }
}

fn discovered(services: Vec<ServiceInfo>) -> MessagePayload {
    MessagePayload::ServicesDiscovered { services }
}

#[test]
fn discovery_of_one_service_picks_the_exact_name() {
    let answer = discovered(vec![
        service("SENSOR/AB", "h:1", ServiceType::Publisher),
        service("SENSOR/A", "h:2", ServiceType::Publisher),
        service("SENSOR/A", "h:3", ServiceType::Publisher),
    ]);
    let chosen = Subscriber::chosen_service(answer, "SENSOR/A").unwrap();
    assert_eq!(chosen.address, "h:2");
    match Subscriber::chosen_service(discovered(vec![]), "SENSOR/A") {
        Err(WindError::ServiceNotFound(name)) => assert_eq!(name, "SENSOR/A"),
        other => panic!("unexpected {:?}", other),
    }
    let error = MessagePayload::Error { error: "bad pattern".to_string(), context: None };
    assert!(matches!(
        Subscriber::chosen_service(error, "X"),
        Err(WindError::Registry(t)) if t == "bad pattern"
    ));
    assert!(matches!(
        Subscriber::chosen_service(MessagePayload::Pong, "X"),
        Err(WindError::Protocol(t)) if t == "Unexpected response"
    ));
}

#[test]
fn discovery_by_pattern_returns_all_services() {
    assert!(matches!(
        Subscriber::discovery("SENSOR/*"),
        MessagePayload::DiscoverServices { pattern } if pattern == "SENSOR/*"
    ));
    let list = Subscriber::discovered_services(discovered(vec![
        service("A", "h:1", ServiceType::Publisher),
        service("B", "h:2", ServiceType::Both),
    ]))
    .unwrap();
    assert_eq!(list.len(), 2);
    assert_eq!(list[1].name, "B");
    assert!(matches!(
        Subscriber::discovered_services(MessagePayload::Error { error: "e".to_string(), context: None }),
        Err(WindError::Registry(t)) if t == "e"
    ));
    assert!(matches!(Subscriber::discovered_services(MessagePayload::Ping), Err(WindError::Protocol(_))));
}

#[test]
fn acknowledgement_establishes_or_fails() {
    let ok = MessagePayload::SubscribeAck {
        subscription_id: 1,
        success: true,
        error: None,
        current_value: Some(WindValue::I32(5)),
    };
    assert_eq!(Subscriber::acknowledged(ok).unwrap(), Some(WindValue::I32(5)));
    let refused = MessagePayload::SubscribeAck {
        subscription_id: 1,
        success: false,
        error: Some("no".to_string()),
        current_value: None,
    };
    assert!(matches!(Subscriber::acknowledged(refused), Err(WindError::Protocol(t)) if t == "no"));
    let silent = MessagePayload::SubscribeAck { subscription_id: 1, success: false, error: None, current_value: None };
    assert!(matches!(
        Subscriber::acknowledged(silent),
        Err(WindError::Protocol(t)) if t == "Subscription failed"
    ));
    assert!(matches!(
        Subscriber::acknowledged(MessagePayload::Pong),
        Err(WindError::Protocol(t)) if t == "Expected SubscribeAck message"
    ));
}

#[test]
fn subscription_goes_through_its_phases() {
    let qos = QosParams::default();
    let mode = SubscriptionMode::OnChange;
    let (phase, action) = Subscriber::advance(
        SubscribePhase::Discovering,
        SubscribeEvent::Message(discovered(vec![])),
        "S",
        mode,
        qos,
    );
    assert_eq!(phase, SubscribePhase::Closed);
    assert!(matches!(action, SubscribeAction::Fail(WindError::ServiceNotFound(_))));

    let (phase, action) = Subscriber::advance(
        SubscribePhase::Discovering,
        SubscribeEvent::Message(discovered(vec![service("S", "h:9", ServiceType::Publisher)])),
        "S",
        mode,
        qos,
    );
    assert_eq!(phase, SubscribePhase::AwaitingAck);
    match action {
        SubscribeAction::Connect { address, request } => {
            assert_eq!(address, "h:9");
            match request {
                MessagePayload::Subscribe { service, mode, qos, schema_id } => {
                    assert_eq!(service, "S");
                    assert_eq!(mode, SubscriptionMode::OnChange);
                    assert_eq!(qos, QosParams::default());
                    assert_eq!(schema_id, Some("schema".to_string()));
                }
                other => panic!("unexpected request {:?}", other),
            }
        }
        other => panic!("unexpected action {:?}", other),
    }
    let (phase, _) = Subscriber::advance(phase, SubscribeEvent::Message(MessagePayload::Pong), "S", mode, qos);
    assert_eq!(phase, SubscribePhase::Closed);

    let (phase, action) = Subscriber::advance(
        SubscribePhase::Streaming,
        SubscribeEvent::Message(MessagePayload::Heartbeat),
        "S",
        mode,
        qos,
    );
    assert_eq!(phase, SubscribePhase::Streaming);
    assert!(matches!(action, SubscribeAction::Continue));
    let (phase, action) = Subscriber::advance(phase, SubscribeEvent::Failed, "S", mode, qos);
    assert_eq!(phase, SubscribePhase::Closed);
    assert!(matches!(action, SubscribeAction::Close));
    let (phase, _) = Subscriber::advance(SubscribePhase::Streaming, SubscribeEvent::Cancelled, "S", mode, qos);
    assert_eq!(phase, SubscribePhase::Closed);
    let (phase, action) = Subscriber::advance(
        SubscribePhase::Closed,
        SubscribeEvent::Message(MessagePayload::Ping),
        "S",
        mode,
        qos,
    );
    assert_eq!(phase, SubscribePhase::Closed);
    assert!(matches!(action, SubscribeAction::Close));
}

#[test]
fn subscriber_counts_its_subscriptions() {
    let mut subscriber = Subscriber::new("127.0.0.1:7001".to_string());
    assert_eq!(subscriber.registry_connection.address(), "127.0.0.1:7001");
    assert_eq!(subscriber.subscription_count(), 0);
    subscriber.opened(1, "A");
    subscriber.opened(2, "B");
    subscriber.opened(1, "C");
    assert_eq!(subscriber.subscription_count(), 2);
    subscriber.closed(2);
    subscriber.closed(7);
    assert_eq!(subscriber.subscription_count(), 1);
}

#[test]
fn calculator_answers_add_and_refuses_sub() {
    let mut server = RpcServer::new("CALCULATOR".to_string(), "127.0.0.1:0".to_string(), "127.0.0.1:7001".to_string());
    server.register_method("add".to_string()).unwrap();
    server.register_method("add".to_string()).unwrap();
    assert!(server.has_method("add"));
    assert!(!server.has_method("sub"));
    assert!(matches!(
        server.registration("h:5"),
        MessagePayload::RegisterService { service_type: ServiceType::RpcServer, ttl_ms: 60000, .. }
    ));

    let params = WindValue::Mapping(vec![
        ("a".to_string(), WindValue::F64(10.0f64.to_bits())),
        ("b".to_string(), WindValue::F64(5.0f64.to_bits())),
    ]);
    let request = Message::new(RpcClient::call_request("CALCULATOR", "add", params, &None));
    let call_id = request.id;
    let response = match server.route(request) {
        RpcAction::Invoke { method, params, call_id, schema_id } => {
            assert_eq!(method, "add");
            let a = match params.get(&"a".to_string()) {
                Some(WindValue::F64(bits)) => f64::from_bits(*bits),
                other => panic!("unexpected {:?}", other),
            };
            let b = match params.get(&"b".to_string()) {
                Some(WindValue::F64(bits)) => f64::from_bits(*bits),
                other => panic!("unexpected {:?}", other),
            };
            RpcServer::respond(call_id, schema_id, Ok(WindValue::F64((a + b).to_bits())))
        }
        other => panic!("unexpected action {:?}", other),
    };
    assert_eq!(
        RpcClient::call_result(response, call_id).unwrap(),
        WindValue::F64(15.0f64.to_bits())
    );

    let request = Message::stamped(77, 0, RpcClient::call_request("CALCULATOR", "sub", WindValue::Bool(true), &None));
    match server.route(request) {
        RpcAction::Reply(reply) => {
            match &reply {
                MessagePayload::RpcResponse { call_id, result, schema_id } => {
                    assert_eq!(*call_id, 77);
                    assert_eq!(result, &Err("Method not found: sub".to_string()));
                    assert!(schema_id.is_none());
                }
                other => panic!("unexpected reply {:?}", other),
            }
            assert!(matches!(
                RpcClient::call_result(reply, 77),
                Err(WindError::Protocol(t)) if t == "Method not found: sub"
            ));
        }
        other => panic!("unexpected action {:?}", other),
    }
    assert!(matches!(
        server.route(Message::stamped(1, 0, MessagePayload::Ping)),
        RpcAction::Reply(MessagePayload::Pong)
    ));
    assert!(matches!(server.route(Message::stamped(1, 0, MessagePayload::Heartbeat)), RpcAction::Ignore));
}

#[test]
fn handler_errors_travel_as_text() {
    let failed = RpcServer::respond(3, Some("s".to_string()), Err(WindError::Schema("Missing required field: a".to_string())));
    match failed {
        MessagePayload::RpcResponse { call_id, result, schema_id } => {
            assert_eq!(call_id, 3);
            assert_eq!(result, Err("Schema error: Missing required field: a".to_string()));
            assert!(schema_id.is_none());
        }
        other => panic!("unexpected {:?}", other),
    }
    let answered = RpcServer::respond(3, Some("s".to_string()), Ok(WindValue::I32(1)));
    assert!(matches!(
        answered,
        MessagePayload::RpcResponse { schema_id: Some(s), result: Ok(WindValue::I32(1)), .. } if s == "s"
    ));
    let stray = MessagePayload::RpcResponse { call_id: 4, result: Ok(WindValue::I32(1)), schema_id: None };
    assert!(matches!(
        RpcClient::call_result(stray, 3),
        Err(WindError::Protocol(t)) if t == "Unexpected response"
    ));
    assert!(matches!(RpcClient::call_result(MessagePayload::Pong, 3), Err(WindError::Protocol(_))));
    assert!(matches!(
        RpcClient::timed_out("CALCULATOR", "add"),
        WindError::Timeout(t) if t == "CALCULATOR::add"
    ));
}

#[test]
fn calls_go_to_services_that_take_calls() {
    let answer = |t| MessagePayload::ServicesDiscovered { services: vec![service("C", "h:1", t)] };
    assert!(RpcClient::target(answer(ServiceType::RpcServer), "C").is_ok());
    assert!(RpcClient::target(answer(ServiceType::Both), "C").is_ok());
    assert!(matches!(
        RpcClient::target(answer(ServiceType::Publisher), "C"),
        Err(WindError::ServiceNotFound(n)) if n == "C"
    ));
    let client = RpcClient::new("127.0.0.1:7001".to_string());
    assert_eq!(client.subscriber.subscription_count(), 0);
}

#[test]
fn server_starts_what_it_has() {
    let bare = WindServer::new("S".to_string());
    assert!(bare.publisher().is_none());
    assert!(bare.rpc_server().is_none());
    assert!(matches!(
        bare.start_plan(),
        Err(WindError::Protocol(t)) if t == "Server must have at least publisher or RPC capability"
    ));
    let publishing = WindServer::new("S".to_string()).with_publisher("b:1".to_string(), "r:1".to_string());
    assert_eq!(publishing.start_plan().unwrap(), StartPlan::PublisherOnly);
    assert_eq!(publishing.publisher().unwrap().bind_address(), "b:1");
    let calling = WindServer::new("S".to_string()).with_rpc_server("b:2".to_string(), "r:1".to_string());
    assert_eq!(calling.start_plan().unwrap(), StartPlan::RpcOnly);
    assert_eq!(calling.rpc_server().unwrap().registry_address(), "r:1");
    let both = WindServer::new("S".to_string())
        .with_publisher("b:1".to_string(), "r:1".to_string())
        .with_rpc_server("b:2".to_string(), "r:1".to_string());
    assert_eq!(both.start_plan().unwrap(), StartPlan::Both);
}
