use wind::subscription::ClientSubscription;
use wind::types::SubscriptionMode;
use wind::value::WindValue;

fn offer(sub: &mut ClientSubscription, now: u64, value: &WindValue) -> bool {
    if sub.should_send(now, value) {
        sub.mark_sent(now, value);
        true
    } else {
        false
    }
}

#[test]
fn on_change_drops_repeats() {
    let v1 = WindValue::I32(1);
    let v2 = WindValue::String("two".to_string());
    let v3 = WindValue::Mapping(vec![("k".to_string(), WindValue::Bool(true))]);
    let mut sub = ClientSubscription::new(SubscriptionMode::OnChange);
    let mut delivered = Vec::new();
    for (t, v) in [(0u64, &v1), (1, &v1), (2, &v2), (3, &v2), (4, &v3)] {
        if offer(&mut sub, t, v) {
            delivered.push(v.clone());
        }
    }
    assert_eq!(delivered, vec![v1.clone(), v2, v3]);
    assert!(offer(&mut sub, 5, &v1));
}

#[test]
fn on_change_compares_values_not_representations() {
    let a = WindValue::Mapping(vec![
        ("x".to_string(), WindValue::I32(1)),
        ("y".to_string(), WindValue::I32(2)),
    ]);
    let b = WindValue::Mapping(vec![
        ("y".to_string(), WindValue::I32(2)),
        ("x".to_string(), WindValue::I32(1)),
    ]);
    let mut sub = ClientSubscription::new(SubscriptionMode::OnChange);
    assert!(offer(&mut sub, 0, &a));
    assert!(!offer(&mut sub, 1, &b));
}

#[test]
fn periodic_deliveries_are_an_interval_apart() {
    let mut sub = ClientSubscription::new(SubscriptionMode::Periodic { interval_ms: 100 });
    let v = WindValue::I32(0);
    let mut times = Vec::new();
    let mut t = 0u64;
    while t <= 400 {
        if offer(&mut sub, t, &v) {
            times.push(t);
        }
        t += 10;
    }
    assert_eq!(times, vec![0, 100, 200, 300, 400]);
    assert!(!offer(&mut sub, 499, &v));
    assert!(!offer(&mut sub, 50, &v));
    assert!(offer(&mut sub, 500, &v));
}

#[test]
fn once_delivers_the_first_value_only() {
    let mut sub = ClientSubscription::new(SubscriptionMode::Once);
    assert!(offer(&mut sub, 5, &WindValue::I32(1)));
    assert!(!offer(&mut sub, 6, &WindValue::I32(2)));
    assert!(!offer(&mut sub, 1000, &WindValue::I32(1)));
    assert_eq!(sub.last_sent_at, Some(5));
    assert_eq!(sub.last_sent_value, Some(WindValue::I32(1)));
}
