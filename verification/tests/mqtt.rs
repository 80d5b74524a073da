use robotica_backend::mqtt::{client_settings, Config, Credentials, SubscribePlan, Subscriptions};

#[test]
fn mqtt_settings_with_password_over_tls() {
    let config = Config {
        host: "broker".to_string(),
        port: 8883,
        credentials: Credentials::UsernamePassword { username: "u".to_string(), password: "p".to_string() },
    };
    let s = client_settings(config, "kitchen");
    assert_eq!(s.client_id, "robotica-rust-kitchen");
    assert_eq!(s.host, "broker");
    assert_eq!(s.port, 8883);
    assert!(s.tls);
    assert_eq!(s.keep_alive_secs, 30);
    assert_eq!(s.max_packet_size, 100 * 10 * 1024);
    assert_eq!(s.credentials, Some(("u".to_string(), "p".to_string())));
}

#[test]
fn mqtt_settings_anonymous_plain() {
    let config = Config { host: "test".to_string(), port: 1234, credentials: Credentials::Anonymous };
    let s = client_settings(config, "unknown");
    assert_eq!(s.client_id, "robotica-rust-unknown");
    assert!(!s.tls);
    assert_eq!(s.credentials, None);
}

#[test]
fn mqtt_subscriptions_register_and_drop() {
    let mut subs = Subscriptions::new();
    assert!(!subs.contains("a/b"));
    assert!(subs.subscribe("a/b", false));
    assert!(subs.contains("a/b"));
    assert!(!subs.subscribe("a/b", true));
    assert!(subs.subscribe("a/b", false));
    assert_eq!(subs.topics(), vec!["a/b".to_string()]);
    assert!(subs.subscribe("c", true));
    assert_eq!(subs.topics().len(), 2);
    assert!(subs.unsubscribe("a/b"));
    assert!(!subs.unsubscribe("a/b"));
    assert!(!subs.contains("a/b"));
    assert_eq!(subs.topics(), vec!["c".to_string()]);
}

#[test]
fn mqtt_subscribe_requests() {
    let mut subs = Subscriptions::new();
    assert_eq!(subs.plan_subscribe("t", true), SubscribePlan::SubscribeBroker);
    subs.subscribe_result("t", true);
    assert_eq!(subs.plan_subscribe("t", true), SubscribePlan::Reuse);
    assert_eq!(subs.plan_subscribe("t", false), SubscribePlan::SubscribeBroker);
    subs.subscribe_result("t", false);
    assert!(!subs.contains("t"));
    assert!(subs.topics().is_empty());
}
