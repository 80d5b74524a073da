use robotica_backend::tasks::{MqttMessage, QoS, Retain};
use robotica_backend::websocket::{check_topic_send_allowed, check_topic_subscribe_allowed, WsAction, WsCommand, WsSession};

fn msg(topic: &str) -> MqttMessage {
    MqttMessage { topic: topic.to_string(), payload: "on".to_string(), retain: Retain::NoRetain, qos: QoS::ExactlyOnce }
}

#[test]
fn websocket_permissions() {
    assert!(check_topic_subscribe_allowed("state/lounge/light/power"));
    assert!(check_topic_subscribe_allowed("schedule/host/all"));
    assert!(!check_topic_subscribe_allowed("command/lounge/light"));
    assert!(check_topic_send_allowed("command/lounge/light"));
    assert!(check_topic_send_allowed("zwave/5/set"));
    assert!(!check_topic_send_allowed("state/lounge/light"));
}

#[test]
fn websocket_session() {
    let mut s = WsSession::new();
    let t = "state/a".to_string();
    assert!(matches!(s.handle(WsCommand::Subscribe(t.clone())), WsAction::Subscribe(ref u) if *u == t));
    assert!(matches!(s.handle(WsCommand::Subscribe("command/a".to_string())), WsAction::Ignore));
    s.subscribed(&t);
    assert!(s.follows(&t));
    assert!(matches!(s.handle(WsCommand::Subscribe(t.clone())), WsAction::Ignore));
    assert!(matches!(s.handle(WsCommand::Unsubscribe(t.clone())), WsAction::Unsubscribe(ref u) if *u == t));
    s.unsubscribed(&t);
    assert!(!s.follows(&t));
    assert!(matches!(s.handle(WsCommand::Unsubscribe(t.clone())), WsAction::Ignore));
    assert!(matches!(s.handle(WsCommand::Send(msg("command/x"))), WsAction::Send(ref m) if m.topic == "command/x"));
    assert!(matches!(s.handle(WsCommand::Send(msg("state/x"))), WsAction::Ignore));
    assert!(matches!(s.handle(WsCommand::KeepAlive), WsAction::Ignore));
}
