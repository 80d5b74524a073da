use robotica_backend::messages::MessagePriority;
use robotica_backend::phone::{call_plan, fallback_response, reply_or_fallback, unknown_call_plan, Action, Config, EslCommand, Response};
use robotica_backend::tasks::{QoS, Retain};

fn config() -> Config {
    Config { listen_address: "0.0.0.0:8084".to_string(), topic: "ha/event/message".to_string(), audience: "everyone".to_string() }
}

fn exec(a: &str, b: &str) -> EslCommand {
    EslCommand::Execute(a.to_string(), b.to_string())
}

fn same(a: &EslCommand, b: &EslCommand) -> bool {
    match (a, b) {
        (EslCommand::Execute(x, y), EslCommand::Execute(p, q)) => x == p && y == q,
        (EslCommand::Hangup(x), EslCommand::Hangup(p)) => x == p,
        _ => false,
    }
}

fn defaults() -> Vec<EslCommand> {
    vec![
        exec("bridge", "${group_call(home@${domain_name})}"),
        exec("answer", ""),
        exec("sleep", "1000"),
        exec("set", "skip_instructions=true"),
        exec("voicemail", "default $${domain} ${dialed_extension}"),
    ]
}

#[test]
fn phone_unknown_call_rings_home() {
    let p = unknown_call_plan();
    assert!(p.announcement.is_none());
    assert_eq!(p.commands.len(), 5);
    assert!(p.commands.iter().zip(defaults().iter()).all(|(a, b)| same(a, b)));
}

#[test]
fn phone_known_caller_allowed() {
    let r = Response { name: Some("Grandma".to_string()), action: Action::Allow };
    let p = call_plan(&config(), "0123", &r);
    let a = p.announcement.as_ref().unwrap();
    assert_eq!(a.message.body, "Call from Grandma");
    assert_eq!(a.message.title, "Home Phone");
    assert_eq!(a.message.priority, MessagePriority::Low);
    assert_eq!(a.message.audience, "everyone");
    assert!(!a.message.flash_lights);
    assert_eq!(a.topic, "ha/event/message");
    assert_eq!(a.retain, Retain::NoRetain);
    assert_eq!(a.qos, QoS::ExactlyOnce);
    assert_eq!(p.announce_after, 1);
    assert_eq!(p.commands.len(), 6);
    assert!(same(&p.commands[0], &exec("set", "effective_caller_id_name=Grandma")));
    assert!(p.commands[1..].iter().zip(defaults().iter()).all(|(a, b)| same(a, b)));
}

#[test]
fn phone_unnamed_caller_allowed_and_fallback() {
    let r = fallback_response();
    assert!(r.name.is_none());
    assert_eq!(r.action, Action::Allow);
    let p = call_plan(&config(), "0123", &r);
    assert_eq!(p.announcement.as_ref().unwrap().message.body, "Call from 0123");
    assert_eq!(p.announce_after, 0);
    assert_eq!(p.commands.len(), 5);
}

#[test]
fn phone_voicemail() {
    let r = Response { name: None, action: Action::VoiceMail };
    let p = call_plan(&config(), "0123", &r);
    assert!(p.announcement.is_none());
    assert_eq!(p.commands.len(), 2);
    assert!(same(&p.commands[0], &exec("voicemail", "default $${domain} ${dialed_extension}")));
    assert!(same(&p.commands[1], &EslCommand::Hangup("NORMAL_CLEARING".to_string())));
}

#[test]
fn phone_reply_or_fallback_lets_calls_through() {
    let r = reply_or_fallback(true, Some(Response { name: Some("Bob".to_string()), action: Action::VoiceMail }));
    assert_eq!(r.name, Some("Bob".to_string()));
    assert_eq!(r.action, Action::VoiceMail);
    let r = reply_or_fallback(false, Some(Response { name: Some("Bob".to_string()), action: Action::VoiceMail }));
    assert_eq!(r.name, None);
    assert_eq!(r.action, Action::Allow);
    let r = reply_or_fallback(true, None);
    assert_eq!(r.action, Action::Allow);
}
