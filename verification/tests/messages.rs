use robotica_backend::messages::{route_message, route_topics, Command, Message, MessagePriority, MessageRoute, PresenceRequirement};
use robotica_backend::tasks::{QoS, Retain};

fn route(topic: &str, audience: &[&str], rooms: &[&str]) -> MessageRoute {
    MessageRoute {
        topic: topic.to_string(),
        audience: audience.iter().map(|s| s.to_string()).collect(),
        presence_requirements: rooms
            .iter()
            .map(|r| PresenceRequirement { presence_id: "tracker".to_string(), room: r.to_string() })
            .collect(),
    }
}

#[test]
fn messages_routes_by_audience_and_presence() {
    let routes = vec![
        route("everyone", &[], &[]),
        route("kids", &["kids"], &[]),
        route("lounge", &[], &["lounge"]),
        route("bedroom", &["everyone"], &["bedroom", "study"]),
    ];
    let rooms = vec![
        vec![],
        vec![],
        vec![Some("kitchen".to_string())],
        vec![None, Some("study".to_string())],
    ];
    let topics = route_topics(&routes, &rooms, &"everyone".to_string());
    assert_eq!(topics, vec!["everyone".to_string(), "bedroom".to_string()]);
    let topics = route_topics(&routes, &rooms, &"kids".to_string());
    assert_eq!(topics, vec!["everyone".to_string(), "kids".to_string()]);
}

#[test]
fn messages_route_sends_the_message_as_command() {
    let routes = vec![route("a", &[], &[]), route("b", &["kids"], &[]), route("c", &[], &[])];
    let rooms = vec![vec![], vec![], vec![]];
    let message = Message {
        title: "Title".to_string(),
        body: "Body".to_string(),
        priority: MessagePriority::Low,
        audience: "everyone".to_string(),
        flash_lights: false,
    };
    let sends = route_message(&routes, &rooms, &message);
    assert_eq!(sends.len(), 2);
    assert_eq!(sends[0].topic, "a");
    assert_eq!(sends[1].topic, "c");
    for s in &sends {
        assert_eq!(s.retain, Retain::NoRetain);
        assert_eq!(s.qos, QoS::ExactlyOnce);
        let Command::Message(m) = &s.command;
        assert_eq!(m.title, "Title");
        assert_eq!(m.body, "Body");
        assert_eq!(m.priority, MessagePriority::Low);
        assert_eq!(m.audience, "everyone");
        assert!(!m.flash_lights);
    }
}

#[test]
fn messages_route_with_absent_room_is_skipped() {
    let routes = vec![route("lounge", &[], &["lounge"]), route("any", &[], &[])];
    let rooms = vec![vec![None], vec![]];
    let topics = route_topics(&routes, &rooms, &"everyone".to_string());
    assert_eq!(topics, vec!["any".to_string()]);
}
