use robotica_backend::robotica::{Id, PersistentStateDatabase};

#[test]
fn robotica_id_names_and_topics() {
    let id = Id::new("kitchen", "light");
    assert_eq!(id.location, "kitchen");
    assert_eq!(id.device, "light");
    assert_eq!(id.get_name("hdmi"), "kitchen_light_hdmi");
    assert_eq!(id.get_state_topic("power"), "state/kitchen/light/power");
    assert_eq!(id.get_command_topic(&[]), "command/kitchen/light");
    assert_eq!(id.get_command_topic(&["a", "b"]), "command/kitchen/light/a/b");
    assert_eq!(id.get_command_topic(&[""]), "command/kitchen/light");
    assert_eq!(id.get_command_topic(&["", ""]), "command/kitchen/light//");
}

#[test]
fn robotica_persistent_state_names() {
    let db = PersistentStateDatabase::new("/var/state".to_string());
    let row = db.for_name("tesla/token");
    assert_eq!(row.dir, "/var/state");
    assert_eq!(row.file_name, "tesla_token.json");
    let row = db.for_name("plain");
    assert_eq!(row.file_name, "plain.json");
}
