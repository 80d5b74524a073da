use robotica_backend::entities::{should_stop, GenericState, Started, StatefulState};

#[test]
fn test_stateful_entity() {
    let mut state: StatefulState<String> = StatefulState::new();
    let sent = state.set("hello".to_string());
    assert_eq!(sent, Some((None, "hello".to_string())));

    let sent = state.set("goodbye".to_string());
    let (prev, current) = sent.unwrap();
    assert_eq!("hello", prev.unwrap());
    assert_eq!("goodbye", current);

    let (prev, current) = state.get().unwrap();
    assert_eq!("hello", prev.unwrap());
    assert_eq!("goodbye", current);

    let sent = state.set("goodbye".to_string());
    assert!(sent.is_none());

    let (prev, current) = state.get().unwrap();
    assert_eq!("hello", prev.unwrap());
    assert_eq!("goodbye", current);
}

#[test]
fn entities_empty_state_has_no_value() {
    let state: StatefulState<u8> = StatefulState::new();
    assert_eq!(state.get(), None);
}

#[test]
fn entities_read_after_write() {
    let mut state: StatefulState<u8> = StatefulState::new();
    state.set(3);
    assert_eq!(state.get(), Some((None, 3)));
    state.set(4);
    state.set(5);
    assert_eq!(state.get(), Some((Some(4), 5)));
}

#[test]
fn entities_should_stop() {
    assert!(should_stop(true, 0));
    assert!(!should_stop(true, 1));
    assert!(!should_stop(false, 0));
}

#[test]
fn entities_generic_state_and_start_up() {
    let mut g: GenericState<String> = GenericState::new();
    assert_eq!(g.initial(), None);
    assert_eq!(g.set("a".to_string()), "a");
    assert_eq!(g.set("a".to_string()), "a");
    assert_eq!(g.initial(), Some("a".to_string()));
    let mut s = Started::new(true);
    assert!(!s.can_pass());
    s.notify();
    assert!(s.can_pass());
    assert!(Started::new(false).can_pass());
}
