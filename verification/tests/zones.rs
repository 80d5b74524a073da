use robotica_backend::zones::{Zone, ZoneState};

fn zone(id: i32, name: &str, enter: bool, exit: bool) -> Zone {
    Zone { id, name: name.to_string(), announce_on_enter: enter, announce_on_exit: exit }
}

#[test]
fn zones_arrive_and_leave_with_hysteresis() {
    let mut state: ZoneState<i64> = ZoneState::empty();
    let home = zone(1, "Home", true, false);
    let shop = zone(2, "Shop", false, true);

    // The first position announces nothing.
    let u = state.process("Car", &vec![home.duplicate()], &vec![1], &vec![(home.duplicate(), -5), (shop.duplicate(), 300)], 0);
    assert!(u.messages.is_empty());
    assert_eq!(u.occupied.len(), 1);
    assert_eq!(u.occupied[0].0.id, 1);
    assert_eq!(u.occupied[0].1, -5);
    assert_eq!(u.nearby.len(), 1);
    assert_eq!(u.nearby[0].0.id, 2);

    // Outside the arrival radius but inside the exit radius: still home.
    let u = state.process("Car", &vec![], &vec![1], &vec![(home.duplicate(), 4)], 0);
    assert!(u.messages.is_empty());
    assert_eq!(u.occupied.len(), 1);
    assert_eq!(u.occupied[0].1, 4);

    // Left home and arrived at the shop.
    let u = state.process("Car", &vec![shop.duplicate()], &vec![2], &vec![(shop.duplicate(), -1)], 0);
    assert_eq!(u.messages.len(), 2);
    assert_eq!(u.messages[0].text, "Car arrived at Shop");
    assert!(!u.messages[0].to_everyone);
    assert_eq!(u.messages[1].text, "Car left Home");
    assert!(!u.messages[1].to_everyone);
    assert_eq!(u.occupied.len(), 1);
    assert_eq!(u.occupied[0].0.id, 2);
    assert_eq!(u.occupied[0].1, -1);
    assert!(u.nearby.is_empty());
}

#[test]
fn zones_sorted_by_id_and_missing_distance_is_zero() {
    let mut state: ZoneState<i64> = ZoneState::empty();
    let zs = vec![zone(9, "Nine", true, true), zone(3, "Three", true, true), zone(9, "Nine again", true, true)];
    let first = state.process("Phone", &vec![], &vec![], &vec![], 0);
    assert!(first.messages.is_empty());
    let u = state.process("Phone", &zs, &vec![9, 3], &vec![(zone(5, "Five", true, true), 50)], 0);
    assert_eq!(u.messages.len(), 2);
    assert_eq!(u.messages[0].text, "Phone arrived at Nine");
    assert!(u.messages[0].to_everyone);
    let ids: Vec<i32> = u.occupied.iter().map(|z| z.0.id).collect();
    assert_eq!(ids, vec![3, 9]);
    assert!(u.occupied.iter().all(|z| z.1 == 0));
    assert_eq!(u.nearby.len(), 1);
}

#[test]
fn zones_standing_still_is_quiet() {
    let mut state: ZoneState<i64> = ZoneState::empty();
    let home = zone(1, "Home", true, true);
    let first = state.process("Car", &vec![], &vec![], &vec![], 0);
    assert!(first.messages.is_empty());
    let u = state.process("Car", &vec![home.duplicate()], &vec![1], &vec![(home.duplicate(), -3)], 0);
    assert_eq!(u.messages.len(), 1);
    let u = state.process("Car", &vec![home.duplicate()], &vec![1], &vec![(home.duplicate(), -3)], 0);
    assert!(u.messages.is_empty());
    assert_eq!(u.occupied.len(), 1);
}

#[test]
fn zones_first_position_is_silent() {
    let mut state: ZoneState<i64> = ZoneState::empty();
    let home = zone(1, "Home", true, true);
    let u = state.process("Car", &vec![home.duplicate()], &vec![1], &vec![(home.duplicate(), -3)], 0);
    assert!(u.messages.is_empty());
    assert_eq!(u.occupied.len(), 1);
    let u = state.process("Car", &vec![], &vec![], &vec![], 0);
    assert_eq!(u.messages.len(), 1);
    assert_eq!(u.messages[0].text, "Car left Home");
}
