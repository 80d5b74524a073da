use robotica_backend::lifx::{after_attempt, next_retry, plan, Device, DeviceConfig, DeviceState, LifxError, LifxOp, Reported};
use robotica_backend::lights::{Colors, PowerColor};

fn device() -> Device {
    Device { target: 42, device_timeout: 1000 }
}

#[test]
fn lifx_device_state_transitions() {
    let mut s = DeviceState::Offline;
    assert_eq!(s.next_sequence(), None);
    s.set_online(device(), 100);
    assert_eq!(s, DeviceState::Online(device(), 1100, 0));
    assert_eq!(s.next_sequence(), Some(0));
    assert_eq!(s.next_sequence(), Some(1));
    s.set_online(device(), 500);
    assert_eq!(s, DeviceState::Online(device(), 1500, 2));
    s.renew_online(2000);
    assert_eq!(s, DeviceState::Online(device(), 3000, 2));
    s.set_offline();
    assert_eq!(s, DeviceState::Offline);
    s.renew_online(2000);
    assert_eq!(s, DeviceState::Offline);
}

#[test]
fn lifx_sequence_wraps() {
    let mut s = DeviceState::Online(device(), 0, 255);
    assert_eq!(s.next_sequence(), Some(255));
    assert_eq!(s, DeviceState::Online(device(), 0, 0));
}

#[test]
fn lifx_plan_refuses_offline_light() {
    let r = plan(&DeviceState::Offline, &PowerColor::On(Colors::Single(1u32)), &DeviceConfig::default(), 0);
    assert_eq!(r.err(), Some(LifxError::DeviceOffline));
}

#[test]
fn lifx_plan_power_and_colors() {
    let online = DeviceState::Online(device(), 10, 0);
    let single = DeviceConfig { multiple_zones: false };
    let zones = DeviceConfig { multiple_zones: true };
    let ops = plan(&online, &PowerColor::Off, &single, 0u32).unwrap();
    assert!(matches!(ops[..], [LifxOp::SetPower(false), LifxOp::SetColor(0)]));
    let ops = plan(&online, &PowerColor::On(Colors::Single(5u32)), &zones, 0).unwrap();
    assert!(matches!(ops[..], [LifxOp::SetPower(true), LifxOp::SetColor(5)]));
    let ops = plan(&online, &PowerColor::On(Colors::Sequence(vec![7u32, 8])), &single, 0).unwrap();
    assert!(matches!(ops[..], [LifxOp::SetPower(true), LifxOp::SetColor(7)]));
    let ops = plan(&online, &PowerColor::On(Colors::Sequence(vec![])), &single, 3u32).unwrap();
    assert!(matches!(ops[..], [LifxOp::SetPower(true), LifxOp::SetColor(3)]));
    let many: Vec<u32> = (0..100).collect();
    let ops = plan(&online, &PowerColor::On(Colors::Sequence(many)), &zones, 0).unwrap();
    match &ops[..] {
        [LifxOp::SetPower(true), LifxOp::SetZones(z)] => {
            assert_eq!(z.len(), 82);
            assert_eq!(z[81], 81);
        },
        _ => panic!("expected zones"),
    }
}

#[test]
fn lifx_retries_run_out() {
    assert_eq!(next_retry(3), Some(2));
    assert_eq!(next_retry(1), None);
    assert_eq!(next_retry(0), None);
}

#[test]
fn lifx_after_attempt_reports() {
    let mut s = DeviceState::Online(device(), 10, 4);
    assert_eq!(after_attempt(&mut s, true, 50), Reported::Online);
    assert_eq!(s, DeviceState::Online(device(), 1050, 4));
    assert_eq!(after_attempt(&mut s, false, 60), Reported::Offline);
    assert_eq!(s, DeviceState::Offline);
}
