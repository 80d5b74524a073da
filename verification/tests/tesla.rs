use robotica_backend::amber::ChargeRequest;
use robotica_backend::tesla::{
    charging_command, check_charge, command_sequence, generic_response_result, parse_u64, retry_after,
    set_charge_limit_result, should_charge, update_auto_charge, wake_up_result, ApiError, CallError,
    ChargingStateEnum, ChargingStateError, Command, CommandSequence, DevicePower, GenericResponse, Notification,
    Processor, SendOutcome, SequenceError, ShouldCharge, TeslaCommand, TeslaState, TryCommand, WakeUpResponse,
    WakeupError, send_outcome,
};
use robotica_backend::tesla::{after_request, Config, MakeConfig, SequenceStep, VehicleId};

fn state(limit: u8, level: u8, cs: ChargingStateEnum, home: bool) -> TeslaState {
    TeslaState { charge_limit: limit, battery_level: level, charging_state: cs, is_at_home: home }
}

#[test]
fn tesla_charging_state() {
    assert!(ChargingStateEnum::Charging.is_charging());
    assert!(ChargingStateEnum::Starting.is_charging());
    assert!(!ChargingStateEnum::Complete.is_charging());
    assert!(ChargingStateEnum::NoPower.is_plugged_in());
    assert!(!ChargingStateEnum::Disconnected.is_plugged_in());
    assert_eq!(ChargingStateEnum::from_payload("Charging"), Ok(ChargingStateEnum::Charging));
    assert_eq!(ChargingStateEnum::from_payload("NoPower"), Ok(ChargingStateEnum::NoPower));
    assert_eq!(
        ChargingStateEnum::from_payload("Sleeping"),
        Err(ChargingStateError::InvalidChargingState("Sleeping".to_string()))
    );
}

#[test]
fn tesla_generic_responses() {
    let ok = GenericResponse { reason: String::new(), result: true };
    assert_eq!(generic_response_result(&ok), Ok(()));
    let no_reason = GenericResponse { reason: String::new(), result: false };
    assert_eq!(generic_response_result(&no_reason), Err(ApiError::Failed("no reason".to_string())));
    let reason = GenericResponse { reason: "asleep".to_string(), result: false };
    assert_eq!(generic_response_result(&reason), Err(ApiError::Failed("asleep".to_string())));
    let already = GenericResponse { reason: "already_set".to_string(), result: false };
    assert_eq!(set_charge_limit_result(&already), Ok(()));
    assert_eq!(generic_response_result(&already), Err(ApiError::Failed("already_set".to_string())));
}

#[test]
fn tesla_wake_up() {
    assert_eq!(wake_up_result(Ok(WakeUpResponse { state: "online".to_string() })), Ok(()));
    assert_eq!(wake_up_result(Ok(WakeUpResponse { state: "asleep".to_string() })), Err(WakeupError::WaitRetry(5)));
    assert_eq!(wake_up_result(Err(CallError::Reqwest("x".to_string()))), Err(WakeupError::WaitRetry(5)));
    assert_eq!(wake_up_result(Err(CallError::RateLimit(33))), Err(WakeupError::WaitRetry(33)));
    assert_eq!(wake_up_result(Err(CallError::Json("x".to_string()))), Err(WakeupError::WaitRetry(60)));
}

#[test]
fn tesla_errors_convert() {
    assert_eq!(ApiError::from_call(CallError::RateLimit(7)), ApiError::RateLimit(7));
    assert_eq!(SequenceError::from_api(ApiError::RateLimit(7)), SequenceError::WaitRetry(7));
    assert_eq!(SequenceError::from_api(ApiError::Failed("f".to_string())), SequenceError::Failed("f".to_string()));
    assert_eq!(SequenceError::from_wakeup(WakeupError::WaitRetry(5)), SequenceError::WaitRetry(5));
}

#[test]
fn tesla_retry_after() {
    assert_eq!(parse_u64("120"), Some(120));
    assert_eq!(parse_u64("+7"), Some(7));
    assert_eq!(parse_u64(""), None);
    assert_eq!(parse_u64("+"), None);
    assert_eq!(parse_u64("12a"), None);
    assert_eq!(parse_u64("18446744073709551615"), Some(u64::MAX));
    assert_eq!(parse_u64("18446744073709551616"), None);
    assert_eq!(retry_after(200, Some("5")), None);
    assert_eq!(retry_after(429, Some("5")), Some(5));
    assert_eq!(retry_after(429, Some("soon")), Some(60));
    assert_eq!(retry_after(429, None), Some(60));
}

#[test]
fn tesla_command_sequences() {
    let mut s = CommandSequence::new();
    assert!(s.is_empty());
    s.add_wake_up();
    assert!(s.is_empty());
    assert_eq!(s.to_send(), vec![]);
    s.add_set_chart_limit(80);
    s.add_charge_start();
    assert!(!s.is_empty());
    assert_eq!(
        s.to_send(),
        vec![TeslaCommand::WakeUp, TeslaCommand::SetChargeLimit(80), TeslaCommand::ChargeStart]
    );
    let c = Command::new().set_charge_limit(70).set_should_charge(false);
    assert_eq!(
        command_sequence(&c).to_send(),
        vec![TeslaCommand::WakeUp, TeslaCommand::SetChargeLimit(70), TeslaCommand::ChargeStop]
    );
    assert!(command_sequence(&Command::new()).to_send().is_empty());
    assert!(Command::new().is_nil());
    assert!(!Command::new().set_should_charge(true).is_nil());
}

#[test]
fn tesla_should_charge() {
    let st = state(80, 50, ChargingStateEnum::Stopped, true);
    assert_eq!(should_charge(ChargeRequest::ChargeTo(95), &st), (ShouldCharge::DoCharge, 90));
    assert_eq!(should_charge(ChargeRequest::ChargeTo(40), &st), (ShouldCharge::DoNotCharge, 50));
    assert_eq!(should_charge(ChargeRequest::Manual, &st), (ShouldCharge::DontTouch, 80));
}

#[test]
fn tesla_check_charge() {
    let st = state(80, 50, ChargingStateEnum::Stopped, true);
    assert_eq!(check_charge(&st, ChargeRequest::ChargeTo(90)), Command { charge_limit: Some(90), should_charge: Some(true) });
    let st = state(90, 95, ChargingStateEnum::Charging, true);
    assert_eq!(check_charge(&st, ChargeRequest::ChargeTo(90)), Command { charge_limit: None, should_charge: Some(false) });
    let st = state(90, 50, ChargingStateEnum::Complete, true);
    assert_eq!(check_charge(&st, ChargeRequest::ChargeTo(90)), Command { charge_limit: None, should_charge: None });
    let st = state(90, 50, ChargingStateEnum::Disconnected, true);
    assert_eq!(check_charge(&st, ChargeRequest::ChargeTo(70)), Command { charge_limit: Some(70), should_charge: None });
    assert!(check_charge(&st, ChargeRequest::Manual).is_nil());
}

#[test]
fn tesla_charging_command_and_power() {
    let away = state(80, 50, ChargingStateEnum::Disconnected, false);
    assert_eq!(charging_command(true, &away, true, ChargeRequest::ChargeTo(80)), Command::new().set_charge_limit(90));
    assert!(charging_command(false, &away, true, ChargeRequest::ChargeTo(80)).is_nil());
    let home = state(80, 50, ChargingStateEnum::Stopped, true);
    assert_eq!(charging_command(false, &home, true, ChargeRequest::ChargeTo(80)), Command::new().set_should_charge(true));
    assert!(charging_command(false, &home, false, ChargeRequest::ChargeTo(80)).is_nil());
    assert_eq!(update_auto_charge(false, &home), DevicePower::Off);
    assert_eq!(update_auto_charge(true, &home), DevicePower::AutoOff);
    let charging = state(80, 50, ChargingStateEnum::Charging, true);
    assert_eq!(update_auto_charge(true, &charging), DevicePower::On);
}

#[test]
fn tesla_processor_retries_and_notifies() {
    let mut p = Processor::new(0);
    let cmd = Command::new().set_charge_limit(80);
    p.on_command(cmd, 10);
    assert_eq!(p.pending, Some(TryCommand { command: cmd, next_try: 10 }));
    assert_eq!(p.take_due(5), None);
    let tried = p.take_due(10).unwrap();
    assert_eq!(p.pending, None);
    assert_eq!(p.after_send(tried, SendOutcome::WaitRetry(30), 10), None);
    assert_eq!(p.pending, Some(TryCommand { command: cmd, next_try: 40 }));
    let tried = p.take_due(40).unwrap();
    assert_eq!(p.after_send(tried, SendOutcome::Failed, 2000), Some(Notification::NotTalking));
    assert_eq!(p.pending, Some(TryCommand { command: cmd, next_try: 2060 }));
    assert!(p.errors.notified);
    let tried = p.take_due(2060).unwrap();
    assert_eq!(p.after_send(tried, SendOutcome::Success, 2100), Some(Notification::TalkingAgain));
    assert_eq!(p.pending, Some(TryCommand { command: Command::new(), next_try: 2400 }));
    assert_eq!(p.errors.last_success, 2100);
    assert!(!p.errors.notified);
}

#[test]
fn tesla_processor_nil_commands() {
    let mut p = Processor::new(0);
    p.on_command(Command::new(), 50);
    assert_eq!(p.pending, None);
    assert_eq!(p.errors.last_success, 50);
    let cmd = Command::new().set_should_charge(true);
    p.on_command(cmd, 60);
    let tried = p.take_due(60).unwrap();
    assert_eq!(p.after_send(tried, SendOutcome::Success, 70), None);
    p.on_command(Command::new(), 80);
    assert_eq!(p.pending, Some(TryCommand { command: Command::new(), next_try: 370 }));
    assert_eq!(send_outcome(&Ok(())), SendOutcome::Success);
    assert_eq!(send_outcome(&Err(SequenceError::WaitRetry(9))), SendOutcome::WaitRetry(9));
    assert_eq!(send_outcome(&Err(SequenceError::Json("x".to_string()))), SendOutcome::Failed);
}

#[test]
fn tesla_make_config_holds_id() {
    let make = MakeConfig::Tesla(Config { tesla_id: VehicleId(7) });
    assert_eq!(make, MakeConfig::Tesla(Config { tesla_id: VehicleId(7) }));
    assert_ne!(make, MakeConfig::Unknown);
}

#[test]
fn tesla_sequence_runs_until_first_failure() {
    assert_eq!(after_request(0, 3, Ok(())), SequenceStep::Next(1));
    assert_eq!(after_request(2, 3, Ok(())), SequenceStep::Finished);
    assert_eq!(
        after_request(1, 3, Err(SequenceError::Failed("asleep".to_string()))),
        SequenceStep::Failed(SequenceError::Failed("asleep".to_string()))
    );
}

#[test]
fn tesla_debug_mode_runs_nothing() {
    let mut s = CommandSequence::new();
    s.add_wake_up();
    s.add_charge_start();
    assert!(s.to_run(true).is_empty());
    assert_eq!(s.to_run(false), vec![TeslaCommand::WakeUp, TeslaCommand::ChargeStart]);
}
