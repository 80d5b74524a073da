use robotica_backend::amber::{CarPlanEvent, CarPlanState, ChargeEndTime};
use robotica_backend::amber::{choose_plan, estimate_charge_time, first_rule, limits_to_try, ChargeRequest, PriceInterval};

#[test]
fn test_estimate_charge_time() {
    assert_eq!(None, estimate_charge_time(70, 70));
    assert_eq!(None, estimate_charge_time(100, 70));
    assert_eq!(Some(17100), estimate_charge_time(51, 90));
}

#[test]
fn amber_estimate_rounds_down() {
    // 1 percent: 280 * 60 / 39 = 430 (rounded down), plus five minutes.
    assert_eq!(Some(730), estimate_charge_time(69, 70));
    assert_eq!(Some(255 * 280 * 60 / 39 + 300), estimate_charge_time(0, 255));
}

#[test]
fn amber_charge_request() {
    assert!(ChargeRequest::ChargeTo(80).is_auto());
    assert!(!ChargeRequest::Manual.is_auto());
    assert_eq!(ChargeRequest::ChargeTo(80).max(ChargeRequest::ChargeTo(90)), ChargeRequest::ChargeTo(90));
    assert_eq!(ChargeRequest::ChargeTo(80).max(ChargeRequest::Manual), ChargeRequest::ChargeTo(80));
    assert_eq!(ChargeRequest::Manual.max(ChargeRequest::ChargeTo(70)), ChargeRequest::ChargeTo(70));
    assert_eq!(ChargeRequest::Manual.max(ChargeRequest::Manual), ChargeRequest::Manual);
    assert_eq!(ChargeRequest::ChargeTo(42).get_meter_value(), 42);
    assert_eq!(ChargeRequest::Manual.get_meter_value(), 0);
    assert_eq!(ChargeRequest::default_request(), ChargeRequest::ChargeTo(0));
}

#[test]
fn amber_limits_to_try() {
    assert_eq!(limits_to_try(70), vec![(90, 7680), (80, 11520), (70, 30720)]);
    assert_eq!(limits_to_try(85), vec![(90, 7680), (85, 30720)]);
    assert_eq!(limits_to_try(95), vec![(95, 30720)]);
}

#[test]
fn amber_choose_plan_first_affordable() {
    let limits = limits_to_try(70);
    assert_eq!(choose_plan(&limits, &vec![Some(8000), Some(11000), Some(100)]), Some(1));
    assert_eq!(choose_plan(&limits, &vec![None, None, Some(30719)]), Some(2));
    assert_eq!(choose_plan(&limits, &vec![Some(7680), Some(11520), Some(30720)]), None);
    assert_eq!(choose_plan(&limits, &vec![Some(1), Some(1), Some(1)]), Some(0));
}

#[test]
fn amber_first_rule_skips_errors() {
    assert_eq!(first_rule(&vec![Some(false), None, Some(true), Some(true)]), Some(2));
    assert_eq!(first_rule(&vec![None, Some(false)]), None);
    assert_eq!(first_rule(&vec![]), None);
}

#[test]
fn test_is_current() {
    // 2020-01-01T00:00:00Z and 2019-01-01T23:59:59Z in seconds since the epoch.
    let now: i64 = 1_577_836_800;
    let before: i64 = 1_546_387_199;
    let p = PriceInterval { start_time: now, end_time: now + 1800 };
    assert_eq!(p.is_current(now), true);
    let p = PriceInterval { start_time: now, end_time: now };
    assert_eq!(p.is_current(now), false);
    let p = PriceInterval { start_time: now, end_time: now + 1 };
    assert_eq!(p.is_current(now), true);
    let p = PriceInterval { start_time: before, end_time: now };
    assert_eq!(p.is_current(now), false);
    let p = PriceInterval { start_time: before, end_time: now + 1 };
    assert_eq!(p.is_current(now), true);
}

#[test]
fn amber_plan_state_transitions() {
    let mut s: CarPlanState<u32, Vec<u8>> = CarPlanState::new(vec![], 1000);
    assert_eq!(s.min_charge_tomorrow, 70);
    assert_eq!(s.charge_end_time, ChargeEndTime { min_charge: 70, end_time: 1000 });
    s.charge_plan = Some(5);
    assert!(s.apply(CarPlanEvent::MinChargeTomorrow(80)));
    assert_eq!(s.min_charge_tomorrow, 80);
    assert!(s.apply(CarPlanEvent::SetChargeEndTime(ChargeEndTime { min_charge: 95, end_time: 500 })));
    assert_eq!(s.charge_end_time, ChargeEndTime { min_charge: 95, end_time: 500 });
    assert!(!s.apply(CarPlanEvent::PlanEnded));
    assert_eq!(s.charge_plan, None);
    assert!(s.apply(CarPlanEvent::OverrideExpired(2000)));
    assert_eq!(s.charge_end_time, ChargeEndTime { min_charge: 80, end_time: 2000 });
    assert!(s.apply(CarPlanEvent::Rules(vec![1])));
    assert_eq!(s.rules, vec![1]);
}
