//! Charging requests driven by electricity prices: what a request asks for,
//! how two requests combine, and how long charging takes.
use vstd::prelude::*;

verus! {

/// What the car should do about charging.
#[derive(Clone, Copy, Debug, PartialEq, Eq, Structural)]
pub enum ChargeRequest {
    /// Charge up to this battery level, in percent.
    ChargeTo(u8),
    /// Leave charging to the user.
    Manual,
}

impl ChargeRequest {
    /// Does the request come from the automatic rules?
    pub fn is_auto(self) -> (b: bool)
        ensures
            b == (self is ChargeTo),
    {
        match self {
            ChargeRequest::ChargeTo(_) => true,
            ChargeRequest::Manual => false,
        }
    }

    /// The request asking for the most charge: the higher limit of two
    /// `ChargeTo`, a `ChargeTo` over `Manual`.
    pub fn max(self, other: ChargeRequest) -> (r: ChargeRequest)
        ensures
            r == spec_max(self, other),
    {
        match (self, other) {
            (ChargeRequest::ChargeTo(a), ChargeRequest::ChargeTo(b)) => ChargeRequest::ChargeTo(if a >= b { a } else { b }),
            (ChargeRequest::ChargeTo(a), ChargeRequest::Manual) => ChargeRequest::ChargeTo(a),
            (ChargeRequest::Manual, ChargeRequest::ChargeTo(b)) => ChargeRequest::ChargeTo(b),
            (ChargeRequest::Manual, ChargeRequest::Manual) => ChargeRequest::Manual,
        }
    }

    /// The value recorded for the request: its limit, or 0 for `Manual`.
    pub fn get_meter_value(&self) -> (v: u64)
        ensures
            v == match *self { ChargeRequest::ChargeTo(l) => l as u64, ChargeRequest::Manual => 0u64 },
    {
        match self {
            ChargeRequest::ChargeTo(limit) => *limit as u64,
            ChargeRequest::Manual => 0,
        }
    }

    /// The default request: charge to 0, that is, do not charge.
    pub fn default_request() -> (r: ChargeRequest)
        ensures
            r == ChargeRequest::ChargeTo(0),
    {
        ChargeRequest::ChargeTo(0)
    }
}

/// The request asking for the most charge.
pub open spec fn spec_max(a: ChargeRequest, b: ChargeRequest) -> ChargeRequest {
    match (a, b) {
        (ChargeRequest::ChargeTo(x), ChargeRequest::ChargeTo(y)) => ChargeRequest::ChargeTo(if x >= y { x } else { y }),
        (ChargeRequest::ChargeTo(x), ChargeRequest::Manual) => ChargeRequest::ChargeTo(x),
        (ChargeRequest::Manual, ChargeRequest::ChargeTo(y)) => ChargeRequest::ChargeTo(y),
        (ChargeRequest::Manual, ChargeRequest::Manual) => ChargeRequest::Manual,
    }
}

/// Law: combining requests does not depend on their order, and combining
/// three does not depend on the grouping.
pub proof fn law_max_commutative_associative(a: ChargeRequest, b: ChargeRequest, c: ChargeRequest)
    ensures
        spec_max(a, b) == spec_max(b, a),
        spec_max(spec_max(a, b), c) == spec_max(a, spec_max(b, c)),
        spec_max(a, a) == a,
{
}

/// Seconds to charge from `battery_level` to `limit` percent: 280 minutes per
/// 39 percent, plus five minutes for the car to wake up; `None` when the
/// battery is already at or above the limit.
pub open spec fn spec_estimate_charge_time(battery_level: u8, limit: u8) -> Option<i64> {
    let diff = limit as int - battery_level as int;
    if diff <= 0 {
        None
    } else {
        Some((diff * 280 * 60 / 39 + 300) as i64)
    }
}

/// Estimate the time to charge: see `spec_estimate_charge_time`.
pub fn estimate_charge_time(battery_level: u8, min_charge_tomorrow: u8) -> (t: Option<i64>)
    ensures
        t == spec_estimate_charge_time(battery_level, min_charge_tomorrow),
{
    let min_charge_tomorrow = min_charge_tomorrow as i64;
    let battery_level = battery_level as i64;
    let diff = min_charge_tomorrow - battery_level;
    if diff <= 0 {
        None
    } else {
        assert(diff * 280 * 60 <= 255 * 280 * 60) by (nonlinear_arith)
            requires diff <= 255;
        let charge_time = diff * 280 * 60 / 39;
        Some(charge_time + 300)
    }
}

/// The limits worth planning for, tried in order, each with the most a plan
/// to it may cost per hour in hundredths of a cent (the charger draws 7.68 kW):
/// 90 percent at 10 cents per kWh and 80 percent at 15 cents per kWh when the
/// minimum charge is below them, then the minimum charge itself at 40 cents
/// per kWh.
pub open spec fn spec_limits_to_try(min_charge: u8) -> Seq<(u8, u64)> {
    let a: Seq<(u8, u64)> = if min_charge < 90 { seq![(90u8, 7680u64)] } else { Seq::empty() };
    let b: Seq<(u8, u64)> = if min_charge < 80 { seq![(80u8, 11520u64)] } else { Seq::empty() };
    a + b + seq![(min_charge, 30720u64)]
}

/// The limits worth planning for, with their costs: see `spec_limits_to_try`.
pub fn limits_to_try(min_charge: u8) -> (limits: Vec<(u8, u64)>)
    ensures
        limits@ == spec_limits_to_try(min_charge),
{
    let mut limits: Vec<(u8, u64)> = Vec::new();
    if min_charge < 90 {
        limits.push((90, 7680));
    }
    if min_charge < 80 {
        limits.push((80, 11520));
    }
    limits.push((min_charge, 30720));
    assert(limits@ =~= spec_limits_to_try(min_charge));
    limits
}

/// Is the `i`-th plan proposed: was a plan found, and does it cost less per
/// hour than its limit allows?
pub open spec fn plan_affordable(limits: Seq<(u8, u64)>, costs: Seq<Option<u64>>, i: int) -> bool {
    costs[i] matches Some(c) && c < limits[i].1
}

/// Choose among the cheapest plans found for each limit (`costs[i]` is the
/// average cost per hour of the plan to `limits[i]`, `None` when there is
/// none): the first that is affordable, by its index; `None` when no plan is.
pub fn choose_plan(limits: &Vec<(u8, u64)>, costs: &Vec<Option<u64>>) -> (r: Option<usize>)
    requires
        costs@.len() == limits@.len(),
    ensures
        match r {
            Some(i) => i < limits@.len() && plan_affordable(limits@, costs@, i as int)
                && forall|j: int| 0 <= j < i ==> !#[trigger] plan_affordable(limits@, costs@, j),
            None => forall|j: int| 0 <= j < limits@.len() ==> !#[trigger] plan_affordable(limits@, costs@, j),
        },
{
    let mut i: usize = 0;
    while i < limits.len()
        invariant
            i <= limits@.len(),
            costs@.len() == limits@.len(),
            forall|j: int| 0 <= j < i ==> !#[trigger] plan_affordable(limits@, costs@, j),
        decreases limits@.len() - i,
    {
        if let Some(c) = costs[i] {
            if c < limits[i].1 {
                return Some(i);
            }
        }
        i = i + 1;
    }
    None
}

/// Choose the rule that applies: the first whose condition held. A condition
/// that could not be evaluated (`None`) counts as not holding.
pub fn first_rule(outcomes: &Vec<Option<bool>>) -> (r: Option<usize>)
    ensures
        match r {
            Some(i) => i < outcomes@.len() && outcomes@[i as int] == Some(true)
                && forall|j: int| 0 <= j < i ==> #[trigger] outcomes@[j] != Some(true),
            None => forall|j: int| 0 <= j < outcomes@.len() ==> #[trigger] outcomes@[j] != Some(true),
        },
{
    let mut i: usize = 0;
    while i < outcomes.len()
        invariant
            i <= outcomes@.len(),
            forall|j: int| 0 <= j < i ==> #[trigger] outcomes@[j] != Some(true),
        decreases outcomes@.len() - i,
    {
        if let Some(true) = outcomes[i] {
            return Some(i);
        }
        i = i + 1;
    }
    None
}

/// The period a price holds for, in seconds since the Unix epoch: from its
/// start, up to but not including its end.
#[derive(Clone, Copy, Debug, PartialEq, Eq, Structural)]
pub struct PriceInterval {
    /// When the price starts to hold.
    pub start_time: i64,
    /// When it stops holding.
    pub end_time: i64,
}

impl PriceInterval {
    /// Does the price hold at `now`?
    pub fn is_current(&self, now: i64) -> (b: bool)
        ensures
            b == (self.start_time <= now && now < self.end_time),
    {
        self.start_time <= now && now < self.end_time
    }
}

/// Charge to a minimum by a time: an override of the daily default.
#[derive(Clone, Copy, Debug, PartialEq, Eq, Structural)]
pub struct ChargeEndTime {
    /// The battery level to reach, in percent.
    pub min_charge: u8,
    /// When to reach it, in seconds since the Unix epoch.
    pub end_time: i64,
}

/// What the car's charge planner keeps between runs: the minimum charge for
/// tomorrow, the plan being followed (if any), the rules, and the charge end
/// time.
#[derive(Debug)]
pub struct CarPlanState<P, R> {
    /// The battery level wanted by tomorrow morning, in percent.
    pub min_charge_tomorrow: u8,
    /// The plan being followed, if any.
    pub charge_plan: Option<P>,
    /// The rules.
    pub rules: R,
    /// The charge end time in force.
    pub charge_end_time: ChargeEndTime,
}

/// Something that happens to the charge planner, other than new prices,
/// battery levels or charging states.
#[derive(Debug)]
pub enum CarPlanEvent<R> {
    /// The minimum charge for tomorrow was set.
    MinChargeTomorrow(u8),
    /// A charge end time was set.
    SetChargeEndTime(ChargeEndTime),
    /// New rules were set.
    Rules(R),
    /// The plan being followed has ended.
    PlanEnded,
    /// The charge end time has passed; the argument is the default end time
    /// of the next day.
    OverrideExpired(i64),
}

impl<P, R> CarPlanState<P, R> {
    /// The state at first: 70 percent by tomorrow, no plan, the given rules,
    /// and the default end time `end_time` at that charge.
    pub fn new(rules: R, end_time: i64) -> (s: CarPlanState<P, R>)
        ensures
            s.min_charge_tomorrow == 70,
            s.charge_plan is None,
            s.rules == rules,
            s.charge_end_time == (ChargeEndTime { min_charge: 70, end_time }),
    {
        CarPlanState {
            min_charge_tomorrow: 70,
            charge_plan: None,
            rules,
            charge_end_time: ChargeEndTime { min_charge: 70, end_time },
        }
    }

    /// Take in an event; returns whether the state is to be saved. Settings
    /// replace what they set; the end of the plan drops it; an expired end
    /// time gives way to the default one, at tomorrow's minimum charge.
    pub fn apply(&mut self, event: CarPlanEvent<R>) -> (save: bool)
        ensures
            match event {
                CarPlanEvent::MinChargeTomorrow(m) => save && *final(self) == (CarPlanState { min_charge_tomorrow: m, ..*old(self) }),
                CarPlanEvent::SetChargeEndTime(t) => save && *final(self) == (CarPlanState { charge_end_time: t, ..*old(self) }),
                CarPlanEvent::Rules(r) => save && *final(self) == (CarPlanState { rules: r, ..*old(self) }),
                CarPlanEvent::PlanEnded => !save && *final(self) == (CarPlanState { charge_plan: None, ..*old(self) }),
                CarPlanEvent::OverrideExpired(e) => save && *final(self) == (CarPlanState {
                    charge_end_time: ChargeEndTime { min_charge: old(self).min_charge_tomorrow, end_time: e },
                    ..*old(self)
                }),
            },
    {
        match event {
            CarPlanEvent::MinChargeTomorrow(m) => {
                self.min_charge_tomorrow = m;
                true
            },
            CarPlanEvent::SetChargeEndTime(t) => {
                self.charge_end_time = t;
                true
            },
            CarPlanEvent::Rules(r) => {
                self.rules = r;
                true
            },
            CarPlanEvent::PlanEnded => {
                self.charge_plan = None;
                false
            },
            CarPlanEvent::OverrideExpired(e) => {
                self.charge_end_time = ChargeEndTime { min_charge: self.min_charge_tomorrow, end_time: e };
                true
            },
        }
    }
}

/// The quality of a usage reading.
#[derive(Clone, Copy, Debug, PartialEq, Eq, Structural)]
pub enum Quality {
    /// Estimated.
    Estimated,
    /// Billable.
    Billable,
}

/// The kind of a usage reading.
#[derive(Clone, Copy, Debug, PartialEq, Eq, Structural)]
pub enum UsageType {
    /// Usage.
    Usage,
}

} // verus!
