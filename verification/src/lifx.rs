//! LIFX lights: whether a light is reachable, what to send it for a power
//! and color, and how often to retry.
//!
//! Colors are carried as they are; converting them to the light's format is
//! left to the caller, so the color type is left open.
use vstd::prelude::*;
use crate::lights::{Colors, ColorsV, PowerColor, colors_of};

verus! {

/// How lights are discovered and talked to. Times are in milliseconds.
#[derive(Debug)]
pub struct DiscoverConfig {
    /// The broadcast address to discover lights on.
    pub broadcast: String,
    /// Time between discovery requests.
    pub poll_time: u64,
    /// Time after which a silent light counts as unreachable.
    pub device_timeout: u64,
    /// Time each request waits for an answer.
    pub api_timeout: u64,
    /// How many times a request is tried.
    pub num_retries: u8,
}

/// How a light is driven.
#[derive(Clone, Copy, Debug, Default, PartialEq, Eq, Structural)]
pub struct DeviceConfig {
    /// Does the light have several zones?
    pub multiple_zones: bool,
}

/// A light found on the network.
#[derive(Clone, Copy, Debug, PartialEq, Eq, Structural)]
pub struct Device {
    /// Its target id.
    pub target: u64,
    /// Time after which it counts as unreachable when silent, in milliseconds.
    pub device_timeout: u64,
}

/// Whether a light is reachable: until when, and the sequence number of its
/// next request.
#[derive(Clone, Copy, Debug, PartialEq, Eq, Structural)]
pub enum DeviceState {
    /// Reachable until the time (milliseconds), with the next sequence number.
    Online(Device, i64, u8),
    /// Not reachable.
    Offline,
}

/// A request to a light.
#[derive(Debug)]
pub enum LifxOp<C> {
    /// Turn it on (`true`) or to standby (`false`).
    SetPower(bool),
    /// Set one color.
    SetColor(C),
    /// Set the colors of its zones, from the first.
    SetZones(Vec<C>),
}

pub enum LifxOpV<C> {
    SetPower(bool),
    SetColor(C),
    SetZones(Seq<C>),
}

impl<C> View for LifxOp<C> {
    type V = LifxOpV<C>;

    open spec fn view(&self) -> LifxOpV<C> {
        match self {
            LifxOp::SetPower(b) => LifxOpV::SetPower(*b),
            LifxOp::SetColor(c) => LifxOpV::SetColor(*c),
            LifxOp::SetZones(v) => LifxOpV::SetZones(v@),
        }
    }
}

/// Why a light was not driven.
#[derive(Clone, Copy, Debug, PartialEq, Eq, Structural)]
pub enum LifxError {
    /// The light is not reachable.
    DeviceOffline,
    /// It did not answer in time.
    Timeout,
}

/// The most zones one request sets.
pub const MAX_ZONES: usize = 82;

/// The requests for a power and color: off is standby and the `off` color; a
/// single color is that color; a sequence sets up to 82 zones on a light
/// with zones, and its first color (or `off`) on one without.
pub open spec fn spec_plan<C>(c: ColorsV<C>, multiple_zones: bool, off: C) -> Seq<LifxOpV<C>> {
    match c {
        ColorsV::Dark => seq![LifxOpV::SetPower(false), LifxOpV::SetColor(off)],
        ColorsV::Single(x) => seq![LifxOpV::SetPower(true), LifxOpV::SetColor(x)],
        ColorsV::Sequence(s) => if multiple_zones {
            seq![LifxOpV::SetPower(true), LifxOpV::SetZones(if s.len() > 82 { s.take(82) } else { s })]
        } else {
            seq![LifxOpV::SetPower(true), LifxOpV::SetColor(if s.len() > 0 { s[0] } else { off })]
        },
    }
}

/// The requests of a plan.
pub open spec fn ops_view<C>(v: Seq<LifxOp<C>>) -> Seq<LifxOpV<C>> {
    v.map_values(|o: LifxOp<C>| o@)
}

impl DeviceState {
    /// The light was found: it is reachable for its timeout from `now`, and
    /// keeps its sequence number if it was reachable before.
    pub fn set_online(&mut self, device: Device, now: i64)
        requires
            now + device.device_timeout <= i64::MAX,
        ensures
            *final(self) == DeviceState::Online(device, (now + device.device_timeout) as i64,
                match *old(self) { DeviceState::Online(_, _, seq) => seq, DeviceState::Offline => 0u8 }),
    {
        let seq = match self {
            DeviceState::Online(_, _, seq) => *seq,
            DeviceState::Offline => 0,
        };
        let expires: i128 = (now as i128) + (device.device_timeout as i128);
        *self = DeviceState::Online(device, expires as i64, seq);
    }

    /// The light answered: it is reachable for another timeout from `now`.
    pub fn renew_online(&mut self, now: i64)
        requires
            *old(self) matches DeviceState::Online(d, _, _) ==> now + d.device_timeout <= i64::MAX,
        ensures
            *final(self) == match *old(self) {
                DeviceState::Online(d, _, seq) => DeviceState::Online(d, (now + d.device_timeout) as i64, seq),
                DeviceState::Offline => DeviceState::Offline,
            },
    {
        if let DeviceState::Online(device, _, seq) = *self {
            let expires: i128 = (now as i128) + (device.device_timeout as i128);
            *self = DeviceState::Online(device, expires as i64, seq);
        }
    }

    /// The light did not answer.
    pub fn set_offline(&mut self)
        ensures
            *final(self) == DeviceState::Offline,
    {
        *self = DeviceState::Offline;
    }

    /// The next sequence number, moving on by one (wrapping).
    pub fn next_sequence(&mut self) -> (s: Option<u8>)
        ensures
            match *old(self) {
                DeviceState::Online(d, e, seq) => s == Some(seq)
                    && *final(self) == DeviceState::Online(d, e, if seq == 255 { 0u8 } else { (seq + 1) as u8 }),
                DeviceState::Offline => s is None && *final(self) == DeviceState::Offline,
            },
    {
        match *self {
            DeviceState::Online(d, e, seq) => {
                *self = DeviceState::Online(d, e, seq.wrapping_add(1));
                Some(seq)
            },
            DeviceState::Offline => None,
        }
    }
}

/// The requests for a power and color on a reachable light: see `spec_plan`;
/// an unreachable light is refused.
pub fn plan<C: Copy>(state: &DeviceState, power_color: &PowerColor<C>, config: &DeviceConfig, off: C)
    -> (r: Result<Vec<LifxOp<C>>, LifxError>)
    ensures
        state is Offline ==> r == Err::<Vec<LifxOp<C>>, LifxError>(LifxError::DeviceOffline),
        state is Online ==> (r matches Ok(ops) && ops_view(ops@) == spec_plan(colors_of(power_color), config.multiple_zones, off)),
{
    if let DeviceState::Offline = state {
        return Err(LifxError::DeviceOffline);
    }
    let mut ops: Vec<LifxOp<C>> = Vec::new();
    match power_color {
        PowerColor::Off => {
            ops.push(LifxOp::SetPower(false));
            ops.push(LifxOp::SetColor(off));
        },
        PowerColor::On(Colors::Single(c)) => {
            ops.push(LifxOp::SetPower(true));
            ops.push(LifxOp::SetColor(*c));
        },
        PowerColor::On(Colors::Sequence(colors)) => {
            ops.push(LifxOp::SetPower(true));
            if config.multiple_zones {
                let len = if colors.len() > MAX_ZONES { MAX_ZONES } else { colors.len() };
                let mut zones: Vec<C> = Vec::new();
                let mut i: usize = 0;
                while i < len
                    invariant
                        i <= len,
                        len <= colors@.len(),
                        zones@ == colors@.take(i as int),
                    decreases len - i,
                {
                    zones.push(colors[i]);
                    i = i + 1;
                    assert(zones@ =~= colors@.take(i as int));
                }
                assert(colors@.len() <= 82 ==> colors@.take(len as int) =~= colors@);
                ops.push(LifxOp::SetZones(zones));
            } else {
                let first = if colors.len() > 0 { colors[0] } else { off };
                ops.push(LifxOp::SetColor(first));
            }
        },
    }
    assert(ops_view(ops@) =~= spec_plan(colors_of(power_color), config.multiple_zones, off));
    Ok(ops)
}

/// After a failed try with `retries` tries left, the tries left for the next
/// one; `None` when none is left.
pub fn next_retry(retries: u8) -> (r: Option<u8>)
    ensures
        r == (if retries <= 1 { None } else { Some((retries - 1) as u8) }),
{
    let left = retries.saturating_sub(1);
    if left == 0 { None } else { Some(left) }
}

/// What a light is reported as after driving it.
#[derive(Clone, Copy, Debug, PartialEq, Eq, Structural)]
pub enum Reported {
    /// Reachable, showing the power and color asked for.
    Online,
    /// Not reachable.
    Offline,
}

/// The light after an attempt to drive it: reachable for another timeout when
/// it worked, else unreachable; and what to report.
pub fn after_attempt(state: &mut DeviceState, worked: bool, now: i64) -> (r: Reported)
    requires
        *old(state) matches DeviceState::Online(d, _, _) ==> now + d.device_timeout <= i64::MAX,
    ensures
        worked ==> r == Reported::Online && *final(state) == match *old(state) {
            DeviceState::Online(d, _, seq) => DeviceState::Online(d, (now + d.device_timeout) as i64, seq),
            DeviceState::Offline => DeviceState::Offline,
        },
        !worked ==> r == Reported::Offline && *final(state) == DeviceState::Offline,
{
    if worked {
        state.renew_online(now);
        Reported::Online
    } else {
        state.set_offline();
        Reported::Offline
    }
}

} // verus!
