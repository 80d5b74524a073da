//! The state of an entity: a stateful entity keeps its last value and the one
//! before it, and passes a value on only when it differs from the last one.
//!
//! The channels that carry the values between tasks live outside the
//! library; they ask these functions what to do with each message.
use vstd::prelude::*;
use crate::amber::ChargeRequest;
use crate::tesla::{ChargingStateEnum, DevicePower};
use crate::text::copy_string;

verus! {

broadcast use vstd::string::group_string_axioms;

/// A value an entity can carry: it can be compared and copied.
pub trait EntityValue: Sized + View {
    /// Are the two values the same?
    fn same(&self, other: &Self) -> (b: bool)
        ensures
            b == (self@ == other@);

    /// A copy of the value.
    fn duplicate(&self) -> (c: Self)
        ensures
            c@ == self@;
}

impl EntityValue for String {
    fn same(&self, other: &Self) -> (b: bool) {
        *self == *other
    }

    fn duplicate(&self) -> (c: Self) {
        copy_string(self)
    }
}

impl EntityValue for bool {
    fn same(&self, other: &Self) -> (b: bool) {
        *self == *other
    }

    fn duplicate(&self) -> (c: Self) {
        *self
    }
}

impl EntityValue for u8 {
    fn same(&self, other: &Self) -> (b: bool) {
        *self == *other
    }

    fn duplicate(&self) -> (c: Self) {
        *self
    }
}

impl EntityValue for i64 {
    fn same(&self, other: &Self) -> (b: bool) {
        *self == *other
    }

    fn duplicate(&self) -> (c: Self) {
        *self
    }
}

impl View for ChargeRequest {
    type V = ChargeRequest;

    open spec fn view(&self) -> ChargeRequest {
        *self
    }
}

impl EntityValue for ChargeRequest {
    fn same(&self, other: &Self) -> (b: bool) {
        *self == *other
    }

    fn duplicate(&self) -> (c: Self) {
        *self
    }
}

impl View for ChargingStateEnum {
    type V = ChargingStateEnum;

    open spec fn view(&self) -> ChargingStateEnum {
        *self
    }
}

impl EntityValue for ChargingStateEnum {
    fn same(&self, other: &Self) -> (b: bool) {
        *self == *other
    }

    fn duplicate(&self) -> (c: Self) {
        *self
    }
}

impl View for DevicePower {
    type V = DevicePower;

    open spec fn view(&self) -> DevicePower {
        *self
    }
}

impl EntityValue for DevicePower {
    fn same(&self, other: &Self) -> (b: bool) {
        *self == *other
    }

    fn duplicate(&self) -> (c: Self) {
        *self
    }
}

/// A value of a stateless entity: every value is passed on.
#[derive(Debug)]
pub struct StatelessData<T>(pub T);

/// A value of a stateful entity: a value is passed on when it changes.
#[derive(Debug)]
pub struct StatefulData<T>(pub T);

/// Why a subscription gave no value.
#[derive(Clone, Copy, Debug, PartialEq, Eq, Structural)]
pub enum RecvError {
    /// The entity was closed.
    Closed,
}

/// The state of a stateful entity: its last value, and the one before it.
#[derive(Debug)]
pub struct StatefulState<T> {
    prev: Option<T>,
    saved: Option<T>,
}

/// An optional value.
pub open spec fn opt_view<T: View>(o: Option<T>) -> Option<T::V> {
    match o {
        Some(v) => Some(v@),
        None => None,
    }
}

/// A value passed on: the previous value and the new one.
pub open spec fn message_view<T: View>(m: Option<(Option<T>, T)>) -> Option<(Option<T::V>, T::V)> {
    match m {
        Some((p, v)) => Some((opt_view(p), v@)),
        None => None,
    }
}

/// The state after setting `data`, and what is passed on: a value that
/// differs from the last one becomes the last one, the last one becomes the
/// previous one, and both are passed on; the same value again changes nothing.
pub open spec fn spec_set<V>(state: (Option<V>, Option<V>), data: V) -> ((Option<V>, Option<V>), Option<(Option<V>, V)>) {
    let (prev, saved) = state;
    if saved is None || saved != Some(data) {
        ((saved, Some(data)), Some((saved, data)))
    } else {
        (state, None)
    }
}

/// What a reader of the entity gets: the last value with the one before it.
pub open spec fn spec_get<V>(state: (Option<V>, Option<V>)) -> Option<(Option<V>, V)> {
    match state.1 {
        Some(v) => Some((state.0, v)),
        None => None,
    }
}

impl<T: EntityValue> View for StatefulState<T> {
    type V = (Option<T::V>, Option<T::V>);

    closed spec fn view(&self) -> (Option<T::V>, Option<T::V>) {
        (opt_view(self.prev), opt_view(self.saved))
    }
}

fn copy_opt<T: EntityValue>(o: &Option<T>) -> (c: Option<T>)
    ensures
        opt_view(c) == opt_view(*o),
{
    match o {
        Some(v) => Some(v.duplicate()),
        None => None,
    }
}

impl<T: EntityValue> StatefulState<T> {
    /// No value yet.
    pub fn new() -> (s: StatefulState<T>)
        ensures
            s@ == (None::<T::V>, None::<T::V>),
    {
        StatefulState { prev: None, saved: None }
    }

    /// Set a value: see `spec_set`. Returns what is passed on to subscribers.
    pub fn set(&mut self, data: T) -> (sent: Option<(Option<T>, T)>)
        ensures
            (final(self)@, message_view(sent)) == spec_set(old(self)@, data@),
    {
        let changed = match &self.saved {
            Some(saved) => !data.same(saved),
            None => true,
        };
        if changed {
            let prev = copy_opt(&self.saved);
            let out = data.duplicate();
            self.prev = prev;
            self.saved = Some(data);
            let sent_prev = copy_opt(&self.prev);
            Some((sent_prev, out))
        } else {
            None
        }
    }

    /// What a reader gets: see `spec_get`.
    pub fn get(&self) -> (r: Option<(Option<T>, T)>)
        ensures
            message_view(r) == spec_get(self@),
    {
        match &self.saved {
            Some(v) => Some((copy_opt(&self.prev), v.duplicate())),
            None => None,
        }
    }
}

/// Should the entity's task stop? When no one can read it any more and no
/// subscription is left.
pub fn should_stop(readers_closed: bool, subscriptions: usize) -> (b: bool)
    ensures
        b == (readers_closed && subscriptions == 0),
{
    readers_closed && subscriptions == 0
}

/// Law: after a value is set, a reader gets that value.
pub proof fn law_get_after_set<V>(state: (Option<V>, Option<V>), data: V)
    ensures
        spec_get(spec_set(state, data).0) matches Some((_, v)) && v == data,
{
}

/// Law: setting the same value twice passes it on at most once, and the
/// second time changes nothing.
pub proof fn law_set_twice<V>(state: (Option<V>, Option<V>), data: V)
    ensures
        spec_set(spec_set(state, data).0, data).1 is None,
        spec_set(spec_set(state, data).0, data).0 == spec_set(state, data).0,
{
}

/// Law: what is passed on pairs the new value with the value it replaces.
pub proof fn law_set_passes_previous<V>(state: (Option<V>, Option<V>), data: V)
    ensures
        spec_set(state, data).1 matches Some((p, v)) ==> p == state.1 && v == data && state.1 != Some(data),
{
}


/// The state of a generic pipe: its last value, which a new subscriber gets
/// first; every value is passed on.
#[derive(Debug)]
pub struct GenericState<T> {
    current: Option<T>,
}

impl<T: EntityValue> View for GenericState<T> {
    type V = Option<T::V>;

    closed spec fn view(&self) -> Option<T::V> {
        opt_view(self.current)
    }
}

impl<T: EntityValue> GenericState<T> {
    /// No value yet.
    pub fn new() -> (s: GenericState<T>)
        ensures
            s@ == None::<T::V>,
    {
        GenericState { current: None }
    }

    /// Set a value: it becomes the last value and is passed on.
    pub fn set(&mut self, data: T) -> (sent: T)
        ensures
            final(self)@ == Some(data@),
            sent@ == data@,
    {
        let out = data.duplicate();
        self.current = Some(data);
        out
    }

    /// What a new subscriber gets first: the last value, if any.
    pub fn initial(&self) -> (r: Option<T>)
        ensures
            opt_view(r) == self@,
    {
        copy_opt(&self.current)
    }
}

/// Whether a stateless pipe passes values on yet: values wait until the
/// program has started, so that subscribers made during start up miss none.
#[derive(Clone, Copy, Debug, PartialEq, Eq, Structural)]
pub struct Started {
    /// Is start up over?
    pub started: bool,
}

impl Started {
    /// Values pass at once when nothing waits for the start, else only after it.
    pub fn new(waiting_for_start: bool) -> (s: Started)
        ensures
            s.started == !waiting_for_start,
    {
        Started { started: !waiting_for_start }
    }

    /// Start up is over: values pass from now on.
    pub fn notify(&mut self)
        ensures
            final(self).started,
    {
        self.started = true;
    }

    /// May values be passed on now?
    pub fn can_pass(&self) -> (b: bool)
        ensures
            b == self.started,
    {
        self.started
    }
}

} // verus!
