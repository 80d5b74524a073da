//! Talking to a Tesla: what the car's replies mean, which commands a charge
//! decision needs, and how commands are retried and failures reported.
use vstd::prelude::*;
use crate::amber::ChargeRequest;
use crate::text::{copy_string, string_of};

verus! {

broadcast use vstd::string::group_string_axioms;

/// A vehicle id for the owner API.
#[derive(Clone, Copy, Debug, PartialEq, Eq, Structural)]
pub struct VehicleId(pub u64);

/// How a Tesla car is configured.
#[derive(Clone, Copy, Debug, PartialEq, Eq, Structural)]
pub struct Config {
    /// The car's id for the owner API.
    pub tesla_id: VehicleId,
}

/// The make of a car, with what its make needs.
#[derive(Clone, Copy, Debug, PartialEq, Eq, Structural)]
pub enum MakeConfig {
    /// A Tesla.
    Tesla(Config),
    /// A car that is not driven by the library.
    Unknown,
}

/// Vehicle information.
#[derive(Debug)]
pub struct Vehicle {
    /// Vehicle id for the owner API.
    pub id: VehicleId,
    /// Vehicle id for streaming.
    pub vehicle_id: u64,
    /// Vehicle identification number.
    pub vin: String,
    /// Display name.
    pub display_name: String,
}

/// A token as the API hands it out.
#[derive(Debug)]
pub struct RawToken {
    /// The access token.
    pub access_token: String,
    /// The refresh token.
    pub refresh_token: String,
    /// The id token.
    pub id_token: String,
    /// The token type.
    pub token_type: String,
    /// Seconds until it expires.
    pub expires_in: u64,
}

/// The charging state of the car.
#[derive(Clone, Copy, Debug, PartialEq, Eq, Structural)]
pub enum ChargingStateEnum {
    /// Charging is starting.
    Starting,
    /// Charging is complete.
    Complete,
    /// Charging.
    Charging,
    /// Not charging and disconnected.
    Disconnected,
    /// Not charging.
    Stopped,
    /// The cable is connected but gets no power.
    NoPower,
}

impl ChargingStateEnum {
    /// Is the car charging?
    pub fn is_charging(self) -> (b: bool)
        ensures
            b == (self == ChargingStateEnum::Starting || self == ChargingStateEnum::Charging),
    {
        match self {
            ChargingStateEnum::Starting | ChargingStateEnum::Charging => true,
            ChargingStateEnum::Complete | ChargingStateEnum::Disconnected | ChargingStateEnum::Stopped
            | ChargingStateEnum::NoPower => false,
        }
    }

    /// Is the car plugged in?
    pub fn is_plugged_in(self) -> (b: bool)
        ensures
            b == (self != ChargingStateEnum::Disconnected),
    {
        match self {
            ChargingStateEnum::Starting | ChargingStateEnum::Charging | ChargingStateEnum::Complete
            | ChargingStateEnum::NoPower | ChargingStateEnum::Stopped => true,
            ChargingStateEnum::Disconnected => false,
        }
    }
}

/// A charging state message that names no state.
#[derive(Debug, PartialEq)]
pub enum ChargingStateError {
    /// The payload names no charging state.
    InvalidChargingState(String),
}

/// The charging state a payload names.
pub open spec fn spec_charging_state(payload: Seq<char>) -> Option<ChargingStateEnum> {
    if payload == "Disconnected"@ {
        Some(ChargingStateEnum::Disconnected)
    } else if payload == "Charging"@ {
        Some(ChargingStateEnum::Charging)
    } else if payload == "NoPower"@ {
        Some(ChargingStateEnum::NoPower)
    } else if payload == "Complete"@ {
        Some(ChargingStateEnum::Complete)
    } else if payload == "Stopped"@ {
        Some(ChargingStateEnum::Stopped)
    } else if payload == "Starting"@ {
        Some(ChargingStateEnum::Starting)
    } else {
        None
    }
}

impl ChargingStateEnum {
    /// The charging state a message payload names.
    pub fn from_payload(payload: &str) -> (r: Result<ChargingStateEnum, ChargingStateError>)
        ensures
            match r {
                Ok(s) => spec_charging_state(payload@) == Some(s),
                Err(ChargingStateError::InvalidChargingState(p)) => spec_charging_state(payload@) is None && p@ == payload@,
            },
    {
        let p = string_of(payload);
        if p == string_of("Disconnected") {
            Ok(ChargingStateEnum::Disconnected)
        } else if p == string_of("Charging") {
            Ok(ChargingStateEnum::Charging)
        } else if p == string_of("NoPower") {
            Ok(ChargingStateEnum::NoPower)
        } else if p == string_of("Complete") {
            Ok(ChargingStateEnum::Complete)
        } else if p == string_of("Stopped") {
            Ok(ChargingStateEnum::Stopped)
        } else if p == string_of("Starting") {
            Ok(ChargingStateEnum::Starting)
        } else {
            Err(ChargingStateError::InvalidChargingState(p))
        }
    }
}

/// The reply to a generic request.
#[derive(Debug)]
pub struct GenericResponse {
    /// Why it failed, or empty.
    pub reason: String,
    /// Did it succeed?
    pub result: bool,
}

/// The reply to a wake up request.
#[derive(Debug)]
pub struct WakeUpResponse {
    /// The state of the car.
    pub state: String,
}

/// Why a call to the API failed.
#[derive(Debug, PartialEq)]
pub enum CallError {
    /// The HTTP request failed.
    Reqwest(String),
    /// The reply was not the JSON expected.
    Json(String),
    /// Rate limited: retry after this many seconds.
    RateLimit(u64),
}

/// Why a request failed.
#[derive(Debug, PartialEq)]
pub enum ApiError {
    /// The HTTP request failed.
    Reqwest(String),
    /// The reply was not the JSON expected.
    Json(String),
    /// Rate limited: retry after this many seconds.
    RateLimit(u64),
    /// The request was answered, and refused.
    Failed(String),
}

/// Why waking the car up failed.
#[derive(Debug, PartialEq)]
pub enum WakeupError {
    /// Wait this many seconds and retry.
    WaitRetry(u64),
}

/// What to do after a request of a sequence was sent.
#[derive(Debug, PartialEq)]
pub enum SequenceStep {
    /// Send the request at this position.
    Next(usize),
    /// All requests were sent; the sequence succeeded.
    Finished,
    /// The request failed; the sequence stops with its error.
    Failed(SequenceError),
}

/// After the request at `index` of `total` was sent with `result`: stop at
/// the first failure, else go on to the next request, and finish after the
/// last.
pub fn after_request(index: usize, total: usize, result: Result<(), SequenceError>) -> (step: SequenceStep)
    requires
        index < total,
    ensures
        match result {
            Err(e) => step == SequenceStep::Failed(e),
            Ok(()) => if index + 1 < total { step == SequenceStep::Next((index + 1) as usize) } else { step == SequenceStep::Finished },
        },
{
    match result {
        Err(e) => SequenceStep::Failed(e),
        Ok(()) => if index + 1 < total { SequenceStep::Next(index + 1) } else { SequenceStep::Finished },
    }
}

/// Why a sequence of commands failed.
#[derive(Debug, PartialEq)]
pub enum SequenceError {
    /// The HTTP request failed.
    Reqwest(String),
    /// The reply was not the JSON expected.
    Json(String),
    /// Wait this many seconds and retry.
    WaitRetry(u64),
    /// A request was answered, and refused.
    Failed(String),
}

impl ApiError {
    /// The request error of a failed call.
    pub fn from_call(e: CallError) -> (r: ApiError)
        ensures
            match e {
                CallError::Reqwest(s) => r == ApiError::Reqwest(s),
                CallError::Json(s) => r == ApiError::Json(s),
                CallError::RateLimit(d) => r == ApiError::RateLimit(d),
            },
    {
        match e {
            CallError::Reqwest(s) => ApiError::Reqwest(s),
            CallError::Json(s) => ApiError::Json(s),
            CallError::RateLimit(d) => ApiError::RateLimit(d),
        }
    }
}

impl SequenceError {
    /// The sequence error of a failed wake up.
    pub fn from_wakeup(e: WakeupError) -> (r: SequenceError)
        ensures
            match e {
                WakeupError::WaitRetry(d) => r == SequenceError::WaitRetry(d),
            },
    {
        match e {
            WakeupError::WaitRetry(d) => SequenceError::WaitRetry(d),
        }
    }

    /// The sequence error of a failed request; a rate limit means wait and retry.
    pub fn from_api(e: ApiError) -> (r: SequenceError)
        ensures
            match e {
                ApiError::Reqwest(s) => r == SequenceError::Reqwest(s),
                ApiError::Json(s) => r == SequenceError::Json(s),
                ApiError::RateLimit(d) => r == SequenceError::WaitRetry(d),
                ApiError::Failed(s) => r == SequenceError::Failed(s),
            },
    {
        match e {
            ApiError::Reqwest(s) => SequenceError::Reqwest(s),
            ApiError::Json(s) => SequenceError::Json(s),
            ApiError::RateLimit(d) => SequenceError::WaitRetry(d),
            ApiError::Failed(s) => SequenceError::Failed(s),
        }
    }
}

pub enum ApiErrorV {
    Reqwest(Seq<char>),
    Json(Seq<char>),
    RateLimit(u64),
    Failed(Seq<char>),
}

impl View for ApiError {
    type V = ApiErrorV;

    open spec fn view(&self) -> ApiErrorV {
        match self {
            ApiError::Reqwest(s) => ApiErrorV::Reqwest(s@),
            ApiError::Json(s) => ApiErrorV::Json(s@),
            ApiError::RateLimit(d) => ApiErrorV::RateLimit(*d),
            ApiError::Failed(s) => ApiErrorV::Failed(s@),
        }
    }
}

/// The outcome of a request.
pub open spec fn api_result_view(r: Result<(), ApiError>) -> Result<(), ApiErrorV> {
    match r {
        Ok(()) => Ok(()),
        Err(e) => Err(e@),
    }
}

/// The outcome of a generic request: success, or a failure with its reason
/// (`no reason` when the reply gives none).
pub open spec fn spec_generic_result(result: bool, reason: Seq<char>) -> Result<(), ApiErrorV> {
    if result {
        Ok(())
    } else if reason.len() == 0 {
        Err(ApiErrorV::Failed("no reason"@))
    } else {
        Err(ApiErrorV::Failed(reason))
    }
}

/// The outcome of a generic request.
pub fn generic_response_result(response: &GenericResponse) -> (r: Result<(), ApiError>)
    ensures
        api_result_view(r) == spec_generic_result(response.result, response.reason@),
{
    if response.result {
        Ok(())
    } else if response.reason.as_str().is_empty() {
        Err(ApiError::Failed(string_of("no reason")))
    } else {
        Err(ApiError::Failed(copy_string(&response.reason)))
    }
}

/// The outcome of setting the charge limit: a refusal because the limit is
/// already set counts as success.
pub fn set_charge_limit_result(response: &GenericResponse) -> (r: Result<(), ApiError>)
    ensures
        api_result_view(r) == if !response.result && response.reason@ == "already_set"@ {
            Ok(())
        } else {
            spec_generic_result(response.result, response.reason@)
        },
{
    if !response.result && response.reason == string_of("already_set") {
        return Ok(());
    }
    generic_response_result(response)
}


/// The outcome of a wake up request: the car is awake when it says it is
/// online; otherwise retry after 5 seconds, after the rate limit, or after a
/// minute for a reply that could not be read.
pub open spec fn spec_wake_up_result(response: Result<Seq<char>, CallError>) -> Result<(), WakeupError> {
    match response {
        Ok(state) => if state == "online"@ { Ok(()) } else { Err(WakeupError::WaitRetry(5)) },
        Err(CallError::Reqwest(_)) => Err(WakeupError::WaitRetry(5)),
        Err(CallError::RateLimit(d)) => Err(WakeupError::WaitRetry(d)),
        Err(CallError::Json(_)) => Err(WakeupError::WaitRetry(60)),
    }
}

/// The state of a wake up reply, or the failure of the call.
pub open spec fn wake_up_view(r: Result<WakeUpResponse, CallError>) -> Result<Seq<char>, CallError> {
    match r {
        Ok(w) => Ok(w.state@),
        Err(e) => Err(e),
    }
}

/// The outcome of a wake up request: see `spec_wake_up_result`.
pub fn wake_up_result(response: Result<WakeUpResponse, CallError>) -> (r: Result<(), WakeupError>)
    ensures
        r == spec_wake_up_result(wake_up_view(response)),
{
    match response {
        Ok(w) => if w.state == string_of("online") { Ok(()) } else { Err(WakeupError::WaitRetry(5)) },
        Err(CallError::Reqwest(_)) => Err(WakeupError::WaitRetry(5)),
        Err(CallError::RateLimit(d)) => Err(WakeupError::WaitRetry(d)),
        Err(CallError::Json(_)) => Err(WakeupError::WaitRetry(60)),
    }
}

/// Is `c` a decimal digit?
pub open spec fn is_digit(c: char) -> bool {
    '0' <= c && c <= '9'
}

/// The value of a string of decimal digits.
pub open spec fn digits_value(s: Seq<char>) -> int
    decreases s.len(),
{
    if s.len() == 0 {
        0
    } else {
        digits_value(s.drop_last()) * 10 + (s.last() as int - '0' as int)
    }
}

/// The unsigned integer a string denotes, as `u64::from_str` reads it: an
/// optional `+` and then one or more decimal digits, of a value that fits.
pub open spec fn spec_parse_u64(s: Seq<char>) -> Option<u64> {
    if s.len() > 0 && s[0] == '+' { spec_parse_digits(s.drop_first()) } else { spec_parse_digits(s) }
}

/// The value of one or more decimal digits, if it fits.
pub open spec fn spec_parse_digits(d: Seq<char>) -> Option<u64> {
    if d.len() > 0 && (forall|i: int| 0 <= i < d.len() ==> is_digit(#[trigger] d[i])) && digits_value(d) <= u64::MAX {
        Some(digits_value(d) as u64)
    } else {
        None
    }
}

proof fn lemma_digits_value_nonneg(s: Seq<char>)
    requires
        forall|i: int| 0 <= i < s.len() ==> is_digit(#[trigger] s[i]),
    ensures
        digits_value(s) >= 0,
    decreases s.len(),
{
    if s.len() > 0 {
        lemma_digits_value_nonneg(s.drop_last());
        assert(is_digit(s[s.len() - 1]));
    }
}

proof fn lemma_digits_value_grows(s: Seq<char>, k: int)
    requires
        0 <= k <= s.len(),
        forall|i: int| 0 <= i < s.len() ==> is_digit(#[trigger] s[i]),
    ensures
        digits_value(s.take(k)) <= digits_value(s),
    decreases s.len() - k,
{
    if k < s.len() {
        lemma_digits_value_grows(s, k + 1);
        assert(s.take(k + 1).drop_last() =~= s.take(k));
        assert(is_digit(s[k]));
        assert forall|i: int| 0 <= i < k implies is_digit(#[trigger] s.take(k)[i]) by {
            assert(s.take(k)[i] == s[i]);
        }
        lemma_digits_value_nonneg(s.take(k));
    } else {
        assert(s.take(k) =~= s);
    }
}

/// Parse an unsigned integer: see `spec_parse_u64`.
pub fn parse_u64(text: &str) -> (r: Option<u64>)
    ensures
        r == spec_parse_u64(text@),
{
    let mut chars: Vec<char> = Vec::new();
    for c in it: text.chars()
        invariant
            chars@ == it.seq().take(it.index()),
    {
        chars.push(c);
    }
    let ghost s = text@;
    assert(chars@ == s);
    let mut i: usize = 0;
    if chars.len() > 0 && chars[0] == '+' {
        i = 1;
    }
    let ghost d = if s.len() > 0 && s[0] == '+' { s.drop_first() } else { s };
    let start = i;
    assert(d =~= s.skip(start as int));
    if i == chars.len() {
        return None;
    }
    let mut value: u64 = 0;
    assert(d.take(0) =~= Seq::<char>::empty());
    while i < chars.len()
        invariant
            start <= i <= chars@.len(),
            chars@ == s,
            s == text@,
            d == s.skip(start as int),
            d == (if s.len() > 0 && s[0] == '+' { s.drop_first() } else { s }),
            d.len() > 0,
            forall|j: int| 0 <= j < i - start ==> is_digit(#[trigger] d[j]),
            value == digits_value(d.take(i - start)),
        decreases chars@.len() - i,
    {
        let c = chars[i];
        assert(d[i - start] == c);
        if !('0' <= c && c <= '9') {
            assert(!is_digit(d[i - start]));
            return None;
        }
        let digit: u64 = (c as u32 - '0' as u32) as u64;
        assert(d.take(i - start + 1).drop_last() =~= d.take(i - start));
        proof {
            assert forall|j: int| 0 <= j < i - start + 1 implies is_digit(#[trigger] d[j]) by {}
        }
        let next = match value.checked_mul(10) {
            Some(v) => v.checked_add(digit),
            None => None,
        };
        match next {
            Some(v) => { value = v; },
            None => {
                proof {
                    let t = d.take(i - start + 1);
                    assert(digits_value(t) == value * 10 + (c as int - '0' as int));
                    assert(digits_value(t) > u64::MAX);
                    assert forall|j: int| 0 <= j < t.len() implies is_digit(#[trigger] t[j]) by {
                        assert(t[j] == d[j]);
                    }
                    if forall|j: int| 0 <= j < d.len() ==> is_digit(#[trigger] d[j]) {
                        lemma_digits_value_grows(d, i - start + 1);
                    }
                }
                return None;
            },
        }
        i = i + 1;
    }
    assert(d.take(i - start) =~= d);
    Some(value)
}

/// How long to wait before retrying a request that got this HTTP status:
/// `None` unless the status is 429 (rate limited); then the seconds of the
/// `Retry-After` header, or 60 when it is absent or not a number.
pub fn retry_after(status: u16, header: Option<&str>) -> (r: Option<u64>)
    ensures
        status != 429 ==> r is None,
        status == 429 ==> r == Some(match header {
            Some(h) => match spec_parse_u64(h@) { Some(v) => v, None => 60u64 },
            None => 60u64,
        }),
{
    if status != 429 {
        return None;
    }
    match header {
        Some(h) => match parse_u64(h) {
            Some(v) => Some(v),
            None => Some(60),
        },
        None => Some(60),
    }
}


// ---------------------------------------------------------------------------
// Command sequences.

/// A request to the car.
#[derive(Clone, Copy, Debug, PartialEq, Eq, Structural)]
pub enum TeslaCommand {
    /// Wake the car up.
    WakeUp,
    /// Set the charge limit, in percent.
    SetChargeLimit(u8),
    /// Start charging.
    ChargeStart,
    /// Stop charging.
    ChargeStop,
}

/// A sequence of requests to send to the car.
#[derive(Debug)]
pub struct CommandSequence {
    /// Requests sent first, and only when there is at least one real request.
    prefix_commands: Vec<TeslaCommand>,
    /// The real requests.
    commands: Vec<TeslaCommand>,
}

pub struct CommandSequenceV {
    pub prefix: Seq<TeslaCommand>,
    pub commands: Seq<TeslaCommand>,
}

impl View for CommandSequence {
    type V = CommandSequenceV;

    closed spec fn view(&self) -> CommandSequenceV {
        CommandSequenceV { prefix: self.prefix_commands@, commands: self.commands@ }
    }
}

/// The requests a sequence sends, in order: none when it has no real request,
/// else the prefix requests and then the real ones.
pub open spec fn spec_to_send(s: CommandSequenceV) -> Seq<TeslaCommand> {
    if s.commands.len() == 0 { Seq::empty() } else { s.prefix + s.commands }
}

impl CommandSequence {
    /// An empty sequence.
    pub fn new() -> (s: CommandSequence)
        ensures
            s@.prefix == Seq::<TeslaCommand>::empty(),
            s@.commands == Seq::<TeslaCommand>::empty(),
    {
        CommandSequence { prefix_commands: Vec::new(), commands: Vec::new() }
    }

    /// Add a real request.
    pub fn add(&mut self, command: TeslaCommand)
        ensures
            final(self)@.prefix == old(self)@.prefix,
            final(self)@.commands == old(self)@.commands.push(command),
    {
        self.commands.push(command);
    }

    /// Wake the car up first, if anything is sent.
    pub fn add_wake_up(&mut self)
        ensures
            final(self)@.prefix == old(self)@.prefix.push(TeslaCommand::WakeUp),
            final(self)@.commands == old(self)@.commands,
    {
        self.prefix_commands.push(TeslaCommand::WakeUp);
    }

    /// Set the charge limit.
    pub fn add_set_chart_limit(&mut self, percent: u8)
        ensures
            final(self)@.prefix == old(self)@.prefix,
            final(self)@.commands == old(self)@.commands.push(TeslaCommand::SetChargeLimit(percent)),
    {
        self.add(TeslaCommand::SetChargeLimit(percent));
    }

    /// Start charging.
    pub fn add_charge_start(&mut self)
        ensures
            final(self)@.prefix == old(self)@.prefix,
            final(self)@.commands == old(self)@.commands.push(TeslaCommand::ChargeStart),
    {
        self.add(TeslaCommand::ChargeStart);
    }

    /// Stop charging.
    pub fn add_charge_stop(&mut self)
        ensures
            final(self)@.prefix == old(self)@.prefix,
            final(self)@.commands == old(self)@.commands.push(TeslaCommand::ChargeStop),
    {
        self.add(TeslaCommand::ChargeStop);
    }

    /// Has the sequence no real request?
    pub fn is_empty(&self) -> (b: bool)
        ensures
            b == (self@.commands.len() == 0),
    {
        self.commands.len() == 0
    }

    /// The requests to run: none in debug mode, where they are only logged;
    /// else those of `to_send`.
    pub fn to_run(&self, debug_mode: bool) -> (r: Vec<TeslaCommand>)
        ensures
            r@ == (if debug_mode { Seq::<TeslaCommand>::empty() } else { spec_to_send(self@) }),
    {
        if debug_mode {
            Vec::new()
        } else {
            self.to_send()
        }
    }

    /// The requests to send, in order: see `spec_to_send`.
    pub fn to_send(&self) -> (r: Vec<TeslaCommand>)
        ensures
            r@ == spec_to_send(self@),
    {
        let mut r: Vec<TeslaCommand> = Vec::new();
        if self.commands.len() == 0 {
            return r;
        }
        let mut i: usize = 0;
        while i < self.prefix_commands.len()
            invariant
                i <= self.prefix_commands@.len(),
                r@ == self.prefix_commands@.take(i as int),
            decreases self.prefix_commands@.len() - i,
        {
            r.push(self.prefix_commands[i]);
            i = i + 1;
            assert(r@ =~= self.prefix_commands@.take(i as int));
        }
        let mut j: usize = 0;
        while j < self.commands.len()
            invariant
                j <= self.commands@.len(),
                r@ == self.prefix_commands@ + self.commands@.take(j as int),
            decreases self.commands@.len() - j,
        {
            r.push(self.commands[j]);
            j = j + 1;
            assert(r@ =~= self.prefix_commands@ + self.commands@.take(j as int));
        }
        assert(self.commands@.take(j as int) =~= self.commands@);
        r
    }
}

// ---------------------------------------------------------------------------
// Charge commands and their retries.

/// What the car should be told: a charge limit and whether to charge, each optional.
#[derive(Clone, Copy, Debug, PartialEq, Eq, Structural)]
pub struct Command {
    /// The charge limit to set.
    pub charge_limit: Option<u8>,
    /// Whether to start (true) or stop (false) charging.
    pub should_charge: Option<bool>,
}

impl Command {
    /// Does the command ask for nothing?
    pub fn is_nil(&self) -> (b: bool)
        ensures
            b == (self.charge_limit is None && self.should_charge is None),
    {
        self.charge_limit.is_none() && self.should_charge.is_none()
    }

    /// A command that asks for nothing.
    pub fn new() -> (c: Command)
        ensures
            c.charge_limit is None,
            c.should_charge is None,
    {
        Command { charge_limit: None, should_charge: None }
    }

    /// The command, also setting the charge limit.
    pub fn set_charge_limit(self, charge_limit: u8) -> (c: Command)
        ensures
            c == (Command { charge_limit: Some(charge_limit), ..self }),
    {
        Command { charge_limit: Some(charge_limit), ..self }
    }

    /// The command, also starting or stopping charging.
    pub fn set_should_charge(self, should_charge: bool) -> (c: Command)
        ensures
            c == (Command { should_charge: Some(should_charge), ..self }),
    {
        Command { should_charge: Some(should_charge), ..self }
    }
}

/// The requests for a command: wake up, then the charge limit if any, then
/// start or stop charging if asked.
pub open spec fn spec_command_sequence(c: Command) -> CommandSequenceV {
    let limit: Seq<TeslaCommand> = match c.charge_limit {
        Some(l) => seq![TeslaCommand::SetChargeLimit(l)],
        None => Seq::empty(),
    };
    let charge: Seq<TeslaCommand> = match c.should_charge {
        Some(true) => seq![TeslaCommand::ChargeStart],
        Some(false) => seq![TeslaCommand::ChargeStop],
        None => Seq::empty(),
    };
    CommandSequenceV { prefix: seq![TeslaCommand::WakeUp], commands: limit + charge }
}

/// The sequence of requests that carries out a command.
pub fn command_sequence(command: &Command) -> (s: CommandSequence)
    ensures
        s@ == spec_command_sequence(*command),
{
    let mut sequence = CommandSequence::new();
    sequence.add_wake_up();
    if let Some(charge_limit) = command.charge_limit {
        sequence.add_set_chart_limit(charge_limit);
    }
    if let Some(should_charge) = command.should_charge {
        if should_charge {
            sequence.add_charge_start();
        } else {
            sequence.add_charge_stop();
        }
    }
    assert(sequence@.commands =~= spec_command_sequence(*command).commands);
    assert(sequence@.prefix =~= spec_command_sequence(*command).prefix);
    sequence
}

/// A command waiting to be sent at a time (seconds since the Unix epoch).
#[derive(Clone, Copy, Debug, PartialEq, Eq, Structural)]
pub struct TryCommand {
    /// The command.
    pub command: Command,
    /// When to send it.
    pub next_try: i64,
}

/// Whether the user has been told that the car does not answer.
#[derive(Clone, Copy, Debug, PartialEq, Eq, Structural)]
pub struct Errors {
    /// When the car last answered.
    pub last_success: i64,
    /// Has the user been told?
    pub notified: bool,
}

/// What to tell the user.
#[derive(Clone, Copy, Debug, PartialEq, Eq, Structural)]
pub enum Notification {
    /// The car answers again.
    TalkingAgain,
    /// The car has not answered for half an hour.
    NotTalking,
}

/// What became of sending a command.
#[derive(Clone, Copy, Debug, PartialEq, Eq, Structural)]
pub enum SendOutcome {
    /// It was carried out.
    Success,
    /// Wait this many seconds and retry.
    WaitRetry(u64),
    /// It failed otherwise.
    Failed,
}

/// The outcome of sending a sequence.
pub open spec fn spec_send_outcome(r: Result<(), SequenceError>) -> SendOutcome {
    match r {
        Ok(()) => SendOutcome::Success,
        Err(SequenceError::WaitRetry(d)) => SendOutcome::WaitRetry(d),
        Err(_) => SendOutcome::Failed,
    }
}

/// The outcome of sending a sequence.
pub fn send_outcome(r: &Result<(), SequenceError>) -> (o: SendOutcome)
    ensures
        o == spec_send_outcome(*r),
{
    match r {
        Ok(()) => SendOutcome::Success,
        Err(SequenceError::WaitRetry(d)) => SendOutcome::WaitRetry(*d),
        Err(_) => SendOutcome::Failed,
    }
}

/// The state of the command processor: the command waiting to be sent, and
/// what the user knows of failures.
#[derive(Clone, Copy, Debug, PartialEq, Eq, Structural)]
pub struct Processor {
    /// The command waiting, and when to send it.
    pub pending: Option<TryCommand>,
    /// Failures reported.
    pub errors: Errors,
}

/// Half an hour, in seconds.
pub const FAILURE_NOTIFICATION_INTERVAL: i64 = 1800;

/// The processor after a send: after success, a real command holds the next
/// one back for five minutes, a nil one holds nothing; after a wait-and-retry
/// the command is retried after the wait, after another failure after a
/// minute. Success tells the user when they were told of failures; a failure
/// tells them once the car has not answered for half an hour.
pub open spec fn spec_after_send(p: Processor, tried: TryCommand, outcome: SendOutcome, now: int) -> (Processor, Option<Notification>) {
    let nil = tried.command.charge_limit is None && tried.command.should_charge is None;
    let lost = !p.errors.notified && p.errors.last_success + FAILURE_NOTIFICATION_INTERVAL < now;
    let failed_errors = if lost { Errors { notified: true, ..p.errors } } else { p.errors };
    let failed_note = if lost { Some(Notification::NotTalking) } else { None };
    match outcome {
        SendOutcome::Success => (
            Processor {
                pending: if nil { None } else {
                    Some(TryCommand { command: Command { charge_limit: None, should_charge: None }, next_try: (now + 300) as i64 })
                },
                errors: Errors { last_success: now as i64, notified: false },
            },
            if p.errors.notified { Some(Notification::TalkingAgain) } else { None },
        ),
        SendOutcome::WaitRetry(d) => (
            Processor { pending: Some(TryCommand { command: tried.command, next_try: (now + d) as i64 }), errors: failed_errors },
            failed_note,
        ),
        SendOutcome::Failed => (
            Processor { pending: Some(TryCommand { command: tried.command, next_try: (now + 60) as i64 }), errors: failed_errors },
            failed_note,
        ),
    }
}

/// The processor after a command arrives: failures are forgotten when the
/// command is nil or nothing is waiting; a waiting command keeps its time and
/// is replaced; otherwise a real command is sent now and a nil one ignored.
pub open spec fn spec_on_command(p: Processor, command: Command, now: int) -> Processor {
    let nil = command.charge_limit is None && command.should_charge is None;
    let errors = if nil || p.pending is None { Errors { last_success: now as i64, notified: false } } else { p.errors };
    let pending = match p.pending {
        Some(t) => Some(TryCommand { command, next_try: t.next_try }),
        None => if nil { None } else { Some(TryCommand { command, next_try: now as i64 }) },
    };
    Processor { pending, errors }
}

impl Processor {
    /// Nothing waiting; the car last answered at `now`.
    pub fn new(now: i64) -> (p: Processor)
        ensures
            p.pending is None,
            p.errors == (Errors { last_success: now, notified: false }),
    {
        Processor { pending: None, errors: Errors { last_success: now, notified: false } }
    }

    /// Take the waiting command if it is due at `now`.
    pub fn take_due(&mut self, now: i64) -> (r: Option<TryCommand>)
        ensures
            match old(self).pending {
                Some(t) => if t.next_try <= now {
                    r == Some(t) && final(self).pending is None
                } else {
                    r is None && final(self).pending == old(self).pending
                },
                None => r is None && final(self).pending is None,
            },
            final(self).errors == old(self).errors,
    {
        match self.pending {
            Some(t) => if t.next_try <= now {
                self.pending = None;
                Some(t)
            } else {
                None
            },
            None => None,
        }
    }

    /// Record what became of sending `tried`: see `spec_after_send`.
    pub fn after_send(&mut self, tried: TryCommand, outcome: SendOutcome, now: i64) -> (n: Option<Notification>)
        requires
            now + 300 <= i64::MAX,
            outcome matches SendOutcome::WaitRetry(d) ==> now + d <= i64::MAX,
        ensures
            final(self).pending == spec_after_send(*old(self), tried, outcome, now as int).0.pending,
            final(self).errors == spec_after_send(*old(self), tried, outcome, now as int).0.errors,
            n == spec_after_send(*old(self), tried, outcome, now as int).1,
    {
        let lost = !self.errors.notified
            && (self.errors.last_success as i128) + (FAILURE_NOTIFICATION_INTERVAL as i128) < (now as i128);
        match outcome {
            SendOutcome::Success => {
                let note = if self.errors.notified { Some(Notification::TalkingAgain) } else { None };
                self.pending = if tried.command.is_nil() {
                    None
                } else {
                    Some(TryCommand { command: Command::new(), next_try: now + 300 })
                };
                self.errors = Errors { last_success: now, notified: false };
                note
            },
            SendOutcome::WaitRetry(d) => {
                let next: i128 = (now as i128) + (d as i128);
                self.pending = Some(TryCommand { command: tried.command, next_try: next as i64 });
                if lost {
                    self.errors.notified = true;
                    Some(Notification::NotTalking)
                } else {
                    None
                }
            },
            SendOutcome::Failed => {
                self.pending = Some(TryCommand { command: tried.command, next_try: now + 60 });
                if lost {
                    self.errors.notified = true;
                    Some(Notification::NotTalking)
                } else {
                    None
                }
            },
        }
    }

    /// Take in a new command: see `spec_on_command`.
    pub fn on_command(&mut self, command: Command, now: i64)
        ensures
            *final(self) == spec_on_command(*old(self), command, now as int),
    {
        let nil = command.is_nil();
        if nil || self.pending.is_none() {
            self.errors = Errors { last_success: now, notified: false };
        }
        self.pending = match self.pending {
            Some(t) => Some(TryCommand { command, next_try: t.next_try }),
            None => if nil { None } else { Some(TryCommand { command, next_try: now }) },
        };
    }
}


// ---------------------------------------------------------------------------
// Charging decisions.

/// The power state shown for automatic charging.
#[derive(Clone, Copy, Debug, PartialEq, Eq, Structural)]
pub enum DevicePower {
    /// Automatic charging is on and the car is charging.
    On,
    /// Automatic charging is on and the car is not charging.
    AutoOff,
    /// Automatic charging is off.
    Off,
    /// Errors were reported.
    DeviceError,
}

/// What the car reports.
#[derive(Clone, Copy, Debug, PartialEq, Eq, Structural)]
pub struct TeslaState {
    /// The charge limit, in percent.
    pub charge_limit: u8,
    /// The battery level, in percent.
    pub battery_level: u8,
    /// The charging state.
    pub charging_state: ChargingStateEnum,
    /// Is the car at home?
    pub is_at_home: bool,
}

/// What to do about charging.
#[derive(Clone, Copy, Debug, PartialEq, Eq, Structural)]
pub enum ShouldCharge {
    /// Charge.
    DoCharge,
    /// Do not charge.
    DoNotCharge,
    /// Leave charging alone.
    DontTouch,
}

/// `x` clamped to `lo..=hi`.
pub open spec fn clamp(x: u8, lo: u8, hi: u8) -> u8 {
    if x < lo { lo } else if x > hi { hi } else { x }
}

/// What to do about charging, and the charge limit to have: a request to
/// charge to a limit charges while the battery is below it; a manual request
/// leaves charging and the current limit alone. The limit is kept within 50
/// to 90 percent.
pub open spec fn spec_should_charge(request: ChargeRequest, state: TeslaState) -> (ShouldCharge, u8) {
    match request {
        ChargeRequest::ChargeTo(limit) => (
            if state.battery_level < limit { ShouldCharge::DoCharge } else { ShouldCharge::DoNotCharge },
            clamp(limit, 50, 90),
        ),
        ChargeRequest::Manual => (ShouldCharge::DontTouch, clamp(state.charge_limit, 50, 90)),
    }
}

/// What to do about charging: see `spec_should_charge`.
pub fn should_charge(request: ChargeRequest, state: &TeslaState) -> (r: (ShouldCharge, u8))
    ensures
        r == spec_should_charge(request, *state),
{
    let (should, limit) = match request {
        ChargeRequest::ChargeTo(limit) => (ShouldCharge::DoCharge, limit),
        ChargeRequest::Manual => (ShouldCharge::DontTouch, state.charge_limit),
    };
    let should = match should {
        ShouldCharge::DoCharge => if state.battery_level < limit { ShouldCharge::DoCharge } else { ShouldCharge::DoNotCharge },
        other => other,
    };
    let limit = if limit < 50 { 50 } else if limit > 90 { 90 } else { limit };
    (should, limit)
}

/// The command that brings the car in line with a request: set the limit when
/// it differs and charging is not left alone; stop charging a charging car
/// that should not charge; start a car that is plugged in, not charging and
/// not complete, when it should charge.
pub open spec fn spec_check_charge(state: TeslaState, request: ChargeRequest) -> Command {
    let (should, limit) = spec_should_charge(request, state);
    let cs = state.charging_state;
    let charging = cs == ChargingStateEnum::Starting || cs == ChargingStateEnum::Charging;
    let not_charging = cs == ChargingStateEnum::Complete || cs == ChargingStateEnum::Stopped || cs == ChargingStateEnum::NoPower;
    let can_start = cs != ChargingStateEnum::Complete;
    Command {
        charge_limit: if should != ShouldCharge::DontTouch && state.charge_limit != limit { Some(limit) } else { None },
        should_charge: if charging && should == ShouldCharge::DoNotCharge {
            Some(false)
        } else if not_charging && should == ShouldCharge::DoCharge && can_start {
            Some(true)
        } else {
            None
        },
    }
}

/// The command that brings the car in line with a request: see `spec_check_charge`.
pub fn check_charge(state: &TeslaState, request: ChargeRequest) -> (c: Command)
    ensures
        c == spec_check_charge(*state, request),
{
    let (should, limit) = should_charge(request, state);
    let charging_state = state.charging_state;
    let can_start_charge = charging_state != ChargingStateEnum::Complete;
    let set_charge_limit = should != ShouldCharge::DontTouch && state.charge_limit != limit;
    let mut command = Command::new();
    if set_charge_limit {
        command = command.set_charge_limit(limit);
    }
    match charging_state {
        ChargingStateEnum::Starting | ChargingStateEnum::Charging => {
            if should == ShouldCharge::DoNotCharge {
                command = command.set_should_charge(false);
            }
        },
        ChargingStateEnum::Complete | ChargingStateEnum::Stopped | ChargingStateEnum::NoPower => {
            if should == ShouldCharge::DoCharge && can_start_charge {
                command = command.set_should_charge(true);
            }
        },
        ChargingStateEnum::Disconnected => {},
    }
    command
}

/// The request to act on: the price-driven one when the car is at home and
/// automatic charging is on, else manual.
pub open spec fn spec_request_maybe_at_home(is_at_home: bool, auto_charge: bool, request: ChargeRequest) -> ChargeRequest {
    if is_at_home && auto_charge { request } else { ChargeRequest::Manual }
}

/// The request to act on: see `spec_request_maybe_at_home`.
pub fn should_charge_maybe_at_home(is_at_home: bool, auto_charge: bool, request: ChargeRequest) -> (r: ChargeRequest)
    ensures
        r == spec_request_maybe_at_home(is_at_home, auto_charge, request),
{
    if is_at_home && auto_charge { request } else { ChargeRequest::Manual }
}

/// The request that would apply at home: the price-driven one when automatic
/// charging is on, else manual.
pub fn should_charge_at_home(auto_charge: bool, request: ChargeRequest) -> (r: ChargeRequest)
    ensures
        r == (if auto_charge { request } else { ChargeRequest::Manual }),
{
    if auto_charge { request } else { ChargeRequest::Manual }
}

/// The power state shown for automatic charging: on while charging, off
/// otherwise, and plain off when automatic charging is off.
pub fn update_auto_charge(auto_charge: bool, state: &TeslaState) -> (p: DevicePower)
    ensures
        p == (if !auto_charge {
            DevicePower::Off
        } else if state.charging_state == ChargingStateEnum::Starting || state.charging_state == ChargingStateEnum::Charging {
            DevicePower::On
        } else {
            DevicePower::AutoOff
        }),
{
    let is_charging = state.charging_state.is_charging();
    match (auto_charge, is_charging) {
        (true, false) => DevicePower::AutoOff,
        (true, true) => DevicePower::On,
        (false, _) => DevicePower::Off,
    }
}

/// The command after the car's state or the request changed: when the car
/// has just left home under automatic charging, raise the limit to 90
/// percent; otherwise bring the car in line with the request that applies.
pub open spec fn spec_charging_command(was_at_home: bool, state: TeslaState, auto_charge: bool, request: ChargeRequest) -> Command {
    if was_at_home && !state.is_at_home && request is ChargeTo {
        Command { charge_limit: Some(90), should_charge: None }
    } else {
        spec_check_charge(state, spec_request_maybe_at_home(state.is_at_home, auto_charge, request))
    }
}

/// The command after the car's state or the request changed: see `spec_charging_command`.
pub fn charging_command(was_at_home: bool, state: &TeslaState, auto_charge: bool, request: ChargeRequest) -> (c: Command)
    ensures
        c == spec_charging_command(was_at_home, *state, auto_charge, request),
{
    if was_at_home && !state.is_at_home && request.is_auto() {
        Command::new().set_charge_limit(90)
    } else {
        let r = should_charge_maybe_at_home(state.is_at_home, auto_charge, request);
        check_charge(state, r)
    }
}

/// Law: under a manual request the charging command never sets a limit and
/// never starts or stops charging, wherever the car was or is and whether or
/// not automatic charging is on.
pub proof fn law_manual_request_commands_nothing(was_at_home: bool, state: TeslaState, auto_charge: bool)
    ensures
        spec_charging_command(was_at_home, state, auto_charge, ChargeRequest::Manual)
            == (Command { charge_limit: None, should_charge: None }),
{
}

/// Law: a car under an automatic request that leaves home has its limit set
/// to 90 percent and is neither started nor stopped.
pub proof fn law_leaving_home_raises_limit(state: TeslaState, auto_charge: bool, limit: u8)
    requires
        !state.is_at_home,
    ensures
        spec_charging_command(true, state, auto_charge, ChargeRequest::ChargeTo(limit))
            == (Command { charge_limit: Some(90), should_charge: None }),
{
}

/// Law: a car away from home that did not just leave it is treated as under
/// a manual request: it is given no command.
pub proof fn law_away_from_home_commands_nothing(was_at_home: bool, state: TeslaState, auto_charge: bool, request: ChargeRequest)
    requires
        !state.is_at_home,
        !(was_at_home && request is ChargeTo),
    ensures
        spec_charging_command(was_at_home, state, auto_charge, request)
            == (Command { charge_limit: None, should_charge: None }),
{
}

/// Law: a manual request never asks to start or stop charging, nor to change
/// the limit.
pub proof fn law_manual_leaves_car_alone(state: TeslaState)
    ensures
        spec_check_charge(state, ChargeRequest::Manual) == (Command { charge_limit: None, should_charge: None }),
{
}

/// Law: a command never asks to start charging a car whose charging is
/// complete, or one that is disconnected.
pub proof fn law_no_start_when_complete_or_disconnected(state: TeslaState, request: ChargeRequest)
    requires
        state.charging_state == ChargingStateEnum::Complete || state.charging_state == ChargingStateEnum::Disconnected,
    ensures
        spec_check_charge(state, request).should_charge != Some(true),
{
}

/// Law: any limit a command sets is between 50 and 90 percent.
pub proof fn law_limit_in_range(state: TeslaState, request: ChargeRequest)
    ensures
        spec_check_charge(state, request).charge_limit matches Some(l) ==> 50 <= l <= 90,
{
}

} // verus!
