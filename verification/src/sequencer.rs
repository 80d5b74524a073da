//! Turn named sequences of timed steps into concrete, timed sequences for a day.
//!
//! Each step of a sequence lasts for its duration and may repeat; the steps of a
//! sequence are laid out back to back so that the step marked as zero time
//! starts at the scheduled time.
use vstd::prelude::*;
use crate::conditions::{spec_eval_boolean, Boolean, BooleanV, Context as EvalContext, ContextV as EvalContextV, EvalErrorV};
use crate::classifier::{any_condition_holds, any_in, any_in_exec, booleans_view, opt_conds_view, opt_strings_view};
use crate::dates::Date;
use crate::order::{insert_pos, lemma_insert_pos_step, lemma_insert_pos_stop, lemma_sort_by_permutes, lemma_sort_by_sorted, lemma_sort_by_stable, lemma_sort_by_take, sort_by, strict_weak_order};
use crate::tasks::{Payload, PayloadV, QoS, Retain, Task, TaskV};
use crate::text::{contains_str, copy_string, copy_strings, decimal, push_decimal, push_char, string_of, strings_view};

verus! {

broadcast use vstd::string::group_string_axioms;

/// How important a sequence is.
#[derive(Clone, Copy, Debug, PartialEq, Eq, Structural)]
pub enum Importance {
    /// Low importance.
    Low,
    /// Medium importance.
    Medium,
    /// High importance.
    High,
    /// Important: shown on the important list.
    Important,
}

/// The progress of a sequence.
#[derive(Clone, Copy, Debug, PartialEq, Eq, Structural)]
pub enum Status {
    /// Not started.
    Pending,
    /// Started and not yet stopped.
    InProgress,
    /// Stopped after running.
    Completed,
    /// Will not run.
    Cancelled,
}

/// What a mark says of a sequence.
#[derive(Clone, Copy, Debug, PartialEq, Eq, Structural)]
pub enum MarkStatus {
    /// The sequence was done by other means.
    Done,
    /// The sequence should not run.
    Cancelled,
}

/// A user's mark on a sequence, valid for a period of time.
#[derive(Debug, PartialEq)]
pub struct Mark {
    /// The id of the sequence.
    pub id: String,
    /// What is marked.
    pub status: MarkStatus,
    /// Start of the period, in seconds since the Unix epoch.
    pub start_time: i64,
    /// End of the period, in seconds since the Unix epoch.
    pub end_time: i64,
}

/// A task in a config sequence.
#[derive(Debug)]
pub struct ConfigTask {
    /// The title of the task.
    pub title: String,
    /// The payload of the task (an empty string when absent).
    pub payload: Option<Payload>,
    /// The qos to be used when sending the message.
    pub qos: Option<u8>,
    /// The retain flag to be used when sending the message.
    pub retain: Option<Retain>,
    /// The topics the payload is sent to.
    pub topics: Vec<String>,
}

/// One step of a configured sequence.
#[derive(Debug)]
pub struct Config {
    /// The title of the sequence.
    pub title: String,
    /// The id of the step.
    pub id: Option<String>,
    /// The importance of the sequence.
    pub importance: Importance,
    /// At least one of these conditions must hold for the step to be used.
    pub if_cond: Option<Vec<Boolean>>,
    /// At least one of these classifications of today is required.
    pub classifications: Option<Vec<String>>,
    /// At least one of these options is required.
    pub options: Option<Vec<String>>,
    /// If true this step starts at the scheduled time.
    pub zero_time: Option<bool>,
    /// The total duration of this step, in seconds.
    pub duration: i64,
    /// How late after its start the step may still be started, in seconds (one minute when absent).
    pub latest_time: Option<i64>,
    /// Time between repeats, in seconds (one minute when absent).
    pub repeat_time: Option<i64>,
    /// How many times this step runs (once when absent).
    pub repeat_count: Option<u8>,
    /// The tasks to execute.
    pub tasks: Vec<ConfigTask>,
}

/// The classifications and options a sequence is selected with.
#[derive(Debug)]
pub struct Context {
    /// Classifications of the day.
    pub today: Vec<String>,
    /// Classifications of the next day.
    pub tomorrow: Vec<String>,
    /// Options of the schedule entry.
    pub options: Vec<String>,
}

/// A step of a configured sequence, placed in a list of repeats.
#[derive(Debug)]
pub struct ExpandedConfig<'a> {
    /// The step.
    pub config: &'a Config,
    /// Index of the step in its sequence.
    pub number: usize,
    /// The number of the repeat, starting from 1.
    pub repeat_number: usize,
    /// Time until the next entry starts, in seconds.
    pub duration: i64,
}

/// A step with all values completed.
#[derive(Debug)]
pub struct Sequence {
    /// The title of the sequence.
    pub title: String,
    /// The id of the sequence.
    pub id: String,
    /// The date the sequence was scheduled for.
    pub schedule_date: Date,
    /// The importance of the sequence.
    pub importance: Importance,
    /// The name of the configured sequence.
    pub sequence_name: String,
    /// If true this is considered the zero time for this sequence.
    pub zero_time: bool,
    /// The start time, in seconds since the Unix epoch.
    pub start_time: i64,
    /// The end time, in seconds since the Unix epoch.
    pub end_time: i64,
    /// The duration, in seconds.
    pub duration: i64,
    /// The latest time this step can be started.
    pub latest_time: i64,
    /// The number of the repeat, starting from 1.
    pub repeat_number: usize,
    /// The tasks to execute.
    pub tasks: Vec<Task>,
    /// The status, filled in by the executor.
    pub status: Option<Status>,
    /// The mark, filled in by the executor.
    pub mark: Option<Mark>,
}

/// Why no sequences could be produced.
#[derive(Debug, PartialEq)]
pub enum SequenceError {
    /// No sequence has this name.
    NoSequence(String),
    /// A computed time does not fit in 64 bits.
    TimeOutOfRange,
}

/// A schedule entry names a sequence that is not configured.
#[derive(Debug, PartialEq)]
pub enum ConfigCheckError {
    /// The sequence with this name could not be found.
    SequenceError(String),
}

/// An entry of a day's schedule.
#[derive(Debug)]
pub struct Schedule {
    /// The configured sequence to run.
    pub sequence_name: String,
    /// The options for the sequence.
    pub options: Vec<String>,
    /// When its zero time step starts, in seconds since the Unix epoch.
    pub datetime: i64,
}

// ---------------------------------------------------------------------------
// Model.

pub struct ConfigTaskV {
    pub title: Seq<char>,
    pub payload: Option<PayloadV>,
    pub qos: Option<u8>,
    pub retain: Option<Retain>,
    pub topics: Seq<Seq<char>>,
}

pub struct ConfigV {
    pub title: Seq<char>,
    pub id: Option<Seq<char>>,
    pub importance: Importance,
    pub if_cond: Option<Seq<BooleanV>>,
    pub classifications: Option<Seq<Seq<char>>>,
    pub options: Option<Seq<Seq<char>>>,
    pub zero_time: Option<bool>,
    pub duration: int,
    pub latest_time: Option<int>,
    pub repeat_time: Option<int>,
    pub repeat_count: Option<u8>,
    pub tasks: Seq<ConfigTaskV>,
}

pub struct ContextV {
    pub today: Seq<Seq<char>>,
    pub tomorrow: Seq<Seq<char>>,
    pub options: Seq<Seq<char>>,
}

pub struct ExpandedV {
    pub config: ConfigV,
    pub number: int,
    pub repeat_number: int,
    pub duration: int,
}

pub struct MarkV {
    pub id: Seq<char>,
    pub status: MarkStatus,
    pub start_time: int,
    pub end_time: int,
}

pub struct SequenceV {
    pub title: Seq<char>,
    pub id: Seq<char>,
    pub schedule_date: Date,
    pub importance: Importance,
    pub sequence_name: Seq<char>,
    pub zero_time: bool,
    pub start_time: int,
    pub end_time: int,
    pub duration: int,
    pub latest_time: int,
    pub repeat_number: int,
    pub tasks: Seq<TaskV>,
    pub status: Option<Status>,
    pub mark: Option<MarkV>,
}

pub enum SequenceErrorV {
    NoSequence(Seq<char>),
    TimeOutOfRange,
}

pub open spec fn opt_string_view(o: Option<String>) -> Option<Seq<char>> {
    match o {
        Some(s) => Some(s@),
        None => None,
    }
}

pub open spec fn opt_payload_view(o: Option<Payload>) -> Option<PayloadV> {
    match o {
        Some(p) => Some(p@),
        None => None,
    }
}

pub open spec fn opt_i64_view(o: Option<i64>) -> Option<int> {
    match o {
        Some(v) => Some(v as int),
        None => None,
    }
}

impl View for ConfigTask {
    type V = ConfigTaskV;

    open spec fn view(&self) -> ConfigTaskV {
        ConfigTaskV {
            title: self.title@,
            payload: opt_payload_view(self.payload),
            qos: self.qos,
            retain: self.retain,
            topics: strings_view(self.topics@),
        }
    }
}

impl View for Config {
    type V = ConfigV;

    open spec fn view(&self) -> ConfigV {
        ConfigV {
            title: self.title@,
            id: opt_string_view(self.id),
            importance: self.importance,
            if_cond: opt_conds_view(self.if_cond),
            classifications: opt_strings_view(self.classifications),
            options: opt_strings_view(self.options),
            zero_time: self.zero_time,
            duration: self.duration as int,
            latest_time: opt_i64_view(self.latest_time),
            repeat_time: opt_i64_view(self.repeat_time),
            repeat_count: self.repeat_count,
            tasks: self.tasks@.map_values(|t: ConfigTask| t@),
        }
    }
}

impl View for Context {
    type V = ContextV;

    open spec fn view(&self) -> ContextV {
        ContextV {
            today: strings_view(self.today@),
            tomorrow: strings_view(self.tomorrow@),
            options: strings_view(self.options@),
        }
    }
}

impl<'a> View for ExpandedConfig<'a> {
    type V = ExpandedV;

    open spec fn view(&self) -> ExpandedV {
        ExpandedV {
            config: self.config@,
            number: self.number as int,
            repeat_number: self.repeat_number as int,
            duration: self.duration as int,
        }
    }
}

impl View for Mark {
    type V = MarkV;

    open spec fn view(&self) -> MarkV {
        MarkV { id: self.id@, status: self.status, start_time: self.start_time as int, end_time: self.end_time as int }
    }
}

pub open spec fn opt_mark_view(o: Option<Mark>) -> Option<MarkV> {
    match o {
        Some(m) => Some(m@),
        None => None,
    }
}

impl View for Sequence {
    type V = SequenceV;

    open spec fn view(&self) -> SequenceV {
        SequenceV {
            title: self.title@,
            id: self.id@,
            schedule_date: self.schedule_date,
            importance: self.importance,
            sequence_name: self.sequence_name@,
            zero_time: self.zero_time,
            start_time: self.start_time as int,
            end_time: self.end_time as int,
            duration: self.duration as int,
            latest_time: self.latest_time as int,
            repeat_number: self.repeat_number as int,
            tasks: self.tasks@.map_values(|t: Task| t@),
            status: self.status,
            mark: opt_mark_view(self.mark),
        }
    }
}

impl View for SequenceError {
    type V = SequenceErrorV;

    open spec fn view(&self) -> SequenceErrorV {
        match self {
            SequenceError::NoSequence(s) => SequenceErrorV::NoSequence(s@),
            SequenceError::TimeOutOfRange => SequenceErrorV::TimeOutOfRange,
        }
    }
}

/// A list of expanded steps.
pub open spec fn expanded_view(v: Seq<ExpandedConfig>) -> Seq<ExpandedV> {
    v.map_values(|e: ExpandedConfig| e@)
}

/// A list of sequences.
pub open spec fn sequences_view(v: Seq<Sequence>) -> Seq<SequenceV> {
    v.map_values(|s: Sequence| s@)
}

/// A list of configured steps.
pub open spec fn configs_view(v: Seq<Config>) -> Seq<ConfigV> {
    v.map_values(|c: Config| c@)
}

/// The values sequence conditions are evaluated against: the sets `today`,
/// `tomorrow` and `options`.
pub open spec fn spec_eval_context(ctx: ContextV) -> EvalContextV {
    EvalContextV {
        scalars: Seq::empty(),
        sets: seq![("today"@, ctx.today), ("tomorrow"@, ctx.tomorrow), ("options"@, ctx.options)],
    }
}

/// Is the step selected in this context? It needs one of its classifications
/// today, one of its options, and one of its conditions to hold (a condition
/// that fails to evaluate does not hold).
pub open spec fn spec_filter_sequence(c: ConfigV, ctx: ContextV) -> bool {
    &&& (c.classifications matches Some(cls) ==> any_in(ctx.today, cls))
    &&& (c.options matches Some(opts) ==> any_in(ctx.options, opts))
    &&& (c.if_cond matches Some(conds) ==> exists|i: int| 0 <= i < conds.len()
            && spec_eval_boolean(#[trigger] conds[i], spec_eval_context(ctx)) == Ok::<bool, EvalErrorV>(true))
}

/// The number of runs of a step.
pub open spec fn repeat_count_of(c: ConfigV) -> int {
    match c.repeat_count {
        Some(n) => n as int,
        None => 1,
    }
}

/// The time between repeats of a step.
pub open spec fn repeat_time_of(c: ConfigV) -> int {
    match c.repeat_time {
        Some(t) => t,
        None => 60,
    }
}

/// The runs of step `n`: the repeats are spaced by the repeat time, and the
/// last run lasts for the step's duration.
pub open spec fn spec_expand(n: int, c: ConfigV) -> Seq<ExpandedV> {
    let count = repeat_count_of(c);
    if count == 0 {
        Seq::empty()
    } else {
        Seq::new((count - 1) as nat, |i: int| ExpandedV { config: c, number: n, repeat_number: i + 1, duration: repeat_time_of(c) })
            .push(ExpandedV { config: c, number: n, repeat_number: count, duration: c.duration })
    }
}

/// The runs of the selected steps among the first `k` steps.
pub open spec fn spec_expand_prefix(cfgs: Seq<ConfigV>, ctx: ContextV, k: int) -> Seq<ExpandedV>
    decreases k,
{
    if k <= 0 {
        Seq::empty()
    } else if spec_filter_sequence(cfgs[k - 1], ctx) {
        spec_expand_prefix(cfgs, ctx, k - 1) + spec_expand(k - 1, cfgs[k - 1])
    } else {
        spec_expand_prefix(cfgs, ctx, k - 1)
    }
}

/// Sum of the durations of the first `k` runs.
pub open spec fn prefix_duration(ex: Seq<ExpandedV>, k: int) -> int
    decreases k,
{
    if k <= 0 {
        0
    } else {
        prefix_duration(ex, k - 1) + ex[k - 1].duration
    }
}

/// Index of the first run of a zero time step.
pub open spec fn zero_index(ex: Seq<ExpandedV>) -> Option<int>
    decreases ex.len(),
{
    if ex.len() == 0 {
        None
    } else if ex.last().config.zero_time == Some(true) && zero_index(ex.drop_last()) is None {
        Some(ex.len() - 1)
    } else {
        zero_index(ex.drop_last())
    }
}

/// The start of the first run, so that the first zero time run starts at
/// `start` (or `start` itself when there is none).
pub open spec fn spec_corrected_start(start: int, ex: Seq<ExpandedV>) -> int {
    match zero_index(ex) {
        Some(k) => start - prefix_duration(ex, k),
        None => start,
    }
}

pub open spec fn in_i64(x: int) -> bool {
    i64::MIN <= x <= i64::MAX
}

/// Do the intermediate times of the start correction fit in 64 bits?
pub open spec fn corrected_start_fits(start: int, ex: Seq<ExpandedV>) -> bool {
    let m = match zero_index(ex) { Some(k) => k, None => ex.len() as int };
    forall|j: int| 0 < j <= m ==> in_i64(start - #[trigger] prefix_duration(ex, j))
}

/// The quality of service of a task.
pub open spec fn spec_map_qos(qos: Option<u8>) -> QoS {
    match qos {
        Some(0) => QoS::AtMostOnce,
        Some(1) => QoS::AtLeastOnce,
        _ => QoS::ExactlyOnce,
    }
}

/// The task of a configured task.
pub open spec fn spec_task(t: ConfigTaskV) -> TaskV {
    TaskV {
        title: t.title,
        payload: match t.payload { Some(p) => p, None => PayloadV::String(Seq::empty()) },
        qos: spec_map_qos(t.qos),
        retain: match t.retain { Some(r) => r, None => Retain::NoRetain },
        topics: t.topics,
    }
}

/// The id of a run: the step's id, or the sequence name, `_` and the step's index.
pub open spec fn spec_id(name: Seq<char>, e: ExpandedV) -> Seq<char> {
    match e.config.id {
        Some(id) => id,
        None => name + seq!['_'] + decimal(e.number as nat),
    }
}

/// The sequence of a run starting at `start`.
pub open spec fn spec_sequence(name: Seq<char>, date: Date, e: ExpandedV, start: int) -> SequenceV {
    SequenceV {
        title: e.config.title,
        id: spec_id(name, e),
        schedule_date: date,
        importance: e.config.importance,
        sequence_name: name,
        zero_time: e.config.zero_time == Some(true),
        start_time: start,
        end_time: start + e.config.duration,
        duration: e.config.duration,
        latest_time: start + match e.config.latest_time { Some(l) => l, None => 60 },
        repeat_number: e.repeat_number,
        tasks: e.config.tasks.map_values(|t: ConfigTaskV| spec_task(t)),
        status: None,
        mark: None,
    }
}

/// Do the times of the laid out runs fit in 64 bits?
pub open spec fn layout_fits(ex: Seq<ExpandedV>, start: int) -> bool {
    forall|i: int| #![trigger ex[i]] 0 <= i < ex.len() ==> {
        &&& in_i64(start + prefix_duration(ex, i + 1))
        &&& in_i64(start + prefix_duration(ex, i) + ex[i].config.duration)
        &&& in_i64(start + prefix_duration(ex, i) + match ex[i].config.latest_time { Some(l) => l, None => 60 })
    }
}

/// The runs laid out back to back from `start`.
pub open spec fn spec_layout(name: Seq<char>, date: Date, ex: Seq<ExpandedV>, start: int) -> Seq<SequenceV> {
    Seq::new(ex.len(), |i: int| spec_sequence(name, date, ex[i], start + prefix_duration(ex, i)))
}

/// The first configured sequence with this name.
pub open spec fn lookup_config(map: Seq<(Seq<char>, Seq<ConfigV>)>, name: Seq<char>) -> Option<Seq<ConfigV>>
    decreases map.len(),
{
    if map.len() == 0 {
        None
    } else if map[0].0 == name {
        Some(map[0].1)
    } else {
        lookup_config(map.drop_first(), name)
    }
}

/// A configuration map.
pub open spec fn config_map_view(m: Seq<(String, Vec<Config>)>) -> Seq<(Seq<char>, Seq<ConfigV>)> {
    m.map_values(|p: (String, Vec<Config>)| (p.0@, configs_view(p.1@)))
}

/// The sequences of the named configured sequence, with its zero time step at `start`.
pub open spec fn spec_get_sequence(
    map: Seq<(Seq<char>, Seq<ConfigV>)>,
    date: Date,
    name: Seq<char>,
    ctx: ContextV,
    start: int,
) -> Result<Seq<SequenceV>, SequenceErrorV> {
    match lookup_config(map, name) {
        None => Err(SequenceErrorV::NoSequence(name)),
        Some(cfgs) => {
            let ex = spec_expand_prefix(cfgs, ctx, cfgs.len() as int);
            let corrected = spec_corrected_start(start, ex);
            if corrected_start_fits(start, ex) && layout_fits(ex, corrected) {
                Ok(spec_layout(name, date, ex, corrected))
            } else {
                Err(SequenceErrorV::TimeOutOfRange)
            }
        },
    }
}


/// `zero_index` is the index of the first zero time run.
proof fn lemma_zero_index(ex: Seq<ExpandedV>)
    ensures
        zero_index(ex) matches Some(k) ==> 0 <= k < ex.len() && ex[k].config.zero_time == Some(true)
            && forall|j: int| 0 <= j < k ==> ex[j].config.zero_time != Some(true),
        zero_index(ex) is None ==> forall|j: int| 0 <= j < ex.len() ==> ex[j].config.zero_time != Some(true),
    decreases ex.len(),
{
    if ex.len() > 0 {
        lemma_zero_index(ex.drop_last());
        assert forall|j: int| 0 <= j < ex.len() - 1 implies ex.drop_last()[j] == ex[j] by {}
    }
}

// ---------------------------------------------------------------------------
// Implementation.

fn map_qos(qos: Option<u8>) -> (q: QoS)
    ensures
        q == spec_map_qos(qos),
{
    match qos {
        Some(0) => QoS::AtMostOnce,
        Some(1) => QoS::AtLeastOnce,
        _ => QoS::ExactlyOnce,
    }
}

fn make_eval_context(ctx: &Context) -> (e: EvalContext)
    ensures
        e@ == spec_eval_context(ctx@),
{
    let mut sets: Vec<(String, Vec<String>)> = Vec::new();
    sets.push((string_of("today"), copy_strings(&ctx.today)));
    sets.push((string_of("tomorrow"), copy_strings(&ctx.tomorrow)));
    sets.push((string_of("options"), copy_strings(&ctx.options)));
    let e = EvalContext { scalars: Vec::new(), sets };
    assert(e@.scalars =~= spec_eval_context(ctx@).scalars);
    assert(e@.sets =~= spec_eval_context(ctx@).sets);
    e
}

/// Is the step selected in the context?
pub fn filter_sequence(config: &Config, context: &Context) -> (ok: bool)
    ensures
        ok == spec_filter_sequence(config@, context@),
{
    let mut ok = true;
    if let Some(classifications) = &config.classifications {
        if !any_in_exec(&context.today, classifications) {
            ok = false;
        }
    }
    if let Some(test_options) = &config.options {
        if !any_in_exec(&context.options, test_options) {
            ok = false;
        }
    }
    if let Some(if_cond) = &config.if_cond {
        let ectx = make_eval_context(context);
        if !any_condition_holds(if_cond, &ectx) {
            ok = false;
        }
    }
    ok
}

/// The runs of step `n`.
pub fn expand_config<'a>(n: usize, config: &'a Config) -> (out: Vec<ExpandedConfig<'a>>)
    ensures
        expanded_view(out@) == spec_expand(n as int, config@),
        forall|i: int| 0 <= i < out@.len() ==> #[trigger] out@[i].config == config,
{
    let repeat_count: usize = match config.repeat_count {
        Some(c) => c as usize,
        None => 1,
    };
    let repeat_time: i64 = match config.repeat_time {
        Some(t) => t,
        None => 60,
    };
    let mut out: Vec<ExpandedConfig<'a>> = Vec::new();
    let mut i: usize = 1;
    while i < repeat_count
        invariant
            1 <= i,
            i <= repeat_count || (repeat_count == 0 && i == 1),
            repeat_count == repeat_count_of(config@),
            repeat_time == repeat_time_of(config@),
            out@.len() == i - 1,
            forall|j: int| 0 <= j < out@.len() ==> #[trigger] out@[j].config == config,
            forall|j: int| 0 <= j < out@.len() ==> #[trigger] out@[j]@ == (ExpandedV {
                config: config@, number: n as int, repeat_number: j + 1, duration: repeat_time_of(config@) }),
        decreases repeat_count - i,
    {
        out.push(ExpandedConfig { config, number: n, repeat_number: i, duration: repeat_time });
        i = i + 1;
    }
    if repeat_count >= 1 {
        out.push(ExpandedConfig { config, number: n, repeat_number: repeat_count, duration: config.duration });
    }
    proof {
        let sp = spec_expand(n as int, config@);
        if repeat_count >= 1 {
            assert(sp.len() == out@.len());
            assert forall|j: int| 0 <= j < out@.len() implies expanded_view(out@)[j] == sp[j] by {
                if j < out@.len() - 1 {
                    assert(out@[j]@ == sp[j]);
                }
            }
        }
        assert(expanded_view(out@) =~= sp);
    }
    out
}

/// The start of the first run, so that the first zero time run starts at `start`;
/// `None` when an intermediate time does not fit in 64 bits.
pub fn get_corrected_start_time(start: i64, expanded: &Vec<ExpandedConfig>) -> (r: Option<i64>)
    ensures
        r is Some <==> corrected_start_fits(start as int, expanded_view(expanded@)),
        r matches Some(v) ==> v == spec_corrected_start(start as int, expanded_view(expanded@)),
{
    let ghost ex = expanded_view(expanded@);
    let mut updated: i64 = start;
    let mut i: usize = 0;
    while i < expanded.len()
        invariant
            i <= expanded@.len(),
            ex == expanded_view(expanded@),
            updated == start - prefix_duration(ex, i as int),
            forall|k: int| 0 <= k < i ==> ex[k].config.zero_time != Some(true),
            forall|j: int| 0 < j <= i ==> in_i64(start - #[trigger] prefix_duration(ex, j)),
        decreases expanded@.len() - i,
    {
        let e = &expanded[i];
        assert(ex[i as int] == e@);
        if e.config.zero_time == Some(true) {
            proof { lemma_zero_index(ex); }
            return Some(updated);
        }
        let next = updated.checked_sub(e.duration);
        match next {
            Some(v) => { updated = v; },
            None => {
                proof {
                    lemma_zero_index(ex);
                    assert(!in_i64(start - prefix_duration(ex, i as int + 1)));
                }
                return None;
            },
        }
        i = i + 1;
    }
    proof { lemma_zero_index(ex); }
    Some(start)
}


fn make_task(t: &ConfigTask) -> (task: Task)
    ensures
        task@ == spec_task(t@),
{
    let payload = match &t.payload {
        Some(p) => p.duplicate(),
        None => Payload::String(String::new()),
    };
    let retain = match t.retain {
        Some(r) => r,
        None => Retain::NoRetain,
    };
    Task { title: copy_string(&t.title), payload, qos: map_qos(t.qos), retain, topics: copy_strings(&t.topics) }
}

fn make_tasks(tasks: &Vec<ConfigTask>) -> (out: Vec<Task>)
    ensures
        out@.map_values(|t: Task| t@) == tasks@.map_values(|t: ConfigTask| t@).map_values(|t: ConfigTaskV| spec_task(t)),
{
    let mut out: Vec<Task> = Vec::new();
    let mut i: usize = 0;
    while i < tasks.len()
        invariant
            i <= tasks@.len(),
            out@.len() == i,
            forall|j: int| 0 <= j < i ==> #[trigger] out@[j]@ == spec_task(tasks@[j]@),
        decreases tasks@.len() - i,
    {
        out.push(make_task(&tasks[i]));
        i = i + 1;
    }
    assert(out@.map_values(|t: Task| t@) =~= tasks@.map_values(|t: ConfigTask| t@).map_values(|t: ConfigTaskV| spec_task(t)));
    out
}

fn sequence_id(name: &String, e: &ExpandedConfig) -> (id: String)
    ensures
        id@ == spec_id(name@, e@),
{
    match &e.config.id {
        Some(id) => copy_string(id),
        None => {
            let mut id = copy_string(name);
            push_char(&mut id, '_');
            push_decimal(&mut id, e.number);
            id
        },
    }
}

/// The sequence of the run `e` of the sequence `name`, starting at `start`.
fn config_to_sequence(name: &String, e: &ExpandedConfig, start: i64, schedule_date: Date) -> (s: Sequence)
    requires
        in_i64(start + e.config.duration),
        in_i64(start + match e.config.latest_time { Some(l) => l as int, None => 60 }),
    ensures
        s@ == spec_sequence(name@, schedule_date, e@, start as int),
{
    let config = e.config;
    let latest: i64 = match config.latest_time {
        Some(l) => l,
        None => 60,
    };
    Sequence {
        title: copy_string(&config.title),
        id: sequence_id(name, e),
        schedule_date,
        importance: config.importance,
        sequence_name: copy_string(name),
        zero_time: config.zero_time == Some(true),
        start_time: start,
        end_time: start + config.duration,
        duration: config.duration,
        latest_time: start + latest,
        repeat_number: e.repeat_number,
        tasks: make_tasks(&config.tasks),
        status: None,
        mark: None,
    }
}

/// The configured sequence with this name, if any.
fn find_config<'a>(config: &'a Vec<(String, Vec<Config>)>, name: &String) -> (r: Option<&'a Vec<Config>>)
    ensures
        r is None <==> lookup_config(config_map_view(config@), name@) is None,
        r matches Some(v) ==> lookup_config(config_map_view(config@), name@) == Some(configs_view(v@)),
{
    let ghost m = config_map_view(config@);
    let mut i: usize = 0;
    assert(m.skip(0) =~= m);
    while i < config.len()
        invariant
            i <= config@.len(),
            m == config_map_view(config@),
            lookup_config(m, name@) == lookup_config(m.skip(i as int), name@),
        decreases config@.len() - i,
    {
        let entry = &config[i];
        assert(m.skip(i as int).drop_first() =~= m.skip(i as int + 1));
        assert(m.skip(i as int)[0] == (entry.0@, configs_view(entry.1@)));
        if entry.0 == *name {
            return Some(&entry.1);
        }
        i = i + 1;
    }
    assert(m.skip(i as int) =~= Seq::<(Seq<char>, Seq<ConfigV>)>::empty());
    None
}

/// The result of a sequence computation.
pub open spec fn sequences_result_view(r: Result<Vec<Sequence>, SequenceError>) -> Result<Seq<SequenceV>, SequenceErrorV> {
    match r {
        Ok(v) => Ok(sequences_view(v@)),
        Err(e) => Err(e@),
    }
}

/// The context of classifications and options.
pub open spec fn spec_context_of(today: Seq<String>, tomorrow: Seq<String>, options: Seq<String>) -> ContextV {
    ContextV { today: strings_view(today), tomorrow: strings_view(tomorrow), options: strings_view(options) }
}

/// The sequences of the named configured sequence for a date, with its zero time
/// step starting at `start_time`: the steps selected by the classifications of
/// today and tomorrow and the options, repeated as configured, laid out back to
/// back.
pub fn get_sequence_with_config(
    config: &Vec<(String, Vec<Config>)>,
    schedule_date: Date,
    sequence_name: &String,
    today: &Vec<String>,
    tomorrow: &Vec<String>,
    options: &Vec<String>,
    start_time: i64,
) -> (r: Result<Vec<Sequence>, SequenceError>)
    ensures
        sequences_result_view(r) == spec_get_sequence(
            config_map_view(config@), schedule_date, sequence_name@,
            spec_context_of(today@, tomorrow@, options@), start_time as int),
{
    let ghost ctxv = spec_context_of(today@, tomorrow@, options@);
    let src = match find_config(config, sequence_name) {
        Some(src) => src,
        None => {
            return Err(SequenceError::NoSequence(copy_string(sequence_name)));
        },
    };
    let ghost cfgs = configs_view(src@);
    let context = Context { today: copy_strings(today), tomorrow: copy_strings(tomorrow), options: copy_strings(options) };
    assert(context@ == ctxv);

    let mut expanded: Vec<ExpandedConfig> = Vec::new();
    let mut n: usize = 0;
    while n < src.len()
        invariant
            n <= src@.len(),
            cfgs == configs_view(src@),
            context@ == ctxv,
            expanded_view(expanded@) == spec_expand_prefix(cfgs, ctxv, n as int),
        decreases src@.len() - n,
    {
        let c = &src[n];
        assert(cfgs[n as int] == c@);
        if filter_sequence(c, &context) {
            let mut more = expand_config(n, c);
            let ghost before = expanded@;
            let ghost added = more@;
            expanded.append(&mut more);
            assert(expanded_view(expanded@) =~= expanded_view(before) + expanded_view(added));
        }
        n = n + 1;
    }
    let ghost ex = expanded_view(expanded@);
    assert(ex == spec_expand_prefix(cfgs, ctxv, cfgs.len() as int));

    let corrected = match get_corrected_start_time(start_time, &expanded) {
        Some(t) => t,
        None => {
            return Err(SequenceError::TimeOutOfRange);
        },
    };

    let mut sequences: Vec<Sequence> = Vec::new();
    let mut current: i64 = corrected;
    let mut i: usize = 0;
    while i < expanded.len()
        invariant
            i <= expanded@.len(),
            ex == expanded_view(expanded@),
            lookup_config(config_map_view(config@), sequence_name@) == Some(cfgs),
            ex == spec_expand_prefix(cfgs, ctxv, cfgs.len() as int),
            ctxv == spec_context_of(today@, tomorrow@, options@),
            corrected_start_fits(start_time as int, ex),
            corrected == spec_corrected_start(start_time as int, ex),
            current == corrected + prefix_duration(ex, i as int),
            sequences@.len() == i,
            forall|j: int| 0 <= j < i ==> #[trigger] sequences@[j]@
                == spec_sequence(sequence_name@, schedule_date, ex[j], corrected + prefix_duration(ex, j)),
            forall|j: int| #![trigger ex[j]] 0 <= j < i ==> {
                &&& in_i64(corrected + prefix_duration(ex, j + 1))
                &&& in_i64(corrected + prefix_duration(ex, j) + ex[j].config.duration)
                &&& in_i64(corrected + prefix_duration(ex, j) + match ex[j].config.latest_time { Some(l) => l, None => 60 })
            },
        decreases expanded@.len() - i,
    {
        let e = &expanded[i];
        assert(ex[i as int] == e@);
        let latest: i64 = match e.config.latest_time {
            Some(l) => l,
            None => 60,
        };
        let end = current.checked_add(e.config.duration);
        let last = current.checked_add(latest);
        let next = current.checked_add(e.duration);
        if end.is_none() || last.is_none() || next.is_none() {
            proof {
                if layout_fits(ex, corrected as int) {
                    let x = ex[i as int];
                    assert(in_i64(corrected + prefix_duration(ex, i as int + 1)));
                    assert(in_i64(corrected + prefix_duration(ex, i as int) + x.config.duration));
                    assert(in_i64(corrected + prefix_duration(ex, i as int) + match x.config.latest_time { Some(l) => l, None => 60 }));
                    assert(latest == match x.config.latest_time { Some(l) => l, None => 60 });
                    assert(prefix_duration(ex, i as int + 1) == prefix_duration(ex, i as int) + x.duration);
                    assert(end.is_some());
                    assert(last.is_some());
                    assert(next.is_some());
                    assert(false);
                }
            }
            return Err(SequenceError::TimeOutOfRange);
        }
        assert(prefix_duration(ex, i as int + 1) == prefix_duration(ex, i as int) + ex[i as int].duration);
        assert(in_i64(current + e.duration));
        assert(latest == match ex[i as int].config.latest_time { Some(l) => l, None => 60 });
        assert(in_i64(corrected + prefix_duration(ex, i as int) + ex[i as int].config.duration));
        assert(in_i64(corrected + prefix_duration(ex, i as int) + match ex[i as int].config.latest_time { Some(l) => l, None => 60 }));
        assert(in_i64(corrected + prefix_duration(ex, i as int + 1)));
        let sequence = config_to_sequence(sequence_name, e, current, schedule_date);
        sequences.push(sequence);
        current = current + e.duration;
        i = i + 1;
    }
    proof {
        assert(layout_fits(ex, corrected as int));
        assert(sequences_view(sequences@) =~= spec_layout(sequence_name@, schedule_date, ex, corrected as int));
    }
    Ok(sequences)
}


// ---------------------------------------------------------------------------
// Ordering sequences by time.

/// Does `a` come before `b`: an earlier start, or the same start and an earlier end?
pub open spec fn time_before(a: SequenceV, b: SequenceV) -> bool {
    a.start_time < b.start_time || (a.start_time == b.start_time && a.end_time < b.end_time)
}

/// The order of sequences by time.
pub open spec fn time_order() -> spec_fn(SequenceV, SequenceV) -> bool {
    |a: SequenceV, b: SequenceV| time_before(a, b)
}

/// `s` ordered by start time, then end time; runs with the same times keep
/// their relative order.
pub open spec fn sort_by_time(s: Seq<SequenceV>) -> Seq<SequenceV> {
    sort_by(s, time_order())
}

proof fn lemma_time_order()
    ensures
        strict_weak_order(time_order()),
{
}

/// Law: sorting by time gives a list in time order: no sequence starts before
/// an earlier one, or starts with it and ends before it.
pub proof fn law_sort_by_time_sorted(s: Seq<SequenceV>)
    ensures
        forall|i: int, j: int| 0 <= i < j < sort_by_time(s).len()
            ==> !time_before(#[trigger] sort_by_time(s)[j], #[trigger] sort_by_time(s)[i]),
{
    lemma_time_order();
    lemma_sort_by_sorted(s, time_order());
}

/// Law: sorting by time keeps every sequence, as often as it occurs.
pub proof fn law_sort_by_time_permutes(s: Seq<SequenceV>)
    ensures
        sort_by_time(s).to_multiset() == s.to_multiset(),
{
    lemma_time_order();
    lemma_sort_by_permutes(s, time_order());
}

/// Law: sorting by time keeps the order of sequences with the same start and
/// end times.
pub proof fn law_sort_by_time_stable(s: Seq<SequenceV>, start_time: int, end_time: int)
    ensures
        sort_by_time(s).filter(|x: SequenceV| x.start_time == start_time && x.end_time == end_time)
            == s.filter(|x: SequenceV| x.start_time == start_time && x.end_time == end_time),
{
    let same = |x: SequenceV| x.start_time == start_time && x.end_time == end_time;
    if exists|k: int| 0 <= k < s.len() && same(#[trigger] s[k]) {
        let k = choose|k: int| 0 <= k < s.len() && same(#[trigger] s[k]);
        let e = s[k];
        lemma_time_order();
        lemma_sort_by_stable(s, time_order(), e);
        let equiv = |x: SequenceV| crate::order::equivalent(time_order(), x, e);
        assert(equiv =~= same);
    } else {
        lemma_time_order();
        lemma_sort_by_permutes(s, time_order());
        let t = sort_by_time(s);
        assert forall|i: int| 0 <= i < t.len() implies !same(#[trigger] t[i]) by {
            vstd::seq_lib::to_multiset_contains(t, t[i]);
            vstd::seq_lib::to_multiset_contains(s, t[i]);
            assert(t.contains(t[i]));
        }
        t.lemma_all_neg_filter_empty(same);
        s.lemma_all_neg_filter_empty(same);
        assert(t.filter(same) =~= s.filter(same));
    }
}

fn before(a: &Sequence, b: &Sequence) -> (r: bool)
    ensures
        r == time_before(a@, b@),
{
    a.start_time < b.start_time || (a.start_time == b.start_time && a.end_time < b.end_time)
}

/// Order the sequences by start time, then end time, keeping the order of
/// sequences with the same times.
pub fn sort_sequences(v: Vec<Sequence>) -> (r: Vec<Sequence>)
    ensures
        sequences_view(r@) == sort_by_time(sequences_view(v@)),
{
    let ghost orig = sequences_view(v@);
    let ghost order = time_order();
    let mut rest = v;
    let mut result: Vec<Sequence> = Vec::new();
    let mut k: usize = 0;
    let n: usize = rest.len();
    assert(orig.take(0) =~= Seq::<SequenceV>::empty());
    assert(orig.skip(0) =~= orig);
    while rest.len() > 0
        invariant
            n == orig.len(),
            order == time_order(),
            k + rest@.len() == n,
            sequences_view(rest@) == orig.skip(k as int),
            sequences_view(result@) == sort_by(orig.take(k as int), order),
        decreases rest@.len(),
    {
        let ghost before_rest = rest@;
        let x = rest.remove(0);
        let ghost xv = x@;
        let ghost rv = sequences_view(result@);
        assert(xv == orig[k as int]) by {
            assert(sequences_view(before_rest)[0] == orig.skip(k as int)[0]);
        }
        assert forall|i: int| 0 <= i < rest@.len() implies #[trigger] rest@[i]@ == orig.skip(k as int + 1)[i] by {
            assert(rest@[i] == before_rest[i + 1]);
            assert(sequences_view(before_rest)[i + 1] == orig.skip(k as int)[i + 1]);
        }
        assert(sequences_view(rest@) =~= orig.skip(k as int + 1));
        proof { lemma_sort_by_take(orig, order, k as int); }
        let mut j: usize = result.len();
        assert(rv.take(j as int) =~= rv);
        while j > 0 && before(&x, &result[j - 1])
            invariant
                j <= result@.len(),
                rv == sequences_view(result@),
                xv == x@,
                order == time_order(),
                insert_pos(rv, xv, order) == insert_pos(rv.take(j as int), xv, order),
            decreases j,
        {
            proof { lemma_insert_pos_step(rv, xv, order, j as int); }
            j = j - 1;
        }
        proof { lemma_insert_pos_stop(rv, xv, order, j as int); }
        result.insert(j, x);
        assert(sequences_view(result@) =~= rv.insert(j as int, xv));
        k = k + 1;
    }
    assert(orig.take(k as int) =~= orig);
    result
}

// ---------------------------------------------------------------------------
// A day's schedule.

pub struct ScheduleV {
    pub sequence_name: Seq<char>,
    pub options: Seq<Seq<char>>,
    pub datetime: int,
}

impl View for Schedule {
    type V = ScheduleV;

    open spec fn view(&self) -> ScheduleV {
        ScheduleV { sequence_name: self.sequence_name@, options: strings_view(self.options@), datetime: self.datetime as int }
    }
}

/// A list of schedule entries.
pub open spec fn schedules_view(v: Seq<Schedule>) -> Seq<ScheduleV> {
    v.map_values(|s: Schedule| s@)
}

/// The sequences of the first `k` entries, in order, or the first error.
pub open spec fn spec_collect_sequences(
    map: Seq<(Seq<char>, Seq<ConfigV>)>,
    date: Date,
    list: Seq<ScheduleV>,
    today: Seq<Seq<char>>,
    tomorrow: Seq<Seq<char>>,
    k: int,
) -> Result<Seq<SequenceV>, SequenceErrorV>
    decreases k,
{
    if k <= 0 {
        Ok(Seq::empty())
    } else {
        match spec_collect_sequences(map, date, list, today, tomorrow, k - 1) {
            Err(e) => Err(e),
            Ok(prev) => {
                let entry = list[k - 1];
                let ctx = ContextV { today, tomorrow, options: entry.options };
                match spec_get_sequence(map, date, entry.sequence_name, ctx, entry.datetime) {
                    Err(e) => Err(e),
                    Ok(more) => Ok(prev + more),
                }
            },
        }
    }
}

proof fn lemma_collect_err(
    map: Seq<(Seq<char>, Seq<ConfigV>)>,
    date: Date,
    list: Seq<ScheduleV>,
    today: Seq<Seq<char>>,
    tomorrow: Seq<Seq<char>>,
    k: int,
    m: int,
)
    requires
        k <= m,
        spec_collect_sequences(map, date, list, today, tomorrow, k) is Err,
    ensures
        spec_collect_sequences(map, date, list, today, tomorrow, m) == spec_collect_sequences(map, date, list, today, tomorrow, k),
    decreases m - k,
{
    if k < m {
        lemma_collect_err(map, date, list, today, tomorrow, k, m - 1);
    }
}

/// The sequences of entry `j` of a day's schedule.
pub open spec fn entry_sequences(
    map: Seq<(Seq<char>, Seq<ConfigV>)>,
    date: Date,
    list: Seq<ScheduleV>,
    today: Seq<Seq<char>>,
    tomorrow: Seq<Seq<char>>,
    j: int,
) -> Result<Seq<SequenceV>, SequenceErrorV> {
    spec_get_sequence(map, date, list[j].sequence_name,
        ContextV { today, tomorrow, options: list[j].options }, list[j].datetime)
}

proof fn lemma_collect_first_failure(
    map: Seq<(Seq<char>, Seq<ConfigV>)>,
    date: Date,
    list: Seq<ScheduleV>,
    today: Seq<Seq<char>>,
    tomorrow: Seq<Seq<char>>,
    k: int,
)
    requires
        0 <= k <= list.len(),
    ensures
        (forall|j: int| 0 <= j < k ==> #[trigger] entry_sequences(map, date, list, today, tomorrow, j) is Ok)
            ==> spec_collect_sequences(map, date, list, today, tomorrow, k) is Ok,
        forall|i: int| 0 <= i < k && #[trigger] entry_sequences(map, date, list, today, tomorrow, i) is Err
            && (forall|j: int| 0 <= j < i ==> #[trigger] entry_sequences(map, date, list, today, tomorrow, j) is Ok)
            ==> spec_collect_sequences(map, date, list, today, tomorrow, k) == entry_sequences(map, date, list, today, tomorrow, i),
    decreases k,
{
    if k > 0 {
        lemma_collect_first_failure(map, date, list, today, tomorrow, k - 1);
        if forall|j: int| 0 <= j < k ==> #[trigger] entry_sequences(map, date, list, today, tomorrow, j) is Ok {
            assert(forall|j: int| 0 <= j < k - 1 ==> #[trigger] entry_sequences(map, date, list, today, tomorrow, j) is Ok);
            assert(entry_sequences(map, date, list, today, tomorrow, k - 1) is Ok);
        }
        assert forall|i: int| 0 <= i < k && #[trigger] entry_sequences(map, date, list, today, tomorrow, i) is Err
            && (forall|j: int| 0 <= j < i ==> #[trigger] entry_sequences(map, date, list, today, tomorrow, j) is Ok)
            implies spec_collect_sequences(map, date, list, today, tomorrow, k) == entry_sequences(map, date, list, today, tomorrow, i) by {
            if i == k - 1 {
                assert(spec_collect_sequences(map, date, list, today, tomorrow, k - 1) is Ok);
            }
        }
    }
}

/// The sequences that start and end at the given times, in their order.
pub open spec fn same_times(s: Seq<SequenceV>, start_time: int, end_time: int) -> Seq<SequenceV> {
    s.filter(|x: SequenceV| x.start_time == start_time && x.end_time == end_time)
}

proof fn lemma_collect_ok_entries(
    map: Seq<(Seq<char>, Seq<ConfigV>)>,
    date: Date,
    list: Seq<ScheduleV>,
    today: Seq<Seq<char>>,
    tomorrow: Seq<Seq<char>>,
    k: int,
)
    requires
        0 <= k <= list.len(),
        spec_collect_sequences(map, date, list, today, tomorrow, k) is Ok,
    ensures
        forall|j: int| 0 <= j < k ==> #[trigger] entry_sequences(map, date, list, today, tomorrow, j) is Ok,
    decreases k,
{
    if k > 0 {
        lemma_collect_ok_entries(map, date, list, today, tomorrow, k - 1);
    }
}

proof fn lemma_collect_err_witness(
    map: Seq<(Seq<char>, Seq<ConfigV>)>,
    date: Date,
    list: Seq<ScheduleV>,
    today: Seq<Seq<char>>,
    tomorrow: Seq<Seq<char>>,
    k: int,
)
    requires
        0 <= k <= list.len(),
        spec_collect_sequences(map, date, list, today, tomorrow, k) is Err,
    ensures
        exists|i: int| 0 <= i < k
            && spec_collect_sequences(map, date, list, today, tomorrow, k) == #[trigger] entry_sequences(map, date, list, today, tomorrow, i)
            && forall|j: int| 0 <= j < i ==> #[trigger] entry_sequences(map, date, list, today, tomorrow, j) is Ok,
    decreases k,
{
    if spec_collect_sequences(map, date, list, today, tomorrow, k - 1) is Err {
        lemma_collect_err_witness(map, date, list, today, tomorrow, k - 1);
        let i = choose|i: int| 0 <= i < k - 1
            && spec_collect_sequences(map, date, list, today, tomorrow, k - 1) == #[trigger] entry_sequences(map, date, list, today, tomorrow, i)
            && forall|j: int| 0 <= j < i ==> #[trigger] entry_sequences(map, date, list, today, tomorrow, j) is Ok;
        assert(spec_collect_sequences(map, date, list, today, tomorrow, k) == entry_sequences(map, date, list, today, tomorrow, i));
    } else {
        lemma_collect_ok_entries(map, date, list, today, tomorrow, k - 1);
        assert(spec_collect_sequences(map, date, list, today, tomorrow, k) == entry_sequences(map, date, list, today, tomorrow, k - 1));
    }
}

/// Law: the day's sequences are found when every entry's sequence is; then
/// they are all the entries' sequences, in time order, with sequences of the
/// same start and end time in schedule order. Otherwise the first entry whose
/// sequence fails gives the error: a missing name gives `NoSequence` with
/// that name.
pub proof fn law_schedule_list_to_sequence(
    map: Seq<(Seq<char>, Seq<ConfigV>)>,
    date: Date,
    list: Seq<ScheduleV>,
    today: Seq<Seq<char>>,
    tomorrow: Seq<Seq<char>>,
    start_time: int,
    end_time: int,
)
    ensures
        (forall|j: int| 0 <= j < list.len() ==> #[trigger] entry_sequences(map, date, list, today, tomorrow, j) is Ok)
            ==> spec_schedule_list_to_sequence(map, date, list, today, tomorrow) is Ok,
        spec_schedule_list_to_sequence(map, date, list, today, tomorrow) matches Ok(s) ==> {
            let all = spec_collect_sequences(map, date, list, today, tomorrow, list.len() as int)->Ok_0;
            &&& s == sort_by_time(all)
            &&& forall|i: int, j: int| 0 <= i < j < s.len() ==> !time_before(#[trigger] s[j], #[trigger] s[i])
            &&& s.to_multiset() == all.to_multiset()
            &&& s.filter(|x: SequenceV| x.start_time == start_time && x.end_time == end_time)
                == all.filter(|x: SequenceV| x.start_time == start_time && x.end_time == end_time)
        },
        forall|i: int| 0 <= i < list.len() && #[trigger] entry_sequences(map, date, list, today, tomorrow, i) is Err
            && (forall|j: int| 0 <= j < i ==> #[trigger] entry_sequences(map, date, list, today, tomorrow, j) is Ok)
            ==> spec_schedule_list_to_sequence(map, date, list, today, tomorrow) == entry_sequences(map, date, list, today, tomorrow, i),
        forall|i: int| 0 <= i < list.len() && lookup_config(map, (#[trigger] list[i]).sequence_name) is None
            ==> entry_sequences(map, date, list, today, tomorrow, i) == Err::<Seq<SequenceV>, SequenceErrorV>(SequenceErrorV::NoSequence(list[i].sequence_name)),
{
    lemma_collect_first_failure(map, date, list, today, tomorrow, list.len() as int);
    match spec_collect_sequences(map, date, list, today, tomorrow, list.len() as int) {
        Ok(all) => {
            law_sort_by_time_sorted(all);
            law_sort_by_time_permutes(all);
            law_sort_by_time_stable(all, start_time, end_time);
        },
        Err(_) => {},
    }
}

/// The sequences of a day's schedule, ordered by time.
pub open spec fn spec_schedule_list_to_sequence(
    map: Seq<(Seq<char>, Seq<ConfigV>)>,
    date: Date,
    list: Seq<ScheduleV>,
    today: Seq<Seq<char>>,
    tomorrow: Seq<Seq<char>>,
) -> Result<Seq<SequenceV>, SequenceErrorV> {
    match spec_collect_sequences(map, date, list, today, tomorrow, list.len() as int) {
        Err(e) => Err(e),
        Ok(all) => Ok(sort_by_time(all)),
    }
}

/// The sequences of all entries of a day's schedule, ordered by start time
/// and then end time; the first entry whose sequence fails gives the error.
pub fn schedule_list_to_sequence(
    config_map: &Vec<(String, Vec<Config>)>,
    schedule_date: Date,
    schedule_list: &Vec<Schedule>,
    today: &Vec<String>,
    tomorrow: &Vec<String>,
) -> (r: Result<Vec<Sequence>, SequenceError>)
    ensures
        sequences_result_view(r) == spec_schedule_list_to_sequence(
            config_map_view(config_map@), schedule_date, schedules_view(schedule_list@),
            strings_view(today@), strings_view(tomorrow@)),
        ({
            let map = config_map_view(config_map@);
            let list = schedules_view(schedule_list@);
            let td = strings_view(today@);
            let tm = strings_view(tomorrow@);
            &&& r is Ok <==> forall|j: int| 0 <= j < list.len() ==> #[trigger] entry_sequences(map, schedule_date, list, td, tm, j) is Ok
            &&& r matches Err(e) ==> exists|i: int| 0 <= i < list.len()
                && #[trigger] entry_sequences(map, schedule_date, list, td, tm, i) == Err::<Seq<SequenceV>, SequenceErrorV>(e@)
                && forall|j: int| 0 <= j < i ==> #[trigger] entry_sequences(map, schedule_date, list, td, tm, j) is Ok
            &&& r matches Ok(v) ==> {
                let all = spec_collect_sequences(map, schedule_date, list, td, tm, list.len() as int)->Ok_0;
                &&& forall|i: int, j: int| 0 <= i < j < v@.len()
                    ==> !time_before(#[trigger] sequences_view(v@)[j], #[trigger] sequences_view(v@)[i])
                &&& sequences_view(v@).to_multiset() == all.to_multiset()
                &&& forall|st: int, et: int| #[trigger] same_times(sequences_view(v@), st, et) == same_times(all, st, et)
            }
        }),
{
    let ghost map = config_map_view(config_map@);
    let ghost list = schedules_view(schedule_list@);
    let mut sequences: Vec<Sequence> = Vec::new();
    let mut i: usize = 0;
    assert(sequences_view(sequences@) =~= Seq::<SequenceV>::empty());
    while i < schedule_list.len()
        invariant
            i <= schedule_list@.len(),
            map == config_map_view(config_map@),
            list == schedules_view(schedule_list@),
            spec_collect_sequences(map, schedule_date, list, strings_view(today@), strings_view(tomorrow@), i as int)
                == Ok::<Seq<SequenceV>, SequenceErrorV>(sequences_view(sequences@)),
        decreases schedule_list@.len() - i,
    {
        let schedule = &schedule_list[i];
        assert(list[i as int] == schedule@);
        let r = get_sequence_with_config(
            config_map, schedule_date, &schedule.sequence_name, today, tomorrow, &schedule.options, schedule.datetime);
        match r {
            Err(e) => {
                proof {
                    lemma_collect_err(map, schedule_date, list, strings_view(today@), strings_view(tomorrow@),
                        i as int + 1, list.len() as int);
                    lemma_collect_err_witness(map, schedule_date, list, strings_view(today@), strings_view(tomorrow@),
                        list.len() as int);
                    lemma_collect_first_failure(map, schedule_date, list, strings_view(today@), strings_view(tomorrow@),
                        list.len() as int);
                }
                return Err(e);
            },
            Ok(more) => {
                let mut more = more;
                let ghost before = sequences@;
                let ghost added = more@;
                sequences.append(&mut more);
                assert(sequences_view(sequences@) =~= sequences_view(before) + sequences_view(added));
            },
        }
        i = i + 1;
    }
    proof {
        lemma_collect_ok_entries(map, schedule_date, list, strings_view(today@), strings_view(tomorrow@), list.len() as int);
        law_sort_by_time_sorted(sequences_view(sequences@));
        law_sort_by_time_permutes(sequences_view(sequences@));
        assert forall|st: int, et: int| #[trigger] same_times(sort_by_time(sequences_view(sequences@)), st, et)
            == same_times(sequences_view(sequences@), st, et) by {
            law_sort_by_time_stable(sequences_view(sequences@), st, et);
        }
    }
    Ok(sort_sequences(sequences))
}

/// Check that every sequence named by the schedule is configured; the first
/// one that is not is the error.
pub fn check_schedule(sequence_names: &Vec<String>, sequence: &Vec<(String, Vec<Config>)>) -> (r: Result<(), ConfigCheckError>)
    ensures
        r is Ok <==> forall|i: int| 0 <= i < sequence_names@.len()
            ==> lookup_config(config_map_view(sequence@), #[trigger] sequence_names@[i]@) is Some,
        r matches Err(ConfigCheckError::SequenceError(name)) ==> exists|i: int| 0 <= i < sequence_names@.len()
            && name@ == sequence_names@[i]@
            && lookup_config(config_map_view(sequence@), #[trigger] sequence_names@[i]@) is None
            && forall|j: int| 0 <= j < i ==> lookup_config(config_map_view(sequence@), #[trigger] sequence_names@[j]@) is Some,
{
    let mut i: usize = 0;
    while i < sequence_names.len()
        invariant
            i <= sequence_names@.len(),
            forall|j: int| 0 <= j < i ==> lookup_config(config_map_view(sequence@), #[trigger] sequence_names@[j]@) is Some,
        decreases sequence_names@.len() - i,
    {
        if find_config(sequence, &sequence_names[i]).is_none() {
            return Err(ConfigCheckError::SequenceError(copy_string(&sequence_names[i])));
        }
        i = i + 1;
    }
    Ok(())
}

impl Status {
    /// Has the sequence finished, by running or by being cancelled?
    pub fn is_done(self) -> (done: bool)
        ensures
            done == (self == Status::Completed || self == Status::Cancelled),
    {
        match self {
            Status::Completed | Status::Cancelled => true,
            Status::Pending | Status::InProgress => false,
        }
    }
}

impl Sequence {
    /// Has the sequence finished? A sequence with no status has not.
    pub fn is_done(&self) -> (done: bool)
        ensures
            done == (self.status matches Some(s) && (s == Status::Completed || s == Status::Cancelled)),
    {
        match self.status {
            Some(s) => s.is_done(),
            None => false,
        }
    }
}

} // verus!
