//! The decisions of the schedule executor: which sequences are marked, what
//! state each sequence is in, which start and stop events are due, and what a
//! due event does.
//!
//! The executor's loop (timers, MQTT, loading configuration) lives outside
//! the library; it hands the events and the time to these functions and sends
//! the messages they return.
use vstd::prelude::*;
use crate::dates::Date;
use crate::order::{insert_pos, lemma_insert_pos_step, lemma_insert_pos_stop, lemma_sort_by_permutes, lemma_sort_by_sorted, lemma_sort_by_take, sort_by, strict_weak_order};
use crate::sequencer::{
    sequences_view, Importance, Mark, MarkStatus, MarkV, Sequence, SequenceV, Status,
};
use crate::tasks::{get_task_messages, MqttMessage, MqttMessageV, Task, TaskV, spec_task_messages};
use crate::text::copy_string;

verus! {

broadcast use {vstd::string::group_string_axioms, vstd::seq_lib::group_to_multiset_ensures};

impl Mark {
    /// A copy of the mark.
    pub fn duplicate(&self) -> (copy: Mark)
        ensures
            copy@ == self@,
    {
        Mark { id: copy_string(&self.id), status: self.status, start_time: self.start_time, end_time: self.end_time }
    }
}

// ---------------------------------------------------------------------------
// Marks.

/// The marks users have set, at most one per sequence id.
pub struct AllMarks {
    marks: Vec<Mark>,
}

/// The marks of a list, by id.
pub open spec fn marks_map(s: Seq<MarkV>) -> Map<Seq<char>, MarkV> {
    Map::new(
        |id: Seq<char>| exists|i: int| 0 <= i < s.len() && (#[trigger] s[i]).id == id,
        |id: Seq<char>| s[choose|i: int| 0 <= i < s.len() && (#[trigger] s[i]).id == id],
    )
}

/// No two marks of the list have the same id.
pub open spec fn distinct_ids(s: Seq<MarkV>) -> bool {
    forall|i: int, j: int| 0 <= i < s.len() && 0 <= j < s.len() && i != j ==> (#[trigger] s[i]).id != (#[trigger] s[j]).id
}

proof fn lemma_marks_map_at(s: Seq<MarkV>, i: int)
    requires
        distinct_ids(s),
        0 <= i < s.len(),
    ensures
        marks_map(s).dom().contains(s[i].id),
        marks_map(s)[s[i].id] == s[i],
{
    let id = s[i].id;
    assert(exists|k: int| 0 <= k < s.len() && (#[trigger] s[k]).id == id);
    let k = choose|k: int| 0 <= k < s.len() && (#[trigger] s[k]).id == id;
    assert(k == i);
}

impl View for AllMarks {
    type V = Map<Seq<char>, MarkV>;

    closed spec fn view(&self) -> Map<Seq<char>, MarkV> {
        marks_map(self.marks@.map_values(|m: Mark| m@))
    }
}

/// The mark of a sequence: the mark with its id whose period covers it.
pub open spec fn mark_for(marks: Map<Seq<char>, MarkV>, s: SequenceV) -> Option<MarkV> {
    if marks.dom().contains(s.id) && marks[s.id].start_time <= s.start_time && s.end_time < marks[s.id].end_time {
        Some(marks[s.id])
    } else {
        None
    }
}

/// An optional mark.
pub open spec fn opt_mark(o: Option<Mark>) -> Option<MarkV> {
    match o {
        Some(m) => Some(m@),
        None => None,
    }
}

impl AllMarks {
    /// Is the list of marks well formed?
    pub closed spec fn wf(&self) -> bool {
        distinct_ids(self.marks@.map_values(|m: Mark| m@))
    }

    /// No marks.
    pub fn new() -> (m: AllMarks)
        ensures
            m.wf(),
            m@ == Map::<Seq<char>, MarkV>::empty(),
    {
        let m = AllMarks { marks: Vec::new() };
        assert(m@ =~= Map::<Seq<char>, MarkV>::empty());
        m
    }

    /// The mark of the sequence, if its period covers the sequence.
    pub fn get(&self, sequence: &Sequence) -> (r: Option<Mark>)
        requires
            self.wf(),
        ensures
            opt_mark(r) == mark_for(self@, sequence@),
    {
        let ghost s = self.marks@.map_values(|m: Mark| m@);
        let mut i: usize = 0;
        while i < self.marks.len()
            invariant
                i <= self.marks@.len(),
                s == self.marks@.map_values(|m: Mark| m@),
                distinct_ids(s),
                forall|j: int| 0 <= j < i ==> (#[trigger] s[j]).id != sequence.id@,
            decreases self.marks@.len() - i,
        {
            let mark = &self.marks[i];
            assert(s[i as int] == mark@);
            if mark.id == sequence.id {
                proof { lemma_marks_map_at(s, i as int); }
                if mark.start_time <= sequence.start_time && sequence.end_time < mark.end_time {
                    return Some(mark.duplicate());
                } else {
                    return None;
                }
            }
            i = i + 1;
        }
        assert(!marks_map(s).dom().contains(sequence.id@));
        None
    }

    /// Set a mark, replacing the mark with the same id.
    pub fn insert(&mut self, mark: Mark)
        requires
            old(self).wf(),
        ensures
            final(self).wf(),
            final(self)@ == old(self)@.insert(mark.id@, mark@),
    {
        let ghost s0 = self.marks@.map_values(|m: Mark| m@);
        let mut i: usize = 0;
        while i < self.marks.len()
            invariant
                i <= self.marks@.len(),
                s0 == self.marks@.map_values(|m: Mark| m@),
                self.marks@ == old(self).marks@,
                distinct_ids(s0),
                forall|j: int| 0 <= j < i ==> (#[trigger] s0[j]).id != mark.id@,
            decreases self.marks@.len() - i,
        {
            assert(s0[i as int] == self.marks@[i as int]@);
            if self.marks[i].id == mark.id {
                let ghost mv = mark@;
                self.marks.set(i, mark);
                proof {
                    let s1 = self.marks@.map_values(|m: Mark| m@);
                    assert(s1 =~= s0.update(i as int, mv));
                    assert forall|a: int, b: int| 0 <= a < s1.len() && 0 <= b < s1.len() && a != b
                        implies (#[trigger] s1[a]).id != (#[trigger] s1[b]).id by {
                        if a != i && b != i {
                            assert(s1[a] == s0[a] && s1[b] == s0[b]);
                        } else if a == i {
                            assert(s0[a].id == mv.id);
                            assert(s1[b] == s0[b]);
                        } else {
                            assert(s0[b].id == mv.id);
                            assert(s1[a] == s0[a]);
                        }
                    }
                    assert(marks_map(s1) =~= marks_map(s0).insert(mv.id, mv)) by {
                        assert forall|id: Seq<char>| #[trigger] marks_map(s1).dom().contains(id)
                            == marks_map(s0).insert(mv.id, mv).dom().contains(id) by {
                            if marks_map(s1).dom().contains(id) {
                                let k = choose|k: int| 0 <= k < s1.len() && (#[trigger] s1[k]).id == id;
                                if k != i {
                                    assert(s0[k] == s1[k]);
                                }
                            }
                            if marks_map(s0).dom().contains(id) {
                                let k = choose|k: int| 0 <= k < s0.len() && (#[trigger] s0[k]).id == id;
                                if k != i {
                                    assert(s1[k] == s0[k]);
                                } else {
                                    assert(s1[k].id == id);
                                }
                            }
                            if id == mv.id {
                                assert(s1[i as int].id == id);
                            }
                        }
                        assert forall|id: Seq<char>| #[trigger] marks_map(s1).dom().contains(id)
                            implies marks_map(s1)[id] == marks_map(s0).insert(mv.id, mv)[id] by {
                            let k = choose|k: int| 0 <= k < s1.len() && (#[trigger] s1[k]).id == id;
                            lemma_marks_map_at(s1, k);
                            if k != i {
                                assert(s0[k] == s1[k]);
                                lemma_marks_map_at(s0, k);
                            }
                        }
                    }
                }
                return;
            }
            i = i + 1;
        }
        let ghost mv = mark@;
        self.marks.push(mark);
        proof {
            let s1 = self.marks@.map_values(|m: Mark| m@);
            assert(s1 =~= s0.push(mv));
            assert forall|a: int, b: int| 0 <= a < s1.len() && 0 <= b < s1.len() && a != b
                implies (#[trigger] s1[a]).id != (#[trigger] s1[b]).id by {
                if a < s0.len() && b < s0.len() {
                    assert(s1[a] == s0[a] && s1[b] == s0[b]);
                } else if a < s0.len() {
                    assert(s1[a] == s0[a]);
                } else {
                    assert(s1[b] == s0[b]);
                }
            }
            assert(marks_map(s1) =~= marks_map(s0).insert(mv.id, mv)) by {
                assert forall|id: Seq<char>| #[trigger] marks_map(s1).dom().contains(id)
                    == marks_map(s0).insert(mv.id, mv).dom().contains(id) by {
                    if marks_map(s1).dom().contains(id) {
                        let k = choose|k: int| 0 <= k < s1.len() && (#[trigger] s1[k]).id == id;
                        if k < s0.len() {
                            assert(s0[k] == s1[k]);
                        }
                    }
                    if marks_map(s0).dom().contains(id) {
                        let k = choose|k: int| 0 <= k < s0.len() && (#[trigger] s0[k]).id == id;
                        assert(s1[k] == s0[k]);
                    }
                    if id == mv.id {
                        assert(s1[s0.len() as int].id == id);
                    }
                }
                assert forall|id: Seq<char>| #[trigger] marks_map(s1).dom().contains(id)
                    implies marks_map(s1)[id] == marks_map(s0).insert(mv.id, mv)[id] by {
                    let k = choose|k: int| 0 <= k < s1.len() && (#[trigger] s1[k]).id == id;
                    lemma_marks_map_at(s1, k);
                    if k < s0.len() {
                        assert(s0[k] == s1[k]);
                        lemma_marks_map_at(s0, k);
                    }
                }
            }
        }
    }

    /// Forget the marks whose period has ended by `now`.
    pub fn expire(&mut self, now: i64)
        requires
            old(self).wf(),
        ensures
            final(self).wf(),
            final(self)@ == old(self)@.restrict(old(self)@.dom().filter(|id: Seq<char>| old(self)@[id].end_time > now)),
    {
        let ghost s0 = self.marks@.map_values(|m: Mark| m@);
        let mut kept: Vec<Mark> = Vec::new();
        let mut i: usize = 0;
        while i < self.marks.len()
            invariant
                i <= self.marks@.len(),
                s0 == self.marks@.map_values(|m: Mark| m@),
                distinct_ids(s0),
                distinct_ids(kept@.map_values(|m: Mark| m@)),
                forall|k: int| 0 <= k < kept@.len() ==> (#[trigger] kept@[k])@.end_time > now
                    && exists|j: int| 0 <= j < i && s0[j] == kept@[k]@,
                forall|j: int| 0 <= j < i && (#[trigger] s0[j]).end_time > now
                    ==> exists|k: int| 0 <= k < kept@.len() && kept@[k]@ == s0[j],
            decreases self.marks@.len() - i,
        {
            let m = &self.marks[i];
            assert(s0[i as int] == m@);
            if m.end_time > now {
                let ghost kv = kept@.map_values(|m: Mark| m@);
                let ghost kept_before = kept@;
                let c = m.duplicate();
                kept.push(c);
                proof {
                    let k1 = kept@.map_values(|m: Mark| m@);
                    assert(k1 =~= kv.push(s0[i as int]));
                    assert forall|a: int, b: int| 0 <= a < k1.len() && 0 <= b < k1.len() && a != b
                        implies (#[trigger] k1[a]).id != (#[trigger] k1[b]).id by {
                        if a < kv.len() && b < kv.len() {
                            assert(k1[a] == kv[a] && k1[b] == kv[b]);
                        } else if a < kv.len() {
                            assert(kept@[a]@ == k1[a]);
                            let j = choose|j: int| 0 <= j < i && s0[j] == kept@[a]@;
                            assert(s0[j].id != s0[i as int].id);
                        } else {
                            assert(kept@[b]@ == k1[b]);
                            let j = choose|j: int| 0 <= j < i && s0[j] == kept@[b]@;
                            assert(s0[j].id != s0[i as int].id);
                        }
                    }
                    assert forall|k: int| 0 <= k < kept@.len() implies (#[trigger] kept@[k])@.end_time > now
                        && exists|j: int| 0 <= j < i + 1 && s0[j] == kept@[k]@ by {
                        if k == kept@.len() - 1 {
                            assert(s0[i as int] == kept@[k]@);
                        } else {
                            assert(kept@[k] == kept_before[k]);
                        }
                    }
                    assert forall|j: int| 0 <= j < i + 1 && (#[trigger] s0[j]).end_time > now
                        implies exists|k: int| 0 <= k < kept@.len() && kept@[k]@ == s0[j] by {
                        if j == i {
                            assert(kept@[kept@.len() - 1]@ == s0[j]);
                        } else {
                            let k = choose|k: int| 0 <= k < kept_before.len() && kept_before[k]@ == s0[j];
                            assert(kept@[k] == kept_before[k]);
                        }
                    }
                }
            }
            i = i + 1;
        }
        self.marks = kept;
        proof {
            let s1 = self.marks@.map_values(|m: Mark| m@);
            let old_map = marks_map(s0);
            let target = old_map.restrict(old_map.dom().filter(|id: Seq<char>| old_map[id].end_time > now));
            assert forall|id: Seq<char>| #[trigger] marks_map(s1).dom().contains(id) == target.dom().contains(id) by {
                if marks_map(s1).dom().contains(id) {
                    let k = choose|k: int| 0 <= k < s1.len() && (#[trigger] s1[k]).id == id;
                    assert(self.marks@[k]@ == s1[k]);
                    let j = choose|j: int| 0 <= j < s0.len() && s0[j] == self.marks@[k]@;
                    lemma_marks_map_at(s0, j);
                }
                if target.dom().contains(id) {
                    let j = choose|j: int| 0 <= j < s0.len() && (#[trigger] s0[j]).id == id;
                    lemma_marks_map_at(s0, j);
                    let k = choose|k: int| 0 <= k < self.marks@.len() && self.marks@[k]@ == s0[j];
                    assert(s1[k].id == id);
                }
            }
            assert forall|id: Seq<char>| #[trigger] marks_map(s1).dom().contains(id)
                implies marks_map(s1)[id] == target[id] by {
                let k = choose|k: int| 0 <= k < s1.len() && (#[trigger] s1[k]).id == id;
                lemma_marks_map_at(s1, k);
                assert(self.marks@[k]@ == s1[k]);
                let j = choose|j: int| 0 <= j < s0.len() && s0[j] == self.marks@[k]@;
                lemma_marks_map_at(s0, j);
            }
            assert(marks_map(s1) =~= target);
        }
    }
}


// ---------------------------------------------------------------------------
// Status of sequences.

/// The status of one run of a sequence on a date.
pub struct StatusEntry {
    /// The date the sequence was scheduled for.
    pub date: Date,
    /// The id of the sequence.
    pub id: String,
    /// The number of the repeat.
    pub repeat_number: usize,
    /// Its status.
    pub status: Status,
}

/// What a status is kept under: the date, the id and the repeat number.
pub type StatusKey = (Date, Seq<char>, int);

pub struct StatusEntryV {
    pub key: StatusKey,
    pub status: Status,
}

impl View for StatusEntry {
    type V = StatusEntryV;

    open spec fn view(&self) -> StatusEntryV {
        StatusEntryV { key: (self.date, self.id@, self.repeat_number as int), status: self.status }
    }
}

/// The statuses of a list, by key.
pub open spec fn status_map(s: Seq<StatusEntryV>) -> Map<StatusKey, Status> {
    Map::new(
        |k: StatusKey| exists|i: int| 0 <= i < s.len() && (#[trigger] s[i]).key == k,
        |k: StatusKey| s[choose|i: int| 0 <= i < s.len() && (#[trigger] s[i]).key == k].status,
    )
}

/// No two entries of the list have the same key.
pub open spec fn distinct_keys(s: Seq<StatusEntryV>) -> bool {
    forall|i: int, j: int| 0 <= i < s.len() && 0 <= j < s.len() && i != j ==> (#[trigger] s[i]).key != (#[trigger] s[j]).key
}

proof fn lemma_status_map_at(s: Seq<StatusEntryV>, i: int)
    requires
        distinct_keys(s),
        0 <= i < s.len(),
    ensures
        status_map(s).dom().contains(s[i].key),
        status_map(s)[s[i].key] == s[i].status,
{
    let k = s[i].key;
    assert(exists|j: int| 0 <= j < s.len() && (#[trigger] s[j]).key == k);
    let j = choose|j: int| 0 <= j < s.len() && (#[trigger] s[j]).key == k;
    assert(j == i);
}

/// The statuses of the runs of sequences, by date, id and repeat number.
pub struct AllStatus {
    entries: Vec<StatusEntry>,
}

impl View for AllStatus {
    type V = Map<StatusKey, Status>;

    closed spec fn view(&self) -> Map<StatusKey, Status> {
        status_map(self.entries@.map_values(|e: StatusEntry| e@))
    }
}

/// The key of a run.
pub open spec fn key_of(s: SequenceV) -> StatusKey {
    (s.schedule_date, s.id, s.repeat_number)
}

/// The recorded status of a run; pending when none is recorded.
pub open spec fn status_of(st: Map<StatusKey, Status>, s: SequenceV) -> Status {
    if st.dom().contains(key_of(s)) {
        st[key_of(s)]
    } else {
        Status::Pending
    }
}

impl AllStatus {
    /// Is the list of statuses well formed?
    pub closed spec fn wf(&self) -> bool {
        distinct_keys(self.entries@.map_values(|e: StatusEntry| e@))
    }

    /// No statuses.
    pub fn new() -> (a: AllStatus)
        ensures
            a.wf(),
            a@ == Map::<StatusKey, Status>::empty(),
    {
        let a = AllStatus { entries: Vec::new() };
        assert(a@ =~= Map::<StatusKey, Status>::empty());
        a
    }

    /// The status of the run; pending when none is recorded.
    pub fn get(&self, sequence: &Sequence) -> (st: Status)
        requires
            self.wf(),
        ensures
            st == status_of(self@, sequence@),
    {
        let ghost s = self.entries@.map_values(|e: StatusEntry| e@);
        let mut i: usize = 0;
        while i < self.entries.len()
            invariant
                i <= self.entries@.len(),
                s == self.entries@.map_values(|e: StatusEntry| e@),
                distinct_keys(s),
                forall|j: int| 0 <= j < i ==> (#[trigger] s[j]).key != key_of(sequence@),
            decreases self.entries@.len() - i,
        {
            let e = &self.entries[i];
            assert(s[i as int] == e@);
            if e.date == sequence.schedule_date && e.repeat_number == sequence.repeat_number && e.id == sequence.id {
                proof { lemma_status_map_at(s, i as int); }
                return e.status;
            }
            i = i + 1;
        }
        assert(!status_map(s).dom().contains(key_of(sequence@)));
        Status::Pending
    }

    /// Record the status of a run, replacing the one recorded before.
    pub fn insert(&mut self, sequence: &Sequence, status: Status)
        requires
            old(self).wf(),
        ensures
            final(self).wf(),
            final(self)@ == old(self)@.insert(key_of(sequence@), status),
    {
        let ghost s0 = self.entries@.map_values(|e: StatusEntry| e@);
        let ghost key = key_of(sequence@);
        let mut i: usize = 0;
        while i < self.entries.len()
            invariant
                i <= self.entries@.len(),
                s0 == self.entries@.map_values(|e: StatusEntry| e@),
                self.entries@ == old(self).entries@,
                key == key_of(sequence@),
                distinct_keys(s0),
                forall|j: int| 0 <= j < i ==> (#[trigger] s0[j]).key != key,
            decreases self.entries@.len() - i,
        {
            assert(s0[i as int] == self.entries@[i as int]@);
            if self.entries[i].date == sequence.schedule_date && self.entries[i].repeat_number == sequence.repeat_number
                && self.entries[i].id == sequence.id {
                let entry = StatusEntry {
                    date: sequence.schedule_date,
                    id: copy_string(&sequence.id),
                    repeat_number: sequence.repeat_number,
                    status,
                };
                let ghost ev = entry@;
                self.entries.set(i, entry);
                proof {
                    let s1 = self.entries@.map_values(|e: StatusEntry| e@);
                    assert(s1 =~= s0.update(i as int, ev));
                    assert forall|a: int, b: int| 0 <= a < s1.len() && 0 <= b < s1.len() && a != b
                        implies (#[trigger] s1[a]).key != (#[trigger] s1[b]).key by {
                        if a != i && b != i {
                            assert(s1[a] == s0[a] && s1[b] == s0[b]);
                        } else if a == i {
                            assert(s1[b] == s0[b]);
                        } else {
                            assert(s1[a] == s0[a]);
                        }
                    }
                    lemma_status_update(s0, s1, i as int, ev);
                }
                return;
            }
            i = i + 1;
        }
        let entry = StatusEntry {
            date: sequence.schedule_date,
            id: copy_string(&sequence.id),
            repeat_number: sequence.repeat_number,
            status,
        };
        let ghost ev = entry@;
        self.entries.push(entry);
        proof {
            let s1 = self.entries@.map_values(|e: StatusEntry| e@);
            assert(s1 =~= s0.push(ev));
            assert forall|a: int, b: int| 0 <= a < s1.len() && 0 <= b < s1.len() && a != b
                implies (#[trigger] s1[a]).key != (#[trigger] s1[b]).key by {
                if a < s0.len() && b < s0.len() {
                    assert(s1[a] == s0[a] && s1[b] == s0[b]);
                } else if a < s0.len() {
                    assert(s1[a] == s0[a]);
                } else {
                    assert(s1[b] == s0[b]);
                }
            }
            lemma_status_push(s0, s1, ev);
        }
    }

    /// Forget the statuses of dates outside `start..=end`.
    pub fn expire(&mut self, start: Date, end: Date)
        requires
            old(self).wf(),
        ensures
            final(self).wf(),
            final(self)@ == old(self)@.restrict(old(self)@.dom().filter(|k: StatusKey|
                start.days_from_ce <= k.0.days_from_ce <= end.days_from_ce)),
    {
        let ghost s0 = self.entries@.map_values(|e: StatusEntry| e@);
        let mut kept: Vec<StatusEntry> = Vec::new();
        let mut i: usize = 0;
        while i < self.entries.len()
            invariant
                i <= self.entries@.len(),
                s0 == self.entries@.map_values(|e: StatusEntry| e@),
                distinct_keys(s0),
                distinct_keys(kept@.map_values(|e: StatusEntry| e@)),
                forall|k: int| 0 <= k < kept@.len() ==> start.days_from_ce <= (#[trigger] kept@[k])@.key.0.days_from_ce <= end.days_from_ce
                    && exists|j: int| 0 <= j < i && s0[j] == kept@[k]@,
                forall|j: int| 0 <= j < i && start.days_from_ce <= (#[trigger] s0[j]).key.0.days_from_ce <= end.days_from_ce
                    ==> exists|k: int| 0 <= k < kept@.len() && kept@[k]@ == s0[j],
            decreases self.entries@.len() - i,
        {
            let e = &self.entries[i];
            assert(s0[i as int] == e@);
            if start.days_from_ce <= e.date.days_from_ce && e.date.days_from_ce <= end.days_from_ce {
                let ghost kv = kept@.map_values(|e: StatusEntry| e@);
                let ghost kept_before = kept@;
                let c = StatusEntry { date: e.date, id: copy_string(&e.id), repeat_number: e.repeat_number, status: e.status };
                kept.push(c);
                proof {
                    let k1 = kept@.map_values(|e: StatusEntry| e@);
                    assert(k1 =~= kv.push(s0[i as int]));
                    assert forall|a: int, b: int| 0 <= a < k1.len() && 0 <= b < k1.len() && a != b
                        implies (#[trigger] k1[a]).key != (#[trigger] k1[b]).key by {
                        if a < kv.len() && b < kv.len() {
                            assert(k1[a] == kv[a] && k1[b] == kv[b]);
                        } else if a < kv.len() {
                            assert(kept@[a]@ == k1[a]);
                            let j = choose|j: int| 0 <= j < i && s0[j] == kept@[a]@;
                            assert(s0[j].key != s0[i as int].key);
                        } else {
                            assert(kept@[b]@ == k1[b]);
                            let j = choose|j: int| 0 <= j < i && s0[j] == kept@[b]@;
                            assert(s0[j].key != s0[i as int].key);
                        }
                    }
                    assert forall|k: int| 0 <= k < kept@.len() implies start.days_from_ce <= (#[trigger] kept@[k])@.key.0.days_from_ce <= end.days_from_ce
                        && exists|j: int| 0 <= j < i + 1 && s0[j] == kept@[k]@ by {
                        if k == kept@.len() - 1 {
                            assert(s0[i as int] == kept@[k]@);
                        } else {
                            assert(kept@[k] == kept_before[k]);
                        }
                    }
                    assert forall|j: int| 0 <= j < i + 1 && start.days_from_ce <= (#[trigger] s0[j]).key.0.days_from_ce <= end.days_from_ce
                        implies exists|k: int| 0 <= k < kept@.len() && kept@[k]@ == s0[j] by {
                        if j == i {
                            assert(kept@[kept@.len() - 1]@ == s0[j]);
                        } else {
                            let k = choose|k: int| 0 <= k < kept_before.len() && kept_before[k]@ == s0[j];
                            assert(kept@[k] == kept_before[k]);
                        }
                    }
                }
            }
            i = i + 1;
        }
        self.entries = kept;
        proof {
            let s1 = self.entries@.map_values(|e: StatusEntry| e@);
            let old_map = status_map(s0);
            let target = old_map.restrict(old_map.dom().filter(|k: StatusKey|
                start.days_from_ce <= k.0.days_from_ce <= end.days_from_ce));
            assert forall|key: StatusKey| #[trigger] status_map(s1).dom().contains(key) == target.dom().contains(key) by {
                if status_map(s1).dom().contains(key) {
                    let k = choose|k: int| 0 <= k < s1.len() && (#[trigger] s1[k]).key == key;
                    assert(self.entries@[k]@ == s1[k]);
                    let j = choose|j: int| 0 <= j < s0.len() && s0[j] == self.entries@[k]@;
                    lemma_status_map_at(s0, j);
                }
                if target.dom().contains(key) {
                    let j = choose|j: int| 0 <= j < s0.len() && (#[trigger] s0[j]).key == key;
                    lemma_status_map_at(s0, j);
                    let k = choose|k: int| 0 <= k < self.entries@.len() && self.entries@[k]@ == s0[j];
                    assert(s1[k].key == key);
                }
            }
            assert forall|key: StatusKey| #[trigger] status_map(s1).dom().contains(key)
                implies status_map(s1)[key] == target[key] by {
                let k = choose|k: int| 0 <= k < s1.len() && (#[trigger] s1[k]).key == key;
                lemma_status_map_at(s1, k);
                assert(self.entries@[k]@ == s1[k]);
                let j = choose|j: int| 0 <= j < s0.len() && s0[j] == self.entries@[k]@;
                lemma_status_map_at(s0, j);
            }
            assert(status_map(s1) =~= target);
        }
    }
}

proof fn lemma_status_update(s0: Seq<StatusEntryV>, s1: Seq<StatusEntryV>, i: int, ev: StatusEntryV)
    requires
        distinct_keys(s0),
        distinct_keys(s1),
        0 <= i < s0.len(),
        s0[i].key == ev.key,
        s1 == s0.update(i, ev),
    ensures
        status_map(s1) == status_map(s0).insert(ev.key, ev.status),
{
    assert forall|key: StatusKey| #[trigger] status_map(s1).dom().contains(key)
        == status_map(s0).insert(ev.key, ev.status).dom().contains(key) by {
        if status_map(s1).dom().contains(key) {
            let k = choose|k: int| 0 <= k < s1.len() && (#[trigger] s1[k]).key == key;
            if k != i {
                assert(s0[k] == s1[k]);
            }
        }
        if status_map(s0).dom().contains(key) {
            let k = choose|k: int| 0 <= k < s0.len() && (#[trigger] s0[k]).key == key;
            if k != i {
                assert(s1[k] == s0[k]);
            } else {
                assert(s1[k].key == key);
            }
        }
        if key == ev.key {
            assert(s1[i].key == key);
        }
    }
    assert forall|key: StatusKey| #[trigger] status_map(s1).dom().contains(key)
        implies status_map(s1)[key] == status_map(s0).insert(ev.key, ev.status)[key] by {
        let k = choose|k: int| 0 <= k < s1.len() && (#[trigger] s1[k]).key == key;
        lemma_status_map_at(s1, k);
        if k != i {
            assert(s0[k] == s1[k]);
            lemma_status_map_at(s0, k);
        }
    }
    assert(status_map(s1) =~= status_map(s0).insert(ev.key, ev.status));
}

proof fn lemma_status_push(s0: Seq<StatusEntryV>, s1: Seq<StatusEntryV>, ev: StatusEntryV)
    requires
        distinct_keys(s0),
        distinct_keys(s1),
        s1 == s0.push(ev),
    ensures
        status_map(s1) == status_map(s0).insert(ev.key, ev.status),
{
    assert forall|key: StatusKey| #[trigger] status_map(s1).dom().contains(key)
        == status_map(s0).insert(ev.key, ev.status).dom().contains(key) by {
        if status_map(s1).dom().contains(key) {
            let k = choose|k: int| 0 <= k < s1.len() && (#[trigger] s1[k]).key == key;
            if k < s0.len() {
                assert(s0[k] == s1[k]);
            }
        }
        if status_map(s0).dom().contains(key) {
            let k = choose|k: int| 0 <= k < s0.len() && (#[trigger] s0[k]).key == key;
            assert(s1[k] == s0[k]);
        }
        if key == ev.key {
            assert(s1[s0.len() as int].key == key);
        }
    }
    assert forall|key: StatusKey| #[trigger] status_map(s1).dom().contains(key)
        implies status_map(s1)[key] == status_map(s0).insert(ev.key, ev.status)[key] by {
        let k = choose|k: int| 0 <= k < s1.len() && (#[trigger] s1[k]).key == key;
        lemma_status_map_at(s1, k);
        if k < s0.len() {
            assert(s0[k] == s1[k]);
            lemma_status_map_at(s0, k);
        }
    }
    assert(status_map(s1) =~= status_map(s0).insert(ev.key, ev.status));
}


// ---------------------------------------------------------------------------
// Sequence state.

/// The state of a run: its recorded status, or, while it is pending, what its
/// mark says.
pub open spec fn spec_status(st: Map<StatusKey, Status>, marks: Map<Seq<char>, MarkV>, s: SequenceV) -> Status {
    match status_of(st, s) {
        Status::Pending => match mark_for(marks, s) {
            Some(m) => match m.status {
                MarkStatus::Done => Status::Completed,
                MarkStatus::Cancelled => Status::Cancelled,
            },
            None => Status::Pending,
        },
        other => other,
    }
}

/// The kind of an event.
#[derive(Clone, Copy, Debug, PartialEq, Eq, Structural)]
pub enum EventType {
    /// Start a sequence.
    Start,
    /// Stop a sequence.
    Stop,
}

/// A timed event of a sequence.
#[derive(Clone, Copy, Debug, PartialEq, Eq, Structural)]
pub struct Event {
    /// When it is due, in seconds since the Unix epoch.
    pub datetime: i64,
    /// The index of the sequence.
    pub sequence_index: usize,
    /// What to do.
    pub event_type: EventType,
}

/// Is `a` due before `b`: by time, then sequence index, then start before stop?
pub open spec fn event_before(a: Event, b: Event) -> bool {
    ||| a.datetime < b.datetime
    ||| (a.datetime == b.datetime && a.sequence_index < b.sequence_index)
    ||| (a.datetime == b.datetime && a.sequence_index == b.sequence_index
        && a.event_type == EventType::Start && b.event_type == EventType::Stop)
}

/// The order of events.
pub open spec fn event_order() -> spec_fn(Event, Event) -> bool {
    |a: Event, b: Event| event_before(a, b)
}

/// The events of one sequence: a start while it is pending, and a stop while
/// it is pending or in progress.
pub open spec fn sequence_events(status: Status, index: int, s: SequenceV) -> Seq<Event> {
    let start = Event { datetime: s.start_time as i64, sequence_index: index as usize, event_type: EventType::Start };
    let stop = Event { datetime: s.end_time as i64, sequence_index: index as usize, event_type: EventType::Stop };
    match status {
        Status::Pending => seq![start, stop],
        Status::InProgress => seq![stop],
        _ => Seq::empty(),
    }
}

/// The events of the first `k` sequences, in sequence order.
pub open spec fn spec_events(st: Map<StatusKey, Status>, marks: Map<Seq<char>, MarkV>, seqs: Seq<SequenceV>, k: int) -> Seq<Event>
    decreases k,
{
    if k <= 0 {
        Seq::empty()
    } else {
        spec_events(st, marks, seqs, k - 1) + sequence_events(spec_status(st, marks, seqs[k - 1]), k - 1, seqs[k - 1])
    }
}

/// The messages of a list of tasks, task by task.
pub open spec fn tasks_messages(tasks: Seq<TaskV>) -> Seq<MqttMessageV>
    decreases tasks.len(),
{
    if tasks.len() == 0 {
        Seq::empty()
    } else {
        tasks_messages(tasks.drop_last()) + spec_task_messages(tasks.last())
    }
}

/// What a due event does to the statuses, whether anything changed, and the
/// messages it sends. A start of a pending sequence marks it in progress, and
/// sends its tasks unless it is past its latest start time; a stop of a
/// sequence in progress completes it; any other event changes nothing.
pub open spec fn spec_process_event(
    st: Map<StatusKey, Status>,
    marks: Map<Seq<char>, MarkV>,
    seqs: Seq<SequenceV>,
    event: Event,
    now: int,
) -> (Map<StatusKey, Status>, bool, Seq<MqttMessageV>) {
    let s = seqs[event.sequence_index as int];
    let status = spec_status(st, marks, s);
    match event.event_type {
        EventType::Start => if status != Status::Pending {
            (st, false, Seq::empty())
        } else if now > s.latest_time {
            (st.insert(key_of(s), Status::InProgress), true, Seq::empty())
        } else {
            (st.insert(key_of(s), Status::InProgress), true, tasks_messages(s.tasks))
        },
        EventType::Stop => if status == Status::InProgress {
            (st.insert(key_of(s), Status::Completed), true, Seq::empty())
        } else {
            (st, false, Seq::empty())
        },
    }
}

/// Process the due events at the front of the list, in order: the statuses
/// after them, the events left, whether anything changed, and the messages sent.
pub open spec fn spec_run_due(
    st: Map<StatusKey, Status>,
    marks: Map<Seq<char>, MarkV>,
    seqs: Seq<SequenceV>,
    events: Seq<Event>,
    now: int,
) -> (Map<StatusKey, Status>, Seq<Event>, bool, Seq<MqttMessageV>)
    decreases events.len(),
{
    if events.len() == 0 || events[0].datetime > now {
        (st, events, false, Seq::empty())
    } else {
        let (st1, changed, sent) = spec_process_event(st, marks, seqs, events[0], now);
        let (st2, rest, more_changed, more_sent) = spec_run_due(st1, marks, seqs, events.drop_first(), now);
        (st2, rest, changed || more_changed, sent + more_sent)
    }
}

/// What to do after handling the due events.
#[derive(Clone, Copy, Debug, PartialEq, Eq, Structural)]
pub enum FinalizeAction {
    /// The day changed: publish the tags, load the sequences again, publish
    /// them and forget expired marks.
    NewDay,
    /// The calendar is due for a refresh: load the sequences again and publish them.
    Refresh,
    /// Publish the sequences.
    Publish,
    /// Nothing to do.
    Nothing,
}

/// The decision after the due events: a new day, a refresh five minutes after
/// the last one, or publishing when something changed.
pub open spec fn spec_finalize_action(today: Date, date: Date, now: int, refresh_time: int, publish: bool) -> FinalizeAction {
    if today != date {
        FinalizeAction::NewDay
    } else if now > refresh_time + 300 {
        FinalizeAction::Refresh
    } else if publish {
        FinalizeAction::Publish
    } else {
        FinalizeAction::Nothing
    }
}

/// Decide what to do after handling the due events.
pub fn finalize_action(today: Date, date: Date, now: i64, refresh_time: i64, publish: bool) -> (a: FinalizeAction)
    ensures
        a == spec_finalize_action(today, date, now as int, refresh_time as int, publish),
{
    if today != date {
        FinalizeAction::NewDay
    } else if refresh_time <= i64::MAX - 300 && now > refresh_time + 300 {
        FinalizeAction::Refresh
    } else if publish {
        FinalizeAction::Publish
    } else {
        FinalizeAction::Nothing
    }
}

/// Seconds until the next wake up: the time to the next event, at most a
/// minute; a minute when the next event is overdue; two minutes without events.
pub open spec fn spec_next_timer(events: Seq<Event>, now: int) -> int {
    if events.len() == 0 {
        120
    } else if events[0].datetime < now || events[0].datetime - now > 60 {
        60
    } else {
        events[0].datetime - now
    }
}

/// The executor's state.
pub struct Executor {
    /// The current date.
    pub date: Date,
    /// The sequences of the days around the current date, by time.
    pub sequences: Vec<Sequence>,
    /// The events still to come, first due first.
    pub events: Vec<Event>,
    /// The users' marks.
    pub all_marks: AllMarks,
    /// The statuses of runs.
    pub all_status: AllStatus,
    /// When the sequences were last loaded, in seconds since the Unix epoch.
    pub calendar_refresh_time: i64,
}

impl Executor {
    /// Is the state well formed: the maps well formed and every event naming a sequence?
    pub open spec fn wf(&self) -> bool {
        &&& self.all_marks.wf()
        &&& self.all_status.wf()
        &&& forall|i: int| 0 <= i < self.events@.len() ==> (#[trigger] self.events@[i]).sequence_index < self.sequences@.len()
    }

    /// A state with no sequences, events, marks or statuses.
    pub fn new(date: Date, now: i64) -> (e: Executor)
        ensures
            e.wf(),
            e.date == date,
            e.sequences@.len() == 0,
            e.events@.len() == 0,
            e.all_marks@ == Map::<Seq<char>, MarkV>::empty(),
            e.all_status@ == Map::<StatusKey, Status>::empty(),
            e.calendar_refresh_time == now,
    {
        Executor {
            date,
            sequences: Vec::new(),
            events: Vec::new(),
            all_marks: AllMarks::new(),
            all_status: AllStatus::new(),
            calendar_refresh_time: now,
        }
    }

    /// The state of a sequence: its recorded status, or what its mark says
    /// while it is pending.
    pub fn get_status_for_sequence(&self, sequence: &Sequence) -> (st: Status)
        requires
            self.wf(),
        ensures
            st == spec_status(self.all_status@, self.all_marks@, sequence@),
    {
        let status = self.all_status.get(sequence);
        let mark = self.all_marks.get(sequence);
        match status {
            Status::Pending => match mark {
                Some(m) => match m.status {
                    MarkStatus::Done => Status::Completed,
                    MarkStatus::Cancelled => Status::Cancelled,
                },
                None => Status::Pending,
            },
            other => other,
        }
    }

    /// The sequence with its mark and status filled in.
    pub fn fill_sequence(&self, sequence: Sequence) -> (filled: Sequence)
        requires
            self.wf(),
        ensures
            filled@ == (SequenceV {
                mark: mark_for(self.all_marks@, sequence@),
                status: Some(spec_status(self.all_status@, self.all_marks@, sequence@)),
                ..sequence@
            }),
    {
        let mut sequence = sequence;
        let status = self.get_status_for_sequence(&sequence);
        sequence.mark = self.all_marks.get(&sequence);
        sequence.status = Some(status);
        sequence
    }
}


proof fn lemma_event_order()
    ensures
        strict_weak_order(event_order()),
{
}

/// Law: the events are due in order.
pub proof fn law_events_sorted(s: Seq<Event>)
    ensures
        forall|i: int, j: int| 0 <= i < j < sort_by(s, event_order()).len()
            ==> !event_before(#[trigger] sort_by(s, event_order())[j], #[trigger] sort_by(s, event_order())[i]),
{
    lemma_event_order();
    lemma_sort_by_sorted(s, event_order());
}

/// Law: the status recorded for a run is the one read back for it, and
/// recording it leaves the status of every other run as it was.
pub proof fn law_status_read_after_write(st: Map<StatusKey, Status>, s: SequenceV, other: SequenceV, status: Status)
    ensures
        status_of(st.insert(key_of(s), status), s) == status,
        key_of(other) != key_of(s) ==> status_of(st.insert(key_of(s), status), other) == status_of(st, other),
{
}

/// Law: a pending run covered by a mark reads as completed when the mark
/// says it was done, and as cancelled when the mark cancels it; a run with a
/// recorded status other than pending keeps that status whatever its mark.
pub proof fn law_mark_sets_status(st: Map<StatusKey, Status>, marks: Map<Seq<char>, MarkV>, s: SequenceV)
    ensures
        status_of(st, s) == Status::Pending && mark_for(marks, s) is Some && mark_for(marks, s)->0.status == MarkStatus::Done
            ==> spec_status(st, marks, s) == Status::Completed,
        status_of(st, s) == Status::Pending && mark_for(marks, s) is Some && mark_for(marks, s)->0.status == MarkStatus::Cancelled
            ==> spec_status(st, marks, s) == Status::Cancelled,
        status_of(st, s) == Status::Pending && mark_for(marks, s) is None
            ==> spec_status(st, marks, s) == Status::Pending,
        status_of(st, s) != Status::Pending ==> spec_status(st, marks, s) == status_of(st, s),
{
}

/// Law: a mark covers a run when it has the run's id and its period starts
/// no later than the run and ends after it.
pub proof fn law_mark_coverage(marks: Map<Seq<char>, MarkV>, s: SequenceV, m: MarkV)
    requires
        marks.dom().contains(s.id),
        marks[s.id] == m,
    ensures
        (m.start_time <= s.start_time && s.end_time < m.end_time) ==> mark_for(marks, s) == Some(m),
        !(m.start_time <= s.start_time && s.end_time < m.end_time) ==> mark_for(marks, s) is None,
{
}

/// Law: a pending run that carries a mark, done or cancelled, gets no events:
/// it is neither started nor stopped.
pub proof fn law_marked_run_gets_no_events(st: Map<StatusKey, Status>, marks: Map<Seq<char>, MarkV>, s: SequenceV, index: int)
    requires
        status_of(st, s) == Status::Pending,
        mark_for(marks, s) is Some,
    ensures
        sequence_events(spec_status(st, marks, s), index, s) == Seq::<Event>::empty(),
{
}

/// Law: a run's tasks are sent at most once: handling the same start event a
/// second time, at any time, changes nothing and sends nothing; so does a
/// second stop.
pub proof fn law_events_take_effect_once(
    st: Map<StatusKey, Status>,
    marks: Map<Seq<char>, MarkV>,
    seqs: Seq<SequenceV>,
    event: Event,
    now: int,
    later: int,
)
    requires
        event.sequence_index < seqs.len(),
    ensures
        ({
            let (st1, _, _) = spec_process_event(st, marks, seqs, event, now);
            spec_process_event(st1, marks, seqs, event, later) == (st1, false, Seq::<MqttMessageV>::empty())
        }),
{
    let s = seqs[event.sequence_index as int];
    let (st1, _, _) = spec_process_event(st, marks, seqs, event, now);
    if st1 != st {
        assert(status_of(st1, s) != Status::Pending);
    }
}

/// Law: ordering the events keeps every event.
pub proof fn law_events_permuted(s: Seq<Event>)
    ensures
        sort_by(s, event_order()).to_multiset() == s.to_multiset(),
{
    lemma_event_order();
    lemma_sort_by_permutes(s, event_order());
}

fn event_is_before(a: Event, b: Event) -> (r: bool)
    ensures
        r == event_before(a, b),
{
    a.datetime < b.datetime
        || (a.datetime == b.datetime && a.sequence_index < b.sequence_index)
        || (a.datetime == b.datetime && a.sequence_index == b.sequence_index
            && a.event_type == EventType::Start && b.event_type == EventType::Stop)
}

/// Order events by time, then sequence index, start before stop.
pub fn sort_events(v: &Vec<Event>) -> (r: Vec<Event>)
    ensures
        r@ == sort_by(v@, event_order()),
{
    let ghost order = event_order();
    let mut result: Vec<Event> = Vec::new();
    let mut k: usize = 0;
    assert(v@.take(0) =~= Seq::<Event>::empty());
    while k < v.len()
        invariant
            k <= v@.len(),
            order == event_order(),
            result@ == sort_by(v@.take(k as int), order),
        decreases v@.len() - k,
    {
        let x = v[k];
        let ghost rv = result@;
        proof { lemma_sort_by_take(v@, order, k as int); }
        let mut j: usize = result.len();
        assert(rv.take(j as int) =~= rv);
        while j > 0 && event_is_before(x, result[j - 1])
            invariant
                j <= result@.len(),
                rv == result@,
                order == event_order(),
                insert_pos(rv, x, order) == insert_pos(rv.take(j as int), x, order),
            decreases j,
        {
            proof { lemma_insert_pos_step(rv, x, order, j as int); }
            j = j - 1;
        }
        proof { lemma_insert_pos_stop(rv, x, order, j as int); }
        result.insert(j, x);
        k = k + 1;
    }
    assert(v@.take(k as int) =~= v@);
    result
}

fn tasks_messages_exec(tasks: &Vec<Task>) -> (messages: Vec<MqttMessage>)
    ensures
        messages@.map_values(|m: MqttMessage| m@) == tasks_messages(tasks@.map_values(|t: Task| t@)),
{
    let ghost tv = tasks@.map_values(|t: Task| t@);
    let mut messages: Vec<MqttMessage> = Vec::new();
    let mut i: usize = 0;
    assert(tv.take(0) =~= Seq::<TaskV>::empty());
    while i < tasks.len()
        invariant
            i <= tasks@.len(),
            tv == tasks@.map_values(|t: Task| t@),
            messages@.map_values(|m: MqttMessage| m@) == tasks_messages(tv.take(i as int)),
        decreases tasks@.len() - i,
    {
        let mut more = get_task_messages(&tasks[i]);
        let ghost before = messages@;
        let ghost added = more@;
        messages.append(&mut more);
        assert(tv.take(i as int + 1).drop_last() =~= tv.take(i as int));
        assert(tv.take(i as int + 1).last() == tasks@[i as int]@);
        assert(messages@.map_values(|m: MqttMessage| m@) =~=
            before.map_values(|m: MqttMessage| m@) + added.map_values(|m: MqttMessage| m@));
        i = i + 1;
    }
    assert(tv.take(i as int) =~= tv);
    messages
}

impl Executor {
    /// The events of the sequences, due first first.
    pub fn set_events(&mut self)
        requires
            old(self).wf(),
        ensures
            final(self).wf(),
            final(self).events@ == sort_by(
                spec_events(old(self).all_status@, old(self).all_marks@, sequences_view(old(self).sequences@),
                    old(self).sequences@.len() as int),
                event_order()),
            final(self).sequences@ == old(self).sequences@,
            final(self).all_status@ == old(self).all_status@,
            final(self).all_marks@ == old(self).all_marks@,
            final(self).date == old(self).date,
            final(self).calendar_refresh_time == old(self).calendar_refresh_time,
    {
        let ghost sv = sequences_view(self.sequences@);
        let mut events: Vec<Event> = Vec::new();
        let mut index: usize = 0;
        while index < self.sequences.len()
            invariant
                index <= self.sequences@.len(),
                self.wf(),
                sv == sequences_view(self.sequences@),
                events@ == spec_events(self.all_status@, self.all_marks@, sv, index as int),
                forall|i: int| 0 <= i < events@.len() ==> (#[trigger] events@[i]).sequence_index < index,
            decreases self.sequences@.len() - index,
        {
            let sequence = &self.sequences[index];
            assert(sv[index as int] == sequence@);
            let status = self.get_status_for_sequence(sequence);
            let ghost before = events@;
            match status {
                Status::Pending => {
                    events.push(Event { datetime: sequence.start_time, sequence_index: index, event_type: EventType::Start });
                    events.push(Event { datetime: sequence.end_time, sequence_index: index, event_type: EventType::Stop });
                },
                Status::InProgress => {
                    events.push(Event { datetime: sequence.end_time, sequence_index: index, event_type: EventType::Stop });
                },
                _ => {},
            }
            assert(events@ =~= before + sequence_events(status, index as int, sv[index as int]));
            index = index + 1;
        }
        let sorted = sort_events(&events);
        proof {
            lemma_event_order();
            lemma_sort_by_permutes(events@, event_order());
            assert forall|i: int| 0 <= i < sorted@.len() implies (#[trigger] sorted@[i]).sequence_index < self.sequences@.len() by {
                assert(sorted@.to_multiset().count(sorted@[i]) > 0);
                assert(events@.to_multiset().count(sorted@[i]) > 0);
                assert(events@.contains(sorted@[i]));
            }
        }
        self.events = sorted;
    }
}


/// A list of messages.
pub open spec fn messages_view(v: Seq<MqttMessage>) -> Seq<MqttMessageV> {
    v.map_values(|m: MqttMessage| m@)
}

impl Executor {
    /// Handle a due event: see `spec_process_event`. Returns whether anything
    /// changed, and the messages to send.
    pub fn process_event(&mut self, event: Event, now: i64) -> (r: (bool, Vec<MqttMessage>))
        requires
            old(self).wf(),
            event.sequence_index < old(self).sequences@.len(),
        ensures
            final(self).wf(),
            ({
                let (st, changed, sent) = spec_process_event(old(self).all_status@, old(self).all_marks@,
                    sequences_view(old(self).sequences@), event, now as int);
                &&& final(self).all_status@ == st
                &&& r.0 == changed
                &&& messages_view(r.1@) == sent
            }),
            final(self).sequences@ == old(self).sequences@,
            final(self).events@ == old(self).events@,
            final(self).all_marks@ == old(self).all_marks@,
            final(self).date == old(self).date,
            final(self).calendar_refresh_time == old(self).calendar_refresh_time,
    {
        let ghost sv = sequences_view(self.sequences@);
        let sequence = &self.sequences[event.sequence_index];
        assert(sv[event.sequence_index as int] == sequence@);
        let status = self.get_status_for_sequence(sequence);
        match event.event_type {
            EventType::Start => {
                if status != Status::Pending {
                    let none: Vec<MqttMessage> = Vec::new();
                    assert(messages_view(none@) =~= Seq::<MqttMessageV>::empty());
                    (false, none)
                } else if now > sequence.latest_time {
                    self.all_status.insert(sequence, Status::InProgress);
                    let none: Vec<MqttMessage> = Vec::new();
                    assert(messages_view(none@) =~= Seq::<MqttMessageV>::empty());
                    (true, none)
                } else {
                    let messages = tasks_messages_exec(&sequence.tasks);
                    self.all_status.insert(sequence, Status::InProgress);
                    (true, messages)
                }
            },
            EventType::Stop => {
                if status == Status::InProgress {
                    self.all_status.insert(sequence, Status::Completed);
                    let none: Vec<MqttMessage> = Vec::new();
                    assert(messages_view(none@) =~= Seq::<MqttMessageV>::empty());
                    (true, none)
                } else {
                    let none: Vec<MqttMessage> = Vec::new();
                    assert(messages_view(none@) =~= Seq::<MqttMessageV>::empty());
                    (false, none)
                }
            },
        }
    }

    /// Handle the due events at the front of the list, in order, removing them:
    /// see `spec_run_due`. Returns whether anything changed, and the messages
    /// to send.
    pub fn run_due_events(&mut self, now: i64) -> (r: (bool, Vec<MqttMessage>))
        requires
            old(self).wf(),
        ensures
            final(self).wf(),
            ({
                let (st, rest, changed, sent) = spec_run_due(old(self).all_status@, old(self).all_marks@,
                    sequences_view(old(self).sequences@), old(self).events@, now as int);
                &&& final(self).all_status@ == st
                &&& final(self).events@ == rest
                &&& r.0 == changed
                &&& messages_view(r.1@) == sent
            }),
            final(self).sequences@ == old(self).sequences@,
            final(self).all_marks@ == old(self).all_marks@,
            final(self).date == old(self).date,
            final(self).calendar_refresh_time == old(self).calendar_refresh_time,
    {
        let ghost sv = sequences_view(self.sequences@);
        let ghost target = spec_run_due(self.all_status@, self.all_marks@, sv, self.events@, now as int);
        let mut publish = false;
        let mut messages: Vec<MqttMessage> = Vec::new();
        assert(messages_view(messages@) =~= Seq::<MqttMessageV>::empty());
        assert(Seq::<MqttMessageV>::empty() + target.3 =~= target.3);
        while self.events.len() > 0 && self.events[0].datetime <= now
            invariant
                self.wf(),
                sv == sequences_view(self.sequences@),
                self.sequences@ == old(self).sequences@,
                self.all_marks@ == old(self).all_marks@,
                self.date == old(self).date,
                self.calendar_refresh_time == old(self).calendar_refresh_time,
                ({
                    let cur = spec_run_due(self.all_status@, self.all_marks@, sv, self.events@, now as int);
                    target == (cur.0, cur.1, publish || cur.2, messages_view(messages@) + cur.3)
                }),
            decreases self.events@.len(),
        {
            let ghost st0 = self.all_status@;
            let ghost evs = self.events@;
            let ghost sent0 = messages_view(messages@);
            let event = self.events.remove(0);
            assert(self.events@ =~= evs.drop_first());
            assert(evs[0] == event);
            let (changed, mut more) = self.process_event(event, now);
            let ghost m1 = messages_view(more@);
            messages.append(&mut more);
            proof {
                let cur = spec_run_due(self.all_status@, self.all_marks@, sv, self.events@, now as int);
                assert(messages_view(messages@) =~= sent0 + m1);
                assert(sent0 + (m1 + cur.3) =~= sent0 + m1 + cur.3);
            }
            publish = publish || changed;
        }
        proof {
            assert(messages_view(messages@) + Seq::<MqttMessageV>::empty() =~= messages_view(messages@));
        }
        (publish, messages)
    }

    /// Seconds until the next wake up: see `spec_next_timer`.
    pub fn next_timer_delay(&self, now: i64) -> (d: i64)
        ensures
            d == spec_next_timer(self.events@, now as int),
    {
        if self.events.len() == 0 {
            120
        } else {
            let next = self.events[0].datetime;
            if next < now {
                60
            } else {
                match now.checked_add(60) {
                    Some(limit) => if next > limit { 60 } else { next - now },
                    None => next - now,
                }
            }
        }
    }

    /// Replace the sequences: forget the statuses of dates outside those of the
    /// first and last sequence, and set the events of the new sequences.
    pub fn set_sequences(&mut self, sequences: Vec<Sequence>)
        requires
            old(self).wf(),
        ensures
            final(self).wf(),
            final(self).sequences@ == sequences@,
            final(self).all_status@ == (if sequences@.len() == 0 {
                old(self).all_status@
            } else {
                let start = sequences@[0].schedule_date;
                let end = sequences@.last().schedule_date;
                old(self).all_status@.restrict(old(self).all_status@.dom().filter(|k: StatusKey|
                    start.days_from_ce <= k.0.days_from_ce <= end.days_from_ce))
            }),
            final(self).events@ == sort_by(
                spec_events(final(self).all_status@, old(self).all_marks@, sequences_view(sequences@),
                    sequences@.len() as int),
                event_order()),
            final(self).all_marks@ == old(self).all_marks@,
            final(self).date == old(self).date,
            final(self).calendar_refresh_time == old(self).calendar_refresh_time,
    {
        self.events = Vec::new();
        self.sequences = sequences;
        if self.sequences.len() > 0 {
            let start = self.sequences[0].schedule_date;
            let end = self.sequences[self.sequences.len() - 1].schedule_date;
            self.all_status.expire(start, end);
        }
        self.set_events();
    }
}


impl Sequence {
    /// A copy of the sequence.
    pub fn duplicate(&self) -> (copy: Sequence)
        ensures
            copy@ == self@,
    {
        let mut tasks: Vec<Task> = Vec::new();
        let mut i: usize = 0;
        while i < self.tasks.len()
            invariant
                i <= self.tasks@.len(),
                tasks@.len() == i,
                forall|j: int| 0 <= j < i ==> #[trigger] tasks@[j]@ == self.tasks@[j]@,
            decreases self.tasks@.len() - i,
        {
            tasks.push(self.tasks[i].duplicate());
            i = i + 1;
        }
        assert(tasks@.map_values(|t: Task| t@) =~= self.tasks@.map_values(|t: Task| t@));
        let mark = match &self.mark {
            Some(m) => Some(m.duplicate()),
            None => None,
        };
        Sequence {
            title: copy_string(&self.title),
            id: copy_string(&self.id),
            schedule_date: self.schedule_date,
            importance: self.importance,
            sequence_name: copy_string(&self.sequence_name),
            zero_time: self.zero_time,
            start_time: self.start_time,
            end_time: self.end_time,
            duration: self.duration,
            latest_time: self.latest_time,
            repeat_number: self.repeat_number,
            tasks,
            status: self.status,
            mark,
        }
    }
}

/// Settings of the executor beyond its rules.
#[derive(Debug)]
pub struct ExtraConfig {
    /// The address of the calendar whose events are added to the sequences.
    pub calendar_url: String,
}

/// A sequence with its mark and status filled in.
pub open spec fn filled(st: Map<StatusKey, Status>, marks: Map<Seq<char>, MarkV>, s: SequenceV) -> SequenceV {
    SequenceV { mark: mark_for(marks, s), status: Some(spec_status(st, marks, s)), ..s }
}

/// Which sequences are published on a list.
#[derive(Clone, Copy, Debug, PartialEq, Eq, Structural)]
pub enum Listing {
    /// Every sequence.
    All,
    /// The sequences of importance `Important`.
    Important,
    /// The sequences that are not completed.
    Pending,
}

/// Is the sequence, filled in, on the list?
pub open spec fn listed(which: Listing, f: SequenceV) -> bool {
    match which {
        Listing::All => true,
        Listing::Important => f.importance == Importance::Important,
        Listing::Pending => f.status != Some(Status::Completed),
    }
}

impl Executor {
    /// The sequences of a list, with their marks and statuses filled in.
    pub fn list_sequences(&self, which: Listing) -> (r: Vec<Sequence>)
        requires
            self.wf(),
        ensures
            sequences_view(r@) == sequences_view(self.sequences@)
                .map_values(|s: SequenceV| filled(self.all_status@, self.all_marks@, s))
                .filter(|f: SequenceV| listed(which, f)),
    {
        let ghost fv = sequences_view(self.sequences@).map_values(|s: SequenceV| filled(self.all_status@, self.all_marks@, s));
        let mut out: Vec<Sequence> = Vec::new();
        let mut i: usize = 0;
        while i < self.sequences.len()
            invariant
                i <= self.sequences@.len(),
                self.wf(),
                fv == sequences_view(self.sequences@).map_values(|s: SequenceV| filled(self.all_status@, self.all_marks@, s)),
                sequences_view(out@) == fv.take(i as int).filter(|f: SequenceV| listed(which, f)),
            decreases self.sequences@.len() - i,
        {
            let f = self.fill_sequence(self.sequences[i].duplicate());
            assert(f@ == fv[i as int]);
            let keep = match which {
                Listing::All => true,
                Listing::Important => f.importance == Importance::Important,
                Listing::Pending => f.status != Some(Status::Completed),
            };
            assert(fv.take(i as int + 1).drop_last() =~= fv.take(i as int));
            reveal_with_fuel(Seq::filter, 1);
            let ghost before = sequences_view(out@);
            if keep {
                let ghost v = f@;
                out.push(f);
                assert(sequences_view(out@) =~= before.push(v));
            }
            i = i + 1;
        }
        assert(fv.take(i as int) =~= fv);
        out
    }
}

} // verus!
