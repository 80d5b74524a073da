//! Tracking which zones something is in: it arrives in a zone when inside
//! the zone's arrival radius, and leaves only once outside the wider exit
//! radius, so that it does not flap at the edge.
//!
//! The zones near a position come from a database; the distances it reports
//! are carried along and never computed with, so their type is left open.
use vstd::prelude::*;
use crate::order::{insert_pos, lemma_insert_pos_step, lemma_insert_pos_stop, lemma_sort_by_permutes, lemma_sort_by_sorted, lemma_sort_by_take, sort_by, strict_weak_order};
use crate::text::{copy_string, push_str, string_of};

verus! {

broadcast use vstd::string::group_string_axioms;

/// A zone.
#[derive(Debug)]
pub struct Zone {
    /// The zone's id.
    pub id: i32,
    /// Its name.
    pub name: String,
    /// Is arriving in it announced to everyone (else only privately)?
    pub announce_on_enter: bool,
    /// Is leaving it announced to everyone (else only privately)?
    pub announce_on_exit: bool,
}

pub struct ZoneV {
    pub id: i32,
    pub name: Seq<char>,
    pub enter: bool,
    pub exit: bool,
}

impl View for Zone {
    type V = ZoneV;

    open spec fn view(&self) -> ZoneV {
        ZoneV { id: self.id, name: self.name@, enter: self.announce_on_enter, exit: self.announce_on_exit }
    }
}

impl Zone {
    /// A copy of the zone.
    pub fn duplicate(&self) -> (z: Zone)
        ensures
            z@ == self@,
    {
        Zone {
            id: self.id,
            name: copy_string(&self.name),
            announce_on_enter: self.announce_on_enter,
            announce_on_exit: self.announce_on_exit,
        }
    }
}

/// An announcement of an arrival or departure.
#[derive(Debug)]
pub struct ZoneMessage {
    /// The text.
    pub text: String,
    /// Is it for everyone (else only private)?
    pub to_everyone: bool,
}

pub struct ZoneMessageV {
    pub text: Seq<char>,
    pub to_everyone: bool,
}

impl View for ZoneMessage {
    type V = ZoneMessageV;

    open spec fn view(&self) -> ZoneMessageV {
        ZoneMessageV { text: self.text@, to_everyone: self.to_everyone }
    }
}

/// Zones with their distances.
pub open spec fn pairs_view<D>(v: Seq<(Zone, D)>) -> Seq<(ZoneV, D)> {
    v.map_values(|p: (Zone, D)| (p.0@, p.1))
}

/// Zones.
pub open spec fn zones_view(v: Seq<Zone>) -> Seq<ZoneV> {
    v.map_values(|z: Zone| z@)
}

/// Does a zone with this id occur in the list?
pub open spec fn has_id<D>(s: Seq<(ZoneV, D)>, id: i32) -> bool {
    exists|k: int| 0 <= k < s.len() && (#[trigger] s[k]).0.id == id
}

/// Does a zone with this id occur in the list?
pub open spec fn zones_have_id(s: Seq<ZoneV>, id: i32) -> bool {
    exists|k: int| 0 <= k < s.len() && (#[trigger] s[k]).id == id
}

/// No id occurs twice.
pub open spec fn distinct_ids<D>(s: Seq<(ZoneV, D)>) -> bool {
    forall|i: int, j: int| 0 <= i < j < s.len() ==> (#[trigger] s[i]).0.id != (#[trigger] s[j]).0.id
}

/// The zones of `inner` (among its first `k`) that are not occupied yet,
/// each id once, in the order of `inner`.
pub open spec fn spec_arrived<D>(inner: Seq<ZoneV>, state: Seq<(ZoneV, D)>, k: int) -> Seq<ZoneV>
    decreases k,
{
    if k <= 0 {
        Seq::empty()
    } else {
        let prev = spec_arrived(inner, state, k - 1);
        let z = inner[k - 1];
        if !has_id(state, z.id) && !zones_have_id(prev, z.id) { prev.push(z) } else { prev }
    }
}

/// The distance of the first candidate with this id, or `zero`.
pub open spec fn first_dist<D>(c: Seq<(ZoneV, D)>, id: i32, zero: D) -> D
    decreases c.len(),
{
    if c.len() == 0 {
        zero
    } else if c[0].0.id == id {
        c[0].1
    } else {
        first_dist(c.drop_first(), id, zero)
    }
}

/// The distance of the last candidate with this id, or `d`.
pub open spec fn last_dist<D>(c: Seq<(ZoneV, D)>, id: i32, d: D) -> D
    decreases c.len(),
{
    if c.len() == 0 {
        d
    } else if c.last().0.id == id {
        c.last().1
    } else {
        last_dist(c.drop_last(), id, d)
    }
}

/// The occupied zones after a position: those still within the exit radius
/// keep their place, the arrivals follow with the distance of their first
/// candidate, and each occupied zone takes the distance of its last candidate.
pub open spec fn spec_new_state<D>(state: Seq<(ZoneV, D)>, arrived: Seq<ZoneV>, outer: Seq<i32>, cands: Seq<(ZoneV, D)>, zero: D)
    -> Seq<(ZoneV, D)>
{
    let kept = state.filter(|e: (ZoneV, D)| outer.contains(e.0.id));
    let added = arrived.map_values(|z: ZoneV| (z, first_dist(cands, z.id, zero)));
    (kept + added).map_values(|e: (ZoneV, D)| (e.0, last_dist(cands, e.0.id, e.1)))
}

/// The announcements: none the first time; else an arrival for each zone
/// arrived in, then a departure for each zone left.
pub open spec fn spec_messages<D>(first_time: bool, who: Seq<char>, arrived: Seq<ZoneV>, left: Seq<(ZoneV, D)>) -> Seq<ZoneMessageV> {
    if first_time {
        Seq::empty()
    } else {
        arrived.map_values(|z: ZoneV| ZoneMessageV { text: who + " arrived at "@ + z.name, to_everyone: z.enter })
            + left.map_values(|e: (ZoneV, D)| ZoneMessageV { text: who + " left "@ + e.0.name, to_everyone: e.0.exit })
    }
}

/// Zones by id.
pub open spec fn by_id<D>() -> spec_fn((ZoneV, D), (ZoneV, D)) -> bool {
    |a: (ZoneV, D), b: (ZoneV, D)| a.0.id < b.0.id
}

/// The zones something is in, with their distances.
#[derive(Debug)]
pub struct ZoneState<D> {
    zones: Vec<(Zone, D)>,
    first_time: bool,
}

impl<D> View for ZoneState<D> {
    type V = Seq<(ZoneV, D)>;

    closed spec fn view(&self) -> Seq<(ZoneV, D)> {
        pairs_view(self.zones@)
    }
}

/// What a position gives: announcements, the occupied zones by id, and the
/// other nearby zones by id.
#[derive(Debug)]
pub struct ZoneUpdate<D> {
    /// Arrivals and departures to announce.
    pub messages: Vec<ZoneMessage>,
    /// The zones occupied, by id.
    pub occupied: Vec<(Zone, D)>,
    /// The candidates that are not occupied, by id.
    pub nearby: Vec<(Zone, D)>,
}

fn has_id_exec<D>(v: &Vec<(Zone, D)>, id: i32) -> (b: bool)
    ensures
        b == has_id(pairs_view(v@), id),
{
    let ghost s = pairs_view(v@);
    let mut i: usize = 0;
    while i < v.len()
        invariant
            i <= v@.len(),
            s == pairs_view(v@),
            forall|k: int| 0 <= k < i ==> (#[trigger] s[k]).0.id != id,
        decreases v@.len() - i,
    {
        assert(s[i as int].0.id == v@[i as int].0.id);
        if v[i].0.id == id {
            return true;
        }
        i = i + 1;
    }
    false
}

fn zones_have_id_exec(v: &Vec<Zone>, id: i32) -> (b: bool)
    ensures
        b == zones_have_id(zones_view(v@), id),
{
    let ghost s = zones_view(v@);
    let mut i: usize = 0;
    while i < v.len()
        invariant
            i <= v@.len(),
            s == zones_view(v@),
            forall|k: int| 0 <= k < i ==> (#[trigger] s[k]).id != id,
        decreases v@.len() - i,
    {
        assert(s[i as int].id == v@[i as int].id);
        if v[i].id == id {
            return true;
        }
        i = i + 1;
    }
    false
}

fn contains_id(v: &Vec<i32>, id: i32) -> (b: bool)
    ensures
        b == v@.contains(id),
{
    let mut i: usize = 0;
    while i < v.len()
        invariant
            i <= v@.len(),
            forall|k: int| 0 <= k < i ==> v@[k] != id,
        decreases v@.len() - i,
    {
        if v[i] == id {
            assert(v@[i as int] == id);
            return true;
        }
        i = i + 1;
    }
    false
}

fn first_dist_exec<D: Copy>(c: &Vec<(Zone, D)>, id: i32, zero: D) -> (d: D)
    ensures
        d == first_dist(pairs_view(c@), id, zero),
{
    let ghost s = pairs_view(c@);
    let mut i: usize = 0;
    assert(s.skip(0) =~= s);
    while i < c.len()
        invariant
            i <= c@.len(),
            s == pairs_view(c@),
            first_dist(s, id, zero) == first_dist(s.skip(i as int), id, zero),
        decreases c@.len() - i,
    {
        assert(s.skip(i as int).drop_first() =~= s.skip(i as int + 1));
        assert(s.skip(i as int)[0] == (c@[i as int].0@, c@[i as int].1));
        if c[i].0.id == id {
            return c[i].1;
        }
        i = i + 1;
    }
    assert(s.skip(i as int) =~= Seq::<(ZoneV, D)>::empty());
    zero
}

fn last_dist_exec<D: Copy>(c: &Vec<(Zone, D)>, id: i32, d: D) -> (r: D)
    ensures
        r == last_dist(pairs_view(c@), id, d),
{
    let ghost s = pairs_view(c@);
    let mut i: usize = c.len();
    assert(s.take(i as int) =~= s);
    while i > 0
        invariant
            i <= c@.len(),
            s == pairs_view(c@),
            last_dist(s, id, d) == last_dist(s.take(i as int), id, d),
        decreases i,
    {
        assert(s.take(i as int).drop_last() =~= s.take(i as int - 1));
        assert(s.take(i as int).last() == (c@[i - 1].0@, c@[i - 1].1));
        if c[i - 1].0.id == id {
            return c[i - 1].1;
        }
        i = i - 1;
    }
    assert(s.take(0) =~= Seq::<(ZoneV, D)>::empty());
    d
}

proof fn lemma_by_id<D>()
    ensures
        strict_weak_order(by_id::<D>()),
{
}

/// Law: the zones reported come out by increasing id, and none is lost or added.
pub proof fn law_zones_reported_by_id<D>(s: Seq<(ZoneV, D)>)
    ensures
        forall|i: int, j: int| 0 <= i < j < sort_by(s, by_id::<D>()).len()
            ==> (#[trigger] sort_by(s, by_id::<D>())[i]).0.id <= (#[trigger] sort_by(s, by_id::<D>())[j]).0.id,
        sort_by(s, by_id::<D>()).to_multiset() == s.to_multiset(),
{
    lemma_by_id::<D>();
    lemma_sort_by_sorted(s, by_id::<D>());
    lemma_sort_by_permutes(s, by_id::<D>());
}

fn sort_by_id<D: Copy>(v: Vec<(Zone, D)>) -> (r: Vec<(Zone, D)>)
    ensures
        pairs_view(r@) == sort_by(pairs_view(v@), by_id::<D>()),
{
    let ghost orig = pairs_view(v@);
    let ghost order = by_id::<D>();
    let mut rest = v;
    let mut result: Vec<(Zone, D)> = Vec::new();
    let mut k: usize = 0;
    let n: usize = rest.len();
    assert(orig.take(0) =~= Seq::<(ZoneV, D)>::empty());
    assert(orig.skip(0) =~= orig);
    while rest.len() > 0
        invariant
            n == orig.len(),
            order == by_id::<D>(),
            k + rest@.len() == n,
            pairs_view(rest@) == orig.skip(k as int),
            pairs_view(result@) == sort_by(orig.take(k as int), order),
        decreases rest@.len(),
    {
        let ghost before_rest = rest@;
        let x = rest.remove(0);
        let ghost xv = (x.0@, x.1);
        let ghost rv = pairs_view(result@);
        assert(xv == orig[k as int]) by {
            assert(pairs_view(before_rest)[0] == orig.skip(k as int)[0]);
        }
        assert forall|i: int| 0 <= i < rest@.len() implies #[trigger] pairs_view(rest@)[i] == orig.skip(k as int + 1)[i] by {
            assert(rest@[i] == before_rest[i + 1]);
            assert(pairs_view(before_rest)[i + 1] == orig.skip(k as int)[i + 1]);
        }
        assert(pairs_view(rest@) =~= orig.skip(k as int + 1));
        proof { lemma_sort_by_take(orig, order, k as int); }
        let mut j: usize = result.len();
        assert(rv.take(j as int) =~= rv);
        while j > 0 && x.0.id < result[j - 1].0.id
            invariant
                j <= result@.len(),
                rv == pairs_view(result@),
                xv == (x.0@, x.1),
                order == by_id::<D>(),
                insert_pos(rv, xv, order) == insert_pos(rv.take(j as int), xv, order),
            decreases j,
        {
            assert(rv[j - 1].0.id == result@[j - 1].0.id);
            proof { lemma_insert_pos_step(rv, xv, order, j as int); }
            j = j - 1;
        }
        proof {
            if j > 0 {
                assert(rv[j - 1].0.id == result@[j - 1].0.id);
            }
            lemma_insert_pos_stop(rv, xv, order, j as int);
        }
        result.insert(j, x);
        assert(pairs_view(result@) =~= rv.insert(j as int, xv));
        k = k + 1;
    }
    assert(orig.take(k as int) =~= orig);
    result
}

fn copy_pair<D: Copy>(p: &(Zone, D)) -> (c: (Zone, D))
    ensures
        (c.0@, c.1) == (p.0@, p.1),
{
    (p.0.duplicate(), p.1)
}

impl<D: Copy> ZoneState<D> {
    /// Is the state well formed?
    pub closed spec fn wf(&self) -> bool {
        distinct_ids(pairs_view(self.zones@))
    }

    /// Has no position been taken in yet?
    pub closed spec fn is_first_time(&self) -> bool {
        self.first_time
    }

    /// In no zone, before the first position.
    pub fn empty() -> (s: ZoneState<D>)
        ensures
            s.wf(),
            s@ == Seq::<(ZoneV, D)>::empty(),
            s.is_first_time(),
    {
        let s = ZoneState { zones: Vec::new(), first_time: true };
        assert(pairs_view(s.zones@) =~= Seq::<(ZoneV, D)>::empty());
        s
    }

    /// Take in a position: `inner` are the zones within the arrival radius,
    /// `outer` the ids of the zones within the exit radius, `candidates` the
    /// zones nearby with their distances. Returns the announcements (none for
    /// the first position taken in), the occupied zones by id, and the other
    /// candidates by id; after it, the next position is no longer the first.
    pub fn process(
        &mut self,
        tracked_name: &str,
        inner: &Vec<Zone>,
        outer: &Vec<i32>,
        candidates: &Vec<(Zone, D)>,
        zero: D,
    ) -> (u: ZoneUpdate<D>)
        requires
            old(self).wf(),
        ensures
            final(self).wf(),
            !final(self).is_first_time(),
            ({
                let arrived = spec_arrived(zones_view(inner@), old(self)@, inner@.len() as int);
                let left = old(self)@.filter(|e: (ZoneV, D)| !outer@.contains(e.0.id));
                let cands = pairs_view(candidates@);
                let new_state = spec_new_state(old(self)@, arrived, outer@, cands, zero);
                &&& final(self)@ == new_state
                &&& u.messages@.map_values(|m: ZoneMessage| m@) == spec_messages(old(self).is_first_time(), tracked_name@, arrived, left)
                &&& pairs_view(u.occupied@) == sort_by(new_state, by_id::<D>())
                &&& pairs_view(u.nearby@) == sort_by(cands.filter(|c: (ZoneV, D)| !has_id(new_state, c.0.id)), by_id::<D>())
            }),
    {
        let first_time = self.first_time;
        let ghost s0 = pairs_view(self.zones@);
        let ghost iv = zones_view(inner@);
        // Arrivals.
        let mut arrived: Vec<Zone> = Vec::new();
        let mut i: usize = 0;
        while i < inner.len()
            invariant
                i <= inner@.len(),
                s0 == pairs_view(self.zones@),
                iv == zones_view(inner@),
                zones_view(arrived@) == spec_arrived(iv, s0, i as int),
            decreases inner@.len() - i,
        {
            let z = &inner[i];
            assert(iv[i as int] == z@);
            if !has_id_exec(&self.zones, z.id) && !zones_have_id_exec(&arrived, z.id) {
                let ghost before = zones_view(arrived@);
                arrived.push(z.duplicate());
                assert(zones_view(arrived@) =~= before.push(z@));
            }
            i = i + 1;
        }
        let ghost av = zones_view(arrived@);
        // Departures, and the zones kept.
        let mut left: Vec<(Zone, D)> = Vec::new();
        let mut kept: Vec<(Zone, D)> = Vec::new();
        let mut j: usize = 0;
        while j < self.zones.len()
            invariant
                j <= self.zones@.len(),
                s0 == pairs_view(self.zones@),
                pairs_view(left@) == s0.take(j as int).filter(|e: (ZoneV, D)| !outer@.contains(e.0.id)),
                pairs_view(kept@) == s0.take(j as int).filter(|e: (ZoneV, D)| outer@.contains(e.0.id)),
                distinct_ids(s0),
                distinct_ids(pairs_view(kept@)),
                forall|k: int| 0 <= k < kept@.len() ==> exists|idx: int| 0 <= idx < j && s0[idx] == #[trigger] pairs_view(kept@)[k],
            decreases self.zones@.len() - j,
        {
            let e = &self.zones[j];
            assert(s0[j as int] == (e.0@, e.1));
            assert(s0.take(j as int + 1).drop_last() =~= s0.take(j as int));
            reveal_with_fuel(Seq::filter, 1);
            let ghost lb = pairs_view(left@);
            let ghost kb = pairs_view(kept@);
            if contains_id(outer, e.0.id) {
                kept.push(copy_pair(e));
                assert(pairs_view(kept@) =~= kb.push(s0[j as int]));
                assert(pairs_view(left@) =~= lb);
                proof {
                    let k1 = pairs_view(kept@);
                    assert forall|x: int, y: int| 0 <= x < y < k1.len() implies (#[trigger] k1[x]).0.id != (#[trigger] k1[y]).0.id by {
                        if y == k1.len() - 1 {
                            assert(k1[x] == kb[x]);
                            let idx = choose|idx: int| 0 <= idx < j && s0[idx] == #[trigger] kb[x];
                            assert(s0[idx].0.id != s0[j as int].0.id);
                        } else {
                            assert(k1[x] == kb[x] && k1[y] == kb[y]);
                        }
                    }
                    assert forall|k: int| 0 <= k < k1.len() implies exists|idx: int| 0 <= idx < j + 1 && s0[idx] == #[trigger] k1[k] by {
                        if k == k1.len() - 1 {
                            assert(s0[j as int] == k1[k]);
                        } else {
                            assert(k1[k] == kb[k]);
                            let idx = choose|idx: int| 0 <= idx < j && s0[idx] == #[trigger] kb[k];
                            assert(s0[idx] == k1[k]);
                        }
                    }
                }
            } else {
                left.push(copy_pair(e));
                assert(pairs_view(left@) =~= lb.push(s0[j as int]));
                assert(pairs_view(kept@) =~= kb);
                proof {
                    assert forall|k: int| 0 <= k < kb.len() implies exists|idx: int| 0 <= idx < j + 1 && s0[idx] == #[trigger] kb[k] by {
                        let idx = choose|idx: int| 0 <= idx < j && s0[idx] == #[trigger] kb[k];
                        assert(s0[idx] == kb[k]);
                    }
                }
            }
            j = j + 1;
        }
        assert(s0.take(j as int) =~= s0);
        // Messages.
        let mut messages: Vec<ZoneMessage> = Vec::new();
        if !first_time {
            let mut a: usize = 0;
            while a < arrived.len()
                invariant
                    a <= arrived@.len(),
                    av == zones_view(arrived@),
                    messages@.map_values(|m: ZoneMessage| m@) == av.take(a as int).map_values(|z: ZoneV|
                        ZoneMessageV { text: tracked_name@ + " arrived at "@ + z.name, to_everyone: z.enter }),
                decreases arrived@.len() - a,
            {
                let z = &arrived[a];
                let mut text = string_of(tracked_name);
                push_str(&mut text, " arrived at ");
                push_str(&mut text, z.name.as_str());
                let ghost mb = messages@.map_values(|m: ZoneMessage| m@);
                let ghost mv = ZoneMessageV { text: text@, to_everyone: z.announce_on_enter };
                messages.push(ZoneMessage { text, to_everyone: z.announce_on_enter });
                assert(av[a as int] == z@);
                assert(messages@.map_values(|m: ZoneMessage| m@) =~= mb.push(mv));
                assert(av.take(a as int + 1) =~= av.take(a as int).push(av[a as int]));
                assert(messages@.map_values(|m: ZoneMessage| m@) =~= av.take(a as int + 1).map_values(|z: ZoneV|
                    ZoneMessageV { text: tracked_name@ + " arrived at "@ + z.name, to_everyone: z.enter }));
                a = a + 1;
            }
            assert(av.take(a as int) =~= av);
            let ghost lv = pairs_view(left@);
            let ghost m_arr = messages@.map_values(|m: ZoneMessage| m@);
            let mut b: usize = 0;
            while b < left.len()
                invariant
                    b <= left@.len(),
                    lv == pairs_view(left@),
                    messages@.map_values(|m: ZoneMessage| m@) == m_arr + lv.take(b as int).map_values(|e: (ZoneV, D)|
                        ZoneMessageV { text: tracked_name@ + " left "@ + e.0.name, to_everyone: e.0.exit }),
                decreases left@.len() - b,
            {
                let e = &left[b];
                let mut text = string_of(tracked_name);
                push_str(&mut text, " left ");
                push_str(&mut text, e.0.name.as_str());
                let ghost mb = messages@.map_values(|m: ZoneMessage| m@);
                let ghost mv = ZoneMessageV { text: text@, to_everyone: e.0.announce_on_exit };
                messages.push(ZoneMessage { text, to_everyone: e.0.announce_on_exit });
                assert(lv[b as int] == (e.0@, e.1));
                assert(messages@.map_values(|m: ZoneMessage| m@) =~= mb.push(mv));
                assert(lv.take(b as int + 1) =~= lv.take(b as int).push(lv[b as int]));
                assert(messages@.map_values(|m: ZoneMessage| m@) =~= m_arr + lv.take(b as int + 1).map_values(|e: (ZoneV, D)|
                    ZoneMessageV { text: tracked_name@ + " left "@ + e.0.name, to_everyone: e.0.exit }));
                b = b + 1;
            }
            assert(lv.take(b as int) =~= lv);
        } else {
            assert(messages@.map_values(|m: ZoneMessage| m@) =~= Seq::<ZoneMessageV>::empty());
        }
        // The new state.
        let ghost cv = pairs_view(candidates@);
        let ghost kv = pairs_view(kept@);
        let mut c: usize = 0;
        let mut next: Vec<(Zone, D)> = Vec::new();
        while c < kept.len()
            invariant
                c <= kept@.len(),
                kv == pairs_view(kept@),
                cv == pairs_view(candidates@),
                next@.len() == c,
                forall|k: int| 0 <= k < c ==> #[trigger] pairs_view(next@)[k] == (kv[k].0, last_dist(cv, kv[k].0.id, kv[k].1)),
            decreases kept@.len() - c,
        {
            let e = &kept[c];
            assert(kv[c as int] == (e.0@, e.1));
            let d = last_dist_exec(candidates, e.0.id, e.1);
            let ghost nb = pairs_view(next@);
            let z = e.0.duplicate();
            let ghost zv = z@;
            next.push((z, d));
            assert(pairs_view(next@) =~= nb.push((zv, d)));
            c = c + 1;
        }
        let mut a2: usize = 0;
        while a2 < arrived.len()
            invariant
                a2 <= arrived@.len(),
                av == zones_view(arrived@),
                cv == pairs_view(candidates@),
                next@.len() == kv.len() + a2,
                forall|k: int| 0 <= k < kv.len() ==> #[trigger] pairs_view(next@)[k] == (kv[k].0, last_dist(cv, kv[k].0.id, kv[k].1)),
                forall|k: int| #![trigger av[k]] 0 <= k < a2 ==> pairs_view(next@)[kv.len() + k]
                    == (av[k], last_dist(cv, av[k].id, first_dist(cv, av[k].id, zero))),
            decreases arrived@.len() - a2,
        {
            let z = &arrived[a2];
            assert(av[a2 as int] == z@);
            let d0 = first_dist_exec(candidates, z.id, zero);
            let d = last_dist_exec(candidates, z.id, d0);
            let ghost nb = pairs_view(next@);
            let zc = z.duplicate();
            let ghost zv = zc@;
            next.push((zc, d));
            assert(pairs_view(next@) =~= nb.push((zv, d)));
            a2 = a2 + 1;
        }
        let ghost ns = spec_new_state(s0, av, outer@, cv, zero);
        proof {
            let added = av.map_values(|z: ZoneV| (z, first_dist(cv, z.id, zero)));
            assert forall|k: int| 0 <= k < next@.len() implies #[trigger] pairs_view(next@)[k] == ns[k] by {
                if k < kv.len() {
                    assert((kv + added)[k] == kv[k]);
                } else {
                    assert((kv + added)[k] == added[k - kv.len()]);
                    assert(av[k - kv.len()] == av[k - kv.len()]);
                }
            }
            assert(pairs_view(next@) =~= ns);
        }
        // Nearby candidates.
        let mut nearby: Vec<(Zone, D)> = Vec::new();
        let mut q: usize = 0;
        while q < candidates.len()
            invariant
                q <= candidates@.len(),
                cv == pairs_view(candidates@),
                ns == pairs_view(next@),
                pairs_view(nearby@) == cv.take(q as int).filter(|c: (ZoneV, D)| !has_id(ns, c.0.id)),
            decreases candidates@.len() - q,
        {
            let e = &candidates[q];
            assert(cv[q as int] == (e.0@, e.1));
            assert(cv.take(q as int + 1).drop_last() =~= cv.take(q as int));
            reveal_with_fuel(Seq::filter, 1);
            let ghost nb = pairs_view(nearby@);
            if !has_id_exec(&next, e.0.id) {
                nearby.push(copy_pair(e));
                assert(pairs_view(nearby@) =~= nb.push(cv[q as int]));
            }
            q = q + 1;
        }
        assert(cv.take(q as int) =~= cv);
        let mut occupied: Vec<(Zone, D)> = Vec::new();
        let mut o: usize = 0;
        while o < next.len()
            invariant
                o <= next@.len(),
                ns == pairs_view(next@),
                pairs_view(occupied@) == ns.take(o as int),
            decreases next@.len() - o,
        {
            let ghost ob = pairs_view(occupied@);
            let p = copy_pair(&next[o]);
            let ghost pv = (p.0@, p.1);
            occupied.push(p);
            assert(ns[o as int] == pv);
            assert(pairs_view(occupied@) =~= ob.push(pv));
            assert(pairs_view(occupied@) =~= ns.take(o as int + 1));
            o = o + 1;
        }
        assert(ns.take(o as int) =~= ns);
        let occupied = sort_by_id(occupied);
        let nearby = sort_by_id(nearby);
        proof {
            lemma_arrived(iv, s0, iv.len() as int);
            let added = av.map_values(|z: ZoneV| (z, first_dist(cv, z.id, zero)));
            let both = kv + added;
            assert forall|x: int, y: int| 0 <= x < y < ns.len() implies (#[trigger] ns[x]).0.id != (#[trigger] ns[y]).0.id by {
                assert(ns[x].0 == both[x].0 && ns[y].0 == both[y].0);
                if y < kv.len() {
                    assert(both[x] == kv[x] && both[y] == kv[y]);
                } else if x < kv.len() {
                    assert(both[x] == kv[x]);
                    assert(both[y] == added[y - kv.len()]);
                    let idx = choose|idx: int| 0 <= idx < s0.len() && s0[idx] == #[trigger] kv[x];
                    assert(has_id(s0, s0[idx].0.id));
                    assert(!has_id(s0, av[y - kv.len()].id));
                } else {
                    assert(both[x] == added[x - kv.len()] && both[y] == added[y - kv.len()]);
                    assert(av[x - kv.len()].id != av[y - kv.len()].id);
                }
            }
        }
        self.zones = next;
        self.first_time = false;
        ZoneUpdate { messages, occupied, nearby }
    }
}

proof fn lemma_arrived<D>(inner: Seq<ZoneV>, state: Seq<(ZoneV, D)>, k: int)
    ensures
        forall|a: int, b: int| 0 <= a < b < spec_arrived(inner, state, k).len()
            ==> (#[trigger] spec_arrived(inner, state, k)[a]).id != (#[trigger] spec_arrived(inner, state, k)[b]).id,
        forall|a: int| 0 <= a < spec_arrived(inner, state, k).len() ==> !has_id(state, (#[trigger] spec_arrived(inner, state, k)[a]).id),
    decreases k,
{
    if k > 0 {
        lemma_arrived(inner, state, k - 1);
        let prev = spec_arrived(inner, state, k - 1);
        let z = inner[k - 1];
        if !has_id(state, z.id) && !zones_have_id(prev, z.id) {
            let cur = prev.push(z);
            assert forall|a: int, b: int| 0 <= a < b < cur.len() implies (#[trigger] cur[a]).id != (#[trigger] cur[b]).id by {
                if b == cur.len() - 1 {
                    assert(cur[a] == prev[a]);
                    if prev[a].id == z.id {
                        assert(zones_have_id(prev, z.id));
                    }
                } else {
                    assert(cur[a] == prev[a] && cur[b] == prev[b]);
                }
            }
            assert forall|a: int| 0 <= a < cur.len() implies !has_id(state, (#[trigger] cur[a]).id) by {
                if a < prev.len() {
                    assert(cur[a] == prev[a]);
                }
            }
        }
    }
}

proof fn lemma_arrived_covers<D>(inner: Seq<ZoneV>, state: Seq<(ZoneV, D)>, k: int, j: int)
    requires
        0 <= j < k <= inner.len(),
    ensures
        has_id(state, inner[j].id) || zones_have_id(spec_arrived(inner, state, k), inner[j].id),
    decreases k,
{
    let prev = spec_arrived(inner, state, k - 1);
    let cur = spec_arrived(inner, state, k);
    let z = inner[k - 1];
    if j < k - 1 {
        lemma_arrived_covers(inner, state, k - 1, j);
    }
    if zones_have_id(prev, inner[j].id) {
        let w = choose|w: int| 0 <= w < prev.len() && (#[trigger] prev[w]).id == inner[j].id;
        assert(cur[w] == prev[w]);
    } else if j == k - 1 && !has_id(state, z.id) {
        assert(cur[prev.len() as int] == z);
    }
}

proof fn lemma_arrived_within<D>(inner: Seq<ZoneV>, state: Seq<(ZoneV, D)>, k: int, outer: Seq<i32>)
    requires
        0 <= k <= inner.len(),
        forall|j: int| 0 <= j < inner.len() ==> outer.contains((#[trigger] inner[j]).id),
    ensures
        forall|a: int| 0 <= a < spec_arrived(inner, state, k).len()
            ==> outer.contains((#[trigger] spec_arrived(inner, state, k)[a]).id),
    decreases k,
{
    if k > 0 {
        lemma_arrived_within(inner, state, k - 1, outer);
        let prev = spec_arrived(inner, state, k - 1);
        let cur = spec_arrived(inner, state, k);
        assert forall|a: int| 0 <= a < cur.len() implies outer.contains((#[trigger] cur[a]).id) by {
            if a < prev.len() {
                assert(cur[a] == prev[a]);
            } else {
                assert(cur[a] == inner[k - 1]);
            }
        }
    }
}

proof fn lemma_arrived_none<D>(inner: Seq<ZoneV>, state: Seq<(ZoneV, D)>, k: int)
    requires
        0 <= k <= inner.len(),
        forall|j: int| 0 <= j < k ==> has_id(state, (#[trigger] inner[j]).id),
    ensures
        spec_arrived(inner, state, k) == Seq::<ZoneV>::empty(),
    decreases k,
{
    if k > 0 {
        lemma_arrived_none(inner, state, k - 1);
        assert(has_id(state, inner[k - 1].id));
    }
}

/// Law (hysteresis): a zone that is occupied stays occupied, and is not
/// announced as left, while the position is within its exit radius.
pub proof fn law_occupied_zone_kept_within_exit_radius<D>(
    state: Seq<(ZoneV, D)>,
    arrived: Seq<ZoneV>,
    outer: Seq<i32>,
    cands: Seq<(ZoneV, D)>,
    zero: D,
    id: i32,
)
    requires
        has_id(state, id),
        outer.contains(id),
    ensures
        has_id(spec_new_state(state, arrived, outer, cands, zero), id),
        !has_id(state.filter(|e: (ZoneV, D)| !outer.contains(e.0.id)), id),
{
    broadcast use vstd::seq_lib::group_filter_ensures;
    let pred = |e: (ZoneV, D)| outer.contains(e.0.id);
    let kept = state.filter(pred);
    let added = arrived.map_values(|z: ZoneV| (z, first_dist(cands, z.id, zero)));
    let both = kept + added;
    let k = choose|k: int| 0 <= k < state.len() && (#[trigger] state[k]).0.id == id;
    assert(pred(state[k]));
    assert(kept.contains(state[k]));
    let w = choose|w: int| 0 <= w < kept.len() && kept[w] == state[k];
    assert(both[w] == kept[w]);
    let ns = spec_new_state(state, arrived, outer, cands, zero);
    assert(ns[w].0 == both[w].0);
    let npred = |e: (ZoneV, D)| !outer.contains(e.0.id);
    let left = state.filter(npred);
    if has_id(left, id) {
        let v = choose|v: int| 0 <= v < left.len() && (#[trigger] left[v]).0.id == id;
        assert(npred(left[v]));
    }
}

/// Law: something that stays where it is, within the exit radius of every
/// zone it is within the arrival radius of, is announced nothing the second
/// time: no zone is arrived at and none is left.
pub proof fn law_standing_still_is_quiet<D>(
    state: Seq<(ZoneV, D)>,
    inner: Seq<ZoneV>,
    outer: Seq<i32>,
    cands: Seq<(ZoneV, D)>,
    zero: D,
)
    requires
        forall|j: int| 0 <= j < inner.len() ==> outer.contains((#[trigger] inner[j]).id),
    ensures
        ({
            let s1 = spec_new_state(state, spec_arrived(inner, state, inner.len() as int), outer, cands, zero);
            &&& spec_arrived(inner, s1, inner.len() as int) == Seq::<ZoneV>::empty()
            &&& s1.filter(|e: (ZoneV, D)| !outer.contains(e.0.id)) == Seq::<(ZoneV, D)>::empty()
        }),
{
    broadcast use vstd::seq_lib::group_filter_ensures;
    let arrived = spec_arrived(inner, state, inner.len() as int);
    let pred = |e: (ZoneV, D)| outer.contains(e.0.id);
    let kept = state.filter(pred);
    let added = arrived.map_values(|z: ZoneV| (z, first_dist(cands, z.id, zero)));
    let both = kept + added;
    let s1 = spec_new_state(state, arrived, outer, cands, zero);
    assert(s1.len() == both.len());
    assert forall|j: int| 0 <= j < inner.len() implies has_id(s1, (#[trigger] inner[j]).id) by {
        lemma_arrived_covers(inner, state, inner.len() as int, j);
        if zones_have_id(arrived, inner[j].id) {
            let w = choose|w: int| 0 <= w < arrived.len() && (#[trigger] arrived[w]).id == inner[j].id;
            assert(both[kept.len() + w] == added[w]);
            assert(s1[kept.len() + w].0 == both[kept.len() + w].0);
        } else {
            law_occupied_zone_kept_within_exit_radius(state, arrived, outer, cands, zero, inner[j].id);
        }
    }
    lemma_arrived_none(inner, s1, inner.len() as int);
    lemma_arrived_within(inner, state, inner.len() as int, outer);
    let npred = |e: (ZoneV, D)| !outer.contains(e.0.id);
    assert forall|i: int| 0 <= i < s1.len() implies !npred(#[trigger] s1[i]) by {
        assert(s1[i].0 == both[i].0);
        if i < kept.len() {
            assert(both[i] == kept[i]);
            assert(pred(kept[i]));
        } else {
            assert(both[i] == added[i - kept.len()]);
            assert(outer.contains(arrived[i - kept.len()].id));
        }
    }
    s1.lemma_all_neg_filter_empty(npred);
}

} // verus!
