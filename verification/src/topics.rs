//! MQTT topic filters: a topic is split into levels at `/`; in a pattern `+`
//! matches any one level and `#` matches all remaining levels (zero or more).
use vstd::prelude::*;
use crate::text::str_to_chars;

verus! {

/// The levels of a topic: the pieces between `/` separators (an empty topic has
/// one empty level).
pub open spec fn split_levels(s: Seq<char>) -> Seq<Seq<char>>
    decreases s.len(),
{
    if s.len() == 0 {
        seq![Seq::<char>::empty()]
    } else {
        let prev = split_levels(s.drop_last());
        if s.last() == '/' {
            prev.push(Seq::<char>::empty())
        } else {
            prev.update(prev.len() - 1, prev.last().push(s.last()))
        }
    }
}

/// The level `#`.
pub open spec fn is_hash(level: Seq<char>) -> bool {
    level == seq!['#']
}

/// The level `+`.
pub open spec fn is_plus(level: Seq<char>) -> bool {
    level == seq!['+']
}

/// Do the topic levels match the pattern levels?
pub open spec fn levels_match(topic: Seq<Seq<char>>, pattern: Seq<Seq<char>>) -> bool
    decreases pattern.len(),
{
    if pattern.len() == 0 {
        topic.len() == 0
    } else if is_hash(pattern[0]) {
        true
    } else if topic.len() == 0 {
        is_plus(pattern[0]) && levels_match(topic, pattern.drop_first())
    } else {
        (is_plus(pattern[0]) || pattern[0] == topic[0])
            && levels_match(topic.drop_first(), pattern.drop_first())
    }
}

/// Does the topic match the pattern?
pub open spec fn spec_topic_matches(topic: Seq<char>, pattern: Seq<char>) -> bool {
    levels_match(split_levels(topic), split_levels(pattern))
}

proof fn lemma_split_nonempty(s: Seq<char>)
    ensures
        split_levels(s).len() >= 1,
    decreases s.len(),
{
    if s.len() > 0 {
        lemma_split_nonempty(s.drop_last());
    }
}

/// Split a string into its levels.
fn split_chars(s: &Vec<char>) -> (levels: Vec<Vec<char>>)
    ensures
        levels@.len() == split_levels(s@).len(),
        forall|i: int| 0 <= i < levels@.len() ==> #[trigger] levels@[i]@ == split_levels(s@)[i],
{
    let mut done: Vec<Vec<char>> = Vec::new();
    let mut cur: Vec<char> = Vec::new();
    let mut i: usize = 0;
    while i < s.len()
        invariant
            i <= s@.len(),
            split_levels(s@.take(i as int)).len() == done@.len() + 1,
            forall|j: int| 0 <= j < done@.len() ==> #[trigger] done@[j]@ == split_levels(s@.take(i as int))[j],
            cur@ == split_levels(s@.take(i as int)).last(),
        decreases s@.len() - i,
    {
        let c = s[i];
        assert(s@.take(i as int + 1).drop_last() =~= s@.take(i as int));
        proof { lemma_split_nonempty(s@.take(i as int)); }
        if c == '/' {
            let finished = cur;
            done.push(finished);
            cur = Vec::new();
            assert(cur@ =~= Seq::<char>::empty());
        } else {
            cur.push(c);
        }
        i = i + 1;
    }
    assert(s@.take(s@.len() as int) =~= s@);
    done.push(cur);
    done
}

fn level_is(level: &Vec<char>, c: char) -> (b: bool)
    ensures
        b == (level@ == seq![c]),
{
    if level.len() == 1 && level[0] == c {
        assert(level@ =~= seq![c]);
        true
    } else {
        false
    }
}

fn levels_equal(a: &Vec<char>, b: &Vec<char>) -> (eq: bool)
    ensures
        eq == (a@ == b@),
{
    if a.len() != b.len() {
        return false;
    }
    let mut i: usize = 0;
    while i < a.len()
        invariant
            a@.len() == b@.len(),
            i <= a@.len(),
            forall|j: int| 0 <= j < i ==> a@[j] == b@[j],
        decreases a@.len() - i,
    {
        if a[i] != b[i] {
            return false;
        }
        i = i + 1;
    }
    assert(a@ =~= b@);
    true
}

/// Does this topic match the given pattern?
///
/// The pattern can contain wildcards:
/// - `+` matches a single level
/// - `#` matches zero or more levels
pub fn topic_matches(topic: &str, pattern: &str) -> (matches: bool)
    ensures
        matches == spec_topic_matches(topic@, pattern@),
{
    let t = split_chars(&str_to_chars(topic));
    let p = split_chars(&str_to_chars(pattern));
    let ghost ts = split_levels(topic@);
    let ghost ps = split_levels(pattern@);
    assert(t@.map_values(|l: Vec<char>| l@) =~= ts);
    assert(p@.map_values(|l: Vec<char>| l@) =~= ps);
    let mut ti: usize = 0;
    let mut pi: usize = 0;
    assert(ts.skip(0) =~= ts);
    assert(ps.skip(0) =~= ps);
    while pi < p.len()
        invariant
            ts == split_levels(topic@),
            ps == split_levels(pattern@),
            t@.len() == ts.len(),
            p@.len() == ps.len(),
            forall|i: int| 0 <= i < t@.len() ==> #[trigger] t@[i]@ == ts[i],
            forall|i: int| 0 <= i < p@.len() ==> #[trigger] p@[i]@ == ps[i],
            pi <= p@.len(),
            ti <= t@.len(),
            ti == t@.len() || ti == pi,
            levels_match(ts, ps) == levels_match(ts.skip(ti as int), ps.skip(pi as int)),
        decreases p@.len() - pi,
    {
        let ghost rest_t = ts.skip(ti as int);
        let ghost rest_p = ps.skip(pi as int);
        assert(rest_p[0] == ps[pi as int]);
        assert(rest_p.drop_first() =~= ps.skip(pi as int + 1));
        assert(levels_match(rest_t, rest_p) == (if is_hash(rest_p[0]) {
            true
        } else if rest_t.len() == 0 {
            is_plus(rest_p[0]) && levels_match(rest_t, rest_p.drop_first())
        } else {
            (is_plus(rest_p[0]) || rest_p[0] == rest_t[0]) && levels_match(
                rest_t.drop_first(),
                rest_p.drop_first(),
            )
        }));
        let is_hash_level = level_is(&p[pi], '#');
        assert(p@[pi as int]@ == ps[pi as int]);
        if is_hash_level {
            return true;
        }
        if ti < t.len() {
            assert(rest_t[0] == ts[ti as int]);
            assert(rest_t.drop_first() =~= ts.skip(ti as int + 1));
            if !level_is(&p[pi], '+') && !levels_equal(&p[pi], &t[ti]) {
                return false;
            }
            ti = ti + 1;
        } else {
            assert(rest_t.len() == 0);
            if !level_is(&p[pi], '+') {
                return false;
            }
        }
        pi = pi + 1;
    }
    assert(ps.skip(pi as int).len() == 0);
    ti == t.len()
}

/// Does this topic match any of the given patterns?
pub fn topic_matches_any(topic: &str, patterns: &Vec<String>) -> (matches: bool)
    ensures
        matches == exists|i: int| 0 <= i < patterns@.len() && spec_topic_matches(topic@, #[trigger] patterns@[i]@),
{
    let mut i: usize = 0;
    while i < patterns.len()
        invariant
            i <= patterns@.len(),
            forall|j: int| 0 <= j < i ==> !spec_topic_matches(topic@, #[trigger] patterns@[j]@),
        decreases patterns@.len() - i,
    {
        if topic_matches(topic, patterns[i].as_str()) {
            return true;
        }
        i = i + 1;
    }
    false
}


proof fn lemma_levels_match_self(levels: Seq<Seq<char>>)
    ensures
        levels_match(levels, levels),
    decreases levels.len(),
{
    if levels.len() > 0 {
        lemma_levels_match_self(levels.drop_first());
    }
}

/// Every topic matches itself when used as a pattern.
pub proof fn law_topic_matches_itself(topic: Seq<char>)
    ensures
        spec_topic_matches(topic, topic),
{
    lemma_levels_match_self(split_levels(topic));
}

/// The pattern `#` matches every topic.
pub proof fn law_hash_matches_everything(topic: Seq<char>)
    ensures
        spec_topic_matches(topic, seq!['#']),
{
    let p = seq!['#'];
    assert(p.drop_last() =~= Seq::<char>::empty());
    assert(split_levels(p.drop_last()) =~= seq![Seq::<char>::empty()]);
    assert(split_levels(p) =~= seq![seq!['#']]);
}

/// A pattern without wildcards matches exactly the topic that is equal to it.
pub proof fn law_plain_pattern_matches_only_itself(topic: Seq<char>, pattern: Seq<char>)
    requires
        !pattern.contains('#'),
        !pattern.contains('+'),
    ensures
        spec_topic_matches(topic, pattern) <==> topic == pattern,
{
    lemma_split_no_wildcard(pattern);
    if spec_topic_matches(topic, pattern) {
        lemma_plain_levels_match_equal(split_levels(topic), split_levels(pattern));
        lemma_split_injective(topic, pattern);
    }
    if topic == pattern {
        law_topic_matches_itself(topic);
    }
}

/// No level of the split of a wildcard-free string is `#` or `+`.
proof fn lemma_split_no_wildcard(s: Seq<char>)
    requires
        !s.contains('#'),
        !s.contains('+'),
    ensures
        forall|i: int| 0 <= i < split_levels(s).len() ==> !is_hash(#[trigger] split_levels(s)[i]) && !is_plus(split_levels(s)[i]),
    decreases s.len(),
{
    if s.len() > 0 {
        let d = s.drop_last();
        assert forall|c: char| d.contains(c) implies s.contains(c) by {
            let k = choose|k: int| 0 <= k < d.len() && d[k] == c;
            assert(s[k] == c);
        }
        lemma_split_no_wildcard(d);
        lemma_split_nonempty(d);
        let prev = split_levels(d);
        assert(s[s.len() - 1] == s.last());
        if s.last() != '/' {
            let l = prev.last().push(s.last());
            assert(l[l.len() - 1] == s.last());
            assert(!is_hash(l)) by {
                if is_hash(l) {
                    assert(l.len() == 1);
                    assert(l[0] == '#');
                }
            }
            assert(!is_plus(l)) by {
                if is_plus(l) {
                    assert(l.len() == 1);
                    assert(l[0] == '+');
                }
            }
            let cur = prev.update(prev.len() - 1, l);
            assert forall|i: int| 0 <= i < cur.len() implies !is_hash(#[trigger] cur[i]) && !is_plus(cur[i]) by {
                if i < prev.len() - 1 {
                    assert(cur[i] == prev[i]);
                }
            }
        } else {
            let cur = prev.push(Seq::<char>::empty());
            assert forall|i: int| 0 <= i < cur.len() implies !is_hash(#[trigger] cur[i]) && !is_plus(cur[i]) by {
                if i < prev.len() {
                    assert(cur[i] == prev[i]);
                } else {
                    assert(cur[i].len() == 0);
                }
            }
        }
    } else {
        assert(split_levels(s) =~= seq![Seq::<char>::empty()]);
        assert(split_levels(s)[0].len() == 0);
    }
}

proof fn lemma_plain_levels_match_equal(t: Seq<Seq<char>>, p: Seq<Seq<char>>)
    requires
        forall|i: int| 0 <= i < p.len() ==> !is_hash(#[trigger] p[i]) && !is_plus(p[i]),
        levels_match(t, p),
    ensures
        t == p,
    decreases p.len(),
{
    if p.len() == 0 {
        assert(t =~= p);
    } else {
        assert(!is_hash(p[0]) && !is_plus(p[0]));
        assert(t.len() > 0);
        assert forall|i: int| 0 <= i < p.drop_first().len() implies !is_hash(#[trigger] p.drop_first()[i]) && !is_plus(p.drop_first()[i]) by {
            assert(p.drop_first()[i] == p[i + 1]);
        }
        lemma_plain_levels_match_equal(t.drop_first(), p.drop_first());
        assert(t =~= seq![t[0]] + t.drop_first());
        assert(p =~= seq![p[0]] + p.drop_first());
    }
}

/// Joining the levels with `/` gives back the string.
pub open spec fn join_levels(levels: Seq<Seq<char>>) -> Seq<char>
    decreases levels.len(),
{
    if levels.len() <= 1 {
        if levels.len() == 0 { Seq::<char>::empty() } else { levels[0] }
    } else {
        join_levels(levels.drop_last()) + seq!['/'] + levels.last()
    }
}

proof fn lemma_join_split(s: Seq<char>)
    ensures
        join_levels(split_levels(s)) == s,
    decreases s.len(),
{
    if s.len() > 0 {
        let d = s.drop_last();
        lemma_join_split(d);
        lemma_split_nonempty(d);
        let prev = split_levels(d);
        if s.last() == '/' {
            let cur = prev.push(Seq::<char>::empty());
            assert(cur.drop_last() =~= prev);
            assert(join_levels(cur) =~= d + seq!['/'] + Seq::<char>::empty());
            assert(s =~= d.push('/'));
        } else {
            let cur = prev.update(prev.len() - 1, prev.last().push(s.last()));
            if prev.len() == 1 {
                assert(join_levels(cur) == cur[0]);
                assert(s =~= d.push(s.last()));
            } else {
                assert(cur.drop_last() =~= prev.drop_last());
                assert(join_levels(prev) == join_levels(prev.drop_last()) + seq!['/'] + prev.last());
                assert(s =~= d.push(s.last()));
                assert(join_levels(cur) =~= join_levels(prev) + seq![s.last()]);
            }
        }
    }
}

proof fn lemma_split_injective(a: Seq<char>, b: Seq<char>)
    requires
        split_levels(a) == split_levels(b),
    ensures
        a == b,
{
    lemma_join_split(a);
    lemma_join_split(b);
}

} // verus!
