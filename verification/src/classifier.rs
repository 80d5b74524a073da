//! Classification of a date into tags (such as `weekday` or `christmas`) by a
//! list of rules applied in order; each rule that applies to the date adds and
//! then deletes tags.
use vstd::prelude::*;
use crate::conditions::{Boolean, BooleanV, Context, ContextV, Scalar, ScalarV, ScalarType, spec_eval_boolean};
use crate::dates::{Date, Weekday, is_weekend, spec_day_name, spec_weekday, weekday_index};
use crate::parser::{Fields, FieldsV};
use crate::text::{contains_str, copy_string, copy_strings, string_of, strings_view};

verus! {

broadcast use vstd::string::group_string_axioms;

/// A classification rule.
#[derive(Debug)]
pub struct Config {
    /// Only this date.
    pub date: Option<Date>,
    /// Not before this date.
    pub start: Option<Date>,
    /// Not after this date.
    pub stop: Option<Date>,
    /// Only weekdays (`true`) or only weekends (`false`).
    pub week_day: Option<bool>,
    /// Only this day of the week.
    pub day_of_week: Option<Weekday>,
    /// At least one of these conditions must hold.
    pub if_cond: Option<Vec<Boolean>>,
    /// At least one of these tags must already be set.
    pub if_set: Option<Vec<String>>,
    /// None of these tags may already be set.
    pub if_not_set: Option<Vec<String>>,
    /// Tags to add.
    pub add: Option<Vec<String>>,
    /// Tags to delete.
    pub delete: Option<Vec<String>>,
}

/// Model of a classification rule.
pub struct ConfigV {
    pub date: Option<Date>,
    pub start: Option<Date>,
    pub stop: Option<Date>,
    pub week_day: Option<bool>,
    pub day_of_week: Option<Weekday>,
    pub if_cond: Option<Seq<BooleanV>>,
    pub if_set: Option<Seq<Seq<char>>>,
    pub if_not_set: Option<Seq<Seq<char>>>,
    pub add: Option<Seq<Seq<char>>>,
    pub delete: Option<Seq<Seq<char>>>,
}

/// Model of an optional list of strings.
pub open spec fn opt_strings_view(o: Option<Vec<String>>) -> Option<Seq<Seq<char>>> {
    match o {
        Some(v) => Some(strings_view(v@)),
        None => None,
    }
}

/// Model of a list of conditions.
pub open spec fn booleans_view(v: Seq<Boolean>) -> Seq<BooleanV> {
    v.map_values(|b: Boolean| b@)
}

/// Model of an optional list of conditions.
pub open spec fn opt_conds_view(o: Option<Vec<Boolean>>) -> Option<Seq<BooleanV>> {
    match o {
        Some(v) => Some(booleans_view(v@)),
        None => None,
    }
}

impl View for Config {
    type V = ConfigV;

    open spec fn view(&self) -> ConfigV {
        ConfigV {
            date: self.date,
            start: self.start,
            stop: self.stop,
            week_day: self.week_day,
            day_of_week: self.day_of_week,
            if_cond: opt_conds_view(self.if_cond),
            if_set: opt_strings_view(self.if_set),
            if_not_set: opt_strings_view(self.if_not_set),
            add: opt_strings_view(self.add),
            delete: opt_strings_view(self.delete),
        }
    }
}

proof fn lemma_add_tags_no_duplicates(tags: Seq<Seq<char>>, add: Seq<Seq<char>>)
    requires
        tags.no_duplicates(),
    ensures
        add_tags(tags, add).no_duplicates(),
    decreases add.len(),
{
    if add.len() > 0 {
        lemma_add_tags_no_duplicates(tags, add.drop_last());
    }
}

proof fn lemma_filter_no_duplicates(s: Seq<Seq<char>>, p: spec_fn(Seq<char>) -> bool)
    requires
        s.no_duplicates(),
    ensures
        s.filter(p).no_duplicates(),
    decreases s.len(),
{
    reveal_with_fuel(Seq::filter, 1);
    if s.len() > 0 {
        let rest = s.drop_last();
        assert(rest.no_duplicates()) by {
            assert forall|i: int, j: int| 0 <= i < rest.len() && 0 <= j < rest.len() && i != j implies rest[i] != rest[j] by {
                assert(rest[i] == s[i] && rest[j] == s[j]);
            }
        }
        lemma_filter_no_duplicates(rest, p);
        let sub = rest.filter(p);
        if p(s.last()) {
            if sub.contains(s.last()) {
                rest.lemma_filter_contains_rev(p, s.last());
                let k = choose|k: int| 0 <= k < rest.len() && rest[k] == s.last();
                assert(s[k] == s[s.len() - 1]);
            }
        }
    }
}

proof fn lemma_classify_prefix_no_duplicates(configs: Seq<ConfigV>, date: Date, n: int)
    ensures
        classify_prefix(configs, date, n).no_duplicates(),
    decreases n,
{
    if n > 0 {
        lemma_classify_prefix_no_duplicates(configs, date, n - 1);
        let c = configs[n - 1];
        let tags = classify_prefix(configs, date, n - 1);
        if applies(c, date, tags) {
            let added = match c.add { Some(a) => add_tags(tags, a), None => tags };
            if let Some(a) = c.add {
                lemma_add_tags_no_duplicates(tags, a);
            }
            if let Some(d) = c.delete {
                lemma_filter_no_duplicates(added, |t: Seq<char>| !d.contains(t));
            }
        }
    }
}

proof fn lemma_add_tags_contains(tags: Seq<Seq<char>>, add: Seq<Seq<char>>)
    ensures
        forall|k: int| 0 <= k < add.len() ==> add_tags(tags, add).contains(#[trigger] add[k]),
    decreases add.len(),
{
    if add.len() > 0 {
        lemma_add_tags_contains(tags, add.drop_last());
        let prev = add_tags(tags, add.drop_last());
        assert forall|k: int| 0 <= k < add.len() implies add_tags(tags, add).contains(#[trigger] add[k]) by {
            if k < add.len() - 1 {
                assert(add.drop_last()[k] == add[k]);
                assert(prev.contains(add[k]));
                if !prev.contains(add.last()) {
                    let w = choose|w: int| 0 <= w < prev.len() && prev[w] == add[k];
                    assert(prev.push(add.last())[w] == add[k]);
                }
            } else if !prev.contains(add.last()) {
                assert(prev.push(add.last())[prev.len() as int] == add.last());
            }
        }
    }
}

/// Law: the conditions of a rule are alternatives: a rule that asks nothing
/// else of the date adds its tags as soon as one of its conditions holds,
/// whatever the others give; and when none holds, it changes nothing.
pub proof fn law_if_cond_is_disjunction(c: ConfigV, date: Date, tags: Seq<Seq<char>>, i: int)
    requires
        c.date is None,
        c.start is None,
        c.stop is None,
        c.week_day is None,
        c.day_of_week is None,
        c.if_set is None,
        c.if_not_set is None,
        c.delete is None,
        c.if_cond is Some,
    ensures
        (0 <= i < c.if_cond->0.len()
            && spec_eval_boolean(c.if_cond->0[i], spec_context(date, tags)) == Ok::<bool, crate::conditions::EvalErrorV>(true))
            ==> (c.add matches Some(a) ==> forall|k: int| 0 <= k < a.len() ==> apply_rule(c, date, tags).contains(#[trigger] a[k])),
        (forall|j: int| 0 <= j < c.if_cond->0.len()
            ==> spec_eval_boolean(#[trigger] c.if_cond->0[j], spec_context(date, tags)) != Ok::<bool, crate::conditions::EvalErrorV>(true))
            ==> apply_rule(c, date, tags) == tags,
{
    if let Some(a) = c.add {
        lemma_add_tags_contains(tags, a);
    }
}

/// Law: classifying a date by one rule with conditions and nothing else to
/// check gives its tags when one of its conditions holds, and no tags when
/// none does.
pub proof fn law_one_rule_classification(c: ConfigV, date: Date, i: int)
    requires
        c.date is None,
        c.start is None,
        c.stop is None,
        c.week_day is None,
        c.day_of_week is None,
        c.if_set is None,
        c.if_not_set is None,
        c.delete is None,
        c.if_cond is Some,
    ensures
        (0 <= i < c.if_cond->0.len()
            && spec_eval_boolean(c.if_cond->0[i], spec_context(date, Seq::empty())) == Ok::<bool, crate::conditions::EvalErrorV>(true))
            ==> (c.add matches Some(a) ==> forall|k: int| 0 <= k < a.len() ==> spec_classify(seq![c], date).contains(#[trigger] a[k])),
        (forall|j: int| 0 <= j < c.if_cond->0.len()
            ==> spec_eval_boolean(#[trigger] c.if_cond->0[j], spec_context(date, Seq::empty())) != Ok::<bool, crate::conditions::EvalErrorV>(true))
            ==> spec_classify(seq![c], date) == Seq::<Seq<char>>::empty(),
{
    law_if_cond_is_disjunction(c, date, Seq::empty(), i);
    assert(classify_prefix(seq![c], date, 0) == Seq::<Seq<char>>::empty());
    assert(seq![c][0] == c);
}

/// Law: classification sets each tag at most once.
pub proof fn law_tags_set_once(configs: Seq<ConfigV>, date: Date)
    ensures
        spec_classify(configs, date).no_duplicates(),
{
    lemma_classify_prefix_no_duplicates(configs, date, configs.len() as int);
}

/// The fields that classification conditions may name.
pub open spec fn spec_fields() -> FieldsV {
    FieldsV {
        scalars: seq![("days_since_epoch"@, ScalarType::Integer), ("day_of_week"@, ScalarType::String)],
        sets: seq!["classifications"@],
    }
}

/// The values conditions are evaluated against: the day number, the weekday
/// name and the tags set so far.
pub open spec fn spec_context(date: Date, tags: Seq<Seq<char>>) -> ContextV {
    ContextV {
        scalars: seq![
            ("days_since_epoch"@, ScalarV::Integer(date.days_from_ce)),
            ("day_of_week"@, ScalarV::String(spec_day_name(weekday_of(date)))),
        ],
        sets: seq![("classifications"@, tags)],
    }
}

/// The weekday of a date.
pub open spec fn weekday_of(date: Date) -> Weekday {
    let i = spec_weekday(date.days_from_ce as int);
    if i == 0 { Weekday::Mon }
    else if i == 1 { Weekday::Tue }
    else if i == 2 { Weekday::Wed }
    else if i == 3 { Weekday::Thu }
    else if i == 4 { Weekday::Fri }
    else if i == 5 { Weekday::Sat }
    else { Weekday::Sun }
}

/// Does some list element occur in `tags`?
pub open spec fn any_in(list: Seq<Seq<char>>, tags: Seq<Seq<char>>) -> bool {
    exists|i: int| 0 <= i < tags.len() && list.contains(#[trigger] tags[i])
}

/// Does the rule apply to the date, given the tags set so far? A condition that
/// fails to evaluate counts as not holding.
pub open spec fn applies(c: ConfigV, date: Date, tags: Seq<Seq<char>>) -> bool {
    &&& (c.date matches Some(d) ==> d == date)
    &&& (c.start matches Some(s) ==> s.days_from_ce <= date.days_from_ce)
    &&& (c.stop matches Some(s) ==> date.days_from_ce <= s.days_from_ce)
    &&& (c.week_day matches Some(w) ==> w == !is_weekend(weekday_of(date)))
    &&& (c.day_of_week matches Some(w) ==> w == weekday_of(date))
    &&& (c.if_cond matches Some(conds) ==> exists|i: int| 0 <= i < conds.len()
            && spec_eval_boolean(#[trigger] conds[i], spec_context(date, tags)) == Ok::<bool, crate::conditions::EvalErrorV>(true))
    &&& (c.if_set matches Some(l) ==> any_in(l, tags))
    &&& (c.if_not_set matches Some(l) ==> !any_in(l, tags))
}

/// Add the tags not yet present, in order.
pub open spec fn add_tags(tags: Seq<Seq<char>>, add: Seq<Seq<char>>) -> Seq<Seq<char>>
    decreases add.len(),
{
    if add.len() == 0 {
        tags
    } else {
        let prev = add_tags(tags, add.drop_last());
        if prev.contains(add.last()) { prev } else { prev.push(add.last()) }
    }
}

/// Remove the deleted tags.
pub open spec fn delete_tags(tags: Seq<Seq<char>>, delete: Seq<Seq<char>>) -> Seq<Seq<char>> {
    tags.filter(|t: Seq<char>| !delete.contains(t))
}

/// The tags after one rule.
pub open spec fn apply_rule(c: ConfigV, date: Date, tags: Seq<Seq<char>>) -> Seq<Seq<char>> {
    if !applies(c, date, tags) {
        tags
    } else {
        let added = match c.add { Some(a) => add_tags(tags, a), None => tags };
        match c.delete { Some(d) => delete_tags(added, d), None => added }
    }
}

/// The tags after the first `n` rules.
pub open spec fn classify_prefix(configs: Seq<ConfigV>, date: Date, n: int) -> Seq<Seq<char>>
    decreases n,
{
    if n <= 0 {
        Seq::empty()
    } else {
        apply_rule(configs[n - 1], date, classify_prefix(configs, date, n - 1))
    }
}

/// The tags of a date under all the rules.
pub open spec fn spec_classify(configs: Seq<ConfigV>, date: Date) -> Seq<Seq<char>> {
    classify_prefix(configs, date, configs.len() as int)
}

/// The fields that classification conditions may name: the integer
/// `days_since_epoch`, the string `day_of_week` and the set `classifications`.
pub fn get_fields() -> (f: Fields)
    ensures
        f@ == spec_fields(),
{
    let mut scalars: Vec<(String, ScalarType)> = Vec::new();
    scalars.push((string_of("days_since_epoch"), ScalarType::Integer));
    scalars.push((string_of("day_of_week"), ScalarType::String));
    let mut sets: Vec<String> = Vec::new();
    sets.push(string_of("classifications"));
    let f = Fields { scalars, sets };
    assert(f@.scalars =~= spec_fields().scalars);
    assert(f@.sets =~= spec_fields().sets);
    f
}

fn weekday_of_exec(date: Date) -> (w: Weekday)
    ensures
        w == weekday_of(date),
{
    let w = date.weekday();
    assert(weekday_index(w) == spec_weekday(date.days_from_ce as int));
    w
}

fn make_context(date: Date, tags: &Vec<String>) -> (ctx: Context)
    ensures
        ctx@ == spec_context(date, strings_view(tags@)),
{
    let mut scalars: Vec<(String, Scalar)> = Vec::new();
    scalars.push((string_of("days_since_epoch"), Scalar::Integer(date.days_from_ce)));
    scalars.push((string_of("day_of_week"), Scalar::String(weekday_of_exec(date).day_name())));
    let mut sets: Vec<(String, Vec<String>)> = Vec::new();
    sets.push((string_of("classifications"), copy_strings(tags)));
    let ctx = Context { scalars, sets };
    assert(ctx@.scalars =~= spec_context(date, strings_view(tags@)).scalars);
    assert(ctx@.sets =~= spec_context(date, strings_view(tags@)).sets);
    ctx
}

pub(crate) fn any_in_exec(list: &Vec<String>, tags: &Vec<String>) -> (b: bool)
    ensures
        b == any_in(strings_view(list@), strings_view(tags@)),
{
    let mut i: usize = 0;
    while i < tags.len()
        invariant
            i <= tags@.len(),
            forall|j: int| 0 <= j < i ==> !strings_view(list@).contains(#[trigger] strings_view(tags@)[j]),
        decreases tags@.len() - i,
    {
        if contains_str(list, &tags[i]) {
            assert(strings_view(tags@)[i as int] == tags@[i as int]@);
            return true;
        }
        i = i + 1;
    }
    false
}

pub(crate) fn any_condition_holds(conds: &Vec<Boolean>, ctx: &Context) -> (b: bool)
    ensures
        b == exists|i: int| 0 <= i < conds@.len()
            && spec_eval_boolean(#[trigger] booleans_view(conds@)[i], ctx@) == Ok::<bool, crate::conditions::EvalErrorV>(true),
{
    let ghost cv = booleans_view(conds@);
    let mut i: usize = 0;
    while i < conds.len()
        invariant
            i <= conds@.len(),
            cv == booleans_view(conds@),
            forall|j: int| 0 <= j < i ==> spec_eval_boolean(#[trigger] cv[j], ctx@) != Ok::<bool, crate::conditions::EvalErrorV>(true),
        decreases conds@.len() - i,
    {
        let r = conds[i].eval(ctx);
        assert(cv[i as int] == conds@[i as int]@);
        match r {
            Ok(true) => {
                return true;
            },
            _ => {},
        }
        i = i + 1;
    }
    false
}

fn rule_applies(c: &Config, date: Date, tags: &Vec<String>) -> (b: bool)
    ensures
        b == applies(c@, date, strings_view(tags@)),
{
    if let Some(d) = c.date {
        if d != date {
            return false;
        }
    }
    if let Some(s) = c.start {
        if date.days_from_ce < s.days_from_ce {
            return false;
        }
    }
    if let Some(s) = c.stop {
        if date.days_from_ce > s.days_from_ce {
            return false;
        }
    }
    let weekday = weekday_of_exec(date);
    if let Some(wanted) = c.week_day {
        let is_weekday = !weekday.is_weekend();
        if is_weekday != wanted {
            return false;
        }
    }
    if let Some(d) = c.day_of_week {
        if d != weekday {
            return false;
        }
    }
    if let Some(conds) = &c.if_cond {
        let ctx = make_context(date, tags);
        if !any_condition_holds(conds, &ctx) {
            return false;
        }
    }
    if let Some(l) = &c.if_set {
        if !any_in_exec(l, tags) {
            return false;
        }
    }
    if let Some(l) = &c.if_not_set {
        if any_in_exec(l, tags) {
            return false;
        }
    }
    true
}

fn add_tags_exec(tags: &mut Vec<String>, add: &Vec<String>)
    ensures
        strings_view(final(tags)@) == add_tags(strings_view(old(tags)@), strings_view(add@)),
{
    let ghost start = strings_view(tags@);
    let mut i: usize = 0;
    while i < add.len()
        invariant
            i <= add@.len(),
            strings_view(tags@) == add_tags(start, strings_view(add@).take(i as int)),
        decreases add@.len() - i,
    {
        let ghost before = strings_view(tags@);
        assert(strings_view(add@).take(i as int + 1).drop_last() =~= strings_view(add@).take(i as int));
        if !contains_str(tags, &add[i]) {
            tags.push(copy_string(&add[i]));
            assert(strings_view(tags@) =~= before.push(add@[i as int]@));
        }
        i = i + 1;
    }
    assert(strings_view(add@).take(add@.len() as int) =~= strings_view(add@));
}

fn delete_tags_exec(tags: &Vec<String>, delete: &Vec<String>) -> (kept: Vec<String>)
    ensures
        strings_view(kept@) == delete_tags(strings_view(tags@), strings_view(delete@)),
{
    let ghost del = strings_view(delete@);
    let mut kept: Vec<String> = Vec::new();
    let mut i: usize = 0;
    while i < tags.len()
        invariant
            i <= tags@.len(),
            del == strings_view(delete@),
            strings_view(kept@) == strings_view(tags@).take(i as int).filter(|t: Seq<char>| !del.contains(t)),
        decreases tags@.len() - i,
    {
        let ghost prefix = strings_view(tags@).take(i as int + 1);
        assert(prefix.drop_last() =~= strings_view(tags@).take(i as int));
        reveal_with_fuel(Seq::filter, 1);
        if !contains_str(delete, &tags[i]) {
            kept.push(copy_string(&tags[i]));
            assert(strings_view(kept@) =~= strings_view(tags@).take(i as int).filter(|t: Seq<char>| !del.contains(t)).push(tags@[i as int]@));
        }
        i = i + 1;
    }
    assert(strings_view(tags@).take(tags@.len() as int) =~= strings_view(tags@));
    kept
}

/// Classify a date: apply the rules in order, starting from no tags.
pub fn classify_date_with_config(date: &Date, config: &Vec<Config>) -> (tags: Vec<String>)
    ensures
        strings_view(tags@) == spec_classify(config@.map_values(|c: Config| c@), *date),
{
    let ghost cv = config@.map_values(|c: Config| c@);
    let mut tags: Vec<String> = Vec::new();
    let mut i: usize = 0;
    assert(strings_view(tags@) =~= Seq::<Seq<char>>::empty());
    while i < config.len()
        invariant
            i <= config@.len(),
            cv == config@.map_values(|c: Config| c@),
            strings_view(tags@) == classify_prefix(cv, *date, i as int),
        decreases config@.len() - i,
    {
        let c = &config[i];
        assert(cv[i as int] == c@);
        if rule_applies(c, *date, &tags) {
            if let Some(add) = &c.add {
                add_tags_exec(&mut tags, add);
            }
            if let Some(delete) = &c.delete {
                tags = delete_tags_exec(&tags, delete);
            }
        }
        i = i + 1;
    }
    tags
}


/// The tags of yesterday, today and tomorrow.
#[derive(Debug)]
pub struct Tags {
    /// The tags of the day before.
    pub yesterday: Vec<String>,
    /// The tags of the day.
    pub today: Vec<String>,
    /// The tags of the day after.
    pub tomorrow: Vec<String>,
}

/// Classify the day before `today`, `today` and the day after.
pub fn get_tags(config: &Vec<Config>, today: Date) -> (tags: Tags)
    requires
        i32::MIN < today.days_from_ce < i32::MAX,
    ensures
        strings_view(tags.yesterday@) == spec_classify(config@.map_values(|c: Config| c@),
            Date { days_from_ce: (today.days_from_ce - 1) as i32 }),
        strings_view(tags.today@) == spec_classify(config@.map_values(|c: Config| c@), today),
        strings_view(tags.tomorrow@) == spec_classify(config@.map_values(|c: Config| c@),
            Date { days_from_ce: (today.days_from_ce + 1) as i32 }),
{
    let yesterday = Date { days_from_ce: today.days_from_ce - 1 };
    let tomorrow = Date { days_from_ce: today.days_from_ce + 1 };
    Tags {
        yesterday: classify_date_with_config(&yesterday, config),
        today: classify_date_with_config(&today, config),
        tomorrow: classify_date_with_config(&tomorrow, config),
    }
}

} // verus!
