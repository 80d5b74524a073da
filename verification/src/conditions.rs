//! The conditions language: boolean expressions over integer and string values,
//! named scalar fields and named sets of strings, e.g.
//! `'christmas' in today and days_since_epoch % 7 == 3`.
//!
//! Expressions are written with `+ - * / %`, compared with `== != < <= > >=`,
//! combined left to right with `and` / `or`, and a leading `not` negates the
//! first condition. String literals are identifiers between `'` or `"`.
use vstd::prelude::*;
use crate::text::strings_view;

verus! {

/// The type of a scalar value.
#[derive(Clone, Copy, Debug, PartialEq, Eq, Structural)]
pub enum ScalarType {
    /// A 32 bit signed integer.
    Integer,
    /// A string.
    String,
}

/// An arithmetic operator.
#[derive(Clone, Copy, Debug, PartialEq, Eq, Structural)]
pub enum Opcode {
    /// `+`
    Add,
    /// `-`
    Sub,
    /// `*`
    Mul,
    /// `/`
    Div,
    /// `%`
    Remainder,
}

/// A comparison operator.
#[derive(Clone, Copy, Debug, PartialEq, Eq, Structural)]
pub enum ConditionOpcode {
    /// `==`
    Eq,
    /// `!=`
    NotEq,
    /// `<`
    Lt,
    /// `<=`
    Lte,
    /// `>`
    Gt,
    /// `>=`
    Gte,
}

/// A reference to a scalar field of the context.
#[derive(Clone, Debug, PartialEq)]
pub struct Reference {
    /// Name of the field.
    pub name: String,
    /// Declared type of the field.
    pub typ: ScalarType,
}

/// An arithmetic expression.
#[derive(Debug, PartialEq)]
pub enum Expr {
    /// An integer literal.
    Integer(i32),
    /// A string literal.
    String(String),
    /// The value of a scalar field.
    Variable(Reference),
    /// A binary operation.
    Op(Box<Expr>, Opcode, Box<Expr>),
}

/// A single condition.
#[derive(Debug, PartialEq)]
pub enum Condition {
    /// A parenthesised boolean expression.
    Boolean(Box<Boolean>),
    /// A comparison of two expressions.
    Op(Box<Expr>, ConditionOpcode, Box<Expr>),
    /// The string is a member of the named set.
    In(String, String),
    /// The string is not a member of the named set.
    NotIn(String, String),
}

/// A boolean expression: conditions combined from left to right.
#[derive(Debug, PartialEq)]
pub enum Boolean {
    /// The negation of a condition.
    Not(Condition),
    /// Both hold.
    And(Box<Boolean>, Condition),
    /// Either holds.
    Or(Box<Boolean>, Condition),
    /// A single condition.
    Condition(Condition),
}

/// A scalar value.
#[derive(Clone, Debug, PartialEq)]
pub enum Scalar {
    /// An integer.
    Integer(i32),
    /// A string.
    String(String),
}

/// The values an expression is evaluated against.
#[derive(Clone, Debug)]
pub struct Context {
    /// Scalar fields by name.
    pub scalars: Vec<(String, Scalar)>,
    /// Sets of strings by name.
    pub sets: Vec<(String, Vec<String>)>,
}

/// Why an evaluation failed.
#[derive(Clone, Debug, PartialEq)]
pub enum EvalError {
    /// The context has no field of this name.
    InvalidFieldName(String),
    /// The two sides of a comparison or operation have different types.
    IncompatibleFieldTypes(Scalar, Scalar),
    /// Arithmetic on strings.
    NotANumber(Scalar),
    /// The result does not fit in 32 bits.
    Overflow,
    /// Division or remainder by zero.
    DivisionByZero,
}

// ---------------------------------------------------------------------------
// Mathematical model.

/// Model of a reference.
pub struct ReferenceV {
    pub name: Seq<char>,
    pub typ: ScalarType,
}

/// Model of an expression.
pub enum ExprV {
    Integer(i32),
    String(Seq<char>),
    Variable(ReferenceV),
    Op(Box<ExprV>, Opcode, Box<ExprV>),
}

/// Model of a condition.
pub enum ConditionV {
    Boolean(Box<BooleanV>),
    Op(Box<ExprV>, ConditionOpcode, Box<ExprV>),
    In(Seq<char>, Seq<char>),
    NotIn(Seq<char>, Seq<char>),
}

/// Model of a boolean expression.
pub enum BooleanV {
    Not(ConditionV),
    And(Box<BooleanV>, ConditionV),
    Or(Box<BooleanV>, ConditionV),
    Condition(ConditionV),
}

/// Model of a scalar.
pub enum ScalarV {
    Integer(i32),
    String(Seq<char>),
}

/// Model of an evaluation error.
pub enum EvalErrorV {
    InvalidFieldName(Seq<char>),
    IncompatibleFieldTypes(ScalarV, ScalarV),
    NotANumber(ScalarV),
    Overflow,
    DivisionByZero,
}

/// Model of a context.
pub struct ContextV {
    pub scalars: Seq<(Seq<char>, ScalarV)>,
    pub sets: Seq<(Seq<char>, Seq<Seq<char>>)>,
}

impl View for Reference {
    type V = ReferenceV;

    open spec fn view(&self) -> ReferenceV {
        ReferenceV { name: self.name@, typ: self.typ }
    }
}

pub open spec fn expr_view(e: &Expr) -> ExprV
    decreases e,
{
    match e {
        Expr::Integer(i) => ExprV::Integer(*i),
        Expr::String(s) => ExprV::String(s@),
        Expr::Variable(r) => ExprV::Variable(r@),
        Expr::Op(l, o, r) => ExprV::Op(Box::new(expr_view(l)), *o, Box::new(expr_view(r))),
    }
}

impl View for Expr {
    type V = ExprV;

    open spec fn view(&self) -> ExprV {
        expr_view(self)
    }
}

pub open spec fn condition_view(c: &Condition) -> ConditionV
    decreases c,
{
    match c {
        Condition::Boolean(b) => ConditionV::Boolean(Box::new(boolean_view(b))),
        Condition::Op(l, o, r) => ConditionV::Op(Box::new(expr_view(l)), *o, Box::new(expr_view(r))),
        Condition::In(s, f) => ConditionV::In(s@, f@),
        Condition::NotIn(s, f) => ConditionV::NotIn(s@, f@),
    }
}

pub open spec fn boolean_view(b: &Boolean) -> BooleanV
    decreases b,
{
    match b {
        Boolean::Not(c) => BooleanV::Not(condition_view(c)),
        Boolean::And(l, c) => BooleanV::And(Box::new(boolean_view(l)), condition_view(c)),
        Boolean::Or(l, c) => BooleanV::Or(Box::new(boolean_view(l)), condition_view(c)),
        Boolean::Condition(c) => BooleanV::Condition(condition_view(c)),
    }
}

impl View for Condition {
    type V = ConditionV;

    open spec fn view(&self) -> ConditionV {
        condition_view(self)
    }
}

impl View for Boolean {
    type V = BooleanV;

    open spec fn view(&self) -> BooleanV {
        boolean_view(self)
    }
}

impl View for Scalar {
    type V = ScalarV;

    open spec fn view(&self) -> ScalarV {
        match self {
            Scalar::Integer(i) => ScalarV::Integer(*i),
            Scalar::String(s) => ScalarV::String(s@),
        }
    }
}

impl View for EvalError {
    type V = EvalErrorV;

    open spec fn view(&self) -> EvalErrorV {
        match self {
            EvalError::InvalidFieldName(n) => EvalErrorV::InvalidFieldName(n@),
            EvalError::IncompatibleFieldTypes(a, b) => EvalErrorV::IncompatibleFieldTypes(a@, b@),
            EvalError::NotANumber(a) => EvalErrorV::NotANumber(a@),
            EvalError::Overflow => EvalErrorV::Overflow,
            EvalError::DivisionByZero => EvalErrorV::DivisionByZero,
        }
    }
}


impl View for Context {
    type V = ContextV;

    open spec fn view(&self) -> ContextV {
        ContextV {
            scalars: self.scalars@.map_values(|p: (String, Scalar)| (p.0@, p.1@)),
            sets: self.sets@.map_values(|p: (String, Vec<String>)| (p.0@, strings_view(p.1@))),
        }
    }
}

/// The first scalar named `name`.
pub open spec fn lookup_scalar(scalars: Seq<(Seq<char>, ScalarV)>, name: Seq<char>) -> Option<ScalarV>
    decreases scalars.len(),
{
    if scalars.len() == 0 {
        None
    } else if scalars[0].0 == name {
        Some(scalars[0].1)
    } else {
        lookup_scalar(scalars.drop_first(), name)
    }
}

/// The first set named `name`.
pub open spec fn lookup_set(sets: Seq<(Seq<char>, Seq<Seq<char>>)>, name: Seq<char>) -> Option<Seq<Seq<char>>>
    decreases sets.len(),
{
    if sets.len() == 0 {
        None
    } else if sets[0].0 == name {
        Some(sets[0].1)
    } else {
        lookup_set(sets.drop_first(), name)
    }
}

/// Lexicographic order of strings, by code point.
pub open spec fn string_lt(a: Seq<char>, b: Seq<char>) -> bool
    decreases a.len(),
{
    if b.len() == 0 {
        false
    } else if a.len() == 0 {
        true
    } else if a[0] != b[0] {
        a[0] < b[0]
    } else {
        string_lt(a.drop_first(), b.drop_first())
    }
}

/// The result of an arithmetic operation on 32 bit integers (division and
/// remainder truncate towards zero, as in Rust).
pub open spec fn spec_arith(a: i32, op: Opcode, b: i32) -> Result<i32, EvalErrorV> {
    let r = match op {
        Opcode::Add => a.checked_add(b),
        Opcode::Sub => a.checked_sub(b),
        Opcode::Mul => a.checked_mul(b),
        Opcode::Div => a.checked_div(b),
        Opcode::Remainder => a.checked_rem(b),
    };
    if (op == Opcode::Div || op == Opcode::Remainder) && b == 0 {
        Err(EvalErrorV::DivisionByZero)
    } else {
        match r {
            Some(v) => Ok(v),
            None => Err(EvalErrorV::Overflow),
        }
    }
}

/// The value of an expression in a context.
pub open spec fn spec_eval_expr(e: ExprV, ctx: ContextV) -> Result<ScalarV, EvalErrorV>
    decreases e,
{
    match e {
        ExprV::Integer(i) => Ok(ScalarV::Integer(i)),
        ExprV::String(s) => Ok(ScalarV::String(s)),
        ExprV::Variable(r) => match lookup_scalar(ctx.scalars, r.name) {
            Some(v) => Ok(v),
            None => Err(EvalErrorV::InvalidFieldName(r.name)),
        },
        ExprV::Op(l, op, r) => match spec_eval_expr(*l, ctx) {
            Err(err) => Err(err),
            Ok(lv) => match spec_eval_expr(*r, ctx) {
                Err(err) => Err(err),
                Ok(rv) => match (lv, rv) {
                    (ScalarV::Integer(a), ScalarV::Integer(b)) => match spec_arith(a, op, b) {
                        Ok(v) => Ok(ScalarV::Integer(v)),
                        Err(err) => Err(err),
                    },
                    (ScalarV::Integer(_), ScalarV::String(_)) => Err(EvalErrorV::IncompatibleFieldTypes(lv, rv)),
                    (ScalarV::String(_), ScalarV::Integer(_)) => Err(EvalErrorV::IncompatibleFieldTypes(lv, rv)),
                    (ScalarV::String(_), ScalarV::String(_)) => Err(EvalErrorV::NotANumber(lv)),
                },
            },
        },
    }
}

/// Compare two values of the same type.
pub open spec fn spec_compare(lt: bool, eq: bool, op: ConditionOpcode) -> bool {
    match op {
        ConditionOpcode::Eq => eq,
        ConditionOpcode::NotEq => !eq,
        ConditionOpcode::Lt => lt,
        ConditionOpcode::Lte => lt || eq,
        ConditionOpcode::Gt => !lt && !eq,
        ConditionOpcode::Gte => !lt,
    }
}

/// The truth of a condition in a context.
pub open spec fn spec_eval_condition(c: ConditionV, ctx: ContextV) -> Result<bool, EvalErrorV>
    decreases c,
{
    match c {
        ConditionV::Boolean(b) => spec_eval_boolean(*b, ctx),
        ConditionV::Op(l, op, r) => match spec_eval_expr(*l, ctx) {
            Err(err) => Err(err),
            Ok(lv) => match spec_eval_expr(*r, ctx) {
                Err(err) => Err(err),
                Ok(rv) => match (lv, rv) {
                    (ScalarV::Integer(a), ScalarV::Integer(b)) => Ok(spec_compare(a < b, a == b, op)),
                    (ScalarV::String(a), ScalarV::String(b)) => Ok(spec_compare(string_lt(a, b), a == b, op)),
                    _ => Err(EvalErrorV::IncompatibleFieldTypes(lv, rv)),
                },
            },
        },
        ConditionV::In(s, f) => match lookup_set(ctx.sets, f) {
            Some(set) => Ok(set.contains(s)),
            None => Err(EvalErrorV::InvalidFieldName(f)),
        },
        ConditionV::NotIn(s, f) => match lookup_set(ctx.sets, f) {
            Some(set) => Ok(!set.contains(s)),
            None => Err(EvalErrorV::InvalidFieldName(f)),
        },
    }
}

/// The truth of a boolean expression in a context; `and` and `or` do not look
/// at their right operand once the left one decides the result.
pub open spec fn spec_eval_boolean(b: BooleanV, ctx: ContextV) -> Result<bool, EvalErrorV>
    decreases b,
{
    match b {
        BooleanV::Not(c) => match spec_eval_condition(c, ctx) {
            Ok(v) => Ok(!v),
            Err(err) => Err(err),
        },
        BooleanV::And(l, c) => match spec_eval_boolean(*l, ctx) {
            Ok(false) => Ok(false),
            Ok(true) => spec_eval_condition(c, ctx),
            Err(err) => Err(err),
        },
        BooleanV::Or(l, c) => match spec_eval_boolean(*l, ctx) {
            Ok(true) => Ok(true),
            Ok(false) => spec_eval_condition(c, ctx),
            Err(err) => Err(err),
        },
        BooleanV::Condition(c) => spec_eval_condition(c, ctx),
    }
}


// ---------------------------------------------------------------------------
// Evaluation.

/// Model of an optional scalar.
pub open spec fn opt_scalar_view(o: Option<Scalar>) -> Option<ScalarV> {
    match o {
        Some(v) => Some(v@),
        None => None,
    }
}

/// Model of the result of an integer operation.
pub open spec fn int_result_view(r: Result<i32, EvalError>) -> Result<i32, EvalErrorV> {
    match r {
        Ok(v) => Ok(v),
        Err(e) => Err(e@),
    }
}

/// Model of the result of evaluating an expression.
pub open spec fn scalar_result_view(r: Result<Scalar, EvalError>) -> Result<ScalarV, EvalErrorV> {
    match r {
        Ok(v) => Ok(v@),
        Err(e) => Err(e@),
    }
}

/// Model of the result of evaluating a condition.
pub open spec fn bool_result_view(r: Result<bool, EvalError>) -> Result<bool, EvalErrorV> {
    match r {
        Ok(v) => Ok(v),
        Err(e) => Err(e@),
    }
}

impl Scalar {
    /// A copy of the scalar.
    pub fn duplicate(&self) -> (copy: Scalar)
        ensures
            copy@ == self@,
    {
        match self {
            Scalar::Integer(i) => Scalar::Integer(*i),
            Scalar::String(s) => Scalar::String(s.clone()),
        }
    }
}

fn string_less(a: &String, b: &String) -> (lt: bool)
    ensures
        lt == string_lt(a@, b@),
{
    let ac = crate::text::str_to_chars(a.as_str());
    let bc = crate::text::str_to_chars(b.as_str());
    assert(ac@.skip(0) =~= ac@);
    assert(bc@.skip(0) =~= bc@);
    let mut i: usize = 0;
    while i < ac.len() && i < bc.len()
        invariant
            ac@ == a@,
            bc@ == b@,
            i <= ac@.len(),
            i <= bc@.len(),
            string_lt(a@, b@) == string_lt(ac@.skip(i as int), bc@.skip(i as int)),
        decreases ac@.len() - i,
    {
        let ghost sa = ac@.skip(i as int);
        let ghost sb = bc@.skip(i as int);
        assert(sa[0] == ac@[i as int]);
        assert(sb[0] == bc@[i as int]);
        let x = ac[i];
        let y = bc[i];
        if x != y {
            return x < y;
        }
        assert(sa.drop_first() =~= ac@.skip(i as int + 1));
        assert(sb.drop_first() =~= bc@.skip(i as int + 1));
        i = i + 1;
    }
    i == ac.len() && i < bc.len()
}

proof fn lemma_skip_zero<T>(s: Seq<T>)
    ensures
        s.skip(0) == s,
{
    assert(s.skip(0) =~= s);
}

fn lookup_scalar_exec(scalars: &Vec<(String, Scalar)>, name: &String) -> (found: Option<Scalar>)
    ensures
        opt_scalar_view(found) == lookup_scalar(scalars@.map_values(|p: (String, Scalar)| (p.0@, p.1@)), name@),
{
    let ghost all = scalars@.map_values(|p: (String, Scalar)| (p.0@, p.1@));
    proof { lemma_skip_zero(all); }
    let mut i: usize = 0;
    while i < scalars.len()
        invariant
            i <= scalars@.len(),
            all == scalars@.map_values(|p: (String, Scalar)| (p.0@, p.1@)),
            lookup_scalar(all, name@) == lookup_scalar(all.skip(i as int), name@),
        decreases scalars@.len() - i,
    {
        let ghost rest = all.skip(i as int);
        assert(rest[0] == all[i as int]);
        assert(rest.drop_first() =~= all.skip(i as int + 1));
        if scalars[i].0 == *name {
            return Some(scalars[i].1.duplicate());
        }
        i = i + 1;
    }
    None
}

fn lookup_set_contains(sets: &Vec<(String, Vec<String>)>, name: &String, s: &String) -> (found: Option<bool>)
    ensures
        found == (match lookup_set(sets@.map_values(|p: (String, Vec<String>)| (p.0@, strings_view(p.1@))), name@) {
            Some(set) => Some(set.contains(s@)),
            None => None,
        }),
{
    let ghost all = sets@.map_values(|p: (String, Vec<String>)| (p.0@, strings_view(p.1@)));
    proof { lemma_skip_zero(all); }
    let mut i: usize = 0;
    while i < sets.len()
        invariant
            i <= sets@.len(),
            all == sets@.map_values(|p: (String, Vec<String>)| (p.0@, strings_view(p.1@))),
            lookup_set(all, name@) == lookup_set(all.skip(i as int), name@),
        decreases sets@.len() - i,
    {
        let ghost rest = all.skip(i as int);
        assert(rest[0] == all[i as int]);
        assert(rest.drop_first() =~= all.skip(i as int + 1));
        if sets[i].0 == *name {
            return Some(crate::text::contains_str(&sets[i].1, s));
        }
        i = i + 1;
    }
    None
}

fn arith(a: i32, op: Opcode, b: i32) -> (r: Result<i32, EvalError>)
    ensures
        int_result_view(r) == spec_arith(a, op, b),
{
    if (op == Opcode::Div || op == Opcode::Remainder) && b == 0 {
        return Err(EvalError::DivisionByZero);
    }
    let r = match op {
        Opcode::Add => a.checked_add(b),
        Opcode::Sub => a.checked_sub(b),
        Opcode::Mul => a.checked_mul(b),
        Opcode::Div => a.checked_div(b),
        Opcode::Remainder => a.checked_rem(b),
    };
    match r {
        Some(v) => Ok(v),
        None => Err(EvalError::Overflow),
    }
}

impl Expr {
    /// Evaluate the expression in the context.
    pub fn eval(&self, ctx: &Context) -> (r: Result<Scalar, EvalError>)
        ensures
            scalar_result_view(r) == spec_eval_expr(self@, ctx@),
        decreases self,
    {
        match self {
            Expr::Integer(i) => Ok(Scalar::Integer(*i)),
            Expr::String(s) => Ok(Scalar::String(s.clone())),
            Expr::Variable(r) => match lookup_scalar_exec(&ctx.scalars, &r.name) {
                Some(v) => Ok(v),
                None => Err(EvalError::InvalidFieldName(r.name.clone())),
            },
            Expr::Op(l, op, r) => {
                let lv = l.eval(ctx)?;
                let rv = r.eval(ctx)?;
                match (&lv, &rv) {
                    (Scalar::Integer(a), Scalar::Integer(b)) => {
                        let v = arith(*a, *op, *b)?;
                        Ok(Scalar::Integer(v))
                    },
                    (Scalar::String(_), Scalar::String(_)) => Err(EvalError::NotANumber(lv)),
                    _ => Err(EvalError::IncompatibleFieldTypes(lv, rv)),
                }
            },
        }
    }
}

fn compare(lt: bool, eq: bool, op: ConditionOpcode) -> (r: bool)
    ensures
        r == spec_compare(lt, eq, op),
{
    match op {
        ConditionOpcode::Eq => eq,
        ConditionOpcode::NotEq => !eq,
        ConditionOpcode::Lt => lt,
        ConditionOpcode::Lte => lt || eq,
        ConditionOpcode::Gt => !lt && !eq,
        ConditionOpcode::Gte => !lt,
    }
}

impl Condition {
    /// Evaluate the condition in the context.
    pub fn eval(&self, ctx: &Context) -> (r: Result<bool, EvalError>)
        ensures
            bool_result_view(r) == spec_eval_condition(self@, ctx@),
        decreases self,
    {
        match self {
            Condition::Boolean(b) => b.eval(ctx),
            Condition::Op(l, op, r) => {
                let lv = l.eval(ctx)?;
                let rv = r.eval(ctx)?;
                match (&lv, &rv) {
                    (Scalar::Integer(a), Scalar::Integer(b)) => Ok(compare(*a < *b, *a == *b, *op)),
                    (Scalar::String(a), Scalar::String(b)) => {
                        let lt = string_less(a, b);
                        Ok(compare(lt, *a == *b, *op))
                    },
                    _ => Err(EvalError::IncompatibleFieldTypes(lv, rv)),
                }
            },
            Condition::In(s, f) => match lookup_set_contains(&ctx.sets, f, s) {
                Some(v) => Ok(v),
                None => Err(EvalError::InvalidFieldName(f.clone())),
            },
            Condition::NotIn(s, f) => match lookup_set_contains(&ctx.sets, f, s) {
                Some(v) => Ok(!v),
                None => Err(EvalError::InvalidFieldName(f.clone())),
            },
        }
    }
}

impl Boolean {
    /// Evaluate the boolean expression in the context.
    pub fn eval(&self, ctx: &Context) -> (r: Result<bool, EvalError>)
        ensures
            bool_result_view(r) == spec_eval_boolean(self@, ctx@),
        decreases self,
    {
        match self {
            Boolean::Not(c) => {
                let v = c.eval(ctx)?;
                Ok(!v)
            },
            Boolean::And(l, c) => {
                if l.eval(ctx)? {
                    c.eval(ctx)
                } else {
                    Ok(false)
                }
            },
            Boolean::Or(l, c) => {
                if l.eval(ctx)? {
                    Ok(true)
                } else {
                    c.eval(ctx)
                }
            },
            Boolean::Condition(c) => c.eval(ctx),
        }
    }
}

/// Law: comparing two integers goes by their order: `==`, `!=`, `<`, `<=`,
/// `>` and `>=` hold exactly when they hold of the two values.
pub proof fn law_integer_comparisons(l: ExprV, r: ExprV, ctx: ContextV, a: i32, b: i32)
    requires
        spec_eval_expr(l, ctx) == Ok::<ScalarV, EvalErrorV>(ScalarV::Integer(a)),
        spec_eval_expr(r, ctx) == Ok::<ScalarV, EvalErrorV>(ScalarV::Integer(b)),
    ensures
        spec_eval_condition(ConditionV::Op(Box::new(l), ConditionOpcode::Eq, Box::new(r)), ctx) == Ok::<bool, EvalErrorV>(a == b),
        spec_eval_condition(ConditionV::Op(Box::new(l), ConditionOpcode::NotEq, Box::new(r)), ctx) == Ok::<bool, EvalErrorV>(a != b),
        spec_eval_condition(ConditionV::Op(Box::new(l), ConditionOpcode::Lt, Box::new(r)), ctx) == Ok::<bool, EvalErrorV>(a < b),
        spec_eval_condition(ConditionV::Op(Box::new(l), ConditionOpcode::Lte, Box::new(r)), ctx) == Ok::<bool, EvalErrorV>(a <= b),
        spec_eval_condition(ConditionV::Op(Box::new(l), ConditionOpcode::Gt, Box::new(r)), ctx) == Ok::<bool, EvalErrorV>(a > b),
        spec_eval_condition(ConditionV::Op(Box::new(l), ConditionOpcode::Gte, Box::new(r)), ctx) == Ok::<bool, EvalErrorV>(a >= b),
{
}

/// Law: strings compare equal exactly when they are the same text.
pub proof fn law_string_equality(l: ExprV, r: ExprV, ctx: ContextV, a: Seq<char>, b: Seq<char>)
    requires
        spec_eval_expr(l, ctx) == Ok::<ScalarV, EvalErrorV>(ScalarV::String(a)),
        spec_eval_expr(r, ctx) == Ok::<ScalarV, EvalErrorV>(ScalarV::String(b)),
    ensures
        spec_eval_condition(ConditionV::Op(Box::new(l), ConditionOpcode::Eq, Box::new(r)), ctx) == Ok::<bool, EvalErrorV>(a == b),
        spec_eval_condition(ConditionV::Op(Box::new(l), ConditionOpcode::NotEq, Box::new(r)), ctx) == Ok::<bool, EvalErrorV>(a != b),
{
}

/// Law: arithmetic on integers that stays in range gives the usual results;
/// division and remainder of a non-negative number by a positive one give
/// its quotient and remainder.
pub proof fn law_integer_arithmetic(l: ExprV, r: ExprV, ctx: ContextV, a: i32, b: i32)
    requires
        spec_eval_expr(l, ctx) == Ok::<ScalarV, EvalErrorV>(ScalarV::Integer(a)),
        spec_eval_expr(r, ctx) == Ok::<ScalarV, EvalErrorV>(ScalarV::Integer(b)),
    ensures
        i32::MIN <= a + b <= i32::MAX ==> spec_eval_expr(ExprV::Op(Box::new(l), Opcode::Add, Box::new(r)), ctx)
            == Ok::<ScalarV, EvalErrorV>(ScalarV::Integer((a + b) as i32)),
        i32::MIN <= a - b <= i32::MAX ==> spec_eval_expr(ExprV::Op(Box::new(l), Opcode::Sub, Box::new(r)), ctx)
            == Ok::<ScalarV, EvalErrorV>(ScalarV::Integer((a - b) as i32)),
        i32::MIN <= a * b <= i32::MAX ==> spec_eval_expr(ExprV::Op(Box::new(l), Opcode::Mul, Box::new(r)), ctx)
            == Ok::<ScalarV, EvalErrorV>(ScalarV::Integer((a * b) as i32)),
        a >= 0 && b > 0 ==> spec_eval_expr(ExprV::Op(Box::new(l), Opcode::Div, Box::new(r)), ctx)
            == Ok::<ScalarV, EvalErrorV>(ScalarV::Integer((a / b) as i32)),
        a >= 0 && b > 0 ==> spec_eval_expr(ExprV::Op(Box::new(l), Opcode::Remainder, Box::new(r)), ctx)
            == Ok::<ScalarV, EvalErrorV>(ScalarV::Integer((a % b) as i32)),
        b == 0 ==> spec_eval_expr(ExprV::Op(Box::new(l), Opcode::Div, Box::new(r)), ctx)
            == Err::<ScalarV, EvalErrorV>(EvalErrorV::DivisionByZero),
        b == 0 ==> spec_eval_expr(ExprV::Op(Box::new(l), Opcode::Remainder, Box::new(r)), ctx)
            == Err::<ScalarV, EvalErrorV>(EvalErrorV::DivisionByZero),
{
    if a >= 0 && b > 0 {
        assert(0 <= (a as int) % (b as int) < b as int) by (nonlinear_arith)
            requires
                b > 0;
        if a == 0 {
            assert((0int) % (b as int) == 0) by (nonlinear_arith)
                requires
                    b > 0;
        }
    }
}

/// Law: `not` negates a condition, `and` holds when both sides hold, and `or`
/// when either does.
pub proof fn law_boolean_connectives(l: BooleanV, c: ConditionV, ctx: ContextV, x: bool, y: bool)
    requires
        spec_eval_boolean(l, ctx) == Ok::<bool, EvalErrorV>(x),
        spec_eval_condition(c, ctx) == Ok::<bool, EvalErrorV>(y),
    ensures
        spec_eval_boolean(BooleanV::Not(c), ctx) == Ok::<bool, EvalErrorV>(!y),
        spec_eval_boolean(BooleanV::And(Box::new(l), c), ctx) == Ok::<bool, EvalErrorV>(x && y),
        spec_eval_boolean(BooleanV::Or(Box::new(l), c), ctx) == Ok::<bool, EvalErrorV>(x || y),
        spec_eval_boolean(BooleanV::Condition(c), ctx) == Ok::<bool, EvalErrorV>(y),
{
}

/// Law: `'s' in f` holds exactly when the set field `f` holds `s`, and
/// `not in` exactly when it does not.
pub proof fn law_set_membership(s: Seq<char>, f: Seq<char>, ctx: ContextV, set: Seq<Seq<char>>)
    requires
        lookup_set(ctx.sets, f) == Some(set),
    ensures
        spec_eval_condition(ConditionV::In(s, f), ctx) == Ok::<bool, EvalErrorV>(exists|k: int| 0 <= k < set.len() && set[k] == s),
        spec_eval_condition(ConditionV::NotIn(s, f), ctx) == Ok::<bool, EvalErrorV>(!exists|k: int| 0 <= k < set.len() && set[k] == s),
{
}

} // verus!
