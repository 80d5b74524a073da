//! Parser of the conditions language.
//!
//! Grammar (left-associative operators, `*` `/` `%` binding tighter than `+` `-`):
//! ```text
//! Boolean   := Boolean "and" Condition | Boolean "or" Condition
//!            | "not" Condition | Condition
//! Condition := "(" Boolean ")" | Expr CondOp Expr
//!            | Str "in" SetField | Str "not in" SetField
//! Expr      := Expr ("+" | "-") Factor | Factor
//! Factor    := Factor ("*" | "/" | "%") Term | Term
//! Term      := Number | Str | ScalarField | "(" Expr ")"
//! Str       := "'" Ident "'" | '"' Ident '"'
//! ```
//! Field names are resolved against the declared fields, and both sides of a
//! comparison must have the same type; arithmetic is on integers only.
use vstd::prelude::*;
use crate::conditions::{
    Boolean, BooleanV, Condition, ConditionOpcode, ConditionV, Expr, ExprV, Opcode,
    Reference, ReferenceV, ScalarType,
};
use crate::lexer::{new_builder, spec_lex, tokens_wf, LexError, MatcherBuilder, Token};
use crate::text::{chars_to_string, str_to_chars, strings_view};

verus! {

/// The fields an expression may name, with the type of each scalar field.
#[derive(Clone, Debug)]
pub struct Fields {
    /// Scalar fields and their types.
    pub scalars: Vec<(String, ScalarType)>,
    /// Set fields.
    pub sets: Vec<String>,
}

/// Model of the declared fields.
pub struct FieldsV {
    pub scalars: Seq<(Seq<char>, ScalarType)>,
    pub sets: Seq<Seq<char>>,
}

impl View for Fields {
    type V = FieldsV;

    open spec fn view(&self) -> FieldsV {
        FieldsV {
            scalars: self.scalars@.map_values(|p: (String, ScalarType)| (p.0@, p.1)),
            sets: strings_view(self.sets@),
        }
    }
}

/// Why an input is not a valid expression.
#[derive(Clone, Debug, PartialEq)]
pub enum ParseError {
    /// The input could not be split into tokens.
    Lex(LexError),
    /// The token at this index was not expected.
    UnexpectedToken(usize),
    /// The input ended too early.
    UnexpectedEof,
    /// No field of this name is declared (of the kind needed there).
    FieldNotFound(String),
    /// The two sides of a comparison, or an arithmetic operand, have these types.
    TypeMismatch(ScalarType, ScalarType),
}

/// Model of a parse error.
pub enum ParseErrorV {
    Lex(LexError),
    UnexpectedToken(int),
    UnexpectedEof,
    FieldNotFound(Seq<char>),
    TypeMismatch(ScalarType, ScalarType),
}

impl View for ParseError {
    type V = ParseErrorV;

    open spec fn view(&self) -> ParseErrorV {
        match self {
            ParseError::Lex(e) => ParseErrorV::Lex(*e),
            ParseError::UnexpectedToken(i) => ParseErrorV::UnexpectedToken(*i as int),
            ParseError::UnexpectedEof => ParseErrorV::UnexpectedEof,
            ParseError::FieldNotFound(n) => ParseErrorV::FieldNotFound(n@),
            ParseError::TypeMismatch(a, b) => ParseErrorV::TypeMismatch(*a, *b),
        }
    }
}

// ---------------------------------------------------------------------------
// Specification.

/// The error for a missing or wrong token at `pos`.
pub open spec fn unexpected(t: Seq<Token>, pos: int) -> ParseErrorV {
    if 0 <= pos < t.len() {
        ParseErrorV::UnexpectedToken(pos)
    } else {
        ParseErrorV::UnexpectedEof
    }
}

/// Is there a token at `pos` and does it satisfy the kind?
pub open spec fn token_is(t: Seq<Token>, pos: int, k: Token) -> bool {
    0 <= pos < t.len() && t[pos] == k
}

/// The declared type of the first scalar field named `name`.
pub open spec fn field_type(scalars: Seq<(Seq<char>, ScalarType)>, name: Seq<char>) -> Option<ScalarType>
    decreases scalars.len(),
{
    if scalars.len() == 0 {
        None
    } else if scalars[0].0 == name {
        Some(scalars[0].1)
    } else {
        field_type(scalars.drop_first(), name)
    }
}

/// The type of an expression, if it is well typed.
pub open spec fn spec_type_of(e: ExprV) -> Result<ScalarType, ParseErrorV>
    decreases e,
{
    match e {
        ExprV::Integer(_) => Ok(ScalarType::Integer),
        ExprV::String(_) => Ok(ScalarType::String),
        ExprV::Variable(r) => Ok(r.typ),
        ExprV::Op(l, _, r) => match spec_type_of(*l) {
            Err(e) => Err(e),
            Ok(tl) => match spec_type_of(*r) {
                Err(e) => Err(e),
                Ok(tr) => if tl == ScalarType::Integer && tr == ScalarType::Integer {
                    Ok(ScalarType::Integer)
                } else {
                    Err(ParseErrorV::TypeMismatch(tl, tr))
                },
            },
        },
    }
}

/// The string literal at `pos`.
pub open spec fn parse_string_lit(s: Seq<char>, t: Seq<Token>, pos: int) -> Result<(Seq<char>, int), ParseErrorV> {
    if !(token_is(t, pos, Token::SingleQuote) || token_is(t, pos, Token::DoubleQuote)) {
        Err(unexpected(t, pos))
    } else if !(0 <= pos + 1 < t.len() && t[pos + 1] is Ident) {
        Err(unexpected(t, pos + 1))
    } else if !token_is(t, pos + 2, t[pos]) {
        Err(unexpected(t, pos + 2))
    } else {
        let (a, b) = (t[pos + 1]->Ident_0, t[pos + 1]->Ident_1);
        Ok((s.subrange(a as int, b as int), pos + 3))
    }
}

/// The term at `pos`.
pub open spec fn parse_term(s: Seq<char>, t: Seq<Token>, f: FieldsV, pos: int) -> Result<(ExprV, int), ParseErrorV>
    decreases t.len() - pos, 2int,
{
    if !(0 <= pos < t.len()) {
        Err(ParseErrorV::UnexpectedEof)
    } else {
        match t[pos] {
            Token::Number(v) => Ok((ExprV::Integer(v), pos + 1)),
            Token::SingleQuote | Token::DoubleQuote => match parse_string_lit(s, t, pos) {
                Ok((lit, p)) => Ok((ExprV::String(lit), p)),
                Err(e) => Err(e),
            },
            Token::Ident(a, b) => {
                let name = s.subrange(a as int, b as int);
                match field_type(f.scalars, name) {
                    Some(typ) => Ok((ExprV::Variable(ReferenceV { name, typ }), pos + 1)),
                    None => Err(ParseErrorV::FieldNotFound(name)),
                }
            },
            Token::LParen => match parse_expr(s, t, f, pos + 1) {
                Err(e) => Err(e),
                Ok((e, p)) => if token_is(t, p, Token::RParen) {
                    Ok((e, p + 1))
                } else {
                    Err(unexpected(t, p))
                },
            },
            _ => Err(ParseErrorV::UnexpectedToken(pos)),
        }
    }
}

/// The multiplicative operator at `pos`.
pub open spec fn mul_op_at(t: Seq<Token>, pos: int) -> Option<Opcode> {
    if token_is(t, pos, Token::Star) {
        Some(Opcode::Mul)
    } else if token_is(t, pos, Token::Slash) {
        Some(Opcode::Div)
    } else if token_is(t, pos, Token::Percent) {
        Some(Opcode::Remainder)
    } else {
        None
    }
}

/// The additive operator at `pos`.
pub open spec fn add_op_at(t: Seq<Token>, pos: int) -> Option<Opcode> {
    if token_is(t, pos, Token::Plus) {
        Some(Opcode::Add)
    } else if token_is(t, pos, Token::Minus) {
        Some(Opcode::Sub)
    } else {
        None
    }
}

/// The comparison operator at `pos`.
pub open spec fn cond_op_at(t: Seq<Token>, pos: int) -> Option<ConditionOpcode> {
    if token_is(t, pos, Token::EqEq) {
        Some(ConditionOpcode::Eq)
    } else if token_is(t, pos, Token::NotEq) {
        Some(ConditionOpcode::NotEq)
    } else if token_is(t, pos, Token::Lt) {
        Some(ConditionOpcode::Lt)
    } else if token_is(t, pos, Token::Lte) {
        Some(ConditionOpcode::Lte)
    } else if token_is(t, pos, Token::Gt) {
        Some(ConditionOpcode::Gt)
    } else if token_is(t, pos, Token::Gte) {
        Some(ConditionOpcode::Gte)
    } else {
        None
    }
}

/// Extend `acc` with the multiplicative operations starting at `pos`.
pub open spec fn parse_factor_tail(s: Seq<char>, t: Seq<Token>, f: FieldsV, acc: ExprV, pos: int) -> Result<(ExprV, int), ParseErrorV>
    decreases t.len() - pos, 3int,
{
    match mul_op_at(t, pos) {
        None => Ok((acc, pos)),
        Some(op) => match parse_term(s, t, f, pos + 1) {
            Err(e) => Err(e),
            Ok((r, p)) => if p <= pos || p > t.len() {
                Err(ParseErrorV::UnexpectedEof)
            } else {
                parse_factor_tail(s, t, f, ExprV::Op(Box::new(acc), op, Box::new(r)), p)
            },
        },
    }
}

/// The factor at `pos`.
pub open spec fn parse_factor(s: Seq<char>, t: Seq<Token>, f: FieldsV, pos: int) -> Result<(ExprV, int), ParseErrorV>
    decreases t.len() - pos, 4int,
{
    match parse_term(s, t, f, pos) {
        Err(e) => Err(e),
        Ok((e, p)) => if p < pos || p > t.len() {
            Err(ParseErrorV::UnexpectedEof)
        } else {
            parse_factor_tail(s, t, f, e, p)
        },
    }
}

/// Extend `acc` with the additive operations starting at `pos`.
pub open spec fn parse_expr_tail(s: Seq<char>, t: Seq<Token>, f: FieldsV, acc: ExprV, pos: int) -> Result<(ExprV, int), ParseErrorV>
    decreases t.len() - pos, 5int,
{
    match add_op_at(t, pos) {
        None => Ok((acc, pos)),
        Some(op) => match parse_factor(s, t, f, pos + 1) {
            Err(e) => Err(e),
            Ok((r, p)) => if p <= pos || p > t.len() {
                Err(ParseErrorV::UnexpectedEof)
            } else {
                parse_expr_tail(s, t, f, ExprV::Op(Box::new(acc), op, Box::new(r)), p)
            },
        },
    }
}

/// The expression at `pos`.
pub open spec fn parse_expr(s: Seq<char>, t: Seq<Token>, f: FieldsV, pos: int) -> Result<(ExprV, int), ParseErrorV>
    decreases t.len() - pos, 6int,
{
    match parse_factor(s, t, f, pos) {
        Err(e) => Err(e),
        Ok((e, p)) => if p < pos || p > t.len() {
            Err(ParseErrorV::UnexpectedEof)
        } else {
            parse_expr_tail(s, t, f, e, p)
        },
    }
}

/// A comparison `Expr CondOp Expr` at `pos`, with both sides of the same type.
pub open spec fn parse_comparison(s: Seq<char>, t: Seq<Token>, f: FieldsV, pos: int) -> Result<(ConditionV, int), ParseErrorV>
    decreases t.len() - pos, 7int,
{
    match parse_expr(s, t, f, pos) {
        Err(e) => Err(e),
        Ok((l, p)) => if p < pos || p > t.len() {
            Err(ParseErrorV::UnexpectedEof)
        } else {
            match cond_op_at(t, p) {
                None => Err(unexpected(t, p)),
                Some(op) => match parse_expr(s, t, f, p + 1) {
                    Err(e) => Err(e),
                    Ok((r, q)) => match spec_type_of(l) {
                        Err(e) => Err(e),
                        Ok(tl) => match spec_type_of(r) {
                            Err(e) => Err(e),
                            Ok(tr) => if tl == tr {
                                Ok((ConditionV::Op(Box::new(l), op, Box::new(r)), q))
                            } else {
                                Err(ParseErrorV::TypeMismatch(tl, tr))
                            },
                        },
                    },
                },
            }
        },
    }
}

/// Is this name a declared set?
pub open spec fn is_set_field(f: FieldsV, name: Seq<char>) -> bool {
    f.sets.contains(name)
}

/// The condition at `pos`. After `(`, an expression that parses commits the
/// condition to a comparison; otherwise the parenthesis opens a boolean.
pub open spec fn parse_condition(s: Seq<char>, t: Seq<Token>, f: FieldsV, pos: int) -> Result<(ConditionV, int), ParseErrorV>
    decreases t.len() - pos, 8int,
{
    if token_is(t, pos, Token::LParen) {
        if parse_expr(s, t, f, pos) is Ok {
            parse_comparison(s, t, f, pos)
        } else {
            match parse_boolean(s, t, f, pos + 1) {
                Err(e) => Err(e),
                Ok((b, p)) => if token_is(t, p, Token::RParen) {
                    Ok((ConditionV::Boolean(Box::new(b)), p + 1))
                } else {
                    Err(unexpected(t, p))
                },
            }
        }
    } else if token_is(t, pos, Token::SingleQuote) || token_is(t, pos, Token::DoubleQuote) {
        match parse_string_lit(s, t, pos) {
            Err(e) => Err(e),
            Ok((lit, p)) => if token_is(t, p, Token::In) || token_is(t, p, Token::NotIn) {
                if !(0 <= p + 1 < t.len() && t[p + 1] is Ident) {
                    Err(unexpected(t, p + 1))
                } else {
                    let name = s.subrange(t[p + 1]->Ident_0 as int, t[p + 1]->Ident_1 as int);
                    if !is_set_field(f, name) {
                        Err(ParseErrorV::FieldNotFound(name))
                    } else if t[p] == Token::In {
                        Ok((ConditionV::In(lit, name), p + 2))
                    } else {
                        Ok((ConditionV::NotIn(lit, name), p + 2))
                    }
                }
            } else {
                parse_comparison(s, t, f, pos)
            },
        }
    } else {
        parse_comparison(s, t, f, pos)
    }
}

/// Extend `acc` with the `and` / `or` conditions starting at `pos`.
pub open spec fn parse_boolean_tail(s: Seq<char>, t: Seq<Token>, f: FieldsV, acc: BooleanV, pos: int) -> Result<(BooleanV, int), ParseErrorV>
    decreases t.len() - pos, 9int,
{
    if token_is(t, pos, Token::And) || token_is(t, pos, Token::Or) {
        match parse_condition(s, t, f, pos + 1) {
            Err(e) => Err(e),
            Ok((c, p)) => if p <= pos || p > t.len() {
                Err(ParseErrorV::UnexpectedEof)
            } else if t[pos] == Token::And {
                parse_boolean_tail(s, t, f, BooleanV::And(Box::new(acc), c), p)
            } else {
                parse_boolean_tail(s, t, f, BooleanV::Or(Box::new(acc), c), p)
            },
        }
    } else {
        Ok((acc, pos))
    }
}

/// The boolean expression at `pos`.
pub open spec fn parse_boolean(s: Seq<char>, t: Seq<Token>, f: FieldsV, pos: int) -> Result<(BooleanV, int), ParseErrorV>
    decreases t.len() - pos, 10int,
{
    let first = if token_is(t, pos, Token::Not) {
        match parse_condition(s, t, f, pos + 1) {
            Err(e) => Err(e),
            Ok((c, p)) => Ok((BooleanV::Not(c), p)),
        }
    } else {
        match parse_condition(s, t, f, pos) {
            Err(e) => Err(e),
            Ok((c, p)) => Ok((BooleanV::Condition(c), p)),
        }
    };
    match first {
        Err(e) => Err(e),
        Ok((b, p)) => if p < pos || p > t.len() {
            Err(ParseErrorV::UnexpectedEof)
        } else {
            parse_boolean_tail(s, t, f, b, p)
        },
    }
}

/// The boolean expression that is the whole input.
pub open spec fn spec_parse(s: Seq<char>, f: FieldsV) -> Result<BooleanV, ParseErrorV> {
    match spec_lex(s) {
        Err(e) => Err(ParseErrorV::Lex(e)),
        Ok(t) => match parse_boolean(s, t, f, 0) {
            Err(e) => Err(e),
            Ok((b, p)) => if p == t.len() {
                Ok(b)
            } else {
                Err(unexpected(t, p))
            },
        },
    }
}


// ---------------------------------------------------------------------------
// Implementation.

/// Model of a parse result.
pub open spec fn eres(r: Result<(Expr, usize), ParseError>) -> Result<(ExprV, int), ParseErrorV> {
    match r {
        Ok((e, p)) => Ok((e@, p as int)),
        Err(e) => Err(e@),
    }
}

/// Model of a parse result.
pub open spec fn cres(r: Result<(Condition, usize), ParseError>) -> Result<(ConditionV, int), ParseErrorV> {
    match r {
        Ok((c, p)) => Ok((c@, p as int)),
        Err(e) => Err(e@),
    }
}

/// Model of a parse result.
pub open spec fn bres(r: Result<(Boolean, usize), ParseError>) -> Result<(BooleanV, int), ParseErrorV> {
    match r {
        Ok((b, p)) => Ok((b@, p as int)),
        Err(e) => Err(e@),
    }
}

/// Model of a parse result.
pub open spec fn sres(r: Result<(String, usize), ParseError>) -> Result<(Seq<char>, int), ParseErrorV> {
    match r {
        Ok((l, p)) => Ok((l@, p as int)),
        Err(e) => Err(e@),
    }
}

fn unexpected_at(t: &Vec<Token>, pos: usize) -> (e: ParseError)
    ensures
        e@ == unexpected(t@, pos as int),
{
    if pos < t.len() {
        ParseError::UnexpectedToken(pos)
    } else {
        ParseError::UnexpectedEof
    }
}

fn token_at_is(t: &Vec<Token>, pos: usize, k: Token) -> (b: bool)
    ensures
        b == token_is(t@, pos as int, k),
{
    pos < t.len() && t[pos] == k
}

fn lookup_field_type(scalars: &Vec<(String, ScalarType)>, name: &String) -> (typ: Option<ScalarType>)
    ensures
        typ == field_type(scalars@.map_values(|p: (String, ScalarType)| (p.0@, p.1)), name@),
{
    let ghost all = scalars@.map_values(|p: (String, ScalarType)| (p.0@, p.1));
    assert(all.skip(0) =~= all);
    let mut i: usize = 0;
    while i < scalars.len()
        invariant
            i <= scalars@.len(),
            all == scalars@.map_values(|p: (String, ScalarType)| (p.0@, p.1)),
            field_type(all, name@) == field_type(all.skip(i as int), name@),
        decreases scalars@.len() - i,
    {
        let ghost rest = all.skip(i as int);
        assert(rest[0] == all[i as int]);
        assert(rest.drop_first() =~= all.skip(i as int + 1));
        if scalars[i].0 == *name {
            return Some(scalars[i].1);
        }
        i = i + 1;
    }
    None
}

/// The type of an expression, if it is well typed.
pub fn type_of(e: &Expr) -> (r: Result<ScalarType, ParseError>)
    ensures
        match r {
            Ok(t) => spec_type_of(e@) == Ok::<ScalarType, ParseErrorV>(t),
            Err(err) => spec_type_of(e@) == Err::<ScalarType, ParseErrorV>(err@),
        },
    decreases e,
{
    match e {
        Expr::Integer(_) => Ok(ScalarType::Integer),
        Expr::String(_) => Ok(ScalarType::String),
        Expr::Variable(r) => Ok(r.typ),
        Expr::Op(l, _, r) => {
            let tl = type_of(l)?;
            let tr = type_of(r)?;
            if tl == ScalarType::Integer && tr == ScalarType::Integer {
                Ok(ScalarType::Integer)
            } else {
                Err(ParseError::TypeMismatch(tl, tr))
            }
        },
    }
}

fn string_lit(s: &Vec<char>, t: &Vec<Token>, pos: usize) -> (r: Result<(String, usize), ParseError>)
    requires
        tokens_wf(t@, s@.len() as int),
    ensures
        sres(r) == parse_string_lit(s@, t@, pos as int),
{
    if !(token_at_is(t, pos, Token::SingleQuote) || token_at_is(t, pos, Token::DoubleQuote)) {
        return Err(unexpected_at(t, pos));
    }
    let quote = t[pos];
    let n = t.len();
    assert(pos < n);
    if pos + 1 >= t.len() {
        return Err(unexpected_at(t, pos + 1));
    }
    match t[pos + 1] {
        Token::Ident(a, b) => {
            if pos + 2 >= t.len() || t[pos + 2] != quote {
                return Err(unexpected_at(t, pos + 2));
            }
            assert(t@[pos + 1] matches Token::Ident(a, b) ==> a <= b <= s@.len());
            Ok((chars_to_string(s, a, b), pos + 3))
        },
        _ => Err(unexpected_at(t, pos + 1)),
    }
}

fn term(s: &Vec<char>, t: &Vec<Token>, f: &Fields, pos: usize) -> (r: Result<(Expr, usize), ParseError>)
    requires
        tokens_wf(t@, s@.len() as int),
    ensures
        eres(r) == parse_term(s@, t@, f@, pos as int),
    decreases t@.len() - pos, 2int,
{
    if pos >= t.len() {
        return Err(ParseError::UnexpectedEof);
    }
    match t[pos] {
        Token::Number(v) => Ok((Expr::Integer(v), pos + 1)),
        Token::SingleQuote | Token::DoubleQuote => {
            let (lit, p) = string_lit(s, t, pos)?;
            Ok((Expr::String(lit), p))
        },
        Token::Ident(a, b) => {
            assert(t@[pos as int] matches Token::Ident(a, b) ==> a <= b <= s@.len());
            let name = chars_to_string(s, a, b);
            match lookup_field_type(&f.scalars, &name) {
                Some(typ) => Ok((Expr::Variable(Reference { name, typ }), pos + 1)),
                None => Err(ParseError::FieldNotFound(name)),
            }
        },
        Token::LParen => {
            let (e, p) = expr(s, t, f, pos + 1)?;
            if token_at_is(t, p, Token::RParen) {
                Ok((e, p + 1))
            } else {
                Err(unexpected_at(t, p))
            }
        },
        _ => Err(ParseError::UnexpectedToken(pos)),
    }
}

fn mul_op(t: &Vec<Token>, pos: usize) -> (op: Option<Opcode>)
    ensures
        op == mul_op_at(t@, pos as int),
{
    if token_at_is(t, pos, Token::Star) {
        Some(Opcode::Mul)
    } else if token_at_is(t, pos, Token::Slash) {
        Some(Opcode::Div)
    } else if token_at_is(t, pos, Token::Percent) {
        Some(Opcode::Remainder)
    } else {
        None
    }
}

fn add_op(t: &Vec<Token>, pos: usize) -> (op: Option<Opcode>)
    ensures
        op == add_op_at(t@, pos as int),
{
    if token_at_is(t, pos, Token::Plus) {
        Some(Opcode::Add)
    } else if token_at_is(t, pos, Token::Minus) {
        Some(Opcode::Sub)
    } else {
        None
    }
}

fn cond_op(t: &Vec<Token>, pos: usize) -> (op: Option<ConditionOpcode>)
    ensures
        op == cond_op_at(t@, pos as int),
{
    if token_at_is(t, pos, Token::EqEq) {
        Some(ConditionOpcode::Eq)
    } else if token_at_is(t, pos, Token::NotEq) {
        Some(ConditionOpcode::NotEq)
    } else if token_at_is(t, pos, Token::Lt) {
        Some(ConditionOpcode::Lt)
    } else if token_at_is(t, pos, Token::Lte) {
        Some(ConditionOpcode::Lte)
    } else if token_at_is(t, pos, Token::Gt) {
        Some(ConditionOpcode::Gt)
    } else if token_at_is(t, pos, Token::Gte) {
        Some(ConditionOpcode::Gte)
    } else {
        None
    }
}

fn factor_tail(s: &Vec<char>, t: &Vec<Token>, f: &Fields, acc: Expr, pos: usize) -> (r: Result<(Expr, usize), ParseError>)
    requires
        tokens_wf(t@, s@.len() as int),
    ensures
        eres(r) == parse_factor_tail(s@, t@, f@, acc@, pos as int),
    decreases t@.len() - pos, 3int,
{
    match mul_op(t, pos) {
        None => Ok((acc, pos)),
        Some(op) => {
            let n = t.len();
            assert(pos < n);
            let (r, p) = term(s, t, f, pos + 1)?;
            if p <= pos || p > t.len() {
                Err(ParseError::UnexpectedEof)
            } else {
                factor_tail(s, t, f, Expr::Op(Box::new(acc), op, Box::new(r)), p)
            }
        },
    }
}

fn factor(s: &Vec<char>, t: &Vec<Token>, f: &Fields, pos: usize) -> (r: Result<(Expr, usize), ParseError>)
    requires
        tokens_wf(t@, s@.len() as int),
    ensures
        eres(r) == parse_factor(s@, t@, f@, pos as int),
    decreases t@.len() - pos, 4int,
{
    let (e, p) = term(s, t, f, pos)?;
    if p < pos || p > t.len() {
        Err(ParseError::UnexpectedEof)
    } else {
        factor_tail(s, t, f, e, p)
    }
}

fn expr_tail(s: &Vec<char>, t: &Vec<Token>, f: &Fields, acc: Expr, pos: usize) -> (r: Result<(Expr, usize), ParseError>)
    requires
        tokens_wf(t@, s@.len() as int),
    ensures
        eres(r) == parse_expr_tail(s@, t@, f@, acc@, pos as int),
    decreases t@.len() - pos, 5int,
{
    match add_op(t, pos) {
        None => Ok((acc, pos)),
        Some(op) => {
            let n = t.len();
            assert(pos < n);
            let (r, p) = factor(s, t, f, pos + 1)?;
            if p <= pos || p > t.len() {
                Err(ParseError::UnexpectedEof)
            } else {
                expr_tail(s, t, f, Expr::Op(Box::new(acc), op, Box::new(r)), p)
            }
        },
    }
}

fn expr(s: &Vec<char>, t: &Vec<Token>, f: &Fields, pos: usize) -> (r: Result<(Expr, usize), ParseError>)
    requires
        tokens_wf(t@, s@.len() as int),
    ensures
        eres(r) == parse_expr(s@, t@, f@, pos as int),
    decreases t@.len() - pos, 6int,
{
    let (e, p) = factor(s, t, f, pos)?;
    if p < pos || p > t.len() {
        Err(ParseError::UnexpectedEof)
    } else {
        expr_tail(s, t, f, e, p)
    }
}

fn comparison(s: &Vec<char>, t: &Vec<Token>, f: &Fields, pos: usize) -> (r: Result<(Condition, usize), ParseError>)
    requires
        tokens_wf(t@, s@.len() as int),
    ensures
        cres(r) == parse_comparison(s@, t@, f@, pos as int),
{
    let (l, p) = expr(s, t, f, pos)?;
    if p < pos || p > t.len() {
        return Err(ParseError::UnexpectedEof);
    }
    match cond_op(t, p) {
        None => Err(unexpected_at(t, p)),
        Some(op) => {
            let (r, q) = expr(s, t, f, p + 1)?;
            let tl = type_of(&l)?;
            let tr = type_of(&r)?;
            if tl == tr {
                Ok((Condition::Op(Box::new(l), op, Box::new(r)), q))
            } else {
                Err(ParseError::TypeMismatch(tl, tr))
            }
        },
    }
}

fn condition(s: &Vec<char>, t: &Vec<Token>, f: &Fields, pos: usize) -> (r: Result<(Condition, usize), ParseError>)
    requires
        tokens_wf(t@, s@.len() as int),
    ensures
        cres(r) == parse_condition(s@, t@, f@, pos as int),
    decreases t@.len() - pos, 8int,
{
    if token_at_is(t, pos, Token::LParen) {
        if expr(s, t, f, pos).is_ok() {
            comparison(s, t, f, pos)
        } else {
            let n = t.len();
            assert(pos < n);
            let (b, p) = boolean(s, t, f, pos + 1)?;
            if token_at_is(t, p, Token::RParen) {
                Ok((Condition::Boolean(Box::new(b)), p + 1))
            } else {
                Err(unexpected_at(t, p))
            }
        }
    } else if token_at_is(t, pos, Token::SingleQuote) || token_at_is(t, pos, Token::DoubleQuote) {
        let (lit, p) = string_lit(s, t, pos)?;
        if token_at_is(t, p, Token::In) || token_at_is(t, p, Token::NotIn) {
            let n = t.len();
            assert(p < n);
            if p + 1 >= t.len() {
                return Err(unexpected_at(t, p + 1));
            }
            match t[p + 1] {
                Token::Ident(a, b) => {
                    assert(t@[p + 1] matches Token::Ident(a, b) ==> a <= b <= s@.len());
                    let name = chars_to_string(s, a, b);
                    if !crate::text::contains_str(&f.sets, &name) {
                        Err(ParseError::FieldNotFound(name))
                    } else if t[p] == Token::In {
                        Ok((Condition::In(lit, name), p + 2))
                    } else {
                        Ok((Condition::NotIn(lit, name), p + 2))
                    }
                },
                _ => Err(unexpected_at(t, p + 1)),
            }
        } else {
            comparison(s, t, f, pos)
        }
    } else {
        comparison(s, t, f, pos)
    }
}

fn boolean_tail(s: &Vec<char>, t: &Vec<Token>, f: &Fields, acc: Boolean, pos: usize) -> (r: Result<(Boolean, usize), ParseError>)
    requires
        tokens_wf(t@, s@.len() as int),
    ensures
        bres(r) == parse_boolean_tail(s@, t@, f@, acc@, pos as int),
    decreases t@.len() - pos, 9int,
{
    if token_at_is(t, pos, Token::And) || token_at_is(t, pos, Token::Or) {
        let n = t.len();
        assert(pos < n);
        let (c, p) = condition(s, t, f, pos + 1)?;
        if p <= pos || p > t.len() {
            Err(ParseError::UnexpectedEof)
        } else if t[pos] == Token::And {
            boolean_tail(s, t, f, Boolean::And(Box::new(acc), c), p)
        } else {
            boolean_tail(s, t, f, Boolean::Or(Box::new(acc), c), p)
        }
    } else {
        Ok((acc, pos))
    }
}

fn boolean(s: &Vec<char>, t: &Vec<Token>, f: &Fields, pos: usize) -> (r: Result<(Boolean, usize), ParseError>)
    requires
        tokens_wf(t@, s@.len() as int),
    ensures
        bres(r) == parse_boolean(s@, t@, f@, pos as int),
    decreases t@.len() - pos, 10int,
{
    let (b, p) = if token_at_is(t, pos, Token::Not) {
        let n = t.len();
        assert(pos < n);
        let (c, p) = condition(s, t, f, pos + 1)?;
        (Boolean::Not(c), p)
    } else {
        let (c, p) = condition(s, t, f, pos)?;
        (Boolean::Condition(c), p)
    };
    if p < pos || p > t.len() {
        Err(ParseError::UnexpectedEof)
    } else {
        boolean_tail(s, t, f, b, p)
    }
}

/// Parse a boolean expression, resolving field names against `fields`.
pub fn parse(fields: &Fields, input: &str) -> (r: Result<Boolean, ParseError>)
    ensures
        match r {
            Ok(b) => spec_parse(input@, fields@) == Ok::<BooleanV, ParseErrorV>(b@),
            Err(e) => spec_parse(input@, fields@) == Err::<BooleanV, ParseErrorV>(e@),
        },
{
    BooleanParser::new().parse(fields, input)
}

/// A parser of boolean expressions over a set of fields.
#[derive(Clone, Copy, Debug)]
pub struct BooleanParser {
    builder: MatcherBuilder,
}

impl BooleanParser {
    /// A parser.
    pub fn new() -> (p: BooleanParser) {
        BooleanParser { builder: new_builder() }
    }

    /// Parse a boolean expression, resolving field names against `fields`.
    pub fn parse(&self, fields: &Fields, input: &str) -> (r: Result<Boolean, ParseError>)
        ensures
            match r {
                Ok(b) => spec_parse(input@, fields@) == Ok::<BooleanV, ParseErrorV>(b@),
                Err(e) => spec_parse(input@, fields@) == Err::<BooleanV, ParseErrorV>(e@),
            },
    {
        let s = str_to_chars(input);
        let t = match self.builder.matcher(&s) {
            Ok(t) => t,
            Err(e) => return Err(ParseError::Lex(e)),
        };
        let (b, p) = boolean(&s, &t, fields, 0)?;
        if p == t.len() {
            Ok(b)
        } else {
            Err(unexpected_at(&t, p))
        }
    }
}

/// Is there no `*`, `/` or `%` at `pos`?
pub open spec fn no_mul_op_at(t: Seq<Token>, pos: int) -> bool {
    !token_is(t, pos, Token::Star) && !token_is(t, pos, Token::Slash) && !token_is(t, pos, Token::Percent)
}

/// Is there no `+` or `-` at `pos`?
pub open spec fn no_add_op_at(t: Seq<Token>, pos: int) -> bool {
    !token_is(t, pos, Token::Plus) && !token_is(t, pos, Token::Minus)
}

/// Law: a term, one of `*`, `/` or `%`, and a term that nothing multiplies
/// further make a product, quotient or remainder of the two terms: each
/// operator gives its own operation.
pub proof fn law_multiplicative_operators(
    s: Seq<char>, t: Seq<Token>, f: FieldsV, pos: int, e1: ExprV, p: int, e2: ExprV, q: int,
)
    requires
        parse_term(s, t, f, pos) == Ok::<(ExprV, int), ParseErrorV>((e1, p)),
        pos <= p < t.len(),
        parse_term(s, t, f, p + 1) == Ok::<(ExprV, int), ParseErrorV>((e2, q)),
        p < q <= t.len(),
        no_mul_op_at(t, q),
    ensures
        token_is(t, p, Token::Star) ==> parse_factor(s, t, f, pos)
            == Ok::<(ExprV, int), ParseErrorV>((ExprV::Op(Box::new(e1), Opcode::Mul, Box::new(e2)), q)),
        token_is(t, p, Token::Slash) ==> parse_factor(s, t, f, pos)
            == Ok::<(ExprV, int), ParseErrorV>((ExprV::Op(Box::new(e1), Opcode::Div, Box::new(e2)), q)),
        token_is(t, p, Token::Percent) ==> parse_factor(s, t, f, pos)
            == Ok::<(ExprV, int), ParseErrorV>((ExprV::Op(Box::new(e1), Opcode::Remainder, Box::new(e2)), q)),
{
}

/// Law: a factor, one of `+` or `-`, and a factor that nothing adds to
/// further make a sum or difference of the two factors.
pub proof fn law_additive_operators(
    s: Seq<char>, t: Seq<Token>, f: FieldsV, pos: int, e1: ExprV, p: int, e2: ExprV, q: int,
)
    requires
        parse_factor(s, t, f, pos) == Ok::<(ExprV, int), ParseErrorV>((e1, p)),
        pos <= p < t.len(),
        parse_factor(s, t, f, p + 1) == Ok::<(ExprV, int), ParseErrorV>((e2, q)),
        p < q <= t.len(),
        no_add_op_at(t, q),
    ensures
        token_is(t, p, Token::Plus) ==> parse_expr(s, t, f, pos)
            == Ok::<(ExprV, int), ParseErrorV>((ExprV::Op(Box::new(e1), Opcode::Add, Box::new(e2)), q)),
        token_is(t, p, Token::Minus) ==> parse_expr(s, t, f, pos)
            == Ok::<(ExprV, int), ParseErrorV>((ExprV::Op(Box::new(e1), Opcode::Sub, Box::new(e2)), q)),
{
}

/// Law: two expressions of the same type around a comparison operator make
/// that comparison: `==`, `!=`, `<`, `<=`, `>` and `>=` each give their own.
pub proof fn law_comparison_operators(
    s: Seq<char>, t: Seq<Token>, f: FieldsV, pos: int, l: ExprV, p: int, r: ExprV, q: int, typ: ScalarType,
)
    requires
        parse_expr(s, t, f, pos) == Ok::<(ExprV, int), ParseErrorV>((l, p)),
        pos <= p < t.len(),
        parse_expr(s, t, f, p + 1) == Ok::<(ExprV, int), ParseErrorV>((r, q)),
        spec_type_of(l) == Ok::<ScalarType, ParseErrorV>(typ),
        spec_type_of(r) == Ok::<ScalarType, ParseErrorV>(typ),
    ensures
        token_is(t, p, Token::EqEq) ==> parse_comparison(s, t, f, pos)
            == Ok::<(ConditionV, int), ParseErrorV>((ConditionV::Op(Box::new(l), ConditionOpcode::Eq, Box::new(r)), q)),
        token_is(t, p, Token::NotEq) ==> parse_comparison(s, t, f, pos)
            == Ok::<(ConditionV, int), ParseErrorV>((ConditionV::Op(Box::new(l), ConditionOpcode::NotEq, Box::new(r)), q)),
        token_is(t, p, Token::Lt) ==> parse_comparison(s, t, f, pos)
            == Ok::<(ConditionV, int), ParseErrorV>((ConditionV::Op(Box::new(l), ConditionOpcode::Lt, Box::new(r)), q)),
        token_is(t, p, Token::Lte) ==> parse_comparison(s, t, f, pos)
            == Ok::<(ConditionV, int), ParseErrorV>((ConditionV::Op(Box::new(l), ConditionOpcode::Lte, Box::new(r)), q)),
        token_is(t, p, Token::Gt) ==> parse_comparison(s, t, f, pos)
            == Ok::<(ConditionV, int), ParseErrorV>((ConditionV::Op(Box::new(l), ConditionOpcode::Gt, Box::new(r)), q)),
        token_is(t, p, Token::Gte) ==> parse_comparison(s, t, f, pos)
            == Ok::<(ConditionV, int), ParseErrorV>((ConditionV::Op(Box::new(l), ConditionOpcode::Gte, Box::new(r)), q)),
{
}

} // verus!
