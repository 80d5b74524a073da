//! Tokens of the conditions language.
use vstd::prelude::*;

verus! {

/// A token; identifiers are given by their range of characters in the input.
#[derive(Clone, Copy, Debug, PartialEq, Eq, Structural)]
pub enum Token {
    /// `[0-9]+`
    Number(i32),
    /// `[A-Za-z_][A-Za-z0-9_]*`, as the range `start..end` of the input.
    Ident(usize, usize),
    /// `!=`
    NotEq,
    /// `"`
    DoubleQuote,
    /// `%`
    Percent,
    /// `'`
    SingleQuote,
    /// `(`
    LParen,
    /// `)`
    RParen,
    /// `*`
    Star,
    /// `+`
    Plus,
    /// `-`
    Minus,
    /// `/`
    Slash,
    /// `<`
    Lt,
    /// `<=`
    Lte,
    /// `==`
    EqEq,
    /// `>`
    Gt,
    /// `>=`
    Gte,
    /// `and`
    And,
    /// `in`
    In,
    /// `not`
    Not,
    /// `not in`
    NotIn,
    /// `or`
    Or,
}

/// Why the input could not be split into tokens.
#[derive(Clone, Copy, Debug, PartialEq, Eq, Structural)]
pub enum LexError {
    /// No token starts at this character position.
    InvalidToken(usize),
    /// The number starting at this character position does not fit in 32 bits.
    NumberTooLarge(usize),
}

/// Whitespace between tokens: the characters that Unicode calls white space.
pub open spec fn is_space(c: char) -> bool {
    ||| ('\u{9}' <= c && c <= '\u{d}')
    ||| c == ' '
    ||| c == '\u{85}'
    ||| c == '\u{a0}'
    ||| c == '\u{1680}'
    ||| ('\u{2000}' <= c && c <= '\u{200a}')
    ||| c == '\u{2028}'
    ||| c == '\u{2029}'
    ||| c == '\u{202f}'
    ||| c == '\u{205f}'
    ||| c == '\u{3000}'
}

pub open spec fn is_digit(c: char) -> bool {
    '0' <= c && c <= '9'
}

pub open spec fn is_ident_start(c: char) -> bool {
    ('a' <= c && c <= 'z') || ('A' <= c && c <= 'Z') || c == '_'
}

pub open spec fn is_ident_char(c: char) -> bool {
    is_ident_start(c) || is_digit(c)
}

/// End of the run of digits starting at `i`.
pub open spec fn digits_end(s: Seq<char>, i: int) -> int
    decreases s.len() - i,
{
    if i < s.len() && is_digit(s[i]) {
        digits_end(s, i + 1)
    } else {
        i
    }
}

/// End of the run of identifier characters starting at `i`.
pub open spec fn ident_end(s: Seq<char>, i: int) -> int
    decreases s.len() - i,
{
    if i < s.len() && is_ident_char(s[i]) {
        ident_end(s, i + 1)
    } else {
        i
    }
}

/// The decimal value of the digits `s[i..j]`.
pub open spec fn digits_value(s: Seq<char>, i: int, j: int) -> int
    decreases j - i,
{
    if j <= i {
        0
    } else {
        digits_value(s, i, j - 1) * 10 + (s[j - 1] as int - '0' as int)
    }
}

/// The keyword or identifier for the word `s[i..j]`.
pub open spec fn word_token(s: Seq<char>, i: int, j: int) -> Token {
    let w = s.subrange(i, j);
    if w == seq!['a', 'n', 'd'] {
        Token::And
    } else if w == seq!['o', 'r'] {
        Token::Or
    } else if w == seq!['i', 'n'] {
        Token::In
    } else if w == seq!['n', 'o', 't'] {
        Token::Not
    } else {
        Token::Ident(i as usize, j as usize)
    }
}

/// Does `not in` (with one space) start at `i`?
pub open spec fn not_in_at(s: Seq<char>, i: int) -> bool {
    i + 6 <= s.len() && s.subrange(i, i + 6) == seq!['n', 'o', 't', ' ', 'i', 'n']
}

/// The operator token starting at `i`, with its length (the longest match).
pub open spec fn operator_at(s: Seq<char>, i: int) -> Option<(Token, int)> {
    let c = s[i];
    let next = if i < s.len() - 1 { s[i + 1] } else { ' ' };
    if c == '!' && next == '=' {
        Some((Token::NotEq, 2))
    } else if c == '=' && next == '=' {
        Some((Token::EqEq, 2))
    } else if c == '<' && next == '=' {
        Some((Token::Lte, 2))
    } else if c == '>' && next == '=' {
        Some((Token::Gte, 2))
    } else if c == '<' {
        Some((Token::Lt, 1))
    } else if c == '>' {
        Some((Token::Gt, 1))
    } else if c == '"' {
        Some((Token::DoubleQuote, 1))
    } else if c == '\'' {
        Some((Token::SingleQuote, 1))
    } else if c == '%' {
        Some((Token::Percent, 1))
    } else if c == '(' {
        Some((Token::LParen, 1))
    } else if c == ')' {
        Some((Token::RParen, 1))
    } else if c == '*' {
        Some((Token::Star, 1))
    } else if c == '+' {
        Some((Token::Plus, 1))
    } else if c == '-' {
        Some((Token::Minus, 1))
    } else if c == '/' {
        Some((Token::Slash, 1))
    } else {
        None
    }
}

/// Prepend tokens to a lexing result.
pub open spec fn prepend(ts: Seq<Token>, r: Result<Seq<Token>, LexError>) -> Result<Seq<Token>, LexError> {
    match r {
        Ok(rest) => Ok(ts + rest),
        Err(e) => Err(e),
    }
}

/// The tokens of `s[i..]`: whitespace separates tokens and is dropped; numbers
/// and words take the longest run of their characters, a word spelling a
/// keyword is that keyword, and `not` followed by one space and `in` is the
/// single token `not in`.
pub open spec fn lex_from(s: Seq<char>, i: int) -> Result<Seq<Token>, LexError>
    decreases s.len() - i,
{
    if i < 0 || i >= s.len() {
        Ok(Seq::<Token>::empty())
    } else if is_space(s[i]) {
        lex_from(s, i + 1)
    } else if is_digit(s[i]) {
        let j = digits_end(s, i);
        if j <= i || j > s.len() {
            Err(LexError::InvalidToken(i as usize))
        } else if digits_value(s, i, j) > i32::MAX {
            Err(LexError::NumberTooLarge(i as usize))
        } else {
            prepend(seq![Token::Number(digits_value(s, i, j) as i32)], lex_from(s, j))
        }
    } else if is_ident_start(s[i]) {
        if not_in_at(s, i) {
            prepend(seq![Token::NotIn], lex_from(s, i + 6))
        } else {
            let j = ident_end(s, i);
            if j <= i || j > s.len() {
                Err(LexError::InvalidToken(i as usize))
            } else {
                prepend(seq![word_token(s, i, j)], lex_from(s, j))
            }
        }
    } else {
        match operator_at(s, i) {
            Some((t, n)) => prepend(seq![t], lex_from(s, i + n)),
            None => Err(LexError::InvalidToken(i as usize)),
        }
    }
}

/// The tokens of the whole input.
pub open spec fn spec_lex(s: Seq<char>) -> Result<Seq<Token>, LexError> {
    lex_from(s, 0)
}

proof fn lemma_digits_end(s: Seq<char>, i: int)
    requires
        0 <= i <= s.len(),
    ensures
        i <= digits_end(s, i) <= s.len(),
        forall|k: int| i <= k < digits_end(s, i) ==> is_digit(s[k]),
        digits_end(s, i) < s.len() ==> !is_digit(s[digits_end(s, i)]),
    decreases s.len() - i,
{
    if i < s.len() && is_digit(s[i]) {
        lemma_digits_end(s, i + 1);
    }
}

proof fn lemma_ident_end(s: Seq<char>, i: int)
    requires
        0 <= i <= s.len(),
    ensures
        i <= ident_end(s, i) <= s.len(),
        forall|k: int| i <= k < ident_end(s, i) ==> is_ident_char(s[k]),
        ident_end(s, i) < s.len() ==> !is_ident_char(s[ident_end(s, i)]),
    decreases s.len() - i,
{
    if i < s.len() && is_ident_char(s[i]) {
        lemma_ident_end(s, i + 1);
    }
}

proof fn lemma_digits_end_step(s: Seq<char>, i: int, k: int)
    requires
        0 <= i <= k <= s.len(),
        forall|m: int| i <= m < k ==> is_digit(s[m]),
    ensures
        digits_end(s, i) == digits_end(s, k),
    decreases k - i,
{
    if i < k {
        lemma_digits_end_step(s, i + 1, k);
    }
}

proof fn lemma_ident_end_step(s: Seq<char>, i: int, k: int)
    requires
        0 <= i <= k <= s.len(),
        forall|m: int| i <= m < k ==> is_ident_char(s[m]),
    ensures
        ident_end(s, i) == ident_end(s, k),
    decreases k - i,
{
    if i < k {
        lemma_ident_end_step(s, i + 1, k);
    }
}

fn char_is_space(c: char) -> (b: bool)
    ensures
        b == is_space(c),
{
    ('\u{9}' <= c && c <= '\u{d}') || c == ' ' || c == '\u{85}' || c == '\u{a0}' || c == '\u{1680}'
        || ('\u{2000}' <= c && c <= '\u{200a}') || c == '\u{2028}' || c == '\u{2029}' || c == '\u{202f}'
        || c == '\u{205f}' || c == '\u{3000}'
}

fn char_is_digit(c: char) -> (b: bool)
    ensures
        b == is_digit(c),
{
    '0' <= c && c <= '9'
}

fn char_is_ident_start(c: char) -> (b: bool)
    ensures
        b == is_ident_start(c),
{
    ('a' <= c && c <= 'z') || ('A' <= c && c <= 'Z') || c == '_'
}

fn char_is_ident_char(c: char) -> (b: bool)
    ensures
        b == is_ident_char(c),
{
    char_is_ident_start(c) || char_is_digit(c)
}

fn word_equals(s: &Vec<char>, i: usize, j: usize, w: &[char]) -> (b: bool)
    requires
        i <= j <= s@.len(),
    ensures
        b == (s@.subrange(i as int, j as int) == w@),
{
    if j - i != w.len() {
        return false;
    }
    let mut k: usize = 0;
    while k < w.len()
        invariant
            j - i == w@.len(),
            i <= j <= s@.len(),
            k <= w@.len(),
            forall|m: int| 0 <= m < k ==> s@[i + m] == w@[m],
        decreases w@.len() - k,
    {
        if s[i + k] != w[k] {
            assert(s@.subrange(i as int, j as int)[k as int] != w@[k as int]);
            return false;
        }
        k = k + 1;
    }
    assert(s@.subrange(i as int, j as int) =~= w@);
    true
}

fn lex_word(s: &Vec<char>, i: usize, j: usize) -> (t: Token)
    requires
        i <= j <= s@.len(),
    ensures
        t == word_token(s@, i as int, j as int),
{
    let and_word: [char; 3] = ['a', 'n', 'd'];
    let or_word: [char; 2] = ['o', 'r'];
    let in_word: [char; 2] = ['i', 'n'];
    let not_word: [char; 3] = ['n', 'o', 't'];
    assert(and_word@ =~= seq!['a', 'n', 'd']);
    assert(or_word@ =~= seq!['o', 'r']);
    assert(in_word@ =~= seq!['i', 'n']);
    assert(not_word@ =~= seq!['n', 'o', 't']);
    if word_equals(s, i, j, &and_word) {
        Token::And
    } else if word_equals(s, i, j, &or_word) {
        Token::Or
    } else if word_equals(s, i, j, &in_word) {
        Token::In
    } else if word_equals(s, i, j, &not_word) {
        Token::Not
    } else {
        Token::Ident(i, j)
    }
}

fn lex_operator(s: &Vec<char>, i: usize) -> (r: Option<(Token, usize)>)
    requires
        i < s@.len(),
    ensures
        match operator_at(s@, i as int) {
            Some((t, n)) => r == Some((t, n as usize)),
            None => r is None,
        },
{
    let c = s[i];
    let next = if i < s.len() - 1 { s[i + 1] } else { ' ' };
    if c == '!' && next == '=' {
        Some((Token::NotEq, 2))
    } else if c == '=' && next == '=' {
        Some((Token::EqEq, 2))
    } else if c == '<' && next == '=' {
        Some((Token::Lte, 2))
    } else if c == '>' && next == '=' {
        Some((Token::Gte, 2))
    } else if c == '<' {
        Some((Token::Lt, 1))
    } else if c == '>' {
        Some((Token::Gt, 1))
    } else if c == '"' {
        Some((Token::DoubleQuote, 1))
    } else if c == '\'' {
        Some((Token::SingleQuote, 1))
    } else if c == '%' {
        Some((Token::Percent, 1))
    } else if c == '(' {
        Some((Token::LParen, 1))
    } else if c == ')' {
        Some((Token::RParen, 1))
    } else if c == '*' {
        Some((Token::Star, 1))
    } else if c == '+' {
        Some((Token::Plus, 1))
    } else if c == '-' {
        Some((Token::Minus, 1))
    } else if c == '/' {
        Some((Token::Slash, 1))
    } else {
        None
    }
}

/// Every identifier token names a range of the input.
pub open spec fn tokens_wf(t: Seq<Token>, len: int) -> bool {
    forall|k: int| 0 <= k < t.len() ==> (#[trigger] t[k] matches Token::Ident(a, b) ==> a <= b <= len)
}

/// Split the input into tokens.
pub fn lex(s: &Vec<char>) -> (r: Result<Vec<Token>, LexError>)
    ensures
        match r {
            Ok(ts) => spec_lex(s@) == Ok::<Seq<Token>, LexError>(ts@) && tokens_wf(ts@, s@.len() as int),
            Err(e) => spec_lex(s@) == Err::<Seq<Token>, LexError>(e),
        },
{
    let mut tokens: Vec<Token> = Vec::new();
    let mut i: usize = 0;
    assert(tokens@ + Seq::<Token>::empty() =~= Seq::<Token>::empty());
    while i < s.len()
        invariant
            i <= s@.len(),
            spec_lex(s@) == prepend(tokens@, lex_from(s@, i as int)),
            tokens_wf(tokens@, s@.len() as int),
        decreases s@.len() - i,
    {
        let c = s[i];
        if char_is_space(c) {
            i = i + 1;
        } else if char_is_digit(c) {
            let start = i;
            let mut value: i64 = 0;
            proof { lemma_digits_end(s@, start as int); }
            while i < s.len() && char_is_digit(s[i])
                invariant
                    spec_lex(s@) == prepend(tokens@, lex_from(s@, start as int)),
                    tokens_wf(tokens@, s@.len() as int),
                    start < s@.len(),
                    is_digit(s@[start as int]),
                    start <= i <= s@.len(),
                    forall|m: int| start <= m < i ==> is_digit(s@[m]),
                    value == digits_value(s@, start as int, i as int),
                    0 <= value <= i32::MAX,
                decreases s@.len() - i,
            {
                let d = (s[i] as u32 - '0' as u32) as i64;
                assert(0 <= d <= 9) by {
                    assert(is_digit(s@[i as int]));
                }
                assert(d == s@[i as int] as int - '0' as int);
                value = value * 10 + d;
                i = i + 1;
                assert(value == digits_value(s@, start as int, i as int));
                if value > i32::MAX as i64 {
                    proof {
                        lemma_digits_end(s@, start as int);
                        lemma_digits_end_step(s@, start as int, i as int);
                        lemma_digits_end(s@, i as int);
                        lemma_digits_value_monotone(s@, start as int, i as int, digits_end(s@, start as int));
                        assert(digits_value(s@, start as int, digits_end(s@, start as int)) > i32::MAX);
                        assert(lex_from(s@, start as int) == Err::<Seq<Token>, LexError>(LexError::NumberTooLarge(start)));
                    }
                    return Err(LexError::NumberTooLarge(start));
                }
            }
            proof {
                lemma_digits_end_step(s@, start as int, i as int);
                lemma_digits_end(s@, i as int);
            }
            tokens.push(Token::Number(value as i32));
            assert(tokens@ =~= tokens@.drop_last() + seq![Token::Number(value as i32)]);
        } else if char_is_ident_start(c) {
            let not_in: [char; 6] = ['n', 'o', 't', ' ', 'i', 'n'];
            assert(not_in@ =~= seq!['n', 'o', 't', ' ', 'i', 'n']);
            if s.len() >= 6 && i <= s.len() - 6 && word_equals(s, i, i + 6, &not_in) {
                tokens.push(Token::NotIn);
                i = i + 6;
            } else {
                let start = i;
                while i < s.len() && char_is_ident_char(s[i])
                    invariant
                        spec_lex(s@) == prepend(tokens@, lex_from(s@, start as int)),
                        tokens_wf(tokens@, s@.len() as int),
                        start < s@.len(),
                        start <= i <= s@.len(),
                        forall|m: int| start <= m < i ==> is_ident_char(s@[m]),
                    decreases s@.len() - i,
                {
                    i = i + 1;
                }
                proof {
                    lemma_ident_end_step(s@, start as int, i as int);
                    lemma_ident_end(s@, i as int);
                }
                let t = lex_word(s, start, i);
                tokens.push(t);
            }
        } else {
            match lex_operator(s, i) {
                Some((t, n)) => {
                    tokens.push(t);
                    i = i + n;
                },
                None => {
                    return Err(LexError::InvalidToken(i));
                },
            }
        }
        proof {
            assert forall|ts: Seq<Token>, t: Token, rest: Seq<Token>| (ts.push(t) + rest) =~= (ts + (seq![t] + rest)) by {}
        }
    }
    assert(tokens@ + Seq::<Token>::empty() =~= tokens@);
    Ok(tokens)
}

proof fn lemma_digits_value_monotone(s: Seq<char>, i: int, j: int, k: int)
    requires
        0 <= i <= j <= k <= s.len(),
        forall|m: int| i <= m < k ==> is_digit(s[m]),
    ensures
        digits_value(s, i, j) <= digits_value(s, i, k),
    decreases k - j,
{
    if j < k {
        lemma_digits_value_monotone(s, i, j, k - 1);
        assert(digits_value(s, i, k - 1) >= 0) by {
            lemma_digits_value_nonneg(s, i, k - 1);
        }
    }
}

proof fn lemma_digits_value_nonneg(s: Seq<char>, i: int, j: int)
    requires
        0 <= i <= j <= s.len(),
        forall|m: int| i <= m < j ==> is_digit(s[m]),
    ensures
        digits_value(s, i, j) >= 0,
    decreases j - i,
{
    if i < j {
        lemma_digits_value_nonneg(s, i, j - 1);
    }
}


/// Law: each operator is read as its own token: the two-character
/// comparisons `==`, `!=`, `<=` and `>=` before their one-character prefixes,
/// and `<`, `>`, `+`, `-`, `*`, `/`, `%`, `(` and `)` alone.
pub proof fn law_operator_tokens(s: Seq<char>, i: int)
    requires
        0 <= i < s.len(),
    ensures
        i + 1 < s.len() && s[i] == '=' && s[i + 1] == '=' ==> lex_from(s, i) == prepend(seq![Token::EqEq], lex_from(s, i + 2)),
        i + 1 < s.len() && s[i] == '!' && s[i + 1] == '=' ==> lex_from(s, i) == prepend(seq![Token::NotEq], lex_from(s, i + 2)),
        i + 1 < s.len() && s[i] == '<' && s[i + 1] == '=' ==> lex_from(s, i) == prepend(seq![Token::Lte], lex_from(s, i + 2)),
        i + 1 < s.len() && s[i] == '>' && s[i + 1] == '=' ==> lex_from(s, i) == prepend(seq![Token::Gte], lex_from(s, i + 2)),
        s[i] == '<' && !(i + 1 < s.len() && s[i + 1] == '=') ==> lex_from(s, i) == prepend(seq![Token::Lt], lex_from(s, i + 1)),
        s[i] == '>' && !(i + 1 < s.len() && s[i + 1] == '=') ==> lex_from(s, i) == prepend(seq![Token::Gt], lex_from(s, i + 1)),
        s[i] == '+' ==> lex_from(s, i) == prepend(seq![Token::Plus], lex_from(s, i + 1)),
        s[i] == '-' ==> lex_from(s, i) == prepend(seq![Token::Minus], lex_from(s, i + 1)),
        s[i] == '*' ==> lex_from(s, i) == prepend(seq![Token::Star], lex_from(s, i + 1)),
        s[i] == '/' ==> lex_from(s, i) == prepend(seq![Token::Slash], lex_from(s, i + 1)),
        s[i] == '%' ==> lex_from(s, i) == prepend(seq![Token::Percent], lex_from(s, i + 1)),
        s[i] == '(' ==> lex_from(s, i) == prepend(seq![Token::LParen], lex_from(s, i + 1)),
        s[i] == ')' ==> lex_from(s, i) == prepend(seq![Token::RParen], lex_from(s, i + 1)),
{
}

/// The tokenizer of the condition language.
#[derive(Clone, Copy, Debug)]
pub struct MatcherBuilder {}

/// A tokenizer for the condition language.
pub fn new_builder() -> (b: MatcherBuilder) {
    MatcherBuilder {}
}

impl MatcherBuilder {
    /// Split `input` into tokens: see `spec_lex`.
    pub fn matcher(&self, input: &Vec<char>) -> (r: Result<Vec<Token>, LexError>)
        ensures
            match r {
                Ok(ts) => spec_lex(input@) == Ok::<Seq<Token>, LexError>(ts@) && tokens_wf(ts@, input@.len() as int),
                Err(e) => spec_lex(input@) == Err::<Seq<Token>, LexError>(e),
            },
    {
        lex(input)
    }
}

} // verus!
