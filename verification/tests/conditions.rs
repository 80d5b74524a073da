use robotica_backend::conditions::{
    Boolean, Condition, ConditionOpcode, Context, EvalError, Expr, Opcode, Reference, Scalar, ScalarType,
};
use robotica_backend::parser::{BooleanParser, Fields, ParseError};

fn fields() -> Fields {
    Fields {
        scalars: vec![("cat".to_string(), ScalarType::Integer), ("text".to_string(), ScalarType::String)],
        sets: vec!["dog".to_string()],
    }
}

fn context(cat: i32, dog: Vec<&str>) -> Context {
    Context {
        scalars: vec![("cat".to_string(), Scalar::Integer(cat)), ("text".to_string(), Scalar::String("string".to_string()))],
        sets: vec![("dog".to_string(), dog.into_iter().map(|s| s.to_string()).collect())],
    }
}

fn lit(i: i32) -> Box<Expr> {
    Box::new(Expr::Integer(i))
}

fn cat() -> Box<Expr> {
    Box::new(Expr::Variable(Reference { name: "cat".to_string(), typ: ScalarType::Integer }))
}

fn eq(a: i32, b: i32) -> Condition {
    Condition::Op(lit(a), ConditionOpcode::Eq, lit(b))
}

fn parse(s: &str) -> Result<Boolean, ParseError> {
    BooleanParser::new().parse(&fields(), s)
}

#[test]
fn conditions_parse_comparisons() {
    assert_eq!(parse("10 == 10").unwrap(), Boolean::Condition(eq(10, 10)));
    assert_eq!(parse("10 != 10").unwrap(), Boolean::Condition(Condition::Op(lit(10), ConditionOpcode::NotEq, lit(10))));
    assert_eq!(parse("10 < 10").unwrap(), Boolean::Condition(Condition::Op(lit(10), ConditionOpcode::Lt, lit(10))));
    assert_eq!(parse("10 <= 10").unwrap(), Boolean::Condition(Condition::Op(lit(10), ConditionOpcode::Lte, lit(10))));
    assert_eq!(parse("10 > 10").unwrap(), Boolean::Condition(Condition::Op(lit(10), ConditionOpcode::Gt, lit(10))));
    assert_eq!(parse("10 >= 10").unwrap(), Boolean::Condition(Condition::Op(lit(10), ConditionOpcode::Gte, lit(10))));
}

#[test]
fn conditions_parse_parentheses_and_not() {
    assert_eq!(
        parse("(10 == 10)").unwrap(),
        Boolean::Condition(Condition::Boolean(Box::new(Boolean::Condition(eq(10, 10)))))
    );
    assert_eq!(parse("not 10 == 10").unwrap(), Boolean::Not(eq(10, 10)));
}

#[test]
fn conditions_parse_sets() {
    let expected = Boolean::Condition(Condition::In("food".to_string(), "dog".to_string()));
    assert_eq!(parse("'food' in dog").unwrap(), expected);
    assert_eq!(parse("\"food\" in dog").unwrap(), expected);
    let expected = Boolean::Condition(Condition::NotIn("food".to_string(), "dog".to_string()));
    assert_eq!(parse("'food' not in dog").unwrap(), expected);
    assert_eq!(parse("\"food\" not in dog").unwrap(), expected);
}

#[test]
fn conditions_parse_left_to_right() {
    assert_eq!(
        parse("10 == 10 and 11 == 11").unwrap(),
        Boolean::And(Box::new(Boolean::Condition(eq(10, 10))), eq(11, 11))
    );
    assert_eq!(
        parse("10 == 10 or 11 == 11 and 12 == 12").unwrap(),
        Boolean::And(Box::new(Boolean::Or(Box::new(Boolean::Condition(eq(10, 10))), eq(11, 11))), eq(12, 12))
    );
    assert_eq!(
        parse("10 == 10 or (11 == 11 and 12 == 12)").unwrap(),
        Boolean::Or(
            Box::new(Boolean::Condition(eq(10, 10))),
            Condition::Boolean(Box::new(Boolean::And(Box::new(Boolean::Condition(eq(11, 11))), eq(12, 12))))
        )
    );
}

#[test]
fn conditions_parse_arithmetic_precedence() {
    assert_eq!(
        parse("22 * cat + 66 == 9").unwrap(),
        Boolean::Condition(Condition::Op(
            Box::new(Expr::Op(Box::new(Expr::Op(lit(22), Opcode::Mul, cat())), Opcode::Add, lit(66))),
            ConditionOpcode::Eq,
            lit(9)
        ))
    );
}

#[test]
fn conditions_parse_errors() {
    assert!(matches!(parse("10 == dogs"), Err(ParseError::FieldNotFound(ref n)) if n == "dogs"));
    assert!(matches!(parse("10 == text"), Err(ParseError::TypeMismatch(ScalarType::Integer, ScalarType::String))));
    assert!(matches!(parse("10 =="), Err(ParseError::UnexpectedEof)));
    assert!(matches!(parse("10 == 10 10"), Err(ParseError::UnexpectedToken(_))));
    assert!(matches!(parse("10 # 10"), Err(ParseError::Lex(_))));
}

#[test]
fn conditions_eval() {
    let ctx = context(10, vec![]);
    assert_eq!(Boolean::Condition(eq(10, 10)).eval(&ctx), Ok(true));
    assert_eq!(Boolean::Condition(eq(10, 11)).eval(&ctx), Ok(false));
    assert_eq!(Boolean::Condition(Condition::Op(lit(10), ConditionOpcode::Eq, cat())).eval(&ctx), Ok(true));
    let ctx = context(10, vec!["food"]);
    assert_eq!(Boolean::Condition(Condition::In("food".to_string(), "dog".to_string())).eval(&ctx), Ok(true));
    assert_eq!(Boolean::Condition(Condition::NotIn("food".to_string(), "dog".to_string())).eval(&ctx), Ok(false));
    let b = parse("22 * cat + 66 == 286").unwrap();
    assert_eq!(b.eval(&ctx), Ok(true));
}

#[test]
fn conditions_eval_errors() {
    let ctx = context(10, vec![]);
    let text = Box::new(Expr::Variable(Reference { name: "text".to_string(), typ: ScalarType::String }));
    let b = Boolean::Condition(Condition::Op(lit(10), ConditionOpcode::Eq, text));
    assert_eq!(b.eval(&ctx), Err(EvalError::IncompatibleFieldTypes(Scalar::Integer(10), Scalar::String("string".to_string()))));
    let missing = Box::new(Expr::Variable(Reference { name: "not-found".to_string(), typ: ScalarType::Integer }));
    let b = Boolean::Condition(Condition::Op(lit(10), ConditionOpcode::Eq, missing));
    assert_eq!(b.eval(&ctx), Err(EvalError::InvalidFieldName("not-found".to_string())));
    let b = parse("cat / 0 == 1").unwrap();
    assert_eq!(b.eval(&ctx), Err(EvalError::DivisionByZero));
    let b = parse("cat * 2147483647 == 1").unwrap();
    assert_eq!(b.eval(&ctx), Err(EvalError::Overflow));
}

#[test]
fn conditions_and_or_short_circuit() {
    let ctx = context(10, vec![]);
    let bad = Condition::In("x".to_string(), "nothing".to_string());
    let b = Boolean::And(Box::new(Boolean::Condition(eq(1, 2))), bad);
    assert_eq!(b.eval(&ctx), Ok(false));
    let bad = Condition::In("x".to_string(), "nothing".to_string());
    let b = Boolean::Or(Box::new(Boolean::Condition(eq(1, 1))), bad);
    assert_eq!(b.eval(&ctx), Ok(true));
}

#[test]
fn conditions_parenthesised_expression_commits_to_comparison() {
    assert!(matches!(parse("(10) == 'a'"), Err(ParseError::TypeMismatch(ScalarType::Integer, ScalarType::String))));
    assert!(parse("(10) == 10").is_ok());
    assert!(parse("(10 == 10)").is_ok());
    assert!(parse("(10 == 10) and 1 == 1").is_ok());
}

#[test]
fn conditions_unicode_whitespace_is_skipped() {
    assert!(parse("10\u{a0}==\u{2003}10").is_ok());
    assert!(parse("\u{3000}10 == 10\u{85}").is_ok());
}
