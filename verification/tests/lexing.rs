//! Edges of the lexer: maximal munch, word characters, numeral
//! bounds, and empty input.

use egglang::error::EggError;
use egglang::evaluator::evaluate;
use egglang::expression::{Expression, Value};
use egglang::operators::{empty, full};
use egglang::parser::parse;
use egglang::scope::Scope;

fn eval_program(src: &str) -> Result<Vec<Value>, EggError> {
    let mut ops = empty();
    full(&mut ops);
    let exprs = parse(src, &ops)?;
    let mut scope = Scope::default();
    let mut out = Vec::new();
    for e in &exprs {
        out.push(evaluate(e, &mut scope)?);
    }
    Ok(out)
}

#[test]
fn empty_source_is_an_empty_program() {
    assert_eq!(eval_program("").unwrap(), Vec::new());
    assert_eq!(eval_program("   \n\t").unwrap(), Vec::new());
    assert_eq!(eval_program("# only a comment").unwrap(), Vec::new());
}

#[test]
fn numbers_take_priority_over_words_at_a_leading_digit() {
    let mut ops = empty();
    full(&mut ops);
    let exprs = parse("123abc", &ops).unwrap();
    assert_eq!(exprs.len(), 2);
    assert!(matches!(&exprs[0], Expression::Value { value: Value::Number(123) }));
    match &exprs[1] {
        Expression::Word { name } => assert_eq!(name, "abc"),
        other => panic!("expected a word, got {:?}", other),
    }
}

#[test]
fn a_dash_inside_a_word_stays_in_the_word() {
    assert_eq!(
        eval_program("do(define(a-b, 1), a-b)").unwrap().pop().unwrap(),
        Value::Number(1)
    );
}

#[test]
fn the_extreme_numerals_fit_and_beyond_them_is_unknown() {
    assert_eq!(
        eval_program("-9223372036854775808").unwrap().pop().unwrap(),
        Value::Number(i64::MIN)
    );
    assert_eq!(
        eval_program("9223372036854775807").unwrap().pop().unwrap(),
        Value::Number(i64::MAX)
    );
    assert!(matches!(
        eval_program("9223372036854775808").unwrap_err(),
        EggError::UnknownToken(_)
    ));
}

#[test]
fn strings_may_hold_word_separators() {
    assert_eq!(
        eval_program("\"a, (b) #c\"").unwrap().pop().unwrap(),
        Value::String("a, (b) #c".to_string())
    );
}

#[test]
fn a_string_must_close_on_its_own_line() {
    assert!(matches!(
        eval_program("\"a\nb\"").unwrap_err(),
        EggError::UnknownToken(_)
    ));
}

#[test]
fn non_ascii_source_is_rejected_up_front() {
    assert!(matches!(eval_program("d\u{e9}fine(x, 1)").unwrap_err(), EggError::UnknownToken(_)));
}
