//! Each error variant, produced by an input that provokes it, and the
//! arity discipline of the fixed-arity operators.

use egglang::error::EggError;
use egglang::evaluator::evaluate;
use egglang::expression::Value;
use egglang::operators::{empty, full};
use egglang::parser::parse;
use egglang::scope::Scope;

fn run_all(src: &str) -> Result<Vec<Value>, EggError> {
    let mut ops = empty();
    full(&mut ops);
    let exprs = parse(src, &ops)?;
    let mut scope = Scope::default();
    let mut out = Vec::new();
    for e in &exprs {
        out.push(evaluate(e, &mut scope)?);
    }
    Ok(out)
}

#[test]
fn undefined_binding() {
    assert!(matches!(run_all("y").unwrap_err(), EggError::UndefinedBinding(_)));
}

#[test]
fn function_not_found() {
    assert!(matches!(run_all("foo(1)").unwrap_err(), EggError::FunctionNotFound(_)));
}

#[test]
fn unknown_token_on_unterminated_string() {
    assert!(matches!(run_all("\"abc").unwrap_err(), EggError::UnknownToken(_)));
}

#[test]
fn unknown_token_on_fractional_number() {
    assert!(matches!(run_all("sum(1.5, 2)").unwrap_err(), EggError::UnknownToken(_)));
}

#[test]
fn parser_error_on_non_word_callee() {
    assert!(matches!(run_all("1(2)").unwrap_err(), EggError::ParserError(_, _, _)));
}

#[test]
fn operator_complaint_on_wrong_kinds() {
    assert!(matches!(run_all("and(1, True)").unwrap_err(), EggError::OperatorComplaint(_)));
    assert!(matches!(run_all("sum(1, \"x\")").unwrap_err(), EggError::OperatorComplaint(_)));
    assert!(matches!(run_all("not(3)").unwrap_err(), EggError::OperatorComplaint(_)));
}

#[test]
fn division_by_zero_is_a_complaint() {
    assert!(matches!(run_all("divide(1, 0)").unwrap_err(), EggError::OperatorComplaint(_)));
    assert!(matches!(run_all("modulus(1, 0)").unwrap_err(), EggError::OperatorComplaint(_)));
}

#[test]
fn overflow_is_a_complaint_not_a_wrap() {
    let err = run_all("multiply(9223372036854775807, 2)").unwrap_err();
    assert!(matches!(err, EggError::OperatorComplaint(_)));
}

#[test]
fn assertion_failed_carries_the_message() {
    let err = run_all("assert(False, \"boom\")").unwrap_err();
    match err {
        EggError::AssertionFailed(Value::String(s)) => assert_eq!(s, "boom"),
        other => panic!("expected an assertion failure, got {:?}", other),
    }
}

#[test]
fn panic_always_fails() {
    assert!(matches!(run_all("panic(\"stop\")").unwrap_err(), EggError::AssertionFailed(_)));
}

#[test]
fn invalid_function_definition() {
    assert!(matches!(run_all("fn()").unwrap_err(), EggError::InvalidFunctionDefinition(_)));
    assert!(matches!(run_all("fn(1, x)").unwrap_err(), EggError::InvalidFunctionDefinition(_)));
}

#[test]
fn invalid_function_call_on_wrong_user_arity() {
    let err = run_all("do(define(f, fn(x, x)), f(1, 2))").unwrap_err();
    assert!(matches!(err, EggError::InvalidFunctionCall(_)));
}

#[test]
fn invalid_object_key() {
    let err = run_all("do(define(o, object.new()), object.insert(o, fn(x, x), 1))").unwrap_err();
    assert!(matches!(err, EggError::InvalidObjectKey(_)));
    let err = run_all("do(new_map(\"m\"), map_insert(\"m\", fn(x, x), 1))").unwrap_err();
    assert!(matches!(err, EggError::InvalidObjectKey(_)));
}

#[test]
fn invalid_object_reference() {
    assert!(matches!(
        run_all("object.get(5, \"k\")").unwrap_err(),
        EggError::InvalidObjectReference(_)
    ));
}

#[test]
fn map_not_found() {
    assert!(matches!(
        run_all("map_get(\"none\", \"k\")").unwrap_err(),
        EggError::MapNotFound(_)
    ));
}

#[test]
fn invalid_map_tag() {
    assert!(matches!(run_all("new_map(5)").unwrap_err(), EggError::InvalidMapTag(_, _)));
    let err = run_all("do(new_map(\"m\"), new_map(\"m\"))").unwrap_err();
    assert!(matches!(err, EggError::InvalidMapTag(_, _)));
}

#[test]
fn fixed_arity_operators_reject_wrong_counts() {
    for src in [
        "define(x)",
        "set(x)",
        "delete()",
        "exists()",
        "typeof()",
        "if(True, 1)",
        "while(True)",
        "repeat(1)",
        "sleep()",
        "panic()",
        "assert(True)",
        "equals(1)",
        "not_equals(1)",
        "greater_than(1)",
        "less_than(1, 2, 3)",
        "is_nil()",
        "subtract(1)",
        "divide(1)",
        "modulus(1, 2, 3)",
        "and(True)",
        "or(True)",
        "not()",
        "str()",
        "num()",
        "string.length()",
        "string.slice(\"a\", 0)",
        "string.to_upper()",
        "string.to_lower()",
        "string.trim()",
        "new_map()",
        "exists_map()",
        "delete_map()",
        "map_insert(\"m\", 1)",
        "map_get(\"m\")",
        "map_has(\"m\")",
        "map_remove(\"m\")",
        "map_size()",
        "map_clear()",
        "object.get(1)",
        "object.insert(1, 2)",
        "object.has(1)",
        "object.remove(1)",
        "object.size()",
        "object.clear()",
    ] {
        let err = run_all(src).unwrap_err();
        assert!(
            matches!(err, EggError::InvalidFunctionCall(_)),
            "{} should be an arity error, got {:?}",
            src,
            err
        );
    }
}

#[test]
fn messages_render_for_the_host() {
    let err = run_all("y").unwrap_err();
    assert_eq!(err.message(), "Binding not found in current scope: y");
    let err = run_all("sum(1, 2").unwrap_err();
    assert_eq!(err.message(), "Unbalanced bracket found at location: 3");
    let err = run_all("assert(False, 7)").unwrap_err();
    assert_eq!(err.message(), "Assertion failed: 7");
    let err = run_all("assert(False, \"boom\")").unwrap_err();
    assert_eq!(err.message(), "Assertion failed: \"boom\"");
}
