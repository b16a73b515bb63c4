//! End-to-end scenarios: parse a script and evaluate it expression by
//! expression against one scope.

use egglang::error::EggError;
use egglang::evaluator::evaluate;
use egglang::expression::Value;
use egglang::operators::{empty, full};
use egglang::parser::parse;
use egglang::scope::Scope;

fn run_script(src: &str) -> Result<Vec<Value>, EggError> {
    let mut ops = empty();
    full(&mut ops);
    let exprs = parse(src, &ops)?;
    let mut scope = Scope::default();
    let mut out = Vec::new();
    for e in &exprs {
        out.push(evaluate(e, &mut scope)?);
    }
    Ok(out)
}

fn run_last(src: &str) -> Value {
    run_script(src).unwrap().pop().unwrap()
}

#[test]
fn sum_of_product() {
    assert_eq!(run_last("sum(1, multiply(2, 5))"), Value::Number(11));
}

#[test]
fn if_greater_than() {
    assert_eq!(
        run_last("if(greater_than(10, 5), \"yes\", \"no\")"),
        Value::String("yes".to_string())
    );
}

#[test]
fn define_then_set() {
    assert_eq!(run_last("do(define(x, 1), set(x, add(x, 1)), x)"), Value::Number(2));
}

#[test]
fn repeat_prints() {
    assert_eq!(run_last("repeat(3, print(\"hi\"))"), Value::Nil);
}

#[test]
fn map_insert_and_get() {
    let out = run_script(
        "do(new_map(\"m\"), map_insert(\"m\", \"k\", 1), map_get(\"m\", \"k\"))",
    )
    .unwrap();
    assert_eq!(out.last().unwrap(), &Value::Number(1));
    assert_eq!(run_last("do(new_map(\"m\"), map_get(\"m\", \"missing\"))"), Value::Nil);
}

#[test]
fn unbalanced_source_reports_the_open_bracket() {
    let err = run_script("sum(1, 2").unwrap_err();
    assert!(matches!(err, EggError::UnbalancedBrackets(3)));
}

#[test]
fn close_without_open_reports_its_position() {
    let err = run_script(")").unwrap_err();
    assert!(matches!(err, EggError::UnbalancedBrackets(0)));
}

#[test]
fn while_counts_to_five() {
    assert_eq!(
        run_last("do(define(i, 0), while(less_than(i, 5), set(i, add(i, 1))), i)"),
        Value::Number(5)
    );
}

#[test]
fn user_function_applies() {
    assert_eq!(
        run_last("do(define(double, fn(x, multiply(x, 2))), double(21))"),
        Value::Number(42)
    );
}

#[test]
fn local_define_is_invisible_after_return() {
    let out = run_last(
        "do(define(f, fn(x, do(define(inner, 5), x))), f(2), exists(inner))",
    );
    assert_eq!(out, Value::Boolean(false));
}

#[test]
fn set_mutates_the_enclosing_binding() {
    assert_eq!(
        run_last("do(define(g, 1), define(f, fn(x, set(g, 10))), f(2), g)"),
        Value::Number(10)
    );
}

#[test]
fn deleted_function_index_is_never_reused() {
    let mut ops = empty();
    full(&mut ops);
    let exprs = parse(
        "do(define(f, fn(x, x)), f) delete(f) fn(y, y)",
        &ops,
    )
    .unwrap();
    let mut scope = Scope::default();
    let first = evaluate(&exprs[0], &mut scope).unwrap();
    let old_index = match first {
        Value::Function(i) => i,
        other => panic!("expected a function value, got {:?}", other),
    };
    evaluate(&exprs[1], &mut scope).unwrap();
    let fresh = evaluate(&exprs[2], &mut scope).unwrap();
    match fresh {
        Value::Function(i) => assert_ne!(i, old_index),
        other => panic!("expected a function value, got {:?}", other),
    }
}

#[test]
fn deleted_function_cannot_be_called() {
    let err = run_script("do(define(f, fn(x, x)), delete(f), f(1))").unwrap_err();
    assert!(matches!(err, EggError::FunctionNotFound(_)));
}

#[test]
fn exists_does_not_create_a_binding() {
    let out = run_script("exists(zzz) exists(zzz)").unwrap();
    assert_eq!(out, vec![Value::Boolean(false), Value::Boolean(false)]);
    // asking did not define the name, so a later define still succeeds
    assert_eq!(run_last("do(exists(zzz), define(zzz, 7), zzz)"), Value::Number(7));
}

#[test]
fn map_has_does_not_change_the_map() {
    assert_eq!(
        run_last(
            "do(new_map(\"m\"), map_has(\"m\", \"k\"), map_has(\"m\", \"k\"), map_size(\"m\"))",
        ),
        Value::Number(0)
    );
}

#[test]
fn assert_leaves_its_message_unevaluated_when_the_condition_holds() {
    assert_eq!(run_last("assert(True, no_such_binding)"), Value::Nil);
}

#[test]
fn if_evaluates_exactly_one_branch() {
    assert_eq!(run_last("if(True, 1, no_such_binding)"), Value::Number(1));
    assert_eq!(run_last("if(0, no_such_binding, 2)"), Value::Number(2));
}

#[test]
fn comments_and_commas_are_discarded() {
    assert_eq!(run_last("sum(1,2) # trailing words"), Value::Number(3));
}

#[test]
fn recursion_terminates() {
    assert_eq!(
        run_last(
            "do(define(down, fn(n, if(greater_than(n, 0), down(subtract(n, 1)), n))), down(10))",
        ),
        Value::Number(0)
    );
}

#[test]
fn shadowing_parameter_does_not_leak() {
    assert_eq!(
        run_last("do(define(x, 1), define(f, fn(x, x)), f(9), x)"),
        Value::Number(1)
    );
}

#[test]
fn sleep_yields_its_operand() {
    assert_eq!(run_last("sleep(5)"), Value::Number(5));
}

#[test]
fn empty_do_and_idle_loops_yield_nil() {
    assert_eq!(run_last("do()"), Value::Nil);
    assert_eq!(run_last("while(False, no_such_binding)"), Value::Nil);
    assert_eq!(run_last("repeat(0, no_such_binding)"), Value::Nil);
    assert_eq!(run_last("repeat(-3, no_such_binding)"), Value::Nil);
}

#[test]
fn runaway_loops_hit_the_ceiling() {
    let err = run_script("while(True, 1)").unwrap_err();
    assert!(matches!(err, EggError::OperatorComplaint(_)));
    let err = run_script("repeat(999999999, 1)").unwrap_err();
    assert!(matches!(err, EggError::OperatorComplaint(_)));
}
