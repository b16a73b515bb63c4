//! Literals, conversions, comparisons, type tags, string tools, and
//! the object and map stores.

use egglang::error::EggError;
use egglang::evaluator::evaluate;
use egglang::expression::Value;
use egglang::operators::{empty, full};
use egglang::parser::parse;
use egglang::scope::Scope;

fn eval_last(src: &str) -> Value {
    let mut ops = empty();
    full(&mut ops);
    let exprs = parse(src, &ops).unwrap();
    let mut scope = Scope::default();
    let mut last = Value::Nil;
    for e in &exprs {
        last = evaluate(e, &mut scope).unwrap();
    }
    last
}

fn eval_err(src: &str) -> EggError {
    let mut ops = empty();
    full(&mut ops);
    let exprs = parse(src, &ops).unwrap();
    let mut scope = Scope::default();
    for e in &exprs {
        if let Err(err) = evaluate(e, &mut scope) {
            return err;
        }
    }
    panic!("expected an error for {}", src);
}

#[test]
fn number_literals() {
    assert_eq!(eval_last("42"), Value::Number(42));
    assert_eq!(eval_last("-7"), Value::Number(-7));
    assert_eq!(eval_last("0"), Value::Number(0));
}

#[test]
fn string_literals() {
    assert_eq!(eval_last("\"hi\""), Value::String("hi".to_string()));
    assert_eq!(eval_last("\"a b\""), Value::String("a b".to_string()));
    assert_eq!(eval_last("\"\""), Value::String(String::new()));
}

#[test]
fn boolean_literals() {
    assert_eq!(eval_last("True"), Value::Boolean(true));
    assert_eq!(eval_last("False"), Value::Boolean(false));
    assert_eq!(eval_last("true"), Value::Boolean(true));
    assert_eq!(eval_last("false"), Value::Boolean(false));
}

#[test]
fn arithmetic_results() {
    assert_eq!(eval_last("sum()"), Value::Number(0));
    assert_eq!(eval_last("multiply()"), Value::Number(1));
    assert_eq!(eval_last("subtract(5, 9)"), Value::Number(-4));
    assert_eq!(eval_last("divide(7, 2)"), Value::Number(3));
    assert_eq!(eval_last("modulus(7, 2)"), Value::Number(1));
    assert_eq!(eval_last("add(1, 2, 3)"), Value::Number(6));
}

#[test]
fn comparison_results() {
    assert_eq!(eval_last("equals(\"a\", \"a\")"), Value::Boolean(true));
    assert_eq!(eval_last("equals(1, \"a\")"), Value::Boolean(false));
    assert_eq!(eval_last("not_equals(1, 2)"), Value::Boolean(true));
    assert_eq!(eval_last("greater_than(2, 1)"), Value::Boolean(true));
    assert_eq!(eval_last("less_than(2, 1)"), Value::Boolean(false));
    assert_eq!(eval_last("is_nil(do())"), Value::Boolean(true));
    assert_eq!(eval_last("is_nil(0)"), Value::Boolean(false));
}

#[test]
fn boolean_operators() {
    assert_eq!(eval_last("and(True, False)"), Value::Boolean(false));
    assert_eq!(eval_last("or(True, False)"), Value::Boolean(true));
    assert_eq!(eval_last("not(False)"), Value::Boolean(true));
}

#[test]
fn conversion_to_number() {
    assert_eq!(eval_last("num(\"42\")"), Value::Number(42));
    assert_eq!(eval_last("num(\"-7\")"), Value::Number(-7));
    assert_eq!(eval_last("num(3)"), Value::Number(3));
    assert_eq!(eval_last("num(True)"), Value::Boolean(true));
    assert_eq!(eval_last("num(False)"), Value::Boolean(false));
    assert!(matches!(eval_err("num(\"1.5\")"), EggError::OperatorComplaint(_)));
    assert!(matches!(eval_err("num(\"zzz\")"), EggError::OperatorComplaint(_)));
    assert!(matches!(eval_err("num(do())"), EggError::OperatorComplaint(_)));
}

#[test]
fn conversion_to_string() {
    assert_eq!(eval_last("str(42)"), Value::String("42".to_string()));
    assert_eq!(eval_last("str(-42)"), Value::String("-42".to_string()));
    assert_eq!(eval_last("str(\"hi\")"), Value::String("\"hi\"".to_string()));
    assert_eq!(eval_last("str(True)"), Value::String("True".to_string()));
    assert_eq!(eval_last("str(do())"), Value::String("Nil".to_string()));
}

#[test]
fn typeof_tags() {
    assert_eq!(eval_last("typeof(1)"), Value::String("__TYPE__NUMBER".to_string()));
    assert_eq!(eval_last("typeof(\"s\")"), Value::String("__TYPE__STRING".to_string()));
    assert_eq!(eval_last("typeof(True)"), Value::String("__TYPE__BOOLEAN".to_string()));
    assert_eq!(eval_last("typeof(do())"), Value::String("__CONSTANT__NIL".to_string()));
    assert_eq!(eval_last("typeof(fn(x, x))"), Value::String("__TYPE__FUNCTION".to_string()));
    assert_eq!(
        eval_last("typeof(object.new())"),
        Value::String("__TYPE__OBJECT".to_string())
    );
}

#[test]
fn default_scope_constants() {
    assert_eq!(eval_last("Number"), Value::String("__TYPE__NUMBER".to_string()));
    assert_eq!(eval_last("Nil"), Value::String("__CONSTANT__NIL".to_string()));
    assert_eq!(eval_last("equals(typeof(1), Number)"), Value::Boolean(true));
}

#[test]
fn string_concat_and_length() {
    assert_eq!(eval_last("string.concat(\"a\", \"b\", \"c\")"), Value::String("abc".to_string()));
    assert_eq!(eval_last("string.concat()"), Value::String(String::new()));
    assert_eq!(eval_last("string.length(\"abc\")"), Value::Number(3));
    assert_eq!(eval_last("string.length(\"\")"), Value::Number(0));
}

#[test]
fn string_slice() {
    assert_eq!(eval_last("string.slice(\"hello\", 1, 3)"), Value::String("ell".to_string()));
    assert_eq!(eval_last("string.slice(\"hello\", -2, 2)"), Value::String("lo".to_string()));
    assert_eq!(eval_last("string.slice(\"hello\", 0, 0)"), Value::String(String::new()));
    assert!(matches!(
        eval_err("string.slice(\"hello\", 4, 3)"),
        EggError::OperatorComplaint(_)
    ));
}

#[test]
fn string_case_folding_changes_the_text() {
    assert_eq!(eval_last("string.to_upper(\"hi\")"), Value::String("HI".to_string()));
    assert_eq!(eval_last("string.to_lower(\"AbC\")"), Value::String("abc".to_string()));
}

#[test]
fn string_trim_removes_the_blanks() {
    assert_eq!(eval_last("string.trim(\" x \")"), Value::String("x".to_string()));
    assert_eq!(eval_last("string.trim(\"x\")"), Value::String("x".to_string()));
}

#[test]
fn objects_store_and_report() {
    let src = "do(define(o, object.new()), \
               object.insert(o, \"k\", 1), \
               object.insert(o, 2, \"two\"), \
               object.get(o, \"k\"))";
    assert_eq!(eval_last(src), Value::Number(1));
    assert_eq!(
        eval_last(
            "do(define(o, object.new()), object.insert(o, \"k\", 1), object.has(o, \"k\"))",
        ),
        Value::Boolean(true)
    );
    assert_eq!(
        eval_last(
            "do(define(o, object.new()), object.insert(o, \"k\", 1), object.size(o))",
        ),
        Value::Number(1)
    );
    assert_eq!(
        eval_last(
            "do(define(o, object.new()), object.insert(o, \"k\", 1), object.remove(o, \"k\"))",
        ),
        Value::Number(1)
    );
    assert_eq!(
        eval_last(
            "do(define(o, object.new()), object.insert(o, \"k\", 1), object.clear(o), \
             object.size(o))",
        ),
        Value::Number(0)
    );
    assert_eq!(
        eval_last("do(define(o, object.new()), object.get(o, \"missing\"))"),
        Value::Nil
    );
}

#[test]
fn maps_store_and_report() {
    assert_eq!(eval_last("do(new_map(\"m\"), exists_map(\"m\"))"), Value::Boolean(true));
    assert_eq!(eval_last("exists_map(\"m\")"), Value::Boolean(false));
    assert_eq!(
        eval_last("do(new_map(\"m\"), map_insert(\"m\", \"k\", 1), map_remove(\"m\", \"k\"))"),
        Value::Number(1)
    );
    assert_eq!(
        eval_last(
            "do(new_map(\"m\"), map_insert(\"m\", \"k\", 1), map_insert(\"m\", \"j\", 2), \
             map_clear(\"m\"), map_size(\"m\"))",
        ),
        Value::Number(0)
    );
    assert_eq!(
        eval_last("do(new_map(\"m\"), delete_map(\"m\"), exists_map(\"m\"))"),
        Value::Boolean(false)
    );
    assert_eq!(
        eval_last(
            "do(new_map(\"m\"), map_insert(\"m\", \"k\", 1), map_insert(\"m\", \"k\", 5), \
             map_get(\"m\", \"k\"))",
        ),
        Value::Number(5)
    );
}

#[test]
fn map_insert_yields_the_previous_value() {
    assert_eq!(
        eval_last(
            "do(new_map(\"m\"), map_insert(\"m\", \"k\", 1), map_insert(\"m\", \"k\", 2))",
        ),
        Value::Number(1)
    );
}

#[test]
fn delete_yields_the_removed_value() {
    assert_eq!(eval_last("do(define(x, 9), delete(x))"), Value::Number(9));
    assert_eq!(eval_last("delete(zzz)"), Value::Nil);
}

#[test]
fn set_yields_the_previous_value() {
    assert_eq!(eval_last("do(define(x, 1), set(x, 2))"), Value::Number(1));
}

#[test]
fn string_named_variables_work_too() {
    assert_eq!(eval_last("do(define(\"x\", 4), x)"), Value::Number(4));
    assert_eq!(eval_last("do(define(x, 1), set(\"x\", 2), x)"), Value::Number(2));
}

#[test]
fn redefining_locally_is_a_complaint() {
    assert!(matches!(
        eval_err("do(define(x, 1), define(x, 2))"),
        EggError::OperatorComplaint(_)
    ));
}

#[test]
fn setting_an_undefined_name_is_an_error() {
    assert!(matches!(eval_err("set(zzz, 1)"), EggError::UndefinedBinding(_)));
}

#[test]
fn stripping_the_trailing_newline() {
    assert_eq!(egglang::operators::console::strip_trailing_newline("ab\n"), "ab");
    assert_eq!(egglang::operators::console::strip_trailing_newline("ab\r\n"), "ab");
    assert_eq!(egglang::operators::console::strip_trailing_newline("ab"), "ab");
    assert_eq!(egglang::operators::console::strip_trailing_newline(" a b \n"), " a b ");
    assert_eq!(egglang::operators::console::strip_trailing_newline(""), "");
}
