//! Comparison operators: structural equality over any values, order
//! over numbers, and the nil test.

use vstd::prelude::*;

use crate::error::{EggError, EggResult};
use crate::expression::{literal_of, Expression, Value, ValueV};
use crate::operators::eval_arg;
use crate::scope::{evolves, lemma_evolves_trans, Scope};

use vstd::string::StringExecFns;

verus! {

/// `equals(a, b)`: structural equality of any two values.
pub struct Equals;

impl Equals {
    /// Demands exactly two arguments, of any kind. On two literal
    /// arguments the result is pinned: the boolean of their values'
    /// structural equality.
    pub fn evaluate(&self, args: &Vec<Expression>, scope: &mut Scope, fuel: u64) -> (res:
        EggResult<Value>)
        requires
            old(scope).wf(),
            fuel >= 1,
        ensures
            final(scope).wf(),
            evolves(*old(scope), *final(scope)),
            args@.len() != 2 ==> (res matches Err(EggError::InvalidFunctionCall(_))) && final(scope).same_state(*old(scope)),
            res matches Ok(v) ==> v@ is Boolean,
            args@.len() == 2 ==> match (args@[0], args@[1]) {
                (Expression::Value { value: a }, Expression::Value { value: b }) => res matches Ok(
                    v,
                ) && v@ == ValueV::Boolean(a@ == b@),
                _ => true,
            },
        decreases fuel, 1int,
    {
        if args.len() != 2 {
            return Err(EggError::InvalidFunctionCall(String::from_str("expected 2 arguments")));
        }
        let ghost s0 = *scope;
        let a = match eval_arg(&args[0], scope, fuel) {
            Ok(v) => v,
            Err(e) => return Err(e),
        };
        let ghost s1 = *scope;
        let b = match eval_arg(&args[1], scope, fuel) {
            Ok(v) => v,
            Err(e) => {
                proof {
                    lemma_evolves_trans(s0, s1, *scope);
                }
                return Err(e);
            },
        };
        proof {
            lemma_evolves_trans(s0, s1, *scope);
        }
        Ok(Value::Boolean(a == b))
    }
}

/// `not_equals(a, b)`: structural inequality of any two values.
pub struct NotEquals;

impl NotEquals {
    /// Demands exactly two arguments, of any kind.
    pub fn evaluate(&self, args: &Vec<Expression>, scope: &mut Scope, fuel: u64) -> (res:
        EggResult<Value>)
        requires
            old(scope).wf(),
            fuel >= 1,
        ensures
            final(scope).wf(),
            evolves(*old(scope), *final(scope)),
            args@.len() != 2 ==> (res matches Err(EggError::InvalidFunctionCall(_))) && final(scope).same_state(*old(scope)),
            res matches Ok(v) ==> v@ is Boolean,
            args@.len() == 2 ==> match (literal_of(args@[0]), literal_of(args@[1])) {
                (Some(a), Some(b)) => (res matches Ok(v) && v@ == ValueV::Boolean(!(a@ == b@)))
                    && final(scope).same_state(*old(scope)),
                _ => true,
            },
        decreases fuel, 1int,
    {
        if args.len() != 2 {
            return Err(EggError::InvalidFunctionCall(String::from_str("expected 2 arguments")));
        }
        let ghost s0 = *scope;
        let a = match eval_arg(&args[0], scope, fuel) {
            Ok(v) => v,
            Err(e) => return Err(e),
        };
        let ghost s1 = *scope;
        let b = match eval_arg(&args[1], scope, fuel) {
            Ok(v) => v,
            Err(e) => {
                proof {
                    lemma_evolves_trans(s0, s1, *scope);
                }
                return Err(e);
            },
        };
        proof {
            lemma_evolves_trans(s0, s1, *scope);
        }
        Ok(Value::Boolean(!(a == b)))
    }
}

/// `greater_than(a, b)`: strict order of exactly two numbers.
pub struct GreaterThan;

impl GreaterThan {
    /// Demands exactly two arguments, both numbers.
    pub fn evaluate(&self, args: &Vec<Expression>, scope: &mut Scope, fuel: u64) -> (res:
        EggResult<Value>)
        requires
            old(scope).wf(),
            fuel >= 1,
        ensures
            final(scope).wf(),
            evolves(*old(scope), *final(scope)),
            args@.len() != 2 ==> (res matches Err(EggError::InvalidFunctionCall(_))) && final(scope).same_state(*old(scope)),
            res matches Ok(v) ==> v@ is Boolean,
            args@.len() == 2 ==> match (literal_of(args@[0]), literal_of(args@[1])) {
                (Some(a), Some(b)) => final(scope).same_state(*old(scope)) && match (a, b) {
                    (Value::Number(x), Value::Number(y)) => res matches Ok(v) && v@
                        == ValueV::Boolean(x > y),
                    _ => res matches Err(EggError::OperatorComplaint(_)),
                },
                _ => true,
            },
        decreases fuel, 1int,
    {
        if args.len() != 2 {
            return Err(EggError::InvalidFunctionCall(String::from_str("expected 2 arguments")));
        }
        let ghost s0 = *scope;
        let a = match eval_arg(&args[0], scope, fuel) {
            Ok(v) => v,
            Err(e) => return Err(e),
        };
        let ghost s1 = *scope;
        let b = match eval_arg(&args[1], scope, fuel) {
            Ok(v) => v,
            Err(e) => {
                proof {
                    lemma_evolves_trans(s0, s1, *scope);
                }
                return Err(e);
            },
        };
        proof {
            lemma_evolves_trans(s0, s1, *scope);
        }
        match (a, b) {
            (Value::Number(x), Value::Number(y)) => Ok(Value::Boolean(x > y)),
            _ => Err(
                EggError::OperatorComplaint(
                    String::from_str(
                        "please provide numbers as arguments for mathematical operations",
                    ),
                ),
            ),
        }
    }
}

/// `less_than(a, b)`: strict order of exactly two numbers.
pub struct LessThan;

impl LessThan {
    /// Demands exactly two arguments, both numbers.
    pub fn evaluate(&self, args: &Vec<Expression>, scope: &mut Scope, fuel: u64) -> (res:
        EggResult<Value>)
        requires
            old(scope).wf(),
            fuel >= 1,
        ensures
            final(scope).wf(),
            evolves(*old(scope), *final(scope)),
            args@.len() != 2 ==> (res matches Err(EggError::InvalidFunctionCall(_))) && final(scope).same_state(*old(scope)),
            res matches Ok(v) ==> v@ is Boolean,
            args@.len() == 2 ==> match (literal_of(args@[0]), literal_of(args@[1])) {
                (Some(a), Some(b)) => final(scope).same_state(*old(scope)) && match (a, b) {
                    (Value::Number(x), Value::Number(y)) => res matches Ok(v) && v@
                        == ValueV::Boolean(x < y),
                    _ => res matches Err(EggError::OperatorComplaint(_)),
                },
                _ => true,
            },
        decreases fuel, 1int,
    {
        if args.len() != 2 {
            return Err(EggError::InvalidFunctionCall(String::from_str("expected 2 arguments")));
        }
        let ghost s0 = *scope;
        let a = match eval_arg(&args[0], scope, fuel) {
            Ok(v) => v,
            Err(e) => return Err(e),
        };
        let ghost s1 = *scope;
        let b = match eval_arg(&args[1], scope, fuel) {
            Ok(v) => v,
            Err(e) => {
                proof {
                    lemma_evolves_trans(s0, s1, *scope);
                }
                return Err(e);
            },
        };
        proof {
            lemma_evolves_trans(s0, s1, *scope);
        }
        match (a, b) {
            (Value::Number(x), Value::Number(y)) => Ok(Value::Boolean(x < y)),
            _ => Err(
                EggError::OperatorComplaint(
                    String::from_str(
                        "please provide numbers as arguments for mathematical operations",
                    ),
                ),
            ),
        }
    }
}

/// `is_nil(v)`: whether the value is `Nil`.
pub struct IsNil;

impl IsNil {
    /// Demands exactly one argument, of any kind.
    pub fn evaluate(&self, args: &Vec<Expression>, scope: &mut Scope, fuel: u64) -> (res:
        EggResult<Value>)
        requires
            old(scope).wf(),
            fuel >= 1,
        ensures
            final(scope).wf(),
            evolves(*old(scope), *final(scope)),
            args@.len() != 1 ==> (res matches Err(EggError::InvalidFunctionCall(_))) && final(scope).same_state(*old(scope)),
            res matches Ok(v) ==> v@ is Boolean,
            args@.len() == 1 ==> match args@[0] {
                Expression::Value { value } => res matches Ok(v) && v@ == ValueV::Boolean(
                    value@ is Nil,
                ),
                _ => true,
            },
        decreases fuel, 1int,
    {
        if args.len() != 1 {
            return Err(EggError::InvalidFunctionCall(String::from_str("expected 1 argument")));
        }
        let v = match eval_arg(&args[0], scope, fuel) {
            Ok(v) => v,
            Err(e) => return Err(e),
        };
        Ok(Value::Boolean(matches!(v, Value::Nil)))
    }
}

} // verus!
