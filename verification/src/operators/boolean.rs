//! Boolean operators. Both operands are evaluated and must be
//! booleans; there is no short-circuiting here.

use vstd::prelude::*;

use crate::error::{EggError, EggResult};
use crate::expression::{literal_of, Expression, Value, ValueV};
use crate::operators::eval_arg;
use crate::scope::{evolves, lemma_evolves_trans, Scope};

use vstd::string::StringExecFns;

verus! {

/// `and(a, b)`: the conjunction of exactly two booleans.
pub struct AND;

impl AND {
    /// Demands exactly two arguments, both booleans.
    pub fn evaluate(&self, args: &Vec<Expression>, scope: &mut Scope, fuel: u64) -> (res:
        EggResult<Value>)
        requires
            old(scope).wf(),
            fuel >= 1,
        ensures
            final(scope).wf(),
            evolves(*old(scope), *final(scope)),
            args@.len() != 2 ==> (res matches Err(EggError::InvalidFunctionCall(_))) && final(scope).same_state(*old(scope)),
            res matches Ok(v) ==> v@ is Boolean,
            args@.len() == 2 ==> match (literal_of(args@[0]), literal_of(args@[1])) {
                (Some(a), Some(b)) => final(scope).same_state(*old(scope)) && match (a, b) {
                    (Value::Boolean(x), Value::Boolean(y)) => res matches Ok(v) && v@
                        == ValueV::Boolean(x && y),
                    _ => res matches Err(EggError::OperatorComplaint(_)),
                },
                _ => true,
            },
        decreases fuel, 1int,
    {
        if args.len() != 2 {
            return Err(EggError::InvalidFunctionCall(String::from_str("expected 2 arguments")));
        }
        let ghost s0 = *scope;
        let a = match eval_arg(&args[0], scope, fuel) {
            Ok(v) => v,
            Err(e) => return Err(e),
        };
        let ghost s1 = *scope;
        let b = match eval_arg(&args[1], scope, fuel) {
            Ok(v) => v,
            Err(e) => {
                proof {
                    lemma_evolves_trans(s0, s1, *scope);
                }
                return Err(e);
            },
        };
        proof {
            lemma_evolves_trans(s0, s1, *scope);
        }
        match (a, b) {
            (Value::Boolean(x), Value::Boolean(y)) => Ok(Value::Boolean(x && y)),
            _ => Err(
                EggError::OperatorComplaint(
                    String::from_str(
                        "please provide booleans as arguments for boolean operations",
                    ),
                ),
            ),
        }
    }
}

/// `or(a, b)`: the disjunction of exactly two booleans.
pub struct OR;

impl OR {
    /// Demands exactly two arguments, both booleans.
    pub fn evaluate(&self, args: &Vec<Expression>, scope: &mut Scope, fuel: u64) -> (res:
        EggResult<Value>)
        requires
            old(scope).wf(),
            fuel >= 1,
        ensures
            final(scope).wf(),
            evolves(*old(scope), *final(scope)),
            args@.len() != 2 ==> (res matches Err(EggError::InvalidFunctionCall(_))) && final(scope).same_state(*old(scope)),
            res matches Ok(v) ==> v@ is Boolean,
            args@.len() == 2 ==> match (literal_of(args@[0]), literal_of(args@[1])) {
                (Some(a), Some(b)) => final(scope).same_state(*old(scope)) && match (a, b) {
                    (Value::Boolean(x), Value::Boolean(y)) => res matches Ok(v) && v@
                        == ValueV::Boolean(x || y),
                    _ => res matches Err(EggError::OperatorComplaint(_)),
                },
                _ => true,
            },
        decreases fuel, 1int,
    {
        if args.len() != 2 {
            return Err(EggError::InvalidFunctionCall(String::from_str("expected 2 arguments")));
        }
        let ghost s0 = *scope;
        let a = match eval_arg(&args[0], scope, fuel) {
            Ok(v) => v,
            Err(e) => return Err(e),
        };
        let ghost s1 = *scope;
        let b = match eval_arg(&args[1], scope, fuel) {
            Ok(v) => v,
            Err(e) => {
                proof {
                    lemma_evolves_trans(s0, s1, *scope);
                }
                return Err(e);
            },
        };
        proof {
            lemma_evolves_trans(s0, s1, *scope);
        }
        match (a, b) {
            (Value::Boolean(x), Value::Boolean(y)) => Ok(Value::Boolean(x || y)),
            _ => Err(
                EggError::OperatorComplaint(
                    String::from_str(
                        "please provide booleans as arguments for boolean operations",
                    ),
                ),
            ),
        }
    }
}

/// `not(a)`: the negation of exactly one boolean.
pub struct NOT;

impl NOT {
    /// Demands exactly one argument, a boolean.
    pub fn evaluate(&self, args: &Vec<Expression>, scope: &mut Scope, fuel: u64) -> (res:
        EggResult<Value>)
        requires
            old(scope).wf(),
            fuel >= 1,
        ensures
            final(scope).wf(),
            evolves(*old(scope), *final(scope)),
            args@.len() != 1 ==> (res matches Err(EggError::InvalidFunctionCall(_))) && final(scope).same_state(*old(scope)),
            res matches Ok(v) ==> v@ is Boolean,
            args@.len() == 1 ==> match literal_of(args@[0]) {
                Some(Value::Boolean(x)) => (res matches Ok(v) && v@ == ValueV::Boolean(!x))
                    && final(scope).same_state(*old(scope)),
                Some(_) => (res matches Err(EggError::OperatorComplaint(_))) && final(scope).same_state(*old(scope)),
                None => true,
            },
        decreases fuel, 1int,
    {
        if args.len() != 1 {
            return Err(EggError::InvalidFunctionCall(String::from_str("expected 1 argument")));
        }
        match eval_arg(&args[0], scope, fuel) {
            Ok(Value::Boolean(x)) => Ok(Value::Boolean(!x)),
            Ok(_) => Err(
                EggError::OperatorComplaint(
                    String::from_str(
                        "please provide booleans as arguments for boolean operations",
                    ),
                ),
            ),
            Err(e) => Err(e),
        }
    }
}

} // verus!
