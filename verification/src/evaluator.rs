//! The tree-walking evaluator: one expression node at a time,
//! dispatching literals, variable lookups and calls.

use vstd::prelude::*;

use crate::error::{EggError, EggResult};
use crate::expression::{Callee, Expression, Value, ValueV};
use crate::operators::dispatch;
use crate::scope::{evolves, Scope};

use vstd::string::StringExecFns;

verus! {

/// How deeply nested calls may recurse before evaluation is aborted
/// with a complaint instead of exhausting the host's stack.
pub const MAX_DEPTH: u64 = 1024;

/// Given an [`Expression`], evaluate and yield a [`Value`].
///
/// A literal yields its value and leaves the scope untouched; a word
/// yields the value the scope chain binds it to, or `UndefinedBinding`;
/// a call dispatches to the resolved built-in or to the user function
/// its deferred name denotes. Whatever the expression does, the frame
/// count is preserved and no deleted function or object index comes
/// back to life.
pub fn evaluate(expr: &Expression, scope: &mut Scope) -> (res: EggResult<Value>)
    requires
        old(scope).wf(),
    ensures
        final(scope).wf(),
        evolves(*old(scope), *final(scope)),
        match expr {
            Expression::Value { value } => (res matches Ok(v) && v@ == value@) && final(scope).same_state(*old(scope)),
            Expression::Word { name } => (match old(scope).lookup(name@) {
                Some(v) => res matches Ok(r) && r@ == v,
                None => res matches Err(EggError::UndefinedBinding(n)) && n@ == name@,
            }) && final(scope).same_state(*old(scope)),
            Expression::FnCall { target: Callee::Script(name), .. } => !(old(scope).lookup(
                name@,
            ) matches Some(ValueV::Function(_))) ==> (res matches Err(EggError::FunctionNotFound(
                n,
            )) && n@ == name@) && final(scope).same_state(*old(scope)),
            Expression::FnCall { target: Callee::Builtin(b), parameters } => (
            crate::operators::fixed_arity(*b) matches Some(k) && parameters@.len() != k) ==> (res
                matches Err(EggError::InvalidFunctionCall(_))) && final(scope).same_state(*old(scope)),
        },
{
    eval_expr(expr, scope, MAX_DEPTH)
}

/// [`evaluate`], with the remaining recursion depth made explicit.
pub fn eval_expr(expr: &Expression, scope: &mut Scope, fuel: u64) -> (res: EggResult<Value>)
    requires
        old(scope).wf(),
    ensures
        final(scope).wf(),
        evolves(*old(scope), *final(scope)),
        match expr {
            Expression::Value { value } => (res matches Ok(v) && v@ == value@) && final(scope).same_state(*old(scope)),
            Expression::Word { name } => (match old(scope).lookup(name@) {
                Some(v) => res matches Ok(r) && r@ == v,
                None => res matches Err(EggError::UndefinedBinding(n)) && n@ == name@,
            }) && final(scope).same_state(*old(scope)),
            Expression::FnCall { target: Callee::Script(name), .. } => (fuel >= 1 && !(old(scope).lookup(name@) matches Some(ValueV::Function(_)))) ==> (res matches Err(
                EggError::FunctionNotFound(n),
            ) && n@ == name@) && final(scope).same_state(*old(scope)),
            Expression::FnCall { target: Callee::Builtin(b), parameters } => (fuel >= 1 && (
            crate::operators::fixed_arity(*b) matches Some(k) && parameters@.len() != k)) ==> (res
                matches Err(EggError::InvalidFunctionCall(_))) && final(scope).same_state(*old(scope)),
        },
    decreases fuel, 4int,
{
    match expr {
        Expression::Value { value } => Ok(value.clone()),
        Expression::Word { name } => match scope.get(name) {
            Some(v) => Ok(v.clone()),
            None => Err(EggError::UndefinedBinding(name.clone())),
        },
        Expression::FnCall { target, parameters } => {
            if fuel == 0 {
                return Err(
                    EggError::OperatorComplaint(String::from_str("recursion depth exhausted")),
                );
            }
            match target {
                Callee::Builtin(b) => dispatch(*b, parameters, scope, fuel),
                Callee::Script(name) => match scope.get_function(name) {
                    Some(idx) => scope.call_function(idx, parameters, fuel),
                    None => Err(EggError::FunctionNotFound(name.clone())),
                },
            }
        },
    }
}

} // verus!
