//! Variable management: define, set, delete, existence and type tags.
//! A variable name may be given as a bare word or as a string literal.

use vstd::prelude::*;

use crate::error::{EggError, EggResult};
use crate::expression::{literal_of, Expression, Value, ValueV};
use crate::operators::eval_arg;
use crate::scope::{evolves, lemma_evolves_trans, lookup_in, owner_in, Scope};

use vstd::string::StringExecFns;

verus! {

/// The variable name an argument expression denotes: the name of a
/// bare word, or the text of a string literal.
pub open spec fn name_spec(e: Expression) -> Option<Seq<char>> {
    match e {
        Expression::Word { name } => Some(name@),
        Expression::Value { value: Value::String(s) } => Some(s@),
        _ => None,
    }
}

/// The variable name an argument expression denotes, if any.
fn name_of(e: &Expression) -> (res: Option<&String>)
    ensures
        match res {
            Some(s) => name_spec(*e) == Some(s@),
            None => name_spec(*e) is None,
        },
{
    match e {
        Expression::Word { name } => Some(name),
        Expression::Value { value: Value::String(s) } => Some(s),
        _ => None,
    }
}

/// The tag `typeof` hands out for a value.
pub open spec fn type_tag(v: ValueV) -> Seq<char> {
    match v {
        ValueV::Nil => "__CONSTANT__NIL"@,
        ValueV::Number(_) => "__TYPE__NUMBER"@,
        ValueV::Boolean(_) => "__TYPE__BOOLEAN"@,
        ValueV::Str(_) => "__TYPE__STRING"@,
        ValueV::Function(_) => "__TYPE__FUNCTION"@,
        ValueV::Object(_) => "__TYPE__OBJECT"@,
    }
}

/// The tag `typeof` hands out for a value.
pub fn type_tag_of(v: &Value) -> (res: String)
    ensures
        res@ == type_tag(v@),
{
    match v {
        Value::Nil => String::from_str("__CONSTANT__NIL"),
        Value::Number(_) => String::from_str("__TYPE__NUMBER"),
        Value::Boolean(_) => String::from_str("__TYPE__BOOLEAN"),
        Value::String(_) => String::from_str("__TYPE__STRING"),
        Value::Function(_) => String::from_str("__TYPE__FUNCTION"),
        Value::Object(_) => String::from_str("__TYPE__OBJECT"),
    }
}

/// `define(name, expr)`: binds `name` in the current frame; complains
/// if the current frame already binds it. Yields `Nil`.
pub struct Define;

impl Define {
    /// Demands a name and one expression for its value.
    pub fn evaluate(&self, args: &Vec<Expression>, scope: &mut Scope, fuel: u64) -> (res:
        EggResult<Value>)
        requires
            old(scope).wf(),
            fuel >= 1,
        ensures
            final(scope).wf(),
            evolves(*old(scope), *final(scope)),
            args@.len() != 2 ==> (res matches Err(EggError::InvalidFunctionCall(_))) && final(scope).same_state(*old(scope)),
            args@.len() == 2 && (name_spec(args@[0]) is None) ==> (res matches Err(
                EggError::OperatorComplaint(_),
            )) && final(scope).same_state(*old(scope)),
            res matches Ok(v) ==> v@ is Nil,
            args@.len() == 2 ==> match (name_spec(args@[0]), literal_of(args@[1])) {
                (Some(n), Some(v)) => if old(scope).frames_view().last().contains_key(n) {
                    (res matches Err(EggError::OperatorComplaint(_))) && final(scope).same_state(*old(scope))
                } else {
                    (res matches Ok(r) && r@ is Nil) && final(scope).frames_view() == old(
                        scope,
                    ).frames_view().update(
                        old(scope).frames_view().len() - 1,
                        old(scope).frames_view().last().insert(n, v@),
                    ) && final(scope).same_extras(*old(scope))
                },
                _ => true,
            },
        decreases fuel, 1int,
    {
        if args.len() != 2 {
            return Err(EggError::InvalidFunctionCall(String::from_str("expected 2 arguments")));
        }
        let name = match name_of(&args[0]) {
            Some(n) => n.clone(),
            None => {
                return Err(
                    EggError::OperatorComplaint(
                        String::from_str("only words and strings can name variables"),
                    ),
                );
            },
        };
        let ghost s0 = *scope;
        let value = match eval_arg(&args[1], scope, fuel) {
            Ok(v) => v,
            Err(e) => return Err(e),
        };
        let ghost s1 = *scope;
        match scope.insert(name, value) {
            Ok(_) => {
                proof {
                    lemma_evolves_trans(s0, s1, *scope);
                }
                Ok(Value::Nil)
            },
            Err(e) => {
                proof {
                    lemma_evolves_trans(s0, s1, *scope);
                }
                Err(e)
            },
        }
    }
}

/// `set(name, expr)`: replaces the binding of `name` in the topmost
/// frame that has one, and yields the previous value; complains of an
/// undefined name. The struct bears the name `Mutate` because `Set`
/// would collide with a word of the verifier's prelude.
pub struct Mutate;

impl Mutate {
    /// Demands a name and one expression for its new value.
    pub fn evaluate(&self, args: &Vec<Expression>, scope: &mut Scope, fuel: u64) -> (res:
        EggResult<Value>)
        requires
            old(scope).wf(),
            fuel >= 1,
        ensures
            final(scope).wf(),
            evolves(*old(scope), *final(scope)),
            args@.len() != 2 ==> (res matches Err(EggError::InvalidFunctionCall(_))) && final(scope).same_state(*old(scope)),
            args@.len() == 2 && (name_spec(args@[0]) is None) ==> (res matches Err(
                EggError::OperatorComplaint(_),
            )) && final(scope).same_state(*old(scope)),
            args@.len() == 2 ==> match (name_spec(args@[0]), literal_of(args@[1])) {
                (Some(n), Some(v)) => match lookup_in(old(scope).frames_view(), n) {
                    Some(prev) => (res matches Ok(p) && p@ == prev) && final(scope).frames_view()
                        == old(scope).frames_view().update(
                        owner_in(old(scope).frames_view(), n),
                        old(scope).frames_view()[owner_in(old(scope).frames_view(), n)].insert(
                            n,
                            v@,
                        ),
                    ) && final(scope).same_extras(*old(scope)) && final(scope).lookup(n) == Some(
                        v@,
                    ),
                    None => (res matches Err(EggError::UndefinedBinding(m)) && m@ == n) && final(scope).same_state(*old(scope)),
                },
                _ => true,
            },
        decreases fuel, 1int,
    {
        if args.len() != 2 {
            return Err(EggError::InvalidFunctionCall(String::from_str("expected 2 arguments")));
        }
        let name = match name_of(&args[0]) {
            Some(n) => n.clone(),
            None => {
                return Err(
                    EggError::OperatorComplaint(
                        String::from_str("only words and strings can name variables"),
                    ),
                );
            },
        };
        let ghost s0 = *scope;
        let value = match eval_arg(&args[1], scope, fuel) {
            Ok(v) => v,
            Err(e) => return Err(e),
        };
        let ghost s1 = *scope;
        match scope.update(&name, value) {
            Ok(prev) => {
                proof {
                    lemma_evolves_trans(s0, s1, *scope);
                }
                Ok(prev)
            },
            Err(e) => {
                proof {
                    lemma_evolves_trans(s0, s1, *scope);
                }
                Err(e)
            },
        }
    }
}

/// `delete(name)`: unbinds `name` from the topmost frame that binds
/// it, cascading to the function or object it references; yields the
/// removed value, or `Nil` when nothing was bound.
pub struct Delete;

impl Delete {
    /// Demands exactly one name.
    pub fn evaluate(&self, args: &Vec<Expression>, scope: &mut Scope, fuel: u64) -> (res:
        EggResult<Value>)
        requires
            old(scope).wf(),
            fuel >= 1,
        ensures
            final(scope).wf(),
            evolves(*old(scope), *final(scope)),
            args@.len() != 1 ==> (res matches Err(EggError::InvalidFunctionCall(_))) && final(scope).same_state(*old(scope)),
            args@.len() == 1 && (name_spec(args@[0]) is None) ==> (res matches Err(
                EggError::OperatorComplaint(_),
            )) && final(scope).same_state(*old(scope)),
            args@.len() == 1 ==> match name_spec(args@[0]) {
                Some(n) => match res {
                    Ok(v) => match old(scope).lookup(n) {
                        Some(w) => v@ == w,
                        None => v@ is Nil,
                    },
                    Err(_) => false,
                },
                None => true,
            },
        decreases fuel, 1int,
    {
        if args.len() != 1 {
            return Err(EggError::InvalidFunctionCall(String::from_str("expected 1 argument")));
        }
        let name = match name_of(&args[0]) {
            Some(n) => n.clone(),
            None => {
                return Err(
                    EggError::OperatorComplaint(
                        String::from_str("only words and strings can name variables"),
                    ),
                );
            },
        };
        match scope.delete(&name) {
            Some(v) => Ok(v),
            None => Ok(Value::Nil),
        }
    }
}

/// `exists(name)`: whether `name` is bound anywhere in the chain.
/// Asking never changes any state.
pub struct Exists;

impl Exists {
    /// Demands exactly one name; the scope and every table are left
    /// exactly as they were.
    pub fn evaluate(&self, args: &Vec<Expression>, scope: &mut Scope, fuel: u64) -> (res:
        EggResult<Value>)
        requires
            old(scope).wf(),
            fuel >= 1,
        ensures
            final(scope).wf(),
            evolves(*old(scope), *final(scope)),
            final(scope).same_state(*old(scope)),
            args@.len() != 1 ==> (res matches Err(EggError::InvalidFunctionCall(_))),
            args@.len() == 1 && (name_spec(args@[0]) is None) ==> (res matches Err(
                EggError::OperatorComplaint(_),
            )),
            args@.len() == 1 ==> match name_spec(args@[0]) {
                Some(n) => res matches Ok(v) && v@ == ValueV::Boolean(
                    old(scope).lookup(n) is Some,
                ),
                None => true,
            },
        decreases fuel, 1int,
    {
        if args.len() != 1 {
            return Err(EggError::InvalidFunctionCall(String::from_str("expected 1 argument")));
        }
        let name = match name_of(&args[0]) {
            Some(n) => n,
            None => {
                return Err(
                    EggError::OperatorComplaint(
                        String::from_str("only words and strings can name variables"),
                    ),
                );
            },
        };
        Ok(Value::Boolean(scope.exists_binding(name)))
    }
}

/// `typeof(expr)`: the tag naming the kind of the argument's value.
pub struct TypeOf;

impl TypeOf {
    /// Demands exactly one argument, of any kind.
    pub fn evaluate(&self, args: &Vec<Expression>, scope: &mut Scope, fuel: u64) -> (res:
        EggResult<Value>)
        requires
            old(scope).wf(),
            fuel >= 1,
        ensures
            final(scope).wf(),
            evolves(*old(scope), *final(scope)),
            args@.len() != 1 ==> (res matches Err(EggError::InvalidFunctionCall(_))) && final(scope).same_state(*old(scope)),
            res matches Ok(v) ==> v@ is Str,
            args@.len() == 1 ==> match args@[0] {
                Expression::Value { value } => res matches Ok(v) && v@ == ValueV::Str(
                    type_tag(value@),
                ),
                _ => true,
            },
        decreases fuel, 1int,
    {
        if args.len() != 1 {
            return Err(EggError::InvalidFunctionCall(String::from_str("expected 1 argument")));
        }
        let v = match eval_arg(&args[0], scope, fuel) {
            Ok(v) => v,
            Err(e) => return Err(e),
        };
        Ok(Value::String(type_tag_of(&v)))
    }
}

} // verus!
