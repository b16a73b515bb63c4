//! Operators over the index-tagged objects of the global store.

use vstd::prelude::*;

use crate::error::{EggError, EggResult};
use crate::expression::{literal_of, Expression, Value, ValueV};
use crate::operators::eval_arg;
use crate::scope::{evolves, lemma_evolves_trans, Scope};

use vstd::string::StringExecFns;

verus! {

/// `object.new()`: creates a fresh, empty object and yields the value
/// referencing it.
pub struct CreateObject;

impl CreateObject {
    /// Ignores its arguments.
    pub fn evaluate(&self, args: &Vec<Expression>, scope: &mut Scope, fuel: u64) -> (res:
        EggResult<Value>)
        requires
            old(scope).wf(),
            fuel >= 1,
        ensures
            final(scope).wf(),
            evolves(*old(scope), *final(scope)),
            res matches Ok(v) ==> v@ is Object,
            old(scope).counter() < usize::MAX ==> (res matches Ok(v) && v@ == ValueV::Object(
                (old(scope).counter() + 1) as nat,
            )) && !old(scope).objects().contains_key((old(scope).counter() + 1) as usize)
                && final(scope).objects() == old(scope).objects().insert(
                (old(scope).counter() + 1) as usize,
                Map::<ValueV, ValueV>::empty(),
            ) && final(scope).same_but_object_table(*old(scope)) && final(scope).counter() == old(scope).counter() + 1,
        decreases fuel, 1int,
    {
        scope.create_object()
    }
}

/// `object.insert(ref, key, value)`: stores `value` under the
/// primitive `key` in the referenced object; yields the value it
/// replaces, or `Nil`.
pub struct Insert;

impl Insert {
    /// Demands a reference, a primitive key and a value.
    pub fn evaluate(&self, args: &Vec<Expression>, scope: &mut Scope, fuel: u64) -> (res:
        EggResult<Value>)
        requires
            old(scope).wf(),
            fuel >= 1,
        ensures
            final(scope).wf(),
            evolves(*old(scope), *final(scope)),
            args@.len() != 3 ==> (res matches Err(EggError::InvalidFunctionCall(_))) && final(scope).same_state(*old(scope)),
            args@.len() == 3 ==> match (
                literal_of(args@[0]),
                literal_of(args@[1]),
                literal_of(args@[2]),
            ) {
                (Some(t), Some(k), Some(v)) => if !k@.is_primitive() {
                    (res matches Err(EggError::InvalidObjectKey(p)) && p@ == k@) && final(scope).same_state(*old(scope))
                } else {
                    match t {
                        Value::Object(i) => if old(scope).objects().contains_key(i) {
                            final(scope).objects() == old(scope).objects().insert(
                                i,
                                old(scope).objects()[i].insert(k@, v@),
                            ) && final(scope).same_but_object_table(*old(scope)) && final(scope).counter() == old(scope).counter() && (res matches Ok(p) && p@ == (
                            if old(scope).objects()[i].contains_key(k@) {
                                old(scope).objects()[i][k@]
                            } else {
                                ValueV::Nil
                            }))
                        } else {
                            (res matches Err(EggError::InvalidObjectReference(w)) && w@ == t@)
                                && final(scope).same_state(*old(scope))
                        },
                        _ => (res matches Err(EggError::InvalidObjectReference(w)) && w@ == t@)
                            && final(scope).same_state(*old(scope)),
                    }
                },
                _ => true,
            },
        decreases fuel, 1int,
    {
        if args.len() != 3 {
            return Err(EggError::InvalidFunctionCall(String::from_str("expected 3 arguments")));
        }
        let ghost s0 = *scope;
        let tag = match eval_arg(&args[0], scope, fuel) {
            Ok(v) => v,
            Err(e) => return Err(e),
        };
        let ghost s1 = *scope;
        let key = match eval_arg(&args[1], scope, fuel) {
            Ok(v) => v,
            Err(e) => {
                proof {
                    lemma_evolves_trans(s0, s1, *scope);
                }
                return Err(e);
            },
        };
        proof {
            lemma_evolves_trans(s0, s1, *scope);
        }
        if !key.is_primitive() {
            return Err(EggError::InvalidObjectKey(key));
        }
        let ghost s2 = *scope;
        let value = match eval_arg(&args[2], scope, fuel) {
            Ok(v) => v,
            Err(e) => {
                proof {
                    lemma_evolves_trans(s0, s2, *scope);
                }
                return Err(e);
            },
        };
        proof {
            lemma_evolves_trans(s0, s2, *scope);
        }
        let idx = match scope.get_object_tag(&tag) {
            Ok(i) => i,
            Err(e) => return Err(e),
        };
        let prev = scope.object_insert(idx, key, value);
        match prev {
            Some(p) => Ok(p),
            None => Ok(Value::Nil),
        }
    }
}

/// `object.get(ref, key)`: the value under `key` in the referenced
/// object, or `Nil` when the key is absent.
pub struct Get;

impl Get {
    /// Demands a reference and a key.
    pub fn evaluate(&self, args: &Vec<Expression>, scope: &mut Scope, fuel: u64) -> (res:
        EggResult<Value>)
        requires
            old(scope).wf(),
            fuel >= 1,
        ensures
            final(scope).wf(),
            evolves(*old(scope), *final(scope)),
            args@.len() != 2 ==> (res matches Err(EggError::InvalidFunctionCall(_))) && final(scope).same_state(*old(scope)),
            args@.len() == 2 ==> match (literal_of(args@[0]), literal_of(args@[1])) {
                (Some(t), Some(k)) => final(scope).same_state(*old(scope)) && match t {
                    Value::Object(i) => if old(scope).objects().contains_key(i) {
                        res matches Ok(v) && v@ == (if old(scope).objects()[i].contains_key(k@) {
                            old(scope).objects()[i][k@]
                        } else {
                            ValueV::Nil
                        })
                    } else {
                        res matches Err(EggError::InvalidObjectReference(_))
                    },
                    _ => res matches Err(EggError::InvalidObjectReference(_)),
                },
                _ => true,
            },
        decreases fuel, 1int,
    {
        if args.len() != 2 {
            return Err(EggError::InvalidFunctionCall(String::from_str("expected 2 arguments")));
        }
        let ghost s0 = *scope;
        let tag = match eval_arg(&args[0], scope, fuel) {
            Ok(v) => v,
            Err(e) => return Err(e),
        };
        let ghost s1 = *scope;
        let key = match eval_arg(&args[1], scope, fuel) {
            Ok(v) => v,
            Err(e) => {
                proof {
                    lemma_evolves_trans(s0, s1, *scope);
                }
                return Err(e);
            },
        };
        proof {
            lemma_evolves_trans(s0, s1, *scope);
        }
        let idx = match scope.get_object_tag(&tag) {
            Ok(i) => i,
            Err(e) => return Err(e),
        };
        match scope.get_object(idx) {
            Some(table) => match table.get(&key) {
                Some(v) => Ok(v.clone()),
                None => Ok(Value::Nil),
            },
            None => Err(EggError::InvalidObjectReference(tag)),
        }
    }
}

/// `object.has(ref, key)`: whether the referenced object holds `key`.
/// Asking never mutates the object; when the arguments are themselves
/// literals or words, asking changes no state at all.
pub struct Has;

impl Has {
    /// Demands a reference and a key.
    pub fn evaluate(&self, args: &Vec<Expression>, scope: &mut Scope, fuel: u64) -> (res:
        EggResult<Value>)
        requires
            old(scope).wf(),
            fuel >= 1,
        ensures
            final(scope).wf(),
            evolves(*old(scope), *final(scope)),
            args@.len() != 2 ==> (res matches Err(EggError::InvalidFunctionCall(_))) && final(scope).same_state(*old(scope)),
            args@.len() == 2 && !(args@[0] is FnCall) && !(args@[1] is FnCall) ==> final(scope).same_state(*old(scope)),
            res matches Ok(v) ==> v@ is Boolean,
            args@.len() == 2 ==> match (literal_of(args@[0]), literal_of(args@[1])) {
                (Some(t), Some(k)) => match t {
                    Value::Object(i) => if old(scope).objects().contains_key(i) {
                        res matches Ok(v) && v@ == ValueV::Boolean(
                            old(scope).objects()[i].contains_key(k@),
                        )
                    } else {
                        res matches Err(EggError::InvalidObjectReference(_))
                    },
                    _ => res matches Err(EggError::InvalidObjectReference(_)),
                },
                _ => true,
            },
        decreases fuel, 1int,
    {
        if args.len() != 2 {
            return Err(EggError::InvalidFunctionCall(String::from_str("expected 2 arguments")));
        }
        let ghost s0 = *scope;
        let tag = match eval_arg(&args[0], scope, fuel) {
            Ok(v) => v,
            Err(e) => return Err(e),
        };
        let ghost s1 = *scope;
        let key = match eval_arg(&args[1], scope, fuel) {
            Ok(v) => v,
            Err(e) => {
                proof {
                    lemma_evolves_trans(s0, s1, *scope);
                }
                return Err(e);
            },
        };
        proof {
            lemma_evolves_trans(s0, s1, *scope);
        }
        let idx = match scope.get_object_tag(&tag) {
            Ok(i) => i,
            Err(e) => return Err(e),
        };
        match scope.get_object(idx) {
            Some(table) => Ok(Value::Boolean(table.contains(&key))),
            None => Err(EggError::InvalidObjectReference(tag)),
        }
    }
}

/// `object.remove(ref, key)`: removes `key` from the referenced
/// object; yields the value it carried, or `Nil`.
pub struct Remove;

impl Remove {
    /// Demands a reference and a key.
    pub fn evaluate(&self, args: &Vec<Expression>, scope: &mut Scope, fuel: u64) -> (res:
        EggResult<Value>)
        requires
            old(scope).wf(),
            fuel >= 1,
        ensures
            final(scope).wf(),
            evolves(*old(scope), *final(scope)),
            args@.len() != 2 ==> (res matches Err(EggError::InvalidFunctionCall(_))) && final(scope).same_state(*old(scope)),
            args@.len() == 2 ==> match (literal_of(args@[0]), literal_of(args@[1])) {
                (Some(t), Some(k)) => match t {
                    Value::Object(i) => if old(scope).objects().contains_key(i) {
                        final(scope).objects() == old(scope).objects().insert(
                            i,
                            old(scope).objects()[i].remove(k@),
                        ) && final(scope).same_but_object_table(*old(scope)) && final(scope).counter() == old(scope).counter() && (res matches Ok(p) && p@ == (
                        if old(scope).objects()[i].contains_key(k@) {
                            old(scope).objects()[i][k@]
                        } else {
                            ValueV::Nil
                        }))
                    } else {
                        (res matches Err(EggError::InvalidObjectReference(_))) && final(scope).same_state(*old(scope))
                    },
                    _ => (res matches Err(EggError::InvalidObjectReference(_))) && final(scope).same_state(*old(scope)),
                },
                _ => true,
            },
        decreases fuel, 1int,
    {
        if args.len() != 2 {
            return Err(EggError::InvalidFunctionCall(String::from_str("expected 2 arguments")));
        }
        let ghost s0 = *scope;
        let tag = match eval_arg(&args[0], scope, fuel) {
            Ok(v) => v,
            Err(e) => return Err(e),
        };
        let ghost s1 = *scope;
        let key = match eval_arg(&args[1], scope, fuel) {
            Ok(v) => v,
            Err(e) => {
                proof {
                    lemma_evolves_trans(s0, s1, *scope);
                }
                return Err(e);
            },
        };
        proof {
            lemma_evolves_trans(s0, s1, *scope);
        }
        let idx = match scope.get_object_tag(&tag) {
            Ok(i) => i,
            Err(e) => return Err(e),
        };
        match scope.object_remove(idx, &key) {
            Some(p) => Ok(p),
            None => Ok(Value::Nil),
        }
    }
}

/// `object.size(ref)`: how many keys the referenced object holds.
pub struct Size;

impl Size {
    /// Demands exactly one argument, an object reference.
    pub fn evaluate(&self, args: &Vec<Expression>, scope: &mut Scope, fuel: u64) -> (res:
        EggResult<Value>)
        requires
            old(scope).wf(),
            fuel >= 1,
        ensures
            final(scope).wf(),
            evolves(*old(scope), *final(scope)),
            args@.len() != 1 ==> (res matches Err(EggError::InvalidFunctionCall(_))) && final(scope).same_state(*old(scope)),
            res matches Ok(v) ==> v@ is Number,
            args@.len() == 1 ==> match literal_of(args@[0]) {
                Some(t) => final(scope).same_state(*old(scope)) && match t {
                    Value::Object(i) => if old(scope).objects().contains_key(i) {
                        if old(scope).objects()[i].len() <= i64::MAX {
                            res matches Ok(v) && v@ == ValueV::Number(
                                old(scope).objects()[i].len() as int,
                            )
                        } else {
                            res matches Err(EggError::OperatorComplaint(_))
                        }
                    } else {
                        res matches Err(EggError::InvalidObjectReference(_))
                    },
                    _ => res matches Err(EggError::InvalidObjectReference(_)),
                },
                None => true,
            },
        decreases fuel, 1int,
    {
        if args.len() != 1 {
            return Err(EggError::InvalidFunctionCall(String::from_str("expected 1 argument")));
        }
        let tag = match eval_arg(&args[0], scope, fuel) {
            Ok(v) => v,
            Err(e) => return Err(e),
        };
        let idx = match scope.get_object_tag(&tag) {
            Ok(i) => i,
            Err(e) => return Err(e),
        };
        match scope.get_object(idx) {
            Some(table) => {
                let n = table.size();
                if n as u64 > 9223372036854775807u64 {
                    Err(EggError::OperatorComplaint(String::from_str("object too large")))
                } else {
                    Ok(Value::Number(n as i64))
                }
            },
            None => Err(EggError::InvalidObjectReference(tag)),
        }
    }
}

/// `object.clear(ref)`: empties the referenced object; yields `Nil`.
pub struct Clear;

impl Clear {
    /// Demands exactly one argument, an object reference.
    pub fn evaluate(&self, args: &Vec<Expression>, scope: &mut Scope, fuel: u64) -> (res:
        EggResult<Value>)
        requires
            old(scope).wf(),
            fuel >= 1,
        ensures
            final(scope).wf(),
            evolves(*old(scope), *final(scope)),
            args@.len() != 1 ==> (res matches Err(EggError::InvalidFunctionCall(_))) && final(scope).same_state(*old(scope)),
            res matches Ok(v) ==> v@ is Nil,
            args@.len() == 1 ==> match literal_of(args@[0]) {
                Some(t) => match t {
                    Value::Object(i) => if old(scope).objects().contains_key(i) {
                        (res matches Ok(v) && v@ is Nil) && final(scope).objects() == old(scope).objects().insert(i, Map::<ValueV, ValueV>::empty()) && final(scope).same_but_object_table(*old(scope)) && final(scope).counter() == old(scope).counter()
                    } else {
                        (res matches Err(EggError::InvalidObjectReference(_))) && final(scope).same_state(*old(scope))
                    },
                    _ => (res matches Err(EggError::InvalidObjectReference(_))) && final(scope).same_state(*old(scope)),
                },
                None => true,
            },
        decreases fuel, 1int,
    {
        if args.len() != 1 {
            return Err(EggError::InvalidFunctionCall(String::from_str("expected 1 argument")));
        }
        let tag = match eval_arg(&args[0], scope, fuel) {
            Ok(v) => v,
            Err(e) => return Err(e),
        };
        let idx = match scope.get_object_tag(&tag) {
            Ok(i) => i,
            Err(e) => return Err(e),
        };
        scope.object_clear(idx);
        Ok(Value::Nil)
    }
}

/// `object.print(ref)`: renders the referenced object entry by entry
/// to the console; yields `Nil`.
pub struct PrintObject;

impl PrintObject {
    /// Demands exactly one argument, an object reference.
    pub fn evaluate(&self, args: &Vec<Expression>, scope: &mut Scope, fuel: u64) -> (res:
        EggResult<Value>)
        requires
            old(scope).wf(),
            fuel >= 1,
        ensures
            final(scope).wf(),
            evolves(*old(scope), *final(scope)),
            args@.len() != 1 ==> (res matches Err(EggError::InvalidFunctionCall(_))) && final(scope).same_state(*old(scope)),
            res matches Ok(v) ==> v@ is Nil,
            args@.len() == 1 ==> match literal_of(args@[0]) {
                Some(t) => final(scope).same_state(*old(scope)) && match t {
                    Value::Object(i) => if old(scope).objects().contains_key(i) {
                        res matches Ok(v) && v@ is Nil
                    } else {
                        res matches Err(EggError::InvalidObjectReference(_))
                    },
                    _ => res matches Err(EggError::InvalidObjectReference(_)),
                },
                None => true,
            },
        decreases fuel, 1int,
    {
        if args.len() != 1 {
            return Err(EggError::InvalidFunctionCall(String::from_str("expected 1 argument")));
        }
        let tag = match eval_arg(&args[0], scope, fuel) {
            Ok(v) => v,
            Err(e) => return Err(e),
        };
        let idx = match scope.get_object_tag(&tag) {
            Ok(i) => i,
            Err(e) => return Err(e),
        };
        match scope.get_object(idx) {
            Some(table) => {
                let rendered = crate::scope::maps::render_table(table);
                crate::operators::console::console_write(rendered.as_str());
                crate::operators::console::console_write("\n");
                Ok(Value::Nil)
            },
            None => Err(EggError::InvalidObjectReference(tag)),
        }
    }
}

} // verus!
