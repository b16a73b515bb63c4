//! Operators over the string-tagged maps of the global store.

use vstd::prelude::*;

use crate::error::{EggError, EggResult};
use crate::expression::{literal_of, Expression, Value, ValueV};
use crate::operators::eval_arg;
use crate::render::render_value;
use crate::scope::{evolves, lemma_evolves_trans, Scope};

use vstd::string::StringExecFns;

verus! {

/// `new_map(tag)`: creates an empty map under the string `tag` and
/// yields the tag.
pub struct NewMap;

impl NewMap {
    /// Demands exactly one argument, a fresh string tag.
    pub fn evaluate(&self, args: &Vec<Expression>, scope: &mut Scope, fuel: u64) -> (res:
        EggResult<Value>)
        requires
            old(scope).wf(),
            fuel >= 1,
        ensures
            final(scope).wf(),
            evolves(*old(scope), *final(scope)),
            args@.len() != 1 ==> (res matches Err(EggError::InvalidFunctionCall(_))) && final(scope).same_state(*old(scope)),
            res matches Ok(v) ==> v@ is Str,
            args@.len() == 1 ==> match literal_of(args@[0]) {
                Some(Value::String(t)) => if old(scope).tag_maps().contains_key(t@) {
                    (res matches Err(EggError::InvalidMapTag(_, _))) && final(scope).same_state(*old(scope))
                } else {
                    (res matches Ok(v) && v@ == ValueV::Str(t@)) && final(scope).tag_maps()
                        == old(scope).tag_maps().insert(t@, Map::<ValueV, ValueV>::empty())
                        && final(scope).same_but_tag_maps(*old(scope))
                },
                Some(_) => (res matches Err(EggError::InvalidMapTag(_, _))) && final(scope).same_state(*old(scope)),
                None => true,
            },
        decreases fuel, 1int,
    {
        if args.len() != 1 {
            return Err(EggError::InvalidFunctionCall(String::from_str("expected 1 argument")));
        }
        let ghost s0 = *scope;
        let tag = match eval_arg(&args[0], scope, fuel) {
            Ok(v) => v,
            Err(e) => return Err(e),
        };
        let ghost s1 = *scope;
        let res = match scope.new_map(tag) {
            Ok(s) => Ok(Value::String(s)),
            Err(e) => Err(e),
        };
        proof {
            lemma_evolves_trans(s0, s1, *scope);
        }
        res
    }
}

/// `exists_map(tag)`: whether a map is live under the string `tag`.
pub struct ExistsMap;

impl ExistsMap {
    /// Demands exactly one argument, a string tag.
    pub fn evaluate(&self, args: &Vec<Expression>, scope: &mut Scope, fuel: u64) -> (res:
        EggResult<Value>)
        requires
            old(scope).wf(),
            fuel >= 1,
        ensures
            final(scope).wf(),
            evolves(*old(scope), *final(scope)),
            args@.len() != 1 ==> (res matches Err(EggError::InvalidFunctionCall(_))) && final(scope).same_state(*old(scope)),
            res matches Ok(v) ==> v@ is Boolean,
            args@.len() == 1 ==> match literal_of(args@[0]) {
                Some(Value::String(t)) => (res matches Ok(v) && v@ == ValueV::Boolean(
                    old(scope).tag_maps().contains_key(t@),
                )) && final(scope).same_state(*old(scope)),
                Some(_) => (res matches Err(EggError::InvalidMapTag(_, _))) && final(scope).same_state(*old(scope)),
                None => true,
            },
        decreases fuel, 1int,
    {
        if args.len() != 1 {
            return Err(EggError::InvalidFunctionCall(String::from_str("expected 1 argument")));
        }
        let tag = match eval_arg(&args[0], scope, fuel) {
            Ok(v) => v,
            Err(e) => return Err(e),
        };
        match scope.contains_map(&tag) {
            Ok(b) => Ok(Value::Boolean(b)),
            Err(e) => Err(e),
        }
    }
}

/// `delete_map(tag)`: removes the map under the string `tag`; yields
/// whether one was live.
pub struct DeleteMap;

impl DeleteMap {
    /// Demands exactly one argument, a string tag.
    pub fn evaluate(&self, args: &Vec<Expression>, scope: &mut Scope, fuel: u64) -> (res:
        EggResult<Value>)
        requires
            old(scope).wf(),
            fuel >= 1,
        ensures
            final(scope).wf(),
            evolves(*old(scope), *final(scope)),
            args@.len() != 1 ==> (res matches Err(EggError::InvalidFunctionCall(_))) && final(scope).same_state(*old(scope)),
            res matches Ok(v) ==> v@ is Boolean,
            args@.len() == 1 ==> match literal_of(args@[0]) {
                Some(Value::String(t)) => (res matches Ok(v) && v@ == ValueV::Boolean(
                    old(scope).tag_maps().contains_key(t@),
                )) && final(scope).tag_maps() =~= old(scope).tag_maps().remove(t@) && final(scope).same_but_tag_maps(*old(scope)),
                Some(_) => (res matches Err(EggError::InvalidMapTag(_, _))) && final(scope).same_state(*old(scope)),
                None => true,
            },
        decreases fuel, 1int,
    {
        if args.len() != 1 {
            return Err(EggError::InvalidFunctionCall(String::from_str("expected 1 argument")));
        }
        let ghost s0 = *scope;
        let tag = match eval_arg(&args[0], scope, fuel) {
            Ok(v) => v,
            Err(e) => return Err(e),
        };
        let ghost s1 = *scope;
        let res = match scope.delete_map(tag) {
            Ok(b) => Ok(Value::Boolean(b)),
            Err(e) => Err(e),
        };
        proof {
            lemma_evolves_trans(s0, s1, *scope);
        }
        res
    }
}

/// `map_insert(tag, key, value)`: stores `value` under the primitive
/// `key` in the live map `tag`; yields the value it replaces, or
/// `Nil`.
pub struct Insert;

impl Insert {
    /// Demands a tag, a primitive key and a value.
    pub fn evaluate(&self, args: &Vec<Expression>, scope: &mut Scope, fuel: u64) -> (res:
        EggResult<Value>)
        requires
            old(scope).wf(),
            fuel >= 1,
        ensures
            final(scope).wf(),
            evolves(*old(scope), *final(scope)),
            args@.len() != 3 ==> (res matches Err(EggError::InvalidFunctionCall(_))) && final(scope).same_state(*old(scope)),
            args@.len() == 3 ==> match (
                literal_of(args@[0]),
                literal_of(args@[1]),
                literal_of(args@[2]),
            ) {
                (Some(t), Some(k), Some(v)) => if !k@.is_primitive() {
                    (res matches Err(EggError::InvalidObjectKey(p)) && p@ == k@) && final(scope).same_state(*old(scope))
                } else {
                    match t {
                        Value::String(ts) => if old(scope).tag_maps().contains_key(ts@) {
                            final(scope).tag_maps() == old(scope).tag_maps().insert(
                                ts@,
                                old(scope).tag_maps()[ts@].insert(k@, v@),
                            ) && final(scope).same_but_tag_maps(*old(scope)) && (res matches Ok(p)
                                && p@ == (if old(scope).tag_maps()[ts@].contains_key(k@) {
                                old(scope).tag_maps()[ts@][k@]
                            } else {
                                ValueV::Nil
                            }))
                        } else {
                            (res matches Err(EggError::MapNotFound(_))) && final(scope).same_state(*old(scope))
                        },
                        _ => (res matches Err(EggError::InvalidMapTag(_, _))) && final(scope).same_state(*old(scope)),
                    }
                },
                _ => true,
            },
        decreases fuel, 1int,
    {
        if args.len() != 3 {
            return Err(EggError::InvalidFunctionCall(String::from_str("expected 3 arguments")));
        }
        let ghost s0 = *scope;
        let tag = match eval_arg(&args[0], scope, fuel) {
            Ok(v) => v,
            Err(e) => return Err(e),
        };
        let ghost s1 = *scope;
        let key = match eval_arg(&args[1], scope, fuel) {
            Ok(v) => v,
            Err(e) => {
                proof {
                    lemma_evolves_trans(s0, s1, *scope);
                }
                return Err(e);
            },
        };
        proof {
            lemma_evolves_trans(s0, s1, *scope);
        }
        if !key.is_primitive() {
            return Err(EggError::InvalidObjectKey(key));
        }
        let ghost s2 = *scope;
        let value = match eval_arg(&args[2], scope, fuel) {
            Ok(v) => v,
            Err(e) => {
                proof {
                    lemma_evolves_trans(s0, s2, *scope);
                }
                return Err(e);
            },
        };
        proof {
            lemma_evolves_trans(s0, s2, *scope);
        }
        let ghost s3 = *scope;
        let res = match scope.map_insert(tag, key, value) {
            Ok(Some(prev)) => Ok(prev),
            Ok(None) => Ok(Value::Nil),
            Err(e) => Err(e),
        };
        proof {
            lemma_evolves_trans(s0, s3, *scope);
        }
        res
    }
}

/// `map_get(tag, key)`: the value under `key` in the live map `tag`,
/// or `Nil` when the key is absent.
pub struct Get;

impl Get {
    /// Demands a tag and a key.
    pub fn evaluate(&self, args: &Vec<Expression>, scope: &mut Scope, fuel: u64) -> (res:
        EggResult<Value>)
        requires
            old(scope).wf(),
            fuel >= 1,
        ensures
            final(scope).wf(),
            evolves(*old(scope), *final(scope)),
            args@.len() != 2 ==> (res matches Err(EggError::InvalidFunctionCall(_))) && final(scope).same_state(*old(scope)),
            args@.len() == 2 ==> match (literal_of(args@[0]), literal_of(args@[1])) {
                (Some(t), Some(k)) => final(scope).same_state(*old(scope)) && match t {
                    Value::String(ts) => if old(scope).tag_maps().contains_key(ts@) {
                        res matches Ok(v) && v@ == (if old(scope).tag_maps()[ts@].contains_key(
                            k@,
                        ) {
                            old(scope).tag_maps()[ts@][k@]
                        } else {
                            ValueV::Nil
                        })
                    } else {
                        res matches Err(EggError::MapNotFound(_))
                    },
                    _ => res matches Err(EggError::InvalidMapTag(_, _)),
                },
                _ => true,
            },
        decreases fuel, 1int,
    {
        if args.len() != 2 {
            return Err(EggError::InvalidFunctionCall(String::from_str("expected 2 arguments")));
        }
        let ghost s0 = *scope;
        let tag = match eval_arg(&args[0], scope, fuel) {
            Ok(v) => v,
            Err(e) => return Err(e),
        };
        let ghost s1 = *scope;
        let key = match eval_arg(&args[1], scope, fuel) {
            Ok(v) => v,
            Err(e) => {
                proof {
                    lemma_evolves_trans(s0, s1, *scope);
                }
                return Err(e);
            },
        };
        proof {
            lemma_evolves_trans(s0, s1, *scope);
        }
        scope.map_get(&tag, &key)
    }
}

/// `map_has(tag, key)`: whether the live map `tag` holds `key`.
/// Asking never mutates the map; when the arguments are themselves
/// literals or words, asking changes no state at all.
pub struct Has;

impl Has {
    /// Demands a tag and a key.
    pub fn evaluate(&self, args: &Vec<Expression>, scope: &mut Scope, fuel: u64) -> (res:
        EggResult<Value>)
        requires
            old(scope).wf(),
            fuel >= 1,
        ensures
            final(scope).wf(),
            evolves(*old(scope), *final(scope)),
            args@.len() != 2 ==> (res matches Err(EggError::InvalidFunctionCall(_))) && final(scope).same_state(*old(scope)),
            args@.len() == 2 && !(args@[0] is FnCall) && !(args@[1] is FnCall) ==> final(scope).same_state(*old(scope)),
            res matches Ok(v) ==> v@ is Boolean,
            args@.len() == 2 ==> match (literal_of(args@[0]), literal_of(args@[1])) {
                (Some(t), Some(k)) => match t {
                    Value::String(ts) => if old(scope).tag_maps().contains_key(ts@) {
                        res matches Ok(v) && v@ == ValueV::Boolean(
                            old(scope).tag_maps()[ts@].contains_key(k@),
                        )
                    } else {
                        res matches Err(EggError::MapNotFound(_))
                    },
                    _ => res matches Err(EggError::InvalidMapTag(_, _)),
                },
                _ => true,
            },
        decreases fuel, 1int,
    {
        if args.len() != 2 {
            return Err(EggError::InvalidFunctionCall(String::from_str("expected 2 arguments")));
        }
        let ghost s0 = *scope;
        let tag = match eval_arg(&args[0], scope, fuel) {
            Ok(v) => v,
            Err(e) => return Err(e),
        };
        let ghost s1 = *scope;
        let key = match eval_arg(&args[1], scope, fuel) {
            Ok(v) => v,
            Err(e) => {
                proof {
                    lemma_evolves_trans(s0, s1, *scope);
                }
                return Err(e);
            },
        };
        proof {
            lemma_evolves_trans(s0, s1, *scope);
        }
        match scope.map_has(&tag, &key) {
            Ok(b) => Ok(Value::Boolean(b)),
            Err(e) => Err(e),
        }
    }
}

/// `map_remove(tag, key)`: removes `key` from the live map `tag`;
/// yields the value it carried, or `Nil`.
pub struct Remove;

impl Remove {
    /// Demands a tag and a key.
    pub fn evaluate(&self, args: &Vec<Expression>, scope: &mut Scope, fuel: u64) -> (res:
        EggResult<Value>)
        requires
            old(scope).wf(),
            fuel >= 1,
        ensures
            final(scope).wf(),
            evolves(*old(scope), *final(scope)),
            args@.len() != 2 ==> (res matches Err(EggError::InvalidFunctionCall(_))) && final(scope).same_state(*old(scope)),
            args@.len() == 2 ==> match (literal_of(args@[0]), literal_of(args@[1])) {
                (Some(t), Some(k)) => match t {
                    Value::String(ts) => if old(scope).tag_maps().contains_key(ts@) {
                        final(scope).tag_maps() == old(scope).tag_maps().insert(
                            ts@,
                            old(scope).tag_maps()[ts@].remove(k@),
                        ) && final(scope).same_but_tag_maps(*old(scope)) && (res matches Ok(p)
                            && p@ == (if old(scope).tag_maps()[ts@].contains_key(k@) {
                            old(scope).tag_maps()[ts@][k@]
                        } else {
                            ValueV::Nil
                        }))
                    } else {
                        (res matches Err(EggError::MapNotFound(_))) && final(scope).same_state(*old(scope))
                    },
                    _ => (res matches Err(EggError::InvalidMapTag(_, _))) && final(scope).same_state(*old(scope)),
                },
                _ => true,
            },
        decreases fuel, 1int,
    {
        if args.len() != 2 {
            return Err(EggError::InvalidFunctionCall(String::from_str("expected 2 arguments")));
        }
        let ghost s0 = *scope;
        let tag = match eval_arg(&args[0], scope, fuel) {
            Ok(v) => v,
            Err(e) => return Err(e),
        };
        let ghost s1 = *scope;
        let key = match eval_arg(&args[1], scope, fuel) {
            Ok(v) => v,
            Err(e) => {
                proof {
                    lemma_evolves_trans(s0, s1, *scope);
                }
                return Err(e);
            },
        };
        proof {
            lemma_evolves_trans(s0, s1, *scope);
        }
        let ghost s2 = *scope;
        let res = match scope.map_remove(tag, &key) {
            Ok(Some(prev)) => Ok(prev),
            Ok(None) => Ok(Value::Nil),
            Err(e) => Err(e),
        };
        proof {
            lemma_evolves_trans(s0, s2, *scope);
        }
        res
    }
}

/// `map_size(tag)`: how many keys the live map `tag` holds.
pub struct Size;

impl Size {
    /// Demands exactly one argument, a string tag.
    pub fn evaluate(&self, args: &Vec<Expression>, scope: &mut Scope, fuel: u64) -> (res:
        EggResult<Value>)
        requires
            old(scope).wf(),
            fuel >= 1,
        ensures
            final(scope).wf(),
            evolves(*old(scope), *final(scope)),
            args@.len() != 1 ==> (res matches Err(EggError::InvalidFunctionCall(_))) && final(scope).same_state(*old(scope)),
            res matches Ok(v) ==> v@ is Number,
            args@.len() == 1 ==> match literal_of(args@[0]) {
                Some(t) => final(scope).same_state(*old(scope)) && match t {
                    Value::String(ts) => if old(scope).tag_maps().contains_key(ts@) {
                        if old(scope).tag_maps()[ts@].len() <= i64::MAX {
                            res matches Ok(v) && v@ == ValueV::Number(
                                old(scope).tag_maps()[ts@].len() as int,
                            )
                        } else {
                            res matches Err(EggError::OperatorComplaint(_))
                        }
                    } else {
                        res matches Err(EggError::MapNotFound(_))
                    },
                    _ => res matches Err(EggError::InvalidMapTag(_, _)),
                },
                None => true,
            },
        decreases fuel, 1int,
    {
        if args.len() != 1 {
            return Err(EggError::InvalidFunctionCall(String::from_str("expected 1 argument")));
        }
        let tag = match eval_arg(&args[0], scope, fuel) {
            Ok(v) => v,
            Err(e) => return Err(e),
        };
        match scope.map_size(&tag) {
            Ok(n) => {
                if n as u64 > 9223372036854775807u64 {
                    Err(EggError::OperatorComplaint(String::from_str("map too large")))
                } else {
                    Ok(Value::Number(n as i64))
                }
            },
            Err(e) => Err(e),
        }
    }
}

/// `map_clear(tag)`: empties the live map `tag`; yields `Nil`.
pub struct Clear;

impl Clear {
    /// Demands exactly one argument, a string tag.
    pub fn evaluate(&self, args: &Vec<Expression>, scope: &mut Scope, fuel: u64) -> (res:
        EggResult<Value>)
        requires
            old(scope).wf(),
            fuel >= 1,
        ensures
            final(scope).wf(),
            evolves(*old(scope), *final(scope)),
            args@.len() != 1 ==> (res matches Err(EggError::InvalidFunctionCall(_))) && final(scope).same_state(*old(scope)),
            res matches Ok(v) ==> v@ is Nil,
            args@.len() == 1 ==> match literal_of(args@[0]) {
                Some(t) => match t {
                    Value::String(ts) => if old(scope).tag_maps().contains_key(ts@) {
                        (res matches Ok(v) && v@ is Nil) && final(scope).tag_maps() == old(scope).tag_maps().insert(ts@, Map::<ValueV, ValueV>::empty()) && final(scope).same_but_tag_maps(*old(scope))
                    } else {
                        (res matches Err(EggError::MapNotFound(_))) && final(scope).same_state(*old(scope))
                    },
                    _ => (res matches Err(EggError::InvalidMapTag(_, _))) && final(scope).same_state(*old(scope)),
                },
                None => true,
            },
        decreases fuel, 1int,
    {
        if args.len() != 1 {
            return Err(EggError::InvalidFunctionCall(String::from_str("expected 1 argument")));
        }
        let ghost s0 = *scope;
        let tag = match eval_arg(&args[0], scope, fuel) {
            Ok(v) => v,
            Err(e) => return Err(e),
        };
        let ghost s1 = *scope;
        let res = match scope.map_clear(tag) {
            Ok(_) => Ok(Value::Nil),
            Err(e) => Err(e),
        };
        proof {
            lemma_evolves_trans(s0, s1, *scope);
        }
        res
    }
}

/// `map_print(tag)`: renders the live map `tag` entry by entry to the
/// console; yields `Nil`.
pub struct PrintMap;

impl PrintMap {
    /// Demands exactly one argument, a string tag.
    pub fn evaluate(&self, args: &Vec<Expression>, scope: &mut Scope, fuel: u64) -> (res:
        EggResult<Value>)
        requires
            old(scope).wf(),
            fuel >= 1,
        ensures
            final(scope).wf(),
            evolves(*old(scope), *final(scope)),
            args@.len() != 1 ==> (res matches Err(EggError::InvalidFunctionCall(_))) && final(scope).same_state(*old(scope)),
            res matches Ok(v) ==> v@ is Nil,
            args@.len() == 1 ==> match literal_of(args@[0]) {
                Some(t) => final(scope).same_state(*old(scope)) && match t {
                    Value::String(ts) => if old(scope).tag_maps().contains_key(ts@) {
                        res matches Ok(v) && v@ is Nil
                    } else {
                        res matches Err(EggError::MapNotFound(_))
                    },
                    _ => res matches Err(EggError::InvalidMapTag(_, _)),
                },
                None => true,
            },
        decreases fuel, 1int,
    {
        if args.len() != 1 {
            return Err(EggError::InvalidFunctionCall(String::from_str("expected 1 argument")));
        }
        let tag = match eval_arg(&args[0], scope, fuel) {
            Ok(v) => v,
            Err(e) => return Err(e),
        };
        let table = match &tag {
            Value::String(s) => match scope.get_map(s) {
                Some(m) => m,
                None => {
                    return Err(EggError::MapNotFound(s.clone()));
                },
            },
            _ => {
                return Err(
                    EggError::InvalidMapTag(
                        tag.clone(),
                        String::from_str("map tag must be a string"),
                    ),
                );
            },
        };
        let rendered = render_table(table);
        crate::operators::console::console_write(rendered.as_str());
        crate::operators::console::console_write("\n");
        Ok(Value::Nil)
    }
}

/// The rendering of a run of entries: `key: value`, comma-separated,
/// in insertion order.
pub open spec fn render_entries_spec(s: Seq<(Value, Value)>) -> Seq<char>
    decreases s.len(),
{
    if s.len() == 0 {
        Seq::empty()
    } else if s.len() == 1 {
        crate::render::render_spec(s[0].0@) + ": "@ + crate::render::render_spec(s[0].1@)
    } else {
        render_entries_spec(s.drop_last()) + ", "@ + crate::render::render_spec(s.last().0@)
            + ": "@ + crate::render::render_spec(s.last().1@)
    }
}

/// Renders a table's entries, in insertion order, for the console.
pub(crate) fn render_table(table: &crate::scope::valuemap::ValueMap) -> (res: String)
    ensures
        res@ == "{"@ + render_entries_spec(table.entries_seq()) + "}"@,
{
    let entries = table.entries();
    let mut out = String::from_str("{");
    let mut i: usize = 0;
    while i < entries.len()
        invariant
            i <= entries@.len(),
            entries@ == table.entries_seq(),
            out@ == "{"@ + render_entries_spec(entries@.take(i as int)),
        decreases entries@.len() - i,
    {
        if i > 0 {
            out.append(", ");
        }
        out.append(render_value(&entries[i].0).as_str());
        out.append(": ");
        out.append(render_value(&entries[i].1).as_str());
        proof {
            assert(entries@.take(i + 1).drop_last() =~= entries@.take(i as int));
            assert(entries@.take(i + 1).last() == entries@[i as int]);
            assert(out@ =~= "{"@ + render_entries_spec(entries@.take(i + 1)));
        }
        i = i + 1;
    }
    proof {
        assert(entries@.take(entries@.len() as int) =~= entries@);
    }
    out.append("}");
    out
}

} // verus!
