//! String tools: length, slicing, concatenation, case folding and
//! trimming. Case folding and trimming lean on the standard library
//! through trusted wrappers; everything around them is verified.

use vstd::prelude::*;

use crate::error::{EggError, EggResult};
use crate::expression::{literal_of, Expression, Value, ValueV};
use crate::operators::eval_arg;
use crate::scope::{evolves, lemma_evolves_trans, Scope};

use vstd::string::StrSliceExecFns;
use vstd::string::StringExecFns;

verus! {

/// What `str::to_uppercase` returns for a given text.
pub uninterp spec fn upper_of(s: Seq<char>) -> Seq<char>;

/// What `str::to_lowercase` returns for a given text.
pub uninterp spec fn lower_of(s: Seq<char>) -> Seq<char>;

/// Relies on `str::to_uppercase`: the result depends on the characters
/// alone, and an empty string stays empty.
#[verifier::external_body]
fn uppercase(s: &str) -> (res: String)
    ensures
        res@ == upper_of(s@),
        s@.len() == 0 ==> res@.len() == 0,
{
    s.to_uppercase()
}

/// Relies on `str::to_lowercase`: the result depends on the characters
/// alone, and an empty string stays empty.
#[verifier::external_body]
fn lowercase(s: &str) -> (res: String)
    ensures
        res@ == lower_of(s@),
        s@.len() == 0 ==> res@.len() == 0,
{
    s.to_lowercase()
}

/// What `str::trim` returns for a given text.
pub uninterp spec fn trim_of(s: Seq<char>) -> Seq<char>;

/// Relies on `str::trim`: the result depends on the characters alone,
/// and an empty string stays empty.
#[verifier::external_body]
pub(crate) fn trimmed(s: &str) -> (res: String)
    ensures
        res@ == trim_of(s@),
        s@.len() == 0 ==> res@.len() == 0,
{
    s.trim().to_owned()
}

/// The text a literal argument carries, if it is a string literal.
pub open spec fn literal_str(e: Expression) -> Option<Seq<char>> {
    match literal_of(e) {
        Some(Value::String(s)) => Some(s@),
        _ => None,
    }
}

/// Every argument is a string literal.
pub open spec fn all_literal_strs(s: Seq<Expression>) -> bool {
    forall|i: int| 0 <= i < s.len() ==> (#[trigger] literal_str(s[i])) is Some
}

/// The left-to-right concatenation of a run of string literals.
pub open spec fn literal_concat(s: Seq<Expression>) -> Seq<char>
    decreases s.len(),
{
    if s.len() == 0 {
        Seq::empty()
    } else {
        literal_concat(s.drop_last()) + literal_str(s.last())->0
    }
}

/// Taking one more element concatenates one more literal.
proof fn lemma_concat_take_step(s: Seq<Expression>, i: int)
    requires
        0 <= i < s.len(),
    ensures
        literal_concat(s.take(i + 1)) == literal_concat(s.take(i)) + literal_str(s[i])->0,
{
    assert(s.take(i + 1).drop_last() =~= s.take(i));
    assert(s.take(i + 1).last() == s[i]);
}

/// `string.concat(...)`: the concatenation of its arguments' values,
/// all of which must be strings.
pub struct Concat;

impl Concat {
    /// Takes any number of arguments, each a string.
    pub fn evaluate(&self, args: &Vec<Expression>, scope: &mut Scope, fuel: u64) -> (res:
        EggResult<Value>)
        requires
            old(scope).wf(),
            fuel >= 1,
        ensures
            final(scope).wf(),
            evolves(*old(scope), *final(scope)),
            res matches Ok(v) ==> v@ is Str,
            args@.len() == 0 ==> (res matches Ok(v) && v@ == ValueV::Str(Seq::empty())) && final(scope).same_state(*old(scope)),
            all_literal_strs(args@) ==> (res matches Ok(v) && v@ == ValueV::Str(
                literal_concat(args@),
            )) && final(scope).same_state(*old(scope)),
        decreases fuel, 1int,
    {
        let ghost lit = all_literal_strs(args@);
        let mut out = String::new();
        let mut i: usize = 0;
        while i < args.len()
            invariant
                old(scope).wf(),
                scope.wf(),
                evolves(*old(scope), *scope),
                i <= args@.len(),
                fuel >= 1,
                lit == all_literal_strs(args@),
                i == 0 ==> out@ == Seq::<char>::empty() && scope.same_state(*old(scope)),
                lit ==> out@ == literal_concat(args@.take(i as int)) && scope.same_state(
                    *old(scope),
                ),
            decreases args@.len() - i,
        {
            let ghost pre = *scope;
            proof {
                if lit {
                    assert(literal_str(args@[i as int]) is Some);
                    lemma_concat_take_step(args@, i as int);
                }
            }
            match eval_arg(&args[i], scope, fuel) {
                Ok(Value::String(s)) => {
                    out.append(s.as_str());
                },
                Ok(_) => {
                    proof {
                        lemma_evolves_trans(*old(scope), pre, *scope);
                    }
                    return Err(
                        EggError::OperatorComplaint(
                            String::from_str("cannot concatenate a non-string"),
                        ),
                    );
                },
                Err(e) => {
                    proof {
                        lemma_evolves_trans(*old(scope), pre, *scope);
                    }
                    return Err(e);
                },
            }
            proof {
                lemma_evolves_trans(*old(scope), pre, *scope);
            }
            i = i + 1;
        }
        proof {
            assert(args@.take(args@.len() as int) =~= args@);
        }
        Ok(Value::String(out))
    }
}

/// `string.length(s)`: how many characters the string holds.
pub struct Length;

impl Length {
    /// Demands exactly one argument, a string.
    pub fn evaluate(&self, args: &Vec<Expression>, scope: &mut Scope, fuel: u64) -> (res:
        EggResult<Value>)
        requires
            old(scope).wf(),
            fuel >= 1,
        ensures
            final(scope).wf(),
            evolves(*old(scope), *final(scope)),
            args@.len() != 1 ==> (res matches Err(EggError::InvalidFunctionCall(_))) && final(scope).same_state(*old(scope)),
            res matches Ok(v) ==> v@ is Number,
            args@.len() == 1 ==> match literal_of(args@[0]) {
                Some(Value::String(s)) => final(scope).same_state(*old(scope)) && if s@.len()
                    <= i64::MAX {
                    res matches Ok(v) && v@ == ValueV::Number(s@.len() as int)
                } else {
                    res matches Err(EggError::OperatorComplaint(_))
                },
                Some(_) => (res matches Err(EggError::OperatorComplaint(_))) && final(scope).same_state(*old(scope)),
                None => true,
            },
        decreases fuel, 1int,
    {
        if args.len() != 1 {
            return Err(EggError::InvalidFunctionCall(String::from_str("expected 1 argument")));
        }
        match eval_arg(&args[0], scope, fuel) {
            Ok(Value::String(s)) => {
                let n = s.as_str().unicode_len();
                if n as u64 > 9223372036854775807u64 {
                    Err(EggError::OperatorComplaint(String::from_str("string too long")))
                } else {
                    Ok(Value::Number(n as i64))
                }
            },
            Ok(_) => Err(
                EggError::OperatorComplaint(
                    String::from_str("cannot take the length of a non-string"),
                ),
            ),
            Err(e) => Err(e),
        }
    }
}

/// `string.slice(base, start, len)`: the piece of `base` that begins
/// at `start` (a negative `start` counts from the end) and holds `len`
/// characters; a piece that leaves the string is a complaint.
pub struct Slice;

impl Slice {
    /// Demands a string and two numbers.
    pub fn evaluate(&self, args: &Vec<Expression>, scope: &mut Scope, fuel: u64) -> (res:
        EggResult<Value>)
        requires
            old(scope).wf(),
            fuel >= 1,
        ensures
            final(scope).wf(),
            evolves(*old(scope), *final(scope)),
            args@.len() != 3 ==> (res matches Err(EggError::InvalidFunctionCall(_))) && final(scope).same_state(*old(scope)),
            res matches Ok(v) ==> v@ is Str,
            args@.len() == 3 ==> match (
                literal_of(args@[0]),
                literal_of(args@[1]),
                literal_of(args@[2]),
            ) {
                (Some(Value::String(s)), Some(Value::Number(a)), Some(Value::Number(l))) => final(scope).same_state(*old(scope)) && ({
                    let n = s@.len() as int;
                    let start = if a < 0 {
                        a + n
                    } else {
                        a as int
                    };
                    if n <= i64::MAX && 0 <= start && 0 <= l && start <= n && l <= n - start {
                        res matches Ok(v) && v@ == ValueV::Str(s@.subrange(start, start + l))
                    } else {
                        res matches Err(EggError::OperatorComplaint(_))
                    }
                }),
                (Some(_), Some(_), Some(_)) => (res matches Err(EggError::OperatorComplaint(_)))
                    && final(scope).same_state(*old(scope)),
                _ => true,
            },
        decreases fuel, 1int,
    {
        if args.len() != 3 {
            return Err(EggError::InvalidFunctionCall(String::from_str("expected 3 arguments")));
        }
        let ghost s0 = *scope;
        let base = match eval_arg(&args[0], scope, fuel) {
            Ok(Value::String(s)) => s,
            Ok(_) => {
                return Err(
                    EggError::OperatorComplaint(String::from_str("cannot slice a non-string")),
                );
            },
            Err(e) => return Err(e),
        };
        let ghost s1 = *scope;
        let start_raw = match eval_arg(&args[1], scope, fuel) {
            Ok(Value::Number(n)) => n,
            Ok(_) => {
                proof {
                    lemma_evolves_trans(s0, s1, *scope);
                }
                return Err(
                    EggError::OperatorComplaint(String::from_str("cannot slice with a non-number")),
                );
            },
            Err(e) => {
                proof {
                    lemma_evolves_trans(s0, s1, *scope);
                }
                return Err(e);
            },
        };
        proof {
            lemma_evolves_trans(s0, s1, *scope);
        }
        let ghost s2 = *scope;
        let length = match eval_arg(&args[2], scope, fuel) {
            Ok(Value::Number(n)) => n,
            Ok(_) => {
                proof {
                    lemma_evolves_trans(s0, s2, *scope);
                }
                return Err(
                    EggError::OperatorComplaint(String::from_str("cannot slice with a non-number")),
                );
            },
            Err(e) => {
                proof {
                    lemma_evolves_trans(s0, s2, *scope);
                }
                return Err(e);
            },
        };
        proof {
            lemma_evolves_trans(s0, s2, *scope);
        }
        let n = base.as_str().unicode_len();
        if n as u64 > 9223372036854775807u64 {
            return Err(EggError::OperatorComplaint(String::from_str("string too long")));
        }
        let start = if start_raw < 0 {
            match start_raw.checked_add(n as i64) {
                Some(s) => s,
                None => {
                    return Err(
                        EggError::OperatorComplaint(String::from_str("slice start out of range")),
                    );
                },
            }
        } else {
            start_raw
        };
        if start < 0 || length < 0 || start > n as i64 || length > n as i64 - start {
            return Err(EggError::OperatorComplaint(String::from_str("slice out of range")));
        }
        let from = start as usize;
        let to = from + length as usize;
        let piece = base.as_str().substring_char(from, to);
        Ok(Value::String(piece.to_owned()))
    }
}

/// `string.to_upper(s)`: the uppercase folding of a string.
pub struct ToUpper;

impl ToUpper {
    /// Demands exactly one argument, a string.
    pub fn evaluate(&self, args: &Vec<Expression>, scope: &mut Scope, fuel: u64) -> (res:
        EggResult<Value>)
        requires
            old(scope).wf(),
            fuel >= 1,
        ensures
            final(scope).wf(),
            evolves(*old(scope), *final(scope)),
            args@.len() != 1 ==> (res matches Err(EggError::InvalidFunctionCall(_))) && final(scope).same_state(*old(scope)),
            res matches Ok(v) ==> v@ is Str,
            args@.len() == 1 ==> match literal_of(args@[0]) {
                Some(Value::String(s)) => (res matches Ok(v) && v@ == ValueV::Str(upper_of(s@)))
                    && final(scope).same_state(*old(scope)),
                Some(_) => (res matches Err(EggError::OperatorComplaint(_))) && final(scope).same_state(*old(scope)),
                None => true,
            },
        decreases fuel, 1int,
    {
        if args.len() != 1 {
            return Err(EggError::InvalidFunctionCall(String::from_str("expected 1 argument")));
        }
        match eval_arg(&args[0], scope, fuel) {
            Ok(Value::String(s)) => Ok(Value::String(uppercase(s.as_str()))),
            Ok(_) => Err(
                EggError::OperatorComplaint(String::from_str("cannot uppercase a non-string")),
            ),
            Err(e) => Err(e),
        }
    }
}

/// `string.to_lower(s)`: the lowercase folding of a string.
pub struct ToLower;

impl ToLower {
    /// Demands exactly one argument, a string.
    pub fn evaluate(&self, args: &Vec<Expression>, scope: &mut Scope, fuel: u64) -> (res:
        EggResult<Value>)
        requires
            old(scope).wf(),
            fuel >= 1,
        ensures
            final(scope).wf(),
            evolves(*old(scope), *final(scope)),
            args@.len() != 1 ==> (res matches Err(EggError::InvalidFunctionCall(_))) && final(scope).same_state(*old(scope)),
            res matches Ok(v) ==> v@ is Str,
            args@.len() == 1 ==> match literal_of(args@[0]) {
                Some(Value::String(s)) => (res matches Ok(v) && v@ == ValueV::Str(lower_of(s@)))
                    && final(scope).same_state(*old(scope)),
                Some(_) => (res matches Err(EggError::OperatorComplaint(_))) && final(scope).same_state(*old(scope)),
                None => true,
            },
        decreases fuel, 1int,
    {
        if args.len() != 1 {
            return Err(EggError::InvalidFunctionCall(String::from_str("expected 1 argument")));
        }
        match eval_arg(&args[0], scope, fuel) {
            Ok(Value::String(s)) => Ok(Value::String(lowercase(s.as_str()))),
            Ok(_) => Err(
                EggError::OperatorComplaint(String::from_str("cannot lowercase a non-string")),
            ),
            Err(e) => Err(e),
        }
    }
}

/// `string.trim(s)`: the string without leading and trailing blanks.
pub struct Trim;

impl Trim {
    /// Demands exactly one argument, a string.
    pub fn evaluate(&self, args: &Vec<Expression>, scope: &mut Scope, fuel: u64) -> (res:
        EggResult<Value>)
        requires
            old(scope).wf(),
            fuel >= 1,
        ensures
            final(scope).wf(),
            evolves(*old(scope), *final(scope)),
            args@.len() != 1 ==> (res matches Err(EggError::InvalidFunctionCall(_))) && final(scope).same_state(*old(scope)),
            res matches Ok(v) ==> v@ is Str,
            args@.len() == 1 ==> match literal_of(args@[0]) {
                Some(Value::String(s)) => (res matches Ok(v) && v@ == ValueV::Str(trim_of(s@)))
                    && final(scope).same_state(*old(scope)),
                Some(_) => (res matches Err(EggError::OperatorComplaint(_))) && final(scope).same_state(*old(scope)),
                None => true,
            },
        decreases fuel, 1int,
    {
        if args.len() != 1 {
            return Err(EggError::InvalidFunctionCall(String::from_str("expected 1 argument")));
        }
        match eval_arg(&args[0], scope, fuel) {
            Ok(Value::String(s)) => Ok(Value::String(trimmed(s.as_str()))),
            Ok(_) => Err(
                EggError::OperatorComplaint(String::from_str("cannot trim a non-string")),
            ),
            Err(e) => Err(e),
        }
    }
}

} // verus!
