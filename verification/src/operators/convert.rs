//! Conversion operators between values and their textual forms.

use vstd::prelude::*;

use crate::error::{EggError, EggResult};
use crate::expression::{literal_of, Expression, Value, ValueV};
use crate::numbers::{ascii_chars_of, parse_integer};
use crate::operators::eval_arg;
use crate::render::render_value;
use crate::scope::{evolves, Scope};

use vstd::string::StringExecFns;
use vstd::string::StringExecFnsIsAscii;

verus! {

/// `str(expr)`: the display rendering of any value.
pub struct ToString;

impl ToString {
    /// Demands exactly one argument, of any kind.
    pub fn evaluate(&self, args: &Vec<Expression>, scope: &mut Scope, fuel: u64) -> (res:
        EggResult<Value>)
        requires
            old(scope).wf(),
            fuel >= 1,
        ensures
            final(scope).wf(),
            evolves(*old(scope), *final(scope)),
            args@.len() != 1 ==> (res matches Err(EggError::InvalidFunctionCall(_))) && final(scope).same_state(*old(scope)),
            res matches Ok(v) ==> v@ is Str,
            args@.len() == 1 ==> match literal_of(args@[0]) {
                Some(v) => (res matches Ok(r) && r@ == ValueV::Str(
                    crate::render::render_spec(v@),
                )) && final(scope).same_state(*old(scope)),
                None => true,
            },
        decreases fuel, 1int,
    {
        if args.len() != 1 {
            return Err(EggError::InvalidFunctionCall(String::from_str("expected 1 argument")));
        }
        let v = match eval_arg(&args[0], scope, fuel) {
            Ok(v) => v,
            Err(e) => return Err(e),
        };
        Ok(Value::String(render_value(&v)))
    }
}

/// Reads a whole string as a number, within the integer value model.
pub fn string_to_number(s: &String) -> (res: Option<i64>)
    ensures
        match res {
            Some(v) => vstd::utf8::is_ascii_chars(s@) && crate::numbers::is_integer_numeral(s@)
                && v as int == crate::numbers::numeral_value(s@),
            None => !(vstd::utf8::is_ascii_chars(s@) && crate::numbers::is_integer_numeral(s@)
                && i64::MIN <= crate::numbers::numeral_value(s@) <= i64::MAX),
        },
{
    if !s.is_ascii() {
        return None;
    }
    let chars = ascii_chars_of(s.as_str());
    let n = chars.len();
    proof {
        assert(chars@.subrange(0, chars@.len() as int) =~= s@);
    }
    parse_integer(&chars, 0, n)
}

/// `num(expr)`: passes numbers and booleans through unchanged, reads
/// strings as integer numerals, and rejects everything else.
pub struct ToNumber;

impl ToNumber {
    /// Demands exactly one argument.
    pub fn evaluate(&self, args: &Vec<Expression>, scope: &mut Scope, fuel: u64) -> (res:
        EggResult<Value>)
        requires
            old(scope).wf(),
            fuel >= 1,
        ensures
            final(scope).wf(),
            evolves(*old(scope), *final(scope)),
            args@.len() != 1 ==> (res matches Err(EggError::InvalidFunctionCall(_))) && final(scope).same_state(*old(scope)),
            res matches Ok(v) ==> v@ is Number || v@ is Boolean,
            args@.len() == 1 ==> match literal_of(args@[0]) {
                Some(v) => final(scope).same_state(*old(scope)) && match v {
                    Value::Number(n) => res matches Ok(r) && r@ == ValueV::Number(n as int),
                    Value::Boolean(b) => res matches Ok(r) && r@ == ValueV::Boolean(b),
                    Value::String(s) => if vstd::utf8::is_ascii_chars(s@)
                        && crate::numbers::is_integer_numeral(s@) && i64::MIN
                        <= crate::numbers::numeral_value(s@) <= i64::MAX {
                        res matches Ok(r) && r@ == ValueV::Number(crate::numbers::numeral_value(s@))
                    } else {
                        res matches Err(EggError::OperatorComplaint(_))
                    },
                    _ => res matches Err(EggError::OperatorComplaint(_)),
                },
                None => true,
            },
        decreases fuel, 1int,
    {
        if args.len() != 1 {
            return Err(EggError::InvalidFunctionCall(String::from_str("expected 1 argument")));
        }
        match eval_arg(&args[0], scope, fuel) {
            Ok(Value::Number(n)) => Ok(Value::Number(n)),
            Ok(Value::Boolean(b)) => Ok(Value::Boolean(b)),
            Ok(Value::String(s)) => match string_to_number(&s) {
                Some(n) => Ok(Value::Number(n)),
                None => Err(
                    EggError::OperatorComplaint(
                        String::from_str("unable to read the string as a number"),
                    ),
                ),
            },
            Ok(_) => Err(
                EggError::OperatorComplaint(
                    String::from_str("only numbers, booleans and strings convert to numbers"),
                ),
            ),
            Err(e) => Err(e),
        }
    }
}

} // verus!
