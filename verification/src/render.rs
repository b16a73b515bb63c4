//! Rendering values back to text: the display form `str` yields, and
//! the plain form the console operators write.

use vstd::prelude::*;

use crate::expression::{Value, ValueV};
use crate::numbers::dec_str;

use vstd::string::StringExecFns;

verus! {

/// The display rendering of a value: strings appear quoted.
pub open spec fn render_spec(v: ValueV) -> Seq<char> {
    match v {
        ValueV::Nil => "Nil"@,
        ValueV::Number(n) => dec_str(n),
        ValueV::Boolean(b) => if b {
            "True"@
        } else {
            "False"@
        },
        ValueV::Str(s) => seq!['"'] + s + seq!['"'],
        ValueV::Function(_) => "Function"@,
        ValueV::Object(_) => "Object"@,
    }
}

/// The plain rendering of a value: strings appear as their text.
pub open spec fn print_spec(v: ValueV) -> Seq<char> {
    match v {
        ValueV::Str(s) => s,
        _ => render_spec(v),
    }
}

/// Renders a value to its display form.
pub fn render_value(v: &Value) -> (res: String)
    ensures
        res@ == render_spec(v@),
{
    match v {
        Value::Nil => String::from_str("Nil"),
        Value::Number(n) => crate::numbers::render_i64(*n),
        Value::Boolean(b) => {
            if *b {
                String::from_str("True")
            } else {
                String::from_str("False")
            }
        },
        Value::String(s) => {
            let mut r = String::from_str("\"");
            r.append(s.as_str());
            r.append("\"");
            proof {
                reveal_strlit("\"");
                assert(r@ =~= seq!['"'] + s@ + seq!['"']);
            }
            r
        },
        Value::Function(_) => String::from_str("Function"),
        Value::Object(_) => String::from_str("Object"),
    }
}

/// Renders a value to its plain form.
pub fn print_value(v: &Value) -> (res: String)
    ensures
        res@ == print_spec(v@),
{
    match v {
        Value::String(s) => s.clone(),
        _ => render_value(v),
    }
}

} // verus!
