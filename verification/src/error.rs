//! Error and result types.
//!
//! Every failure of the lexer, the parser or the evaluator is reported
//! as a typed [`EggError`]; nothing in the library panics or aborts.

use vstd::prelude::*;

use crate::expression::Value;
use crate::numbers::{dec_str, render_u64};
use crate::render::{render_spec, render_value};

use vstd::string::StringExecFns;

verus! {

/// Result type used throughout this crate.
pub type EggResult<T> = Result<T, EggError>;

/// The single error taxonomy of the language, consumed by the host,
/// which reports the message and stops evaluating the current script.
#[derive(Debug)]
pub enum EggError {
    /// A variable lookup missed everywhere in the scope chain.
    UndefinedBinding(String),
    /// A call to a deferred name found no function bound to it.
    FunctionNotFound(String),
    /// Bracket mismatch at the given source position.
    UnbalancedBrackets(usize),
    /// The lexer could not classify the input at the given text.
    UnknownToken(String),
    /// Structural parse failure over the span `[start, end)`.
    ParserError(usize, usize, String),
    /// A built-in operator received the wrong kind of value.
    OperatorComplaint(String),
    /// Only primitive values may be used as object keys.
    InvalidObjectKey(Value),
    /// The value does not reference a live object.
    InvalidObjectReference(Value),
    /// `fn` misuse: parameter names must be bare words.
    InvalidFunctionDefinition(String),
    /// Arity mismatch in a call.
    InvalidFunctionCall(String),
    /// Payload raised by a failing `assert`.
    AssertionFailed(Value),
    /// No map is live under the given tag.
    MapNotFound(String),
    /// Map tags must be strings.
    InvalidMapTag(Value, String),
}

/// The message [`EggError::message`] renders for the host.
pub open spec fn message_spec(e: EggError) -> Seq<char> {
    match e {
        EggError::UndefinedBinding(n) => "Binding not found in current scope: "@ + n@,
        EggError::FunctionNotFound(n) => "No Function with the identifier ("@ + n@
            + ") was found"@,
        EggError::UnbalancedBrackets(p) => "Unbalanced bracket found at location: "@ + dec_str(
            p as int,
        ),
        EggError::UnknownToken(t) => "Unknown Token found in TokenStream: "@ + t@,
        EggError::ParserError(a, b, r) => "Generic parsing error at: "@ + dec_str(a as int)
            + ".."@ + dec_str(b as int) + ". Reason: "@ + r@,
        EggError::OperatorComplaint(m) => "Operator Complaint: "@ + m@,
        EggError::InvalidObjectKey(v) => "Only primitives can be used as keys in objects, found: "@
            + render_spec(v@),
        EggError::InvalidObjectReference(v) => "The provided Value: "@ + render_spec(v@)
            + " is not an Object Reference"@,
        EggError::InvalidFunctionDefinition(r) => "Invalid Function Definition: "@ + r@,
        EggError::InvalidFunctionCall(m) => m@,
        EggError::AssertionFailed(v) => "Assertion failed: "@ + render_spec(v@),
        EggError::MapNotFound(t) => "No map found with the identifier: "@ + t@,
        EggError::InvalidMapTag(v, r) => "The provided map tag: "@ + render_spec(v@)
            + ", is invalid. Reason "@ + r@,
    }
}

impl EggError {
    /// Renders the error for the host, which reports the message and
    /// stops evaluating the current script.
    pub fn message(&self) -> (res: String)
        ensures
            res@ == message_spec(*self),
    {
        let mut out = String::new();
        match self {
            EggError::UndefinedBinding(n) => {
                out.append("Binding not found in current scope: ");
                out.append(n.as_str());
            },
            EggError::FunctionNotFound(n) => {
                out.append("No Function with the identifier (");
                out.append(n.as_str());
                out.append(") was found");
            },
            EggError::UnbalancedBrackets(p) => {
                out.append("Unbalanced bracket found at location: ");
                out.append(render_usize(*p).as_str());
            },
            EggError::UnknownToken(t) => {
                out.append("Unknown Token found in TokenStream: ");
                out.append(t.as_str());
            },
            EggError::ParserError(a, b, r) => {
                out.append("Generic parsing error at: ");
                out.append(render_usize(*a).as_str());
                out.append("..");
                out.append(render_usize(*b).as_str());
                out.append(". Reason: ");
                out.append(r.as_str());
            },
            EggError::OperatorComplaint(m) => {
                out.append("Operator Complaint: ");
                out.append(m.as_str());
            },
            EggError::InvalidObjectKey(v) => {
                out.append("Only primitives can be used as keys in objects, found: ");
                out.append(render_value(v).as_str());
            },
            EggError::InvalidObjectReference(v) => {
                out.append("The provided Value: ");
                out.append(render_value(v).as_str());
                out.append(" is not an Object Reference");
            },
            EggError::InvalidFunctionDefinition(r) => {
                out.append("Invalid Function Definition: ");
                out.append(r.as_str());
            },
            EggError::InvalidFunctionCall(m) => {
                out.append(m.as_str());
            },
            EggError::AssertionFailed(v) => {
                out.append("Assertion failed: ");
                out.append(render_value(v).as_str());
            },
            EggError::MapNotFound(t) => {
                out.append("No map found with the identifier: ");
                out.append(t.as_str());
            },
            EggError::InvalidMapTag(v, r) => {
                out.append("The provided map tag: ");
                out.append(render_value(v).as_str());
                out.append(", is invalid. Reason ");
                out.append(r.as_str());
            },
        }
        out
    }
}

/// The decimal rendering of a source position.
fn render_usize(n: usize) -> (res: String)
    ensures
        res@ == dec_str(n as int),
{
    render_u64(n as u64)
}

} // verus!
