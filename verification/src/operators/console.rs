//! Console operators. The writes and the read are the library's edge
//! to the host's terminal and go through trusted wrappers; what is
//! printed is rendered by verified code.

use vstd::prelude::*;

use std::io::Write;

use crate::error::{EggError, EggResult};
use crate::expression::{Expression, Value};
use crate::operators::eval_arg;
use crate::render::print_value;
use crate::scope::{evolves, lemma_evolves_trans, Scope};

use vstd::string::StrSliceExecFns;
use vstd::string::StringExecFns;

verus! {

/// Relies on `std::io::Stdout::write_fmt` (through `write!`): renders
/// the given text to standard output.
#[verifier::external_body]
pub(crate) fn console_write(s: &str) {
    let _ = write!(std::io::stdout(), "{}", s);
}

/// Relies on `std::io::Stdin::read_line`: hands back one line of
/// input, or the reason reading failed. Nothing is promised of the
/// text; callers must work with every outcome.
#[verifier::external_body]
fn console_read_line() -> (res: Result<String, String>) {
    let mut line = String::new();
    match std::io::stdin().read_line(&mut line) {
        Ok(_) => Ok(line),
        Err(e) => Err(format!("{}", e)),
    }
}

/// `print(...)`: renders each argument's value in its plain form,
/// separated by single spaces, without a newline. Yields `Nil`.
pub struct Print;

impl Print {
    /// Takes any number of arguments.
    pub fn evaluate(&self, args: &Vec<Expression>, scope: &mut Scope, fuel: u64) -> (res:
        EggResult<Value>)
        requires
            old(scope).wf(),
            fuel >= 1,
        ensures
            final(scope).wf(),
            evolves(*old(scope), *final(scope)),
            res matches Ok(v) ==> v@ is Nil,
        decreases fuel, 1int,
    {
        let mut i: usize = 0;
        while i < args.len()
            invariant
                old(scope).wf(),
                scope.wf(),
                evolves(*old(scope), *scope),
                i <= args@.len(),
                fuel >= 1,
            decreases args@.len() - i,
        {
            let ghost pre = *scope;
            let v = match eval_arg(&args[i], scope, fuel) {
                Ok(v) => v,
                Err(e) => {
                    proof {
                        lemma_evolves_trans(*old(scope), pre, *scope);
                    }
                    return Err(e);
                },
            };
            proof {
                lemma_evolves_trans(*old(scope), pre, *scope);
            }
            console_write(print_value(&v).as_str());
            if i + 1 < args.len() {
                console_write(" ");
            }
            i = i + 1;
        }
        Ok(Value::Nil)
    }
}

/// `println(...)`: as [`Print`], followed by a newline.
pub struct PrintLine;

impl PrintLine {
    /// Takes any number of arguments.
    pub fn evaluate(&self, args: &Vec<Expression>, scope: &mut Scope, fuel: u64) -> (res:
        EggResult<Value>)
        requires
            old(scope).wf(),
            fuel >= 1,
        ensures
            final(scope).wf(),
            evolves(*old(scope), *final(scope)),
            res matches Ok(v) ==> v@ is Nil,
        decreases fuel, 2int,
    {
        let res = (Print).evaluate(args, scope, fuel);
        match res {
            Ok(v) => {
                console_write("\n");
                Ok(v)
            },
            Err(e) => Err(e),
        }
    }
}

/// What a read line denotes once its line ending is removed: one
/// trailing newline goes, and the carriage return before it when the
/// host's lines end in both.
pub open spec fn strip_newline_spec(s: Seq<char>) -> Seq<char> {
    let t = if s.len() > 0 && s.last() == '\n' {
        s.drop_last()
    } else {
        s
    };
    if t.len() > 0 && t.last() == '\r' {
        t.drop_last()
    } else {
        t
    }
}

/// Removes the trailing line ending from a read line.
pub fn strip_trailing_newline(s: &str) -> (res: String)
    ensures
        res@ == strip_newline_spec(s@),
{
    let n = s.unicode_len();
    let mut end = n;
    if end > 0 {
        let c = s.get_char(end - 1);
        proof {
            if c as u32 == 10 {
                crate::numbers::lemma_char_eq_by_scalar(c, '\n');
            }
        }
        if (c as u32) == 10 {
            end = end - 1;
        }
    }
    let ghost mid = if s@.len() > 0 && s@.last() == '\n' {
        s@.drop_last()
    } else {
        s@
    };
    proof {
        assert(mid =~= s@.subrange(0, end as int));
    }
    if end > 0 {
        let c = s.get_char(end - 1);
        proof {
            if c as u32 == 13 {
                crate::numbers::lemma_char_eq_by_scalar(c, '\r');
            }
        }
        if (c as u32) == 13 {
            end = end - 1;
        }
    }
    let piece = s.substring_char(0, end);
    proof {
        assert(strip_newline_spec(s@) =~= s@.subrange(0, end as int));
    }
    piece.to_owned()
}

/// `readline(prompt?)`: prints the optional prompt, reads one line
/// from standard input, and yields it as a string with its trailing
/// newline removed.
pub struct ReadLine;

impl ReadLine {
    /// Takes an optional prompt argument.
    pub fn evaluate(&self, args: &Vec<Expression>, scope: &mut Scope, fuel: u64) -> (res:
        EggResult<Value>)
        requires
            old(scope).wf(),
            fuel >= 1,
        ensures
            final(scope).wf(),
            evolves(*old(scope), *final(scope)),
            res matches Ok(v) ==> v@ is Str,
        decreases fuel, 1int,
    {
        if args.len() >= 1 {
            let v = match eval_arg(&args[0], scope, fuel) {
                Ok(v) => v,
                Err(e) => return Err(e),
            };
            console_write(print_value(&v).as_str());
        }
        match console_read_line() {
            Ok(line) => Ok(Value::String(strip_trailing_newline(line.as_str()))),
            Err(msg) => Err(EggError::OperatorComplaint(msg)),
        }
    }
}

} // verus!
