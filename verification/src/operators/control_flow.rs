//! Control flow: sequencing, branching, bounded loops, aborting and
//! asserting. Operators receive their arguments unevaluated, which is
//! what lets `if` evaluate exactly one branch and lets loop bodies run
//! once per iteration.

use vstd::prelude::*;

use crate::error::{EggError, EggResult};
use crate::expression::{literal_of, Expression, Value, ValueV};
use crate::operators::eval_arg;
use crate::scope::{evolves, lemma_evolves_trans, Scope};

use vstd::string::StringExecFns;

verus! {

/// The ceiling `while` and `repeat` place on their iteration count, so
/// that a runaway script is reported instead of hanging its host.
pub const MAX_ITERATIONS: u64 = 1000000;

/// `do(e1, e2, ...)`: evaluates each expression in order; its value is
/// the last one's, or `Nil` when there is none.
pub struct Do;

impl Do {
    /// Takes any number of arguments.
    pub fn evaluate(&self, args: &Vec<Expression>, scope: &mut Scope, fuel: u64) -> (res:
        EggResult<Value>)
        requires
            old(scope).wf(),
            fuel >= 1,
        ensures
            final(scope).wf(),
            evolves(*old(scope), *final(scope)),
            args@.len() == 0 ==> (res matches Ok(v) && v@ is Nil) && final(scope).same_state(*old(scope)),
            args@.len() > 0 ==> match literal_of(args@[args@.len() - 1]) {
                Some(lv) => res matches Ok(v) ==> v@ == lv@,
                None => true,
            },
        decreases fuel, 1int,
    {
        let mut last = Value::Nil;
        let mut i: usize = 0;
        while i < args.len()
            invariant
                old(scope).wf(),
                scope.wf(),
                evolves(*old(scope), *scope),
                i <= args@.len(),
                fuel >= 1,
                i == 0 ==> scope.same_state(*old(scope)) && last@ is Nil,
                i > 0 && i == args@.len() ==> match literal_of(args@[i - 1]) {
                    Some(lv) => last@ == lv@,
                    None => true,
                },
            decreases args@.len() - i,
        {
            let ghost pre = *scope;
            last = match eval_arg(&args[i], scope, fuel) {
                Ok(v) => v,
                Err(e) => {
                    proof {
                        lemma_evolves_trans(*old(scope), pre, *scope);
                    }
                    return Err(e);
                },
            };
            proof {
                lemma_evolves_trans(*old(scope), pre, *scope);
            }
            i = i + 1;
        }
        Ok(last)
    }
}

/// `if(cond, then, else)`: evaluates the condition, coerces its truth
/// and evaluates exactly one branch.
pub struct If;

impl If {
    /// Demands a condition and two branches.
    pub fn evaluate(&self, args: &Vec<Expression>, scope: &mut Scope, fuel: u64) -> (res:
        EggResult<Value>)
        requires
            old(scope).wf(),
            fuel >= 1,
        ensures
            final(scope).wf(),
            evolves(*old(scope), *final(scope)),
            args@.len() != 3 ==> (res matches Err(EggError::InvalidFunctionCall(_))) && final(scope).same_state(*old(scope)),
            args@.len() == 3 ==> match literal_of(args@[0]) {
                Some(c) => match c@.truthiness() {
                    None => (res matches Err(EggError::OperatorComplaint(_))) && final(scope).same_state(*old(scope)),
                    Some(true) => match literal_of(args@[1]) {
                        Some(t) => (res matches Ok(v) && v@ == t@) && final(scope).same_state(*old(scope)),
                        None => true,
                    },
                    Some(false) => match literal_of(args@[2]) {
                        Some(t) => (res matches Ok(v) && v@ == t@) && final(scope).same_state(*old(scope)),
                        None => true,
                    },
                },
                None => true,
            },
        decreases fuel, 1int,
    {
        if args.len() != 3 {
            return Err(EggError::InvalidFunctionCall(String::from_str("expected 3 arguments")));
        }
        let ghost s0 = *scope;
        let cond = match eval_arg(&args[0], scope, fuel) {
            Ok(v) => v,
            Err(e) => return Err(e),
        };
        let ghost s1 = *scope;
        let branch = match cond.truthiness() {
            Some(true) => &args[1],
            Some(false) => &args[2],
            None => {
                return Err(
                    EggError::OperatorComplaint(
                        String::from_str("the condition must be a boolean or a number"),
                    ),
                );
            },
        };
        let res = eval_arg(branch, scope, fuel);
        proof {
            lemma_evolves_trans(s0, s1, *scope);
        }
        res
    }
}

/// `while(cond, body)`: re-evaluates the condition before every
/// iteration and runs the body while it is truthy; its value is the
/// last body result, `Nil` after zero iterations. Runs of more than
/// [`MAX_ITERATIONS`] iterations are aborted with a complaint.
pub struct While;

impl While {
    /// Demands a condition and a body.
    pub fn evaluate(&self, args: &Vec<Expression>, scope: &mut Scope, fuel: u64) -> (res:
        EggResult<Value>)
        requires
            old(scope).wf(),
            fuel >= 1,
        ensures
            final(scope).wf(),
            evolves(*old(scope), *final(scope)),
            args@.len() != 2 ==> (res matches Err(EggError::InvalidFunctionCall(_))) && final(scope).same_state(*old(scope)),
            args@.len() == 2 ==> match literal_of(args@[0]) {
                Some(c) => match c@.truthiness() {
                    Some(false) => (res matches Ok(v) && v@ is Nil) && final(scope).same_state(*old(scope)),
                    Some(true) => res is Err,
                    None => (res matches Err(EggError::OperatorComplaint(_))) && final(scope).same_state(*old(scope)),
                },
                None => true,
            },
        decreases fuel, 1int,
    {
        if args.len() != 2 {
            return Err(EggError::InvalidFunctionCall(String::from_str("expected 2 arguments")));
        }
        let mut last = Value::Nil;
        let mut iterations: u64 = 0;
        while iterations < MAX_ITERATIONS
            invariant
                old(scope).wf(),
                scope.wf(),
                evolves(*old(scope), *scope),
                fuel >= 1,
                args@.len() == 2,
                iterations <= MAX_ITERATIONS,
                match literal_of(args@[0]) {
                    Some(c) => c@.truthiness() != Some(true) ==> last@ is Nil && scope.same_state(
                        *old(scope),
                    ) && iterations == 0,
                    None => true,
                },
            decreases MAX_ITERATIONS - iterations,
        {
            let ghost pre = *scope;
            let cond = match eval_arg(&args[0], scope, fuel) {
                Ok(v) => v,
                Err(e) => {
                    proof {
                        lemma_evolves_trans(*old(scope), pre, *scope);
                    }
                    return Err(e);
                },
            };
            proof {
                lemma_evolves_trans(*old(scope), pre, *scope);
            }
            match cond.truthiness() {
                Some(true) => {},
                Some(false) => {
                    return Ok(last);
                },
                None => {
                    return Err(
                        EggError::OperatorComplaint(
                            String::from_str("the condition must be a boolean or a number"),
                        ),
                    );
                },
            }
            let ghost mid = *scope;
            last = match eval_arg(&args[1], scope, fuel) {
                Ok(v) => v,
                Err(e) => {
                    proof {
                        lemma_evolves_trans(*old(scope), mid, *scope);
                    }
                    return Err(e);
                },
            };
            proof {
                lemma_evolves_trans(*old(scope), mid, *scope);
            }
            iterations = iterations + 1;
        }
        Err(EggError::OperatorComplaint(String::from_str("iteration ceiling exceeded")))
    }
}

/// `repeat(count, body)`: evaluates the count once, then the body that
/// many times (zero times for a non-positive count); its value is the
/// last body result, `Nil` after zero iterations. Counts above
/// [`MAX_ITERATIONS`] are aborted with a complaint.
pub struct Repeat;

impl Repeat {
    /// Demands a count and a body.
    pub fn evaluate(&self, args: &Vec<Expression>, scope: &mut Scope, fuel: u64) -> (res:
        EggResult<Value>)
        requires
            old(scope).wf(),
            fuel >= 1,
        ensures
            final(scope).wf(),
            evolves(*old(scope), *final(scope)),
            args@.len() != 2 ==> (res matches Err(EggError::InvalidFunctionCall(_))) && final(scope).same_state(*old(scope)),
            args@.len() == 2 ==> match literal_of(args@[0]) {
                Some(Value::Number(n)) => (n <= 0 ==> (res matches Ok(v) && v@ is Nil) && final(scope).same_state(*old(scope)))
                    && (n as int > MAX_ITERATIONS as int ==> (res matches Err(
                    EggError::OperatorComplaint(_),
                )) && final(scope).same_state(*old(scope))) && (0 < n && n as int
                    <= MAX_ITERATIONS as int ==> match literal_of(args@[1]) {
                    Some(b) => (res matches Ok(v) && v@ == b@) && final(scope).same_state(*old(scope)),
                    None => true,
                }),
                Some(_) => (res matches Err(EggError::OperatorComplaint(_))) && final(scope).same_state(*old(scope)),
                None => true,
            },
        decreases fuel, 1int,
    {
        if args.len() != 2 {
            return Err(EggError::InvalidFunctionCall(String::from_str("expected 2 arguments")));
        }
        let ghost s0 = *scope;
        let count = match eval_arg(&args[0], scope, fuel) {
            Ok(Value::Number(n)) => n,
            Ok(_) => {
                return Err(
                    EggError::OperatorComplaint(
                        String::from_str("the repetition count must be a number"),
                    ),
                );
            },
            Err(e) => return Err(e),
        };
        if count > MAX_ITERATIONS as i64 {
            return Err(EggError::OperatorComplaint(String::from_str("iteration ceiling exceeded")));
        }
        let mut last = Value::Nil;
        let mut done: i64 = 0;
        while done < count
            invariant
                old(scope).wf(),
                scope.wf(),
                evolves(*old(scope), *scope),
                fuel >= 1,
                args@.len() == 2,
                0 <= done,
                done <= count || count <= 0,
                count <= 0 ==> done == 0,
                count as int <= MAX_ITERATIONS as int,
                done == 0 ==> last@ is Nil,
                match literal_of(args@[0]) {
                    Some(Value::Number(n0)) => n0 == count && (done == 0 ==> scope.same_state(
                        *old(scope),
                    )),
                    Some(_) => false,
                    None => true,
                },
                match (literal_of(args@[0]), literal_of(args@[1])) {
                    (Some(Value::Number(n0)), Some(b)) => (done > 0 ==> last@ == b@)
                        && scope.same_state(*old(scope)),
                    _ => true,
                },
            decreases count - done,
        {
            let ghost pre = *scope;
            last = match eval_arg(&args[1], scope, fuel) {
                Ok(v) => v,
                Err(e) => {
                    proof {
                        lemma_evolves_trans(*old(scope), pre, *scope);
                    }
                    return Err(e);
                },
            };
            proof {
                lemma_evolves_trans(*old(scope), pre, *scope);
            }
            done = done + 1;
        }
        Ok(last)
    }
}

/// `sleep(ms)`: validates its operand as a number of milliseconds and
/// yields it. The verified library never blocks; an embedding host
/// that wants a real delay performs it around the script run.
pub struct Sleep;

impl Sleep {
    /// Demands exactly one argument, a number.
    pub fn evaluate(&self, args: &Vec<Expression>, scope: &mut Scope, fuel: u64) -> (res:
        EggResult<Value>)
        requires
            old(scope).wf(),
            fuel >= 1,
        ensures
            final(scope).wf(),
            evolves(*old(scope), *final(scope)),
            args@.len() != 1 ==> (res matches Err(EggError::InvalidFunctionCall(_))) && final(scope).same_state(*old(scope)),
            res matches Ok(v) ==> v@ is Number,
            args@.len() == 1 ==> match literal_of(args@[0]) {
                Some(Value::Number(n)) => (res matches Ok(v) && v@ == ValueV::Number(n as int))
                    && final(scope).same_state(*old(scope)),
                Some(_) => (res matches Err(EggError::OperatorComplaint(_))) && final(scope).same_state(*old(scope)),
                None => true,
            },
        decreases fuel, 1int,
    {
        if args.len() != 1 {
            return Err(EggError::InvalidFunctionCall(String::from_str("expected 1 argument")));
        }
        match eval_arg(&args[0], scope, fuel) {
            Ok(Value::Number(n)) => Ok(Value::Number(n)),
            Ok(_) => Err(
                EggError::OperatorComplaint(
                    String::from_str("the sleep duration must be a number"),
                ),
            ),
            Err(e) => Err(e),
        }
    }
}

/// `panic(expr)`: always fails, carrying the evaluated value as the
/// payload of the reported error.
pub struct Panic;

impl Panic {
    /// Demands exactly one argument and never yields a value.
    pub fn evaluate(&self, args: &Vec<Expression>, scope: &mut Scope, fuel: u64) -> (res:
        EggResult<Value>)
        requires
            old(scope).wf(),
            fuel >= 1,
        ensures
            final(scope).wf(),
            evolves(*old(scope), *final(scope)),
            args@.len() != 1 ==> (res matches Err(EggError::InvalidFunctionCall(_))) && final(scope).same_state(*old(scope)),
            res is Err,
        decreases fuel, 1int,
    {
        if args.len() != 1 {
            return Err(EggError::InvalidFunctionCall(String::from_str("expected 1 argument")));
        }
        match eval_arg(&args[0], scope, fuel) {
            Ok(v) => Err(EggError::AssertionFailed(v)),
            Err(e) => Err(e),
        }
    }
}

/// `assert(cond, msg)`: evaluates the condition; when it is falsy the
/// message is evaluated and raised, otherwise the message is left
/// unevaluated and the value is `Nil`.
pub struct Assert;

impl Assert {
    /// Demands a condition and a message expression.
    pub fn evaluate(&self, args: &Vec<Expression>, scope: &mut Scope, fuel: u64) -> (res:
        EggResult<Value>)
        requires
            old(scope).wf(),
            fuel >= 1,
        ensures
            final(scope).wf(),
            evolves(*old(scope), *final(scope)),
            args@.len() != 2 ==> (res matches Err(EggError::InvalidFunctionCall(_))) && final(scope).same_state(*old(scope)),
            res matches Ok(v) ==> v@ is Nil,
            args@.len() == 2 ==> match literal_of(args@[0]) {
                Some(c) => match c@.truthiness() {
                    Some(true) => (res matches Ok(v) && v@ is Nil) && final(scope).same_state(*old(scope)),
                    None => (res matches Err(EggError::OperatorComplaint(_))) && final(scope).same_state(*old(scope)),
                    Some(false) => match literal_of(args@[1]) {
                        Some(m) => (res matches Err(EggError::AssertionFailed(p)) && p@ == m@)
                            && final(scope).same_state(*old(scope)),
                        None => true,
                    },
                },
                None => true,
            },
        decreases fuel, 1int,
    {
        if args.len() != 2 {
            return Err(EggError::InvalidFunctionCall(String::from_str("expected 2 arguments")));
        }
        let ghost s0 = *scope;
        let cond = match eval_arg(&args[0], scope, fuel) {
            Ok(v) => v,
            Err(e) => return Err(e),
        };
        let ghost s1 = *scope;
        match cond.truthiness() {
            Some(true) => Ok(Value::Nil),
            Some(false) => {
                let message = match eval_arg(&args[1], scope, fuel) {
                    Ok(v) => v,
                    Err(e) => {
                        proof {
                            lemma_evolves_trans(s0, s1, *scope);
                        }
                        return Err(e);
                    },
                };
                proof {
                    lemma_evolves_trans(s0, s1, *scope);
                }
                Err(EggError::AssertionFailed(message))
            },
            None => Err(
                EggError::OperatorComplaint(
                    String::from_str("the condition must be a boolean or a number"),
                ),
            ),
        }
    }
}

} // verus!
