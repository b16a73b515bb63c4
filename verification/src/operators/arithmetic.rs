//! Arithmetic operators. Numbers are integer-valued; an operation
//! whose result would leave the representable range is a complaint,
//! never a wrapped or truncated value.
//!
//! The contracts pin the computed values for literal arguments: a
//! literal evaluates to exactly its value and changes nothing, so the
//! fold over literal arguments is fully determined.

use vstd::prelude::*;

use crate::error::{EggError, EggResult};
use crate::evaluator::eval_expr;
use crate::expression::{literal_of, Expression, Value, ValueV};
use crate::scope::{evolves, lemma_evolves_trans, Scope};

use vstd::string::StringExecFns;

verus! {

/// The number a literal argument carries, if it is a number literal.
pub open spec fn literal_number(e: Expression) -> Option<int> {
    match literal_of(e) {
        Some(Value::Number(n)) => Some(n as int),
        _ => None,
    }
}

/// Every argument is a number literal.
pub open spec fn all_literal_numbers(s: Seq<Expression>) -> bool {
    forall|i: int| 0 <= i < s.len() ==> (#[trigger] literal_number(s[i])) is Some
}

/// The left-to-right sum of a run of number literals, identity 0.
pub open spec fn literal_sum(s: Seq<Expression>) -> int
    decreases s.len(),
{
    if s.len() == 0 {
        0
    } else {
        literal_sum(s.drop_last()) + literal_number(s.last())->0
    }
}

/// The left-to-right product of a run of number literals, identity 1.
pub open spec fn literal_product(s: Seq<Expression>) -> int
    decreases s.len(),
{
    if s.len() == 0 {
        1
    } else {
        literal_product(s.drop_last()) * literal_number(s.last())->0
    }
}

/// Every left-to-right partial sum stays within the number type.
pub open spec fn sums_in_range(s: Seq<Expression>) -> bool {
    forall|i: int|
        0 <= i <= s.len() ==> i64::MIN <= #[trigger] literal_sum(s.take(i)) <= i64::MAX
}

/// Every left-to-right partial product stays within the number type.
pub open spec fn products_in_range(s: Seq<Expression>) -> bool {
    forall|i: int|
        0 <= i <= s.len() ==> i64::MIN <= #[trigger] literal_product(s.take(i)) <= i64::MAX
}

/// Taking one more element folds one more literal.
proof fn lemma_take_step(s: Seq<Expression>, i: int)
    requires
        0 <= i < s.len(),
    ensures
        literal_sum(s.take(i + 1)) == literal_sum(s.take(i)) + literal_number(s[i])->0,
        literal_product(s.take(i + 1)) == literal_product(s.take(i)) * literal_number(s[i])->0,
{
    assert(s.take(i + 1).drop_last() =~= s.take(i));
    assert(s.take(i + 1).last() == s[i]);
}

/// Evaluates one argument and demands a number of it. For a literal
/// argument the outcome is exact: the literal's number, or a
/// complaint, with no state change either way.
fn eval_number(arg: &Expression, scope: &mut Scope, fuel: u64) -> (res: EggResult<i64>)
    requires
        old(scope).wf(),
        fuel >= 1,
    ensures
        final(scope).wf(),
        evolves(*old(scope), *final(scope)),
        match literal_of(*arg) {
            Some(Value::Number(n)) => res == Ok::<i64, EggError>(n) && final(scope).same_state(
                *old(scope),
            ),
            Some(_) => (res matches Err(EggError::OperatorComplaint(_))) && final(scope).same_state(*old(scope)),
            None => true,
        },
    decreases fuel, 0int,
{
    match eval_expr(arg, scope, fuel - 1) {
        Ok(Value::Number(n)) => Ok(n),
        Ok(_) => Err(
            EggError::OperatorComplaint(
                String::from_str("please provide numbers as arguments for mathematical operations"),
            ),
        ),
        Err(e) => Err(e),
    }
}

/// `sum(...)`: the n-ary sum of its arguments' values, identity 0.
pub struct Sum;

impl Sum {
    /// Evaluates every argument in order; each must yield a number.
    /// Zero arguments sum to 0; number literals sum to exactly their
    /// fold, with the state untouched, whenever no partial sum leaves
    /// the number type.
    pub fn evaluate(&self, args: &Vec<Expression>, scope: &mut Scope, fuel: u64) -> (res:
        EggResult<Value>)
        requires
            old(scope).wf(),
            fuel >= 1,
        ensures
            final(scope).wf(),
            evolves(*old(scope), *final(scope)),
            res matches Ok(v) ==> v@ is Number,
            args@.len() == 0 ==> (res matches Ok(v) && v@ == ValueV::Number(0)) && final(scope).same_state(*old(scope)),
            all_literal_numbers(args@) && sums_in_range(args@) ==> (res matches Ok(v) && v@
                == ValueV::Number(literal_sum(args@))) && final(scope).same_state(*old(scope)),
        decreases fuel, 1int,
    {
        let ghost lit = all_literal_numbers(args@) && sums_in_range(args@);
        let mut acc: i64 = 0;
        let mut i: usize = 0;
        while i < args.len()
            invariant
                old(scope).wf(),
                scope.wf(),
                evolves(*old(scope), *scope),
                i <= args@.len(),
                fuel >= 1,
                lit == (all_literal_numbers(args@) && sums_in_range(args@)),
                lit ==> acc as int == literal_sum(args@.take(i as int)) && scope.same_state(
                    *old(scope),
                ),
            decreases args@.len() - i,
        {
            let ghost pre = *scope;
            let n = match eval_number(&args[i], scope, fuel) {
                Ok(n) => n,
                Err(e) => {
                    proof {
                        lemma_evolves_trans(*old(scope), pre, *scope);
                        if lit {
                            assert(literal_number(args@[i as int]) is Some);
                        }
                    }
                    return Err(e);
                },
            };
            proof {
                lemma_evolves_trans(*old(scope), pre, *scope);
                if lit {
                    lemma_take_step(args@, i as int);
                }
            }
            acc = match acc.checked_add(n) {
                Some(s) => s,
                None => {
                    proof {
                        if lit {
                            assert(literal_number(args@[i as int]) is Some);
                            assert(i64::MIN <= literal_sum(args@.take(i + 1)) <= i64::MAX);
                        }
                    }
                    return Err(EggError::OperatorComplaint(String::from_str("number overflow")));
                },
            };
            i = i + 1;
        }
        proof {
            assert(args@.take(args@.len() as int) =~= args@);
        }
        Ok(Value::Number(acc))
    }
}

/// `add(...)`: a second name of [`Sum`].
pub struct Add;

impl Add {
    /// Behaves exactly as `sum`.
    pub fn evaluate(&self, args: &Vec<Expression>, scope: &mut Scope, fuel: u64) -> (res:
        EggResult<Value>)
        requires
            old(scope).wf(),
            fuel >= 1,
        ensures
            final(scope).wf(),
            evolves(*old(scope), *final(scope)),
            res matches Ok(v) ==> v@ is Number,
            args@.len() == 0 ==> (res matches Ok(v) && v@ == ValueV::Number(0)) && final(scope).same_state(*old(scope)),
            all_literal_numbers(args@) && sums_in_range(args@) ==> (res matches Ok(v) && v@
                == ValueV::Number(literal_sum(args@))) && final(scope).same_state(*old(scope)),
        decreases fuel, 2int,
    {
        (Sum).evaluate(args, scope, fuel)
    }
}

/// `multiply(...)`: the n-ary product of its arguments' values,
/// identity 1.
pub struct Multiply;

impl Multiply {
    /// Evaluates every argument in order; each must yield a number.
    /// Zero arguments multiply to 1; number literals multiply to
    /// exactly their fold, with the state untouched, whenever no
    /// partial product leaves the number type.
    pub fn evaluate(&self, args: &Vec<Expression>, scope: &mut Scope, fuel: u64) -> (res:
        EggResult<Value>)
        requires
            old(scope).wf(),
            fuel >= 1,
        ensures
            final(scope).wf(),
            evolves(*old(scope), *final(scope)),
            res matches Ok(v) ==> v@ is Number,
            args@.len() == 0 ==> (res matches Ok(v) && v@ == ValueV::Number(1)) && final(scope).same_state(*old(scope)),
            all_literal_numbers(args@) && products_in_range(args@) ==> (res matches Ok(v) && v@
                == ValueV::Number(literal_product(args@))) && final(scope).same_state(
                *old(scope),
            ),
        decreases fuel, 1int,
    {
        let ghost lit = all_literal_numbers(args@) && products_in_range(args@);
        let mut acc: i64 = 1;
        let mut i: usize = 0;
        while i < args.len()
            invariant
                old(scope).wf(),
                scope.wf(),
                evolves(*old(scope), *scope),
                i <= args@.len(),
                fuel >= 1,
                lit == (all_literal_numbers(args@) && products_in_range(args@)),
                lit ==> acc as int == literal_product(args@.take(i as int)) && scope.same_state(
                    *old(scope),
                ),
            decreases args@.len() - i,
        {
            let ghost pre = *scope;
            let n = match eval_number(&args[i], scope, fuel) {
                Ok(n) => n,
                Err(e) => {
                    proof {
                        lemma_evolves_trans(*old(scope), pre, *scope);
                        if lit {
                            assert(literal_number(args@[i as int]) is Some);
                        }
                    }
                    return Err(e);
                },
            };
            proof {
                lemma_evolves_trans(*old(scope), pre, *scope);
                if lit {
                    lemma_take_step(args@, i as int);
                }
            }
            acc = match acc.checked_mul(n) {
                Some(s) => s,
                None => {
                    proof {
                        if lit {
                            assert(literal_number(args@[i as int]) is Some);
                            assert(i64::MIN <= literal_product(args@.take(i + 1)) <= i64::MAX);
                        }
                    }
                    return Err(EggError::OperatorComplaint(String::from_str("number overflow")));
                },
            };
            i = i + 1;
        }
        proof {
            assert(args@.take(args@.len() as int) =~= args@);
        }
        Ok(Value::Number(acc))
    }
}

/// `subtract(a, b)`: the difference of exactly two numbers.
pub struct Subtract;

impl Subtract {
    /// Demands exactly two arguments, both numbers. For two number
    /// literals the outcome is exact: their in-range difference, or a
    /// complaint, with the state untouched.
    pub fn evaluate(&self, args: &Vec<Expression>, scope: &mut Scope, fuel: u64) -> (res:
        EggResult<Value>)
        requires
            old(scope).wf(),
            fuel >= 1,
        ensures
            final(scope).wf(),
            evolves(*old(scope), *final(scope)),
            args@.len() != 2 ==> (res matches Err(EggError::InvalidFunctionCall(_))) && final(scope).same_state(*old(scope)),
            res matches Ok(v) ==> v@ is Number,
            args@.len() == 2 ==> match (literal_of(args@[0]), literal_of(args@[1])) {
                (Some(a), Some(b)) => final(scope).same_state(*old(scope)) && match (a, b) {
                    (Value::Number(x), Value::Number(y)) => match x.checked_sub(y) {
                        Some(d) => res matches Ok(v) && v@ == ValueV::Number(d as int),
                        None => res matches Err(EggError::OperatorComplaint(_)),
                    },
                    _ => res matches Err(EggError::OperatorComplaint(_)),
                },
                _ => true,
            },
        decreases fuel, 1int,
    {
        if args.len() != 2 {
            return Err(EggError::InvalidFunctionCall(String::from_str("expected 2 arguments")));
        }
        let ghost s0 = *scope;
        let a = match eval_number(&args[0], scope, fuel) {
            Ok(n) => n,
            Err(e) => return Err(e),
        };
        let ghost s1 = *scope;
        let b = match eval_number(&args[1], scope, fuel) {
            Ok(n) => n,
            Err(e) => {
                proof {
                    lemma_evolves_trans(s0, s1, *scope);
                }
                return Err(e);
            },
        };
        proof {
            lemma_evolves_trans(s0, s1, *scope);
        }
        match a.checked_sub(b) {
            Some(d) => Ok(Value::Number(d)),
            None => Err(EggError::OperatorComplaint(String::from_str("number overflow"))),
        }
    }
}

/// `divide(a, b)`: the truncated quotient of exactly two numbers;
/// division by zero is a complaint.
pub struct Divide;

impl Divide {
    /// Demands exactly two arguments, both numbers, the second
    /// nonzero. For two number literals the outcome is exact: their
    /// checked quotient, or a complaint, with the state untouched.
    pub fn evaluate(&self, args: &Vec<Expression>, scope: &mut Scope, fuel: u64) -> (res:
        EggResult<Value>)
        requires
            old(scope).wf(),
            fuel >= 1,
        ensures
            final(scope).wf(),
            evolves(*old(scope), *final(scope)),
            args@.len() != 2 ==> (res matches Err(EggError::InvalidFunctionCall(_))) && final(scope).same_state(*old(scope)),
            res matches Ok(v) ==> v@ is Number,
            args@.len() == 2 ==> match (literal_of(args@[0]), literal_of(args@[1])) {
                (Some(a), Some(b)) => final(scope).same_state(*old(scope)) && match (a, b) {
                    (Value::Number(x), Value::Number(y)) => match x.checked_div(y) {
                        Some(q) => res matches Ok(v) && v@ == ValueV::Number(q as int),
                        None => res matches Err(EggError::OperatorComplaint(_)),
                    },
                    _ => res matches Err(EggError::OperatorComplaint(_)),
                },
                _ => true,
            },
        decreases fuel, 1int,
    {
        if args.len() != 2 {
            return Err(EggError::InvalidFunctionCall(String::from_str("expected 2 arguments")));
        }
        let ghost s0 = *scope;
        let a = match eval_number(&args[0], scope, fuel) {
            Ok(n) => n,
            Err(e) => return Err(e),
        };
        let ghost s1 = *scope;
        let b = match eval_number(&args[1], scope, fuel) {
            Ok(n) => n,
            Err(e) => {
                proof {
                    lemma_evolves_trans(s0, s1, *scope);
                }
                return Err(e);
            },
        };
        proof {
            lemma_evolves_trans(s0, s1, *scope);
        }
        match a.checked_div(b) {
            Some(q) => Ok(Value::Number(q)),
            None => Err(EggError::OperatorComplaint(String::from_str("invalid division"))),
        }
    }
}

/// `modulus(a, b)`: the remainder of exactly two numbers; a zero
/// modulus is a complaint.
pub struct Modulus;

impl Modulus {
    /// Demands exactly two arguments, both numbers, the second
    /// nonzero. For two number literals the outcome is exact: their
    /// checked remainder, or a complaint, with the state untouched.
    pub fn evaluate(&self, args: &Vec<Expression>, scope: &mut Scope, fuel: u64) -> (res:
        EggResult<Value>)
        requires
            old(scope).wf(),
            fuel >= 1,
        ensures
            final(scope).wf(),
            evolves(*old(scope), *final(scope)),
            args@.len() != 2 ==> (res matches Err(EggError::InvalidFunctionCall(_))) && final(scope).same_state(*old(scope)),
            res matches Ok(v) ==> v@ is Number,
            args@.len() == 2 ==> match (literal_of(args@[0]), literal_of(args@[1])) {
                (Some(a), Some(b)) => final(scope).same_state(*old(scope)) && match (a, b) {
                    (Value::Number(x), Value::Number(y)) => match x.checked_rem(y) {
                        Some(r) => res matches Ok(v) && v@ == ValueV::Number(r as int),
                        None => res matches Err(EggError::OperatorComplaint(_)),
                    },
                    _ => res matches Err(EggError::OperatorComplaint(_)),
                },
                _ => true,
            },
        decreases fuel, 1int,
    {
        if args.len() != 2 {
            return Err(EggError::InvalidFunctionCall(String::from_str("expected 2 arguments")));
        }
        let ghost s0 = *scope;
        let a = match eval_number(&args[0], scope, fuel) {
            Ok(n) => n,
            Err(e) => return Err(e),
        };
        let ghost s1 = *scope;
        let b = match eval_number(&args[1], scope, fuel) {
            Ok(n) => n,
            Err(e) => {
                proof {
                    lemma_evolves_trans(s0, s1, *scope);
                }
                return Err(e);
            },
        };
        proof {
            lemma_evolves_trans(s0, s1, *scope);
        }
        match a.checked_rem(b) {
            Some(r) => Ok(Value::Number(r)),
            None => Err(EggError::OperatorComplaint(String::from_str("invalid modulus"))),
        }
    }
}

} // verus!
