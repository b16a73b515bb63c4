//! User-defined functions: their definitions and the trusted sharing
//! of definitions through reference counting.

use vstd::prelude::*;

use std::rc::Rc;

use crate::error::{EggError, EggResult};
use crate::expression::{literal_of, Expression, Value, ValueV};
use crate::scope::bindings::Bindings;
use crate::scope::{evolves, lemma_evolves_trans, Scope};

use vstd::string::StringExecFns;

verus! {

/// A function defined by running script code: the names its parameters
/// bind, and the expression evaluated in the call's local frame.
#[derive(Debug)]
pub struct FunctionDefinition {
    /// The names of the parameters of the function.
    pub parameter_names: Vec<String>,
    /// The body of the function.
    pub body: Expression,
}

impl View for FunctionDefinition {
    type V = FunctionDefinition;

    open spec fn view(&self) -> FunctionDefinition {
        *self
    }
}

impl Scope {
    /// Calls the user function registered under `idx`: checks the
    /// argument count against the parameter list, evaluates each
    /// argument expression in the caller's scope, binds the results
    /// positionally in a fresh local frame over the caller's chain,
    /// evaluates the body there, and discards the frame on return.
    pub fn call_function(&mut self, idx: usize, parameters: &Vec<Expression>, fuel: u64) -> (res:
        EggResult<Value>)
        requires
            old(self).wf(),
            fuel >= 1,
        ensures
            final(self).wf(),
            evolves(*old(self), *final(self)),
            !old(self).functions().contains_key(idx) ==> (res matches Err(
                EggError::InvalidFunctionCall(_),
            )) && final(self).same_state(*old(self)),
            old(self).functions().contains_key(idx) && old(self).functions()[idx].parameter_names@.len() != parameters@.len() ==> (res matches Err(
                EggError::InvalidFunctionCall(_),
            )) && final(self).same_state(*old(self)),
            old(self).functions().contains_key(idx) && old(self).functions()[idx].parameter_names@.len() == 0 && parameters@.len() == 0 ==> match literal_of(
                old(self).functions()[idx].body,
            ) {
                Some(v) => (res matches Ok(r) && r@ == v@) && final(self).same_state(*old(self)),
                None => true,
            },
        decreases fuel, 3int,
    {
        let fd = match self.get_function_definition(idx) {
            Ok(fd) => fd,
            Err(e) => return Err(e),
        };
        if parameters.len() != fd.parameter_names.len() {
            return Err(
                EggError::InvalidFunctionCall(
                    String::from_str("wrong number of arguments for this function"),
                ),
            );
        }
        let mut frame = Bindings::new();
        let mut i: usize = 0;
        while i < parameters.len()
            invariant
                old(self).wf(),
                self.wf(),
                evolves(*old(self), *self),
                frame.wf(),
                i <= parameters@.len(),
                i == 0 ==> self.same_state(*old(self)),
                parameters@.len() == fd.parameter_names@.len(),
                old(self).functions().contains_key(idx),
                old(self).functions()[idx].parameter_names@.len() == parameters@.len(),
                fuel >= 1,
            decreases parameters@.len() - i,
        {
            let ghost pre = *self;
            let v = match crate::evaluator::eval_expr(&parameters[i], self, fuel - 1) {
                Ok(v) => v,
                Err(e) => {
                    proof {
                        lemma_evolves_trans(*old(self), pre, *self);
                    }
                    return Err(e);
                },
            };
            proof {
                lemma_evolves_trans(*old(self), pre, *self);
            }
            frame.insert(fd.parameter_names[i].clone(), v);
            i = i + 1;
        }
        let ghost before_push = *self;
        self.push_frame(frame);
        let ghost pushed = *self;
        let res = crate::evaluator::eval_expr(&fd.body, self, fuel - 1);
        self.pop_frame();
        proof {
            assert(evolves(before_push, *self));
            lemma_evolves_trans(*old(self), before_push, *self);
            if parameters@.len() == 0 && literal_of(old(self).functions()[idx].body) is Some {
                assert(pushed.frames_view().drop_last() =~= before_push.frames_view());
                assert(self.frames_view() == before_push.frames_view());
            }
        }
        res
    }
}

/// The name a bare word carries.
pub open spec fn word_name(e: Expression) -> Option<Seq<char>> {
    match e {
        Expression::Word { name } => Some(name@),
        _ => None,
    }
}

/// `fn(param, ..., body)`: registers a new function definition. All
/// arguments but the last must be bare words, the names the call will
/// bind; the last is the body. Yields the value referencing the fresh
/// definition; the index is larger than every index handed out before.
pub struct CreateFunction;

impl CreateFunction {
    /// Demands at least a body.
    pub fn evaluate(&self, args: &Vec<Expression>, scope: &mut Scope, fuel: u64) -> (res:
        EggResult<Value>)
        requires
            old(scope).wf(),
            fuel >= 1,
        ensures
            final(scope).wf(),
            evolves(*old(scope), *final(scope)),
            args@.len() == 0 ==> (res matches Err(EggError::InvalidFunctionDefinition(_)))
                && final(scope).same_state(*old(scope)),
            args@.len() >= 1 && (exists|k: int|
                0 <= k < args@.len() - 1 && (#[trigger] word_name(args@[k])) is None) ==> (res
                matches Err(EggError::InvalidFunctionDefinition(_))) && final(scope).same_state(
                *old(scope),
            ),
            args@.len() >= 1 && (forall|k: int|
                0 <= k < args@.len() - 1 ==> (#[trigger] word_name(args@[k])) is Some) && old(
                scope,
            ).counter() < usize::MAX ==> res is Ok,
            match res {
                Ok(v) => {
                    &&& v@ == ValueV::Function((old(scope).counter() + 1) as nat)
                    &&& !old(scope).functions().contains_key(
                        (old(scope).counter() + 1) as usize,
                    )
                    &&& final(scope).counter() == old(scope).counter() + 1
                    &&& final(scope).same_frames(*old(scope))
                    &&& final(scope).tag_maps() == old(scope).tag_maps()
                    &&& final(scope).objects() == old(scope).objects()
                    &&& final(scope).functions().contains_key(
                        (old(scope).counter() + 1) as usize,
                    )
                    &&& final(scope).functions().remove((old(scope).counter() + 1) as usize)
                        =~= old(scope).functions()
                    &&& ({
                        let fd = final(scope).functions()[(old(scope).counter() + 1) as usize];
                        fd.parameter_names@.len() == args@.len() - 1 && fd.body@
                            == args@.last()@ && forall|k: int|
                            0 <= k < args@.len() - 1 ==> #[trigger] word_name(args@[k]) == Some(
                                fd.parameter_names@[k]@,
                            )
                    })
                },
                Err(_) => true,
            },
        decreases fuel, 1int,
    {
        if args.len() == 0 {
            return Err(
                EggError::InvalidFunctionDefinition(
                    String::from_str("a function definition requires at least a body"),
                ),
            );
        }
        let mut parameter_names: Vec<String> = Vec::new();
        let mut i: usize = 0;
        while i < args.len() - 1
            invariant
                old(scope).wf(),
                scope.wf(),
                *scope == *old(scope),
                args@.len() >= 1,
                i <= args@.len() - 1,
                parameter_names@.len() == i,
                forall|k: int|
                    0 <= k < i ==> #[trigger] word_name(args@[k]) == Some(
                        parameter_names@[k]@,
                    ),
            decreases args@.len() - 1 - i,
        {
            match &args[i] {
                Expression::Word { name } => {
                    parameter_names.push(name.clone());
                },
                _ => {
                    proof {
                        assert(word_name(args@[i as int]) is None);
                    }
                    return Err(
                        EggError::InvalidFunctionDefinition(
                            String::from_str("parameter names must be bare words"),
                        ),
                    );
                },
            }
            i = i + 1;
        }
        let body = args[args.len() - 1].clone();
        let fd = Rc::new(FunctionDefinition { parameter_names, body });
        match scope.new_function(fd) {
            Ok(idx) => {
                proof {
                    assert(scope.functions().remove(idx) =~= old(scope).functions());
                }
                Ok(Value::Function(idx))
            },
            Err(e) => Err(e),
        }
    }
}

/// Relies on `alloc::rc::Rc::clone`: the clone is a second handle to
/// the same allocation, hence carries the same value.
#[verifier::external_body]
pub(crate) fn clone_rc(rc: &Rc<FunctionDefinition>) -> (res: Rc<FunctionDefinition>)
    ensures
        res == *rc,
{
    rc.clone()
}

} // verus!
