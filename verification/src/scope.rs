//! The scope chain: a stack of variable frames over one global store.
//!
//! The bottom frame is the global one and owns the store of function
//! definitions, objects and maps ([`extras`]); every frame above it is
//! the local frame of one user-function call. Lookups, updates and
//! deletions consult the top frame first and then delegate downward,
//! ending at the global frame.

use vstd::prelude::*;

use std::rc::Rc;

use crate::error::{EggError, EggResult};
use crate::expression::{Value, ValueV};
use crate::scope::bindings::Bindings;
use crate::scope::extras::ScopeExtras;
use crate::scope::functions::FunctionDefinition;
use crate::scope::valuemap::ValueMap;

pub mod bindings;
pub mod extras;
pub mod functions;
pub mod maps;
pub mod object;
pub mod valuemap;

use vstd::string::StringExecFns;

verus! {

/// The mappings denoted by a stack of frames, bottom first.
pub open spec fn views_of(s: Seq<Bindings>) -> Seq<Map<Seq<char>, ValueV>> {
    s.map_values(|b: Bindings| b@)
}

/// Every frame's table is well-formed.
pub open spec fn all_wf(s: Seq<Bindings>) -> bool {
    forall|i: int| #![trigger s[i]] 0 <= i < s.len() ==> s[i].wf()
}

/// Index of the topmost frame that binds `name`, or -1 when none does.
pub open spec fn owner_in(frames: Seq<Map<Seq<char>, ValueV>>, name: Seq<char>) -> int
    decreases frames.len(),
{
    if frames.len() == 0 {
        -1
    } else if frames.last().contains_key(name) {
        frames.len() - 1
    } else {
        owner_in(frames.drop_last(), name)
    }
}

/// The value `name` denotes in a stack of frames: the binding of the
/// topmost frame that has one.
pub open spec fn lookup_in(frames: Seq<Map<Seq<char>, ValueV>>, name: Seq<char>) -> Option<
    ValueV,
> {
    let o = owner_in(frames, name);
    if o >= 0 {
        Some(frames[o][name])
    } else {
        None
    }
}

/// The owner index is in range, binds `name`, and no frame above it does;
/// or it is -1 and no frame binds `name`.
pub proof fn lemma_owner_in_props(frames: Seq<Map<Seq<char>, ValueV>>, name: Seq<char>)
    ensures
        -1 <= owner_in(frames, name) < frames.len(),
        owner_in(frames, name) >= 0 ==> frames[owner_in(frames, name)].contains_key(name),
        forall|j: int|
            owner_in(frames, name) < j < frames.len() ==> !(#[trigger] frames[j]).contains_key(
                name,
            ),
    decreases frames.len(),
{
    if frames.len() > 0 && !frames.last().contains_key(name) {
        lemma_owner_in_props(frames.drop_last(), name);
        assert forall|j: int|
            owner_in(frames, name) < j < frames.len() implies !(#[trigger] frames[j]).contains_key(
            name,
        ) by {
            if j < frames.len() - 1 {
                assert(frames.drop_last()[j] == frames[j]);
            }
        }
    }
}

/// Any index that binds `name` while all frames above it do not is the owner.
pub proof fn lemma_owner_in_found(frames: Seq<Map<Seq<char>, ValueV>>, name: Seq<char>, i: int)
    requires
        -1 <= i < frames.len(),
        i >= 0 ==> frames[i].contains_key(name),
        forall|j: int| i < j < frames.len() ==> !(#[trigger] frames[j]).contains_key(name),
    ensures
        owner_in(frames, name) == i,
    decreases frames.len(),
{
    if frames.len() > 0 {
        if i == frames.len() - 1 {
        } else {
            assert(!frames[frames.len() - 1].contains_key(name));
            assert forall|j: int|
                i < j < frames.drop_last().len() implies !(#[trigger] frames.drop_last()[
            j]).contains_key(name) by {
                assert(frames.drop_last()[j] == frames[j]);
            }
            if i >= 0 {
                assert(frames.drop_last()[i] == frames[i]);
            }
            lemma_owner_in_found(frames.drop_last(), name, i);
        }
    }
}

/// Replaces the binding of `name` in the topmost frame that has one.
/// Returns the previous value, or `None` when no frame binds `name`.
fn update_in(frames: &mut Vec<Bindings>, name: &String, value: Value) -> (res: Option<Value>)
    requires
        all_wf(old(frames)@),
    ensures
        all_wf(final(frames)@),
        final(frames)@.len() == old(frames)@.len(),
        ({
            let o = owner_in(views_of(old(frames)@), name@);
            match res {
                Some(prev) => o >= 0 && prev@ == views_of(old(frames)@)[o][name@] && views_of(
                    final(frames)@,
                ) == views_of(old(frames)@).update(
                    o,
                    views_of(old(frames)@)[o].insert(name@, value@),
                ),
                None => o == -1 && views_of(final(frames)@) == views_of(old(frames)@),
            }
        }),
    decreases old(frames)@.len(),
{
    let ghost prevs = frames@;
    if frames.len() == 0 {
        return None;
    }
    let mut top = frames.pop().unwrap();
    if top.contains(name) {
        let prev = top.remove(name).unwrap();
        top.insert(name.clone(), value);
        proof {
            assert(top@ =~= prevs.last()@.insert(name@, value@));
        }
        frames.push(top);
        proof {
            assert(owner_in(views_of(prevs), name@) == prevs.len() - 1);
            assert(views_of(frames@) =~= views_of(prevs).update(
                prevs.len() - 1,
                views_of(prevs)[prevs.len() - 1].insert(name@, value@),
            ));
            assert(all_wf(frames@));
        }
        Some(prev)
    } else {
        let res = update_in(frames, name, value);
        let ghost mid = frames@;
        frames.push(top);
        proof {
            assert(frames@ =~= mid.push(top));
            assert(views_of(prevs.drop_last()) =~= views_of(prevs).drop_last());
            lemma_owner_in_props(views_of(prevs).drop_last(), name@);
            let o = owner_in(views_of(prevs), name@);
            assert(o == owner_in(views_of(prevs).drop_last(), name@));
            assert(frames@.len() == prevs.len());
            assert forall|j: int| 0 <= j < frames@.len() - 1 implies views_of(frames@)[j]
                == views_of(mid)[j] by {
                assert(frames@[j] == mid[j]);
            }
            assert(views_of(frames@)[frames@.len() - 1] == top@);
            assert(views_of(prevs)[prevs.len() - 1] == top@);
            match res {
                Some(_) => {
                    let target = views_of(prevs).update(o, views_of(prevs)[o].insert(name@, value@));
                    assert(views_of(mid) == views_of(prevs).drop_last().update(
                        o,
                        views_of(prevs)[o].insert(name@, value@),
                    ));
                    assert forall|j: int| 0 <= j < views_of(prevs).len() implies views_of(
                        frames@,
                    )[j] == target[j] by {
                        if j < views_of(prevs).len() - 1 {
                            assert(views_of(frames@)[j] == views_of(mid)[j]);
                        }
                    }
                    assert(views_of(frames@) =~= target);
                },
                None => {
                    assert(views_of(mid) == views_of(prevs).drop_last());
                    assert forall|j: int| 0 <= j < views_of(prevs).len() implies views_of(
                        frames@,
                    )[j] == views_of(prevs)[j] by {
                        if j < views_of(prevs).len() - 1 {
                            assert(views_of(frames@)[j] == views_of(mid)[j]);
                        }
                    }
                    assert(views_of(frames@) =~= views_of(prevs));
                },
            }
            assert(all_wf(frames@));
        }
        res
    }
}

/// Removes the binding of `name` from the topmost frame that has one.
/// Returns the removed value, or `None` when no frame binds `name`.
fn remove_in(frames: &mut Vec<Bindings>, name: &String) -> (res: Option<Value>)
    requires
        all_wf(old(frames)@),
    ensures
        all_wf(final(frames)@),
        final(frames)@.len() == old(frames)@.len(),
        ({
            let o = owner_in(views_of(old(frames)@), name@);
            match res {
                Some(prev) => o >= 0 && prev@ == views_of(old(frames)@)[o][name@] && views_of(
                    final(frames)@,
                ) == views_of(old(frames)@).update(
                    o,
                    views_of(old(frames)@)[o].remove(name@),
                ),
                None => o == -1 && views_of(final(frames)@) == views_of(old(frames)@),
            }
        }),
    decreases old(frames)@.len(),
{
    let ghost prevs = frames@;
    if frames.len() == 0 {
        return None;
    }
    let mut top = frames.pop().unwrap();
    if top.contains(name) {
        let prev = top.remove(name).unwrap();
        frames.push(top);
        proof {
            assert(owner_in(views_of(prevs), name@) == prevs.len() - 1);
            assert(views_of(frames@) =~= views_of(prevs).update(
                prevs.len() - 1,
                views_of(prevs)[prevs.len() - 1].remove(name@),
            ));
            assert(all_wf(frames@));
        }
        Some(prev)
    } else {
        let res = remove_in(frames, name);
        let ghost mid = frames@;
        frames.push(top);
        proof {
            assert(frames@ =~= mid.push(top));
            assert(views_of(prevs.drop_last()) =~= views_of(prevs).drop_last());
            lemma_owner_in_props(views_of(prevs).drop_last(), name@);
            let o = owner_in(views_of(prevs), name@);
            assert(o == owner_in(views_of(prevs).drop_last(), name@));
            assert(frames@.len() == prevs.len());
            assert forall|j: int| 0 <= j < frames@.len() - 1 implies views_of(frames@)[j]
                == views_of(mid)[j] by {
                assert(frames@[j] == mid[j]);
            }
            assert(views_of(frames@)[frames@.len() - 1] == top@);
            assert(views_of(prevs)[prevs.len() - 1] == top@);
            match res {
                Some(_) => {
                    let target = views_of(prevs).update(o, views_of(prevs)[o].remove(name@));
                    assert(views_of(mid) == views_of(prevs).drop_last().update(
                        o,
                        views_of(prevs)[o].remove(name@),
                    ));
                    assert forall|j: int| 0 <= j < views_of(prevs).len() implies views_of(
                        frames@,
                    )[j] == target[j] by {
                        if j < views_of(prevs).len() - 1 {
                            assert(views_of(frames@)[j] == views_of(mid)[j]);
                        }
                    }
                    assert(views_of(frames@) =~= target);
                },
                None => {
                    assert(views_of(mid) == views_of(prevs).drop_last());
                    assert forall|j: int| 0 <= j < views_of(prevs).len() implies views_of(
                        frames@,
                    )[j] == views_of(prevs)[j] by {
                        if j < views_of(prevs).len() - 1 {
                            assert(views_of(frames@)[j] == views_of(mid)[j]);
                        }
                    }
                    assert(views_of(frames@) =~= views_of(prevs));
                },
            }
            assert(all_wf(frames@));
        }
        res
    }
}

/// A [`Scope`] keeps track of script state: the chain of variable
/// frames and the single global [`ScopeExtras`] store.
pub struct Scope {
    frames: Vec<Bindings>,
    extras: ScopeExtras,
}

impl Scope {
    /// The frame stack, bottom (global) first.
    pub closed spec fn frames_view(self) -> Seq<Map<Seq<char>, ValueV>> {
        views_of(self.frames@)
    }

    /// The function table of the global store.
    pub closed spec fn functions(self) -> Map<usize, FunctionDefinition> {
        self.extras.functions_view()
    }

    /// The object table of the global store.
    pub closed spec fn objects(self) -> Map<usize, Map<ValueV, ValueV>> {
        self.extras.objects_view()
    }

    /// The map table of the global store.
    pub closed spec fn tag_maps(self) -> Map<Seq<char>, Map<ValueV, ValueV>> {
        self.extras.maps_view()
    }

    /// How many indices the allocation counter has handed out.
    pub closed spec fn counter(self) -> nat {
        self.extras.counter_view()
    }

    /// There is a global frame, and every table is well-formed.
    pub closed spec fn wf(self) -> bool {
        &&& self.frames@.len() >= 1
        &&& all_wf(self.frames@)
        &&& self.extras.wf()
    }

    /// The value `name` denotes, through the whole chain.
    pub open spec fn lookup(self, name: Seq<char>) -> Option<ValueV> {
        lookup_in(self.frames_view(), name)
    }

    /// The frames are as they were.
    pub open spec fn same_frames(self, other: Scope) -> bool {
        self.frames_view() == other.frames_view()
    }

    /// The global store is as it was.
    pub open spec fn same_extras(self, other: Scope) -> bool {
        &&& self.functions() == other.functions()
        &&& self.objects() == other.objects()
        &&& self.tag_maps() == other.tag_maps()
        &&& self.counter() == other.counter()
    }

    /// Frames and store are as they were.
    pub open spec fn same_state(self, other: Scope) -> bool {
        self.same_frames(other) && self.same_extras(other)
    }

    /// Everything except the map table is as it was.
    pub open spec fn same_but_tag_maps(self, other: Scope) -> bool {
        &&& self.same_frames(other)
        &&& self.functions() == other.functions()
        &&& self.objects() == other.objects()
        &&& self.counter() == other.counter()
    }

    /// Everything except the object table and the counter is as it was.
    pub open spec fn same_but_object_table(self, other: Scope) -> bool {
        &&& self.same_frames(other)
        &&& self.functions() == other.functions()
        &&& self.tag_maps() == other.tag_maps()
    }

    /// A scope of one empty global frame and an empty store.
    pub fn empty() -> (res: Scope)
        ensures
            res.wf(),
            res.frames_view() =~= seq![Map::<Seq<char>, ValueV>::empty()],
            res.functions() == Map::<usize, FunctionDefinition>::empty(),
            res.objects() == Map::<usize, Map<ValueV, ValueV>>::empty(),
            res.tag_maps() == Map::<Seq<char>, Map<ValueV, ValueV>>::empty(),
            res.counter() == 0,
    {
        let mut frames = Vec::new();
        frames.push(Bindings::new());
        let res = Scope { frames, extras: ScopeExtras::new() };
        proof {
            assert(res.frames_view() =~= seq![Map::<Seq<char>, ValueV>::empty()]);
        }
        res
    }

    /// Whether `name` is bound anywhere in the chain.
    pub fn exists_binding(&self, name: &String) -> (res: bool)
        requires
            self.wf(),
        ensures
            res == (self.lookup(name@) is Some),
    {
        proof {
            lemma_owner_in_props(self.frames_view(), name@);
        }
        let ghost fv = self.frames_view();
        let mut i: usize = self.frames.len();
        while i > 0
            invariant
                i <= self.frames@.len(),
                fv == self.frames_view(),
                forall|j: int| i <= j < fv.len() ==> !(#[trigger] fv[j]).contains_key(name@),
            decreases i,
        {
            i = i - 1;
            if self.frames[i].contains(name) {
                proof {
                    lemma_owner_in_found(fv, name@, i as int);
                }
                return true;
            }
        }
        proof {
            lemma_owner_in_found(fv, name@, -1);
        }
        false
    }

    /// Whether `name` is bound in the current (topmost) frame itself.
    pub fn exists_locally(&self, name: &String) -> (res: bool)
        requires
            self.wf(),
        ensures
            res == self.frames_view().last().contains_key(name@),
    {
        self.frames[self.frames.len() - 1].contains(name)
    }

    /// The value bound to `name`, consulting the top frame first.
    pub fn get(&self, name: &String) -> (res: Option<&Value>)
        requires
            self.wf(),
        ensures
            match res {
                Some(v) => self.lookup(name@) == Some(v@),
                None => self.lookup(name@) is None,
            },
    {
        proof {
            lemma_owner_in_props(self.frames_view(), name@);
        }
        let ghost fv = self.frames_view();
        let mut i: usize = self.frames.len();
        while i > 0
            invariant
                i <= self.frames@.len(),
                fv == self.frames_view(),
                self.wf(),
                forall|j: int| i <= j < fv.len() ==> !(#[trigger] fv[j]).contains_key(name@),
            decreases i,
        {
            i = i - 1;
            let hit = self.frames[i].get(name);
            match hit {
                Some(v) => {
                    proof {
                        lemma_owner_in_found(fv, name@, i as int);
                    }
                    return Some(v);
                },
                None => {},
            }
        }
        proof {
            lemma_owner_in_found(fv, name@, -1);
        }
        None
    }

    /// Defines `name` in the current frame only; complains if the
    /// current frame already binds it. Shadowing an enclosing frame's
    /// binding of the same name is allowed and intentional.
    pub fn insert(&mut self, name: String, value: Value) -> (res: EggResult<()>)
        requires
            old(self).wf(),
        ensures
            final(self).wf(),
            final(self).same_extras(*old(self)),
            final(self).frames_view().len() == old(self).frames_view().len(),
            match res {
                Ok(_) => !old(self).frames_view().last().contains_key(name@)
                    && final(self).frames_view() == old(self).frames_view().update(
                    old(self).frames_view().len() - 1,
                    old(self).frames_view().last().insert(name@, value@),
                ),
                Err(e) => old(self).frames_view().last().contains_key(name@) && (e matches
                    EggError::OperatorComplaint(_)) && final(self).same_frames(*old(self)),
            },
    {
        let ghost pre = self.frames@;
        let mut top = self.frames.pop().unwrap();
        if top.contains(&name) {
            self.frames.push(top);
            proof {
                assert(self.frames@ =~= pre);
            }
            let mut msg = String::new();
            msg.append("variable already defined: ");
            msg.append(name.as_str());
            return Err(EggError::OperatorComplaint(msg));
        }
        top.insert(name, value);
        self.frames.push(top);
        proof {
            assert(self.frames_view() =~= old(self).frames_view().update(
                old(self).frames_view().len() - 1,
                old(self).frames_view().last().insert(name@, value@),
            ));
        }
        Ok(())
    }

    /// Replaces the value of `name` in the topmost frame that binds it,
    /// and hands back the previous value; fails with `UndefinedBinding`
    /// when no frame in the chain binds `name`.
    pub fn update(&mut self, name: &String, value: Value) -> (res: EggResult<Value>)
        requires
            old(self).wf(),
        ensures
            final(self).wf(),
            final(self).same_extras(*old(self)),
            final(self).frames_view().len() == old(self).frames_view().len(),
            match res {
                Ok(prev) => old(self).lookup(name@) == Some(prev@) && final(self).frames_view()
                    == old(self).frames_view().update(
                    owner_in(old(self).frames_view(), name@),
                    old(self).frames_view()[owner_in(old(self).frames_view(), name@)].insert(
                        name@,
                        value@,
                    ),
                ) && final(self).lookup(name@) == Some(value@),
                Err(e) => old(self).lookup(name@) is None && (e matches EggError::UndefinedBinding(
                    n,
                ) && n@ == name@) && final(self).same_frames(*old(self)),
            },
    {
        proof {
            lemma_owner_in_props(self.frames_view(), name@);
        }
        let res = update_in(&mut self.frames, name, value);
        match res {
            Some(prev) => {
                proof {
                    let o = owner_in(old(self).frames_view(), name@);
                    let nf = self.frames_view();
                    assert(nf[o].contains_key(name@));
                    assert forall|j: int| o < j < nf.len() implies !(#[trigger] nf[j]).contains_key(
                        name@,
                    ) by {
                        assert(nf[j] == old(self).frames_view()[j]);
                    }
                    lemma_owner_in_found(nf, name@, o);
                }
                Ok(prev)
            },
            None => Err(EggError::UndefinedBinding(name.clone())),
        }
    }

    /// Unbinds `name` from the topmost frame that binds it. When the
    /// removed value references a function or an object, the referenced
    /// entry is deleted from the global store first (the cascading
    /// delete). Returns the removed value.
    pub fn delete(&mut self, name: &String) -> (res: Option<Value>)
        requires
            old(self).wf(),
        ensures
            final(self).wf(),
            final(self).frames_view().len() == old(self).frames_view().len(),
            final(self).counter() == old(self).counter(),
            match res {
                Some(v) => old(self).lookup(name@) == Some(v@) && final(self).frames_view() == old(self).frames_view().update(
                    owner_in(old(self).frames_view(), name@),
                    old(self).frames_view()[owner_in(old(self).frames_view(), name@)].remove(
                        name@,
                    ),
                ),
                None => old(self).lookup(name@) is None && final(self).same_frames(*old(self)),
            },
            ({
                let deleted_fn: Option<nat> = match old(self).lookup(name@) {
                    Some(ValueV::Function(fi)) => Some(fi),
                    _ => None,
                };
                match deleted_fn {
                    Some(fi) => final(self).functions() =~= old(self).functions().remove(
                        fi as usize,
                    ),
                    None => final(self).functions() == old(self).functions(),
                }
            }),
            ({
                let deleted_obj: Option<nat> = match old(self).lookup(name@) {
                    Some(ValueV::Object(oi)) => Some(oi),
                    _ => None,
                };
                match deleted_obj {
                    Some(oi) => final(self).objects() =~= old(self).objects().remove(oi as usize),
                    None => final(self).objects() == old(self).objects(),
                }
            }),
            final(self).tag_maps() == old(self).tag_maps(),
    {
        proof {
            lemma_owner_in_props(self.frames_view(), name@);
        }
        let looked = match self.get(name) {
            Some(v) => Some(v.clone()),
            None => None,
        };
        match looked {
            Some(Value::Function(idx)) => {
                let removed = self.extras.delete_function(idx);
                proof {
                    if removed is None {
                        assert(self.functions() =~= old(self).functions().remove(idx));
                    }
                }
            },
            Some(Value::Object(idx)) => {
                let taken = self.extras.take_object(idx);
                proof {
                    if taken is None {
                        assert(self.objects() =~= old(self).objects().remove(idx));
                    }
                }
            },
            _ => {},
        }
        remove_in(&mut self.frames, name)
    }

    /// Pushes the local frame of one user-function call.
    pub fn push_frame(&mut self, frame: Bindings)
        requires
            old(self).wf(),
            frame.wf(),
        ensures
            final(self).wf(),
            final(self).frames_view() == old(self).frames_view().push(frame@),
            final(self).same_extras(*old(self)),
    {
        self.frames.push(frame);
        proof {
            assert(self.frames_view() =~= old(self).frames_view().push(frame@));
        }
    }

    /// Registers a function definition under a fresh index; the index
    /// is larger than every index handed out before, so a deleted
    /// definition is never resurrected.
    pub fn new_function(&mut self, fd: Rc<FunctionDefinition>) -> (res: EggResult<usize>)
        requires
            old(self).wf(),
        ensures
            final(self).wf(),
            final(self).same_frames(*old(self)),
            final(self).tag_maps() == old(self).tag_maps(),
            final(self).objects() == old(self).objects(),
            match res {
                Ok(idx) => idx == old(self).counter() + 1 && !old(self).functions().contains_key(
                    idx,
                ) && final(self).functions() == old(self).functions().insert(idx, fd@)
                    && final(self).counter() == old(self).counter() + 1,
                Err(e) => (e matches EggError::OperatorComplaint(_)) && final(self).functions()
                    == old(self).functions() && final(self).counter() == old(self).counter()
                    && old(self).counter() == usize::MAX,
            },
    {
        match self.extras.new_function(fd) {
            Some(idx) => Ok(idx),
            None => Err(
                EggError::OperatorComplaint(String::from_str("index counter exhausted")),
            ),
        }
    }

    /// The definition registered under `idx`, shared; fails with
    /// `InvalidFunctionCall` when no live function carries that index.
    pub fn get_function_definition(&self, idx: usize) -> (res: EggResult<Rc<FunctionDefinition>>)
        requires
            self.wf(),
        ensures
            match res {
                Ok(fd) => self.functions().contains_key(idx) && fd@ == self.functions()[idx],
                Err(e) => !self.functions().contains_key(idx) && (e matches
                    EggError::InvalidFunctionCall(_)),
            },
    {
        match self.extras.get_function(idx) {
            Some(rc) => Ok(crate::scope::functions::clone_rc(rc)),
            None => Err(
                EggError::InvalidFunctionCall(String::from_str("function index is not live")),
            ),
        }
    }

    /// The function index bound to `name`, when `name` denotes a function.
    pub fn get_function(&self, name: &String) -> (res: Option<usize>)
        requires
            self.wf(),
        ensures
            match res {
                Some(idx) => self.lookup(name@) == Some(ValueV::Function(idx as nat)),
                None => !(self.lookup(name@) matches Some(ValueV::Function(_))),
            },
    {
        match self.get(name) {
            Some(Value::Function(idx)) => Some(*idx),
            _ => None,
        }
    }

    /// Unregisters the definition under `idx`.
    pub fn delete_function(&mut self, idx: usize) -> (res: Option<Rc<FunctionDefinition>>)
        requires
            old(self).wf(),
        ensures
            final(self).wf(),
            final(self).same_frames(*old(self)),
            final(self).tag_maps() == old(self).tag_maps(),
            final(self).objects() == old(self).objects(),
            final(self).counter() == old(self).counter(),
            final(self).functions() =~= old(self).functions().remove(idx),
            match res {
                Some(fd) => old(self).functions().contains_key(idx) && fd@ == old(self).functions()[idx],
                None => !old(self).functions().contains_key(idx),
            },
    {
        let res = self.extras.delete_function(idx);
        proof {
            if res is None {
                assert(self.functions() =~= old(self).functions().remove(idx));
            }
        }
        res
    }

    /// Creates a fresh, empty object and hands back the value that
    /// references it.
    pub fn create_object(&mut self) -> (res: EggResult<Value>)
        requires
            old(self).wf(),
        ensures
            final(self).wf(),
            final(self).same_frames(*old(self)),
            final(self).tag_maps() == old(self).tag_maps(),
            final(self).functions() == old(self).functions(),
            match res {
                Ok(v) => {
                    &&& v@ == ValueV::Object((old(self).counter() + 1) as nat)
                    &&& !old(self).objects().contains_key((old(self).counter() + 1) as usize)
                    &&& final(self).objects() == old(self).objects().insert(
                        (old(self).counter() + 1) as usize,
                        Map::<ValueV, ValueV>::empty(),
                    )
                    &&& final(self).counter() == old(self).counter() + 1
                },
                Err(e) => (e matches EggError::OperatorComplaint(_)) && final(self).objects()
                    == old(self).objects() && final(self).counter() == old(self).counter()
                    && old(self).counter() == usize::MAX,
            },
    {
        match self.extras.new_object() {
            Some(idx) => Ok(Value::Object(idx)),
            None => Err(
                EggError::OperatorComplaint(String::from_str("index counter exhausted")),
            ),
        }
    }

    /// The index `tag` references, when `tag` references a live object.
    pub fn get_object_tag(&self, tag: &Value) -> (res: EggResult<usize>)
        requires
            self.wf(),
        ensures
            match res {
                Ok(idx) => tag@ == ValueV::Object(idx as nat) && self.objects().contains_key(idx),
                Err(e) => (e matches EggError::InvalidObjectReference(v) && v@ == tag@) && (match
                    tag@ {
                    ValueV::Object(i) => !self.objects().contains_key(i as usize),
                    _ => true,
                }),
            },
    {
        match tag {
            Value::Object(idx) => {
                if self.extras.get_object(*idx).is_some() {
                    Ok(*idx)
                } else {
                    Err(EggError::InvalidObjectReference(tag.clone()))
                }
            },
            _ => Err(EggError::InvalidObjectReference(tag.clone())),
        }
    }

    /// The table of the live object under `idx`.
    pub fn get_object(&self, idx: usize) -> (res: Option<&ValueMap>)
        requires
            self.wf(),
        ensures
            match res {
                Some(m) => self.objects().contains_key(idx) && m@ == self.objects()[idx] && m.wf(),
                None => !self.objects().contains_key(idx),
            },
    {
        self.extras.get_object(idx)
    }

    /// Removes the object under `idx` from the store.
    pub fn delete_object(&mut self, idx: usize) -> (res: Option<ValueMap>)
        requires
            old(self).wf(),
        ensures
            final(self).wf(),
            final(self).same_frames(*old(self)),
            final(self).tag_maps() == old(self).tag_maps(),
            final(self).functions() == old(self).functions(),
            final(self).counter() == old(self).counter(),
            final(self).objects() =~= old(self).objects().remove(idx),
            res is Some <==> old(self).objects().contains_key(idx),
    {
        let res = self.extras.take_object(idx);
        proof {
            if res is None {
                assert(self.objects() =~= old(self).objects().remove(idx));
            }
        }
        res
    }

    /// Stores `value` under `key` in the live object `idx`, returning
    /// the value it replaces.
    pub fn object_insert(&mut self, idx: usize, key: Value, value: Value) -> (res: Option<Value>)
        requires
            old(self).wf(),
            old(self).objects().contains_key(idx),
        ensures
            final(self).wf(),
            final(self).same_frames(*old(self)),
            final(self).tag_maps() == old(self).tag_maps(),
            final(self).functions() == old(self).functions(),
            final(self).counter() == old(self).counter(),
            final(self).objects() == old(self).objects().insert(
                idx,
                old(self).objects()[idx].insert(key@, value@),
            ),
            match res {
                Some(v) => old(self).objects()[idx].contains_key(key@) && v@ == old(self).objects()[idx][key@],
                None => !old(self).objects()[idx].contains_key(key@),
            },
    {
        let mut table = self.extras.take_object(idx).unwrap();
        let res = table.insert(key, value);
        self.extras.put_object(idx, table);
        proof {
            assert(self.objects() =~= old(self).objects().insert(
                idx,
                old(self).objects()[idx].insert(key@, value@),
            ));
        }
        res
    }

    /// Removes `key` from the live object `idx`, returning the value it
    /// carried.
    pub fn object_remove(&mut self, idx: usize, key: &Value) -> (res: Option<Value>)
        requires
            old(self).wf(),
            old(self).objects().contains_key(idx),
        ensures
            final(self).wf(),
            final(self).same_frames(*old(self)),
            final(self).tag_maps() == old(self).tag_maps(),
            final(self).functions() == old(self).functions(),
            final(self).counter() == old(self).counter(),
            final(self).objects() == old(self).objects().insert(
                idx,
                old(self).objects()[idx].remove(key@),
            ),
            match res {
                Some(v) => old(self).objects()[idx].contains_key(key@) && v@ == old(self).objects()[idx][key@],
                None => !old(self).objects()[idx].contains_key(key@),
            },
    {
        let mut table = self.extras.take_object(idx).unwrap();
        let res = table.remove(key);
        self.extras.put_object(idx, table);
        proof {
            if res is None {
                assert(old(self).objects()[idx].remove(key@) =~= old(self).objects()[idx]);
            }
            assert(self.objects() =~= old(self).objects().insert(
                idx,
                old(self).objects()[idx].remove(key@),
            ));
        }
        res
    }

    /// Empties the live object `idx`.
    pub fn object_clear(&mut self, idx: usize)
        requires
            old(self).wf(),
            old(self).objects().contains_key(idx),
        ensures
            final(self).wf(),
            final(self).same_frames(*old(self)),
            final(self).tag_maps() == old(self).tag_maps(),
            final(self).functions() == old(self).functions(),
            final(self).counter() == old(self).counter(),
            final(self).objects() == old(self).objects().insert(
                idx,
                Map::<ValueV, ValueV>::empty(),
            ),
    {
        let mut table = self.extras.take_object(idx).unwrap();
        table.clear();
        self.extras.put_object(idx, table);
        proof {
            assert(self.objects() =~= old(self).objects().insert(
                idx,
                Map::<ValueV, ValueV>::empty(),
            ));
        }
    }

    /// The table of the live map under `tag`.
    pub fn get_map(&self, tag: &String) -> (res: Option<&ValueMap>)
        requires
            self.wf(),
        ensures
            match res {
                Some(m) => self.tag_maps().contains_key(tag@) && m@ == self.tag_maps()[tag@]
                    && m.wf(),
                None => !self.tag_maps().contains_key(tag@),
            },
    {
        self.extras.get_map(tag)
    }

    /// Whether `tag` names a live map; map tags must be strings.
    pub fn contains_map(&self, tag: &Value) -> (res: EggResult<bool>)
        requires
            self.wf(),
        ensures
            match res {
                Ok(b) => (tag@ matches ValueV::Str(t) && b == self.tag_maps().contains_key(t)),
                Err(e) => !(tag@ is Str) && (e matches EggError::InvalidMapTag(v, _) && v@ == tag@),
            },
    {
        match tag {
            Value::String(s) => Ok(self.extras.get_map(s).is_some()),
            _ => Err(
                EggError::InvalidMapTag(tag.clone(), String::from_str("map tag must be a string")),
            ),
        }
    }

    /// Creates an empty map under `tag`; the tag must be a string that
    /// no live map carries yet.
    pub fn new_map(&mut self, tag: Value) -> (res: EggResult<String>)
        requires
            old(self).wf(),
        ensures
            final(self).wf(),
            final(self).same_frames(*old(self)),
            final(self).functions() == old(self).functions(),
            final(self).objects() == old(self).objects(),
            final(self).counter() == old(self).counter(),
            match res {
                Ok(s) => tag@ == ValueV::Str(s@) && !old(self).tag_maps().contains_key(s@)
                    && final(self).tag_maps() == old(self).tag_maps().insert(
                    s@,
                    Map::<ValueV, ValueV>::empty(),
                ),
                Err(e) => (e matches EggError::InvalidMapTag(_, _)) && (match tag@ {
                    ValueV::Str(t) => old(self).tag_maps().contains_key(t),
                    _ => true,
                }) && final(self).tag_maps() == old(self).tag_maps(),
            },
    {
        match tag {
            Value::String(s) => {
                if self.extras.new_map(s.clone()) {
                    Ok(s)
                } else {
                    Err(
                        EggError::InvalidMapTag(
                            Value::String(s),
                            String::from_str("map tag already exists"),
                        ),
                    )
                }
            },
            _ => Err(
                EggError::InvalidMapTag(tag, String::from_str("map tag must be a string")),
            ),
        }
    }

    /// Removes the map under `tag`; reports whether one was live.
    pub fn delete_map(&mut self, tag: Value) -> (res: EggResult<bool>)
        requires
            old(self).wf(),
        ensures
            final(self).wf(),
            final(self).same_frames(*old(self)),
            final(self).functions() == old(self).functions(),
            final(self).objects() == old(self).objects(),
            final(self).counter() == old(self).counter(),
            match res {
                Ok(b) => (tag@ matches ValueV::Str(t) && b == old(self).tag_maps().contains_key(t)
                    && final(self).tag_maps() =~= old(self).tag_maps().remove(t)),
                Err(e) => !(tag@ is Str) && (e matches EggError::InvalidMapTag(v, _) && v@ == tag@)
                    && final(self).tag_maps() == old(self).tag_maps(),
            },
    {
        match tag {
            Value::String(s) => {
                let taken = self.extras.take_map(&s);
                proof {
                    if taken is None {
                        assert(self.tag_maps() =~= old(self).tag_maps().remove(s@));
                    }
                }
                Ok(taken.is_some())
            },
            _ => Err(
                EggError::InvalidMapTag(tag, String::from_str("map tag must be a string")),
            ),
        }
    }

    /// The value under `key` in the live map `tag`; `Nil` when the map
    /// holds no such key.
    pub fn map_get(&self, tag: &Value, key: &Value) -> (res: EggResult<Value>)
        requires
            self.wf(),
        ensures
            match res {
                Ok(v) => (tag@ matches ValueV::Str(t) && self.tag_maps().contains_key(t) && v@ == (
                    if self.tag_maps()[t].contains_key(key@) {
                        self.tag_maps()[t][key@]
                    } else {
                        ValueV::Nil
                    })),
                Err(e) => match tag@ {
                    ValueV::Str(t) => !self.tag_maps().contains_key(t) && (e matches
                        EggError::MapNotFound(_)),
                    _ => e matches EggError::InvalidMapTag(_, _),
                },
            },
    {
        match tag {
            Value::String(s) => match self.extras.get_map(s) {
                Some(m) => match m.get(key) {
                    Some(v) => Ok(v.clone()),
                    None => Ok(Value::Nil),
                },
                None => Err(EggError::MapNotFound(s.clone())),
            },
            _ => Err(
                EggError::InvalidMapTag(tag.clone(), String::from_str("map tag must be a string")),
            ),
        }
    }

    /// Whether the live map `tag` holds `key`.
    pub fn map_has(&self, tag: &Value, key: &Value) -> (res: EggResult<bool>)
        requires
            self.wf(),
        ensures
            match res {
                Ok(b) => (tag@ matches ValueV::Str(t) && self.tag_maps().contains_key(t) && b
                    == self.tag_maps()[t].contains_key(key@)),
                Err(e) => match tag@ {
                    ValueV::Str(t) => !self.tag_maps().contains_key(t) && (e matches
                        EggError::MapNotFound(_)),
                    _ => e matches EggError::InvalidMapTag(_, _),
                },
            },
    {
        match tag {
            Value::String(s) => match self.extras.get_map(s) {
                Some(m) => Ok(m.contains(key)),
                None => Err(EggError::MapNotFound(s.clone())),
            },
            _ => Err(
                EggError::InvalidMapTag(tag.clone(), String::from_str("map tag must be a string")),
            ),
        }
    }

    /// How many keys the live map `tag` holds.
    pub fn map_size(&self, tag: &Value) -> (res: EggResult<usize>)
        requires
            self.wf(),
        ensures
            match res {
                Ok(n) => (tag@ matches ValueV::Str(t) && self.tag_maps().contains_key(t) && n
                    == self.tag_maps()[t].len()),
                Err(e) => match tag@ {
                    ValueV::Str(t) => !self.tag_maps().contains_key(t) && (e matches
                        EggError::MapNotFound(_)),
                    _ => e matches EggError::InvalidMapTag(_, _),
                },
            },
    {
        match tag {
            Value::String(s) => match self.extras.get_map(s) {
                Some(m) => Ok(m.size()),
                None => Err(EggError::MapNotFound(s.clone())),
            },
            _ => Err(
                EggError::InvalidMapTag(tag.clone(), String::from_str("map tag must be a string")),
            ),
        }
    }

    /// Stores `value` under `key` in the live map `tag`, returning the
    /// value it replaces.
    pub fn map_insert(&mut self, tag: Value, key: Value, value: Value) -> (res: EggResult<
        Option<Value>,
    >)
        requires
            old(self).wf(),
        ensures
            final(self).wf(),
            final(self).same_frames(*old(self)),
            final(self).functions() == old(self).functions(),
            final(self).objects() == old(self).objects(),
            final(self).counter() == old(self).counter(),
            match res {
                Ok(prev) => (tag@ matches ValueV::Str(t) && old(self).tag_maps().contains_key(t)
                    && final(self).tag_maps() == old(self).tag_maps().insert(
                    t,
                    old(self).tag_maps()[t].insert(key@, value@),
                ) && (match prev {
                    Some(p) => old(self).tag_maps()[t].contains_key(key@) && p@ == old(self).tag_maps()[t][key@],
                    None => !old(self).tag_maps()[t].contains_key(key@),
                })),
                Err(e) => (match tag@ {
                    ValueV::Str(t) => !old(self).tag_maps().contains_key(t) && (e matches
                        EggError::MapNotFound(_)),
                    _ => e matches EggError::InvalidMapTag(_, _),
                }) && final(self).tag_maps() == old(self).tag_maps(),
            },
    {
        match tag {
            Value::String(s) => match self.extras.take_map(&s) {
                Some(entry) => {
                    let (tag_owned, mut table) = entry;
                    let prev = table.insert(key, value);
                    self.extras.put_map(tag_owned, table);
                    proof {
                        assert(self.tag_maps() =~= old(self).tag_maps().insert(
                            s@,
                            old(self).tag_maps()[s@].insert(key@, value@),
                        ));
                    }
                    Ok(prev)
                },
                None => Err(EggError::MapNotFound(s.clone())),
            },
            _ => Err(
                EggError::InvalidMapTag(tag, String::from_str("map tag must be a string")),
            ),
        }
    }

    /// Removes `key` from the live map `tag`, returning the value it
    /// carried.
    pub fn map_remove(&mut self, tag: Value, key: &Value) -> (res: EggResult<Option<Value>>)
        requires
            old(self).wf(),
        ensures
            final(self).wf(),
            final(self).same_frames(*old(self)),
            final(self).functions() == old(self).functions(),
            final(self).objects() == old(self).objects(),
            final(self).counter() == old(self).counter(),
            match res {
                Ok(prev) => (tag@ matches ValueV::Str(t) && old(self).tag_maps().contains_key(t)
                    && final(self).tag_maps() == old(self).tag_maps().insert(
                    t,
                    old(self).tag_maps()[t].remove(key@),
                ) && (match prev {
                    Some(p) => old(self).tag_maps()[t].contains_key(key@) && p@ == old(self).tag_maps()[t][key@],
                    None => !old(self).tag_maps()[t].contains_key(key@),
                })),
                Err(e) => (match tag@ {
                    ValueV::Str(t) => !old(self).tag_maps().contains_key(t) && (e matches
                        EggError::MapNotFound(_)),
                    _ => e matches EggError::InvalidMapTag(_, _),
                }) && final(self).tag_maps() == old(self).tag_maps(),
            },
    {
        match tag {
            Value::String(s) => match self.extras.take_map(&s) {
                Some(entry) => {
                    let (tag_owned, mut table) = entry;
                    let prev = table.remove(key);
                    self.extras.put_map(tag_owned, table);
                    proof {
                        if prev is None {
                            assert(old(self).tag_maps()[s@].remove(key@) =~= old(self).tag_maps()[s@]);
                        }
                        assert(self.tag_maps() =~= old(self).tag_maps().insert(
                            s@,
                            old(self).tag_maps()[s@].remove(key@),
                        ));
                    }
                    Ok(prev)
                },
                None => Err(EggError::MapNotFound(s.clone())),
            },
            _ => Err(
                EggError::InvalidMapTag(tag, String::from_str("map tag must be a string")),
            ),
        }
    }

    /// Empties the live map `tag`.
    pub fn map_clear(&mut self, tag: Value) -> (res: EggResult<()>)
        requires
            old(self).wf(),
        ensures
            final(self).wf(),
            final(self).same_frames(*old(self)),
            final(self).functions() == old(self).functions(),
            final(self).objects() == old(self).objects(),
            final(self).counter() == old(self).counter(),
            match res {
                Ok(_) => (tag@ matches ValueV::Str(t) && old(self).tag_maps().contains_key(t)
                    && final(self).tag_maps() == old(self).tag_maps().insert(
                    t,
                    Map::<ValueV, ValueV>::empty(),
                )),
                Err(e) => (match tag@ {
                    ValueV::Str(t) => !old(self).tag_maps().contains_key(t) && (e matches
                        EggError::MapNotFound(_)),
                    _ => e matches EggError::InvalidMapTag(_, _),
                }) && final(self).tag_maps() == old(self).tag_maps(),
            },
    {
        match tag {
            Value::String(s) => match self.extras.take_map(&s) {
                Some(entry) => {
                    let (tag_owned, mut table) = entry;
                    table.clear();
                    self.extras.put_map(tag_owned, table);
                    proof {
                        assert(self.tag_maps() =~= old(self).tag_maps().insert(
                            s@,
                            Map::<ValueV, ValueV>::empty(),
                        ));
                    }
                    Ok(())
                },
                None => Err(EggError::MapNotFound(s.clone())),
            },
            _ => Err(
                EggError::InvalidMapTag(tag, String::from_str("map tag must be a string")),
            ),
        }
    }

    /// Discards the topmost local frame when its call returns.
    pub fn pop_frame(&mut self)
        requires
            old(self).wf(),
            old(self).frames_view().len() >= 2,
        ensures
            final(self).wf(),
            final(self).frames_view() == old(self).frames_view().drop_last(),
            final(self).same_extras(*old(self)),
    {
        let _ = self.frames.pop();
        proof {
            assert(self.frames_view() =~= old(self).frames_view().drop_last());
        }
    }
}

/// What every evaluation step preserves: the frame count (local frames
/// never leak), the monotonicity of the allocation counter, and the
/// deadness of deleted function and object indices (an index the
/// counter has passed and that is not live never comes back to life).
pub open spec fn evolves(a: Scope, b: Scope) -> bool {
    &&& b.frames_view().len() == a.frames_view().len()
    &&& b.counter() >= a.counter()
    &&& forall|i: usize|
        #![trigger b.functions().contains_key(i)]
        i as nat <= a.counter() && !a.functions().contains_key(i) ==> !b.functions().contains_key(
            i,
        )
    &&& forall|i: usize|
        #![trigger b.objects().contains_key(i)]
        i as nat <= a.counter() && !a.objects().contains_key(i) ==> !b.objects().contains_key(i)
}

/// `evolves` chains across consecutive evaluation steps.
pub proof fn lemma_evolves_trans(a: Scope, b: Scope, c: Scope)
    requires
        evolves(a, b),
        evolves(b, c),
    ensures
        evolves(a, c),
{
}

/// The global frame a default scope starts from: the boolean constants
/// and one named constant for each tag that `typeof` can hand out.
pub open spec fn default_globals() -> Map<Seq<char>, ValueV> {
    Map::<Seq<char>, ValueV>::empty().insert("true"@, ValueV::Boolean(true)).insert(
        "false"@,
        ValueV::Boolean(false),
    ).insert("Number"@, ValueV::Str("__TYPE__NUMBER"@)).insert(
        "String"@,
        ValueV::Str("__TYPE__STRING"@),
    ).insert("Nil"@, ValueV::Str("__CONSTANT__NIL"@)).insert(
        "Boolean"@,
        ValueV::Str("__TYPE__BOOLEAN"@),
    ).insert("Function"@, ValueV::Str("__TYPE__FUNCTION"@)).insert(
        "Object"@,
        ValueV::Str("__TYPE__OBJECT"@),
    )
}

impl Default for Scope {
    /// A scope of one global frame holding [`default_globals`], over an
    /// empty store.
    fn default() -> (res: Scope)
        ensures
            res.wf(),
            res.frames_view() =~= seq![default_globals()],
            res.functions() == Map::<usize, FunctionDefinition>::empty(),
            res.objects() == Map::<usize, Map<ValueV, ValueV>>::empty(),
            res.tag_maps() == Map::<Seq<char>, Map<ValueV, ValueV>>::empty(),
            res.counter() == 0,
    {
        let mut globals = Bindings::new();
        globals.insert(String::from_str("true"), Value::Boolean(true));
        globals.insert(String::from_str("false"), Value::Boolean(false));
        globals.insert(
            String::from_str("Number"),
            Value::String(String::from_str("__TYPE__NUMBER")),
        );
        globals.insert(
            String::from_str("String"),
            Value::String(String::from_str("__TYPE__STRING")),
        );
        globals.insert(
            String::from_str("Nil"),
            Value::String(String::from_str("__CONSTANT__NIL")),
        );
        globals.insert(
            String::from_str("Boolean"),
            Value::String(String::from_str("__TYPE__BOOLEAN")),
        );
        globals.insert(
            String::from_str("Function"),
            Value::String(String::from_str("__TYPE__FUNCTION")),
        );
        globals.insert(
            String::from_str("Object"),
            Value::String(String::from_str("__TYPE__OBJECT")),
        );
        let mut frames = Vec::new();
        frames.push(globals);
        let res = Scope { frames, extras: ScopeExtras::new() };
        proof {
            assert(res.frames_view() =~= seq![default_globals()]);
        }
        res
    }
}

} // verus!
