//! The single global store of function definitions, index-tagged
//! objects and string-tagged maps, reachable from any frame.

use vstd::prelude::*;

use std::rc::Rc;

use crate::assoc::{
    distinct_keys, lemma_distinct_push, lemma_map_of_contains, lemma_map_of_index,
    lemma_map_of_push, lemma_map_of_remove, map_of,
};
use crate::expression::ValueV;
use crate::scope::functions::FunctionDefinition;
use crate::scope::valuemap::ValueMap;

verus! {

/// Extra data attached to the global frame. A monotonically increasing
/// counter allocates the indices of functions and objects; an index is
/// never reused within a run.
pub struct ScopeExtras {
    functions: Vec<(usize, Rc<FunctionDefinition>)>,
    objects: Vec<(usize, ValueMap)>,
    maps: Vec<(String, ValueMap)>,
    counter: usize,
}

impl ScopeExtras {
    /// The function table.
    pub closed spec fn functions_view(self) -> Map<usize, FunctionDefinition> {
        map_of(self.functions@)
    }

    /// The table of index-tagged objects.
    pub closed spec fn objects_view(self) -> Map<usize, Map<ValueV, ValueV>> {
        map_of(self.objects@)
    }

    /// The table of string-tagged maps.
    pub closed spec fn maps_view(self) -> Map<Seq<char>, Map<ValueV, ValueV>> {
        map_of(self.maps@)
    }

    /// How many indices the counter has handed out.
    pub closed spec fn counter_view(self) -> nat {
        self.counter as nat
    }

    /// Keys are unique, inner tables are well-formed, and no handed-out
    /// index exceeds the counter.
    pub closed spec fn wf(self) -> bool {
        &&& distinct_keys(self.functions@)
        &&& distinct_keys(self.objects@)
        &&& distinct_keys(self.maps@)
        &&& forall|i: int|
            #![trigger self.functions@[i]]
            0 <= i < self.functions@.len() ==> self.functions@[i].0 <= self.counter
        &&& forall|i: int|
            #![trigger self.objects@[i]]
            0 <= i < self.objects@.len() ==> self.objects@[i].0 <= self.counter
                && self.objects@[i].1.wf()
        &&& forall|i: int|
            #![trigger self.maps@[i]]
            0 <= i < self.maps@.len() ==> self.maps@[i].1.wf()
    }

    /// An empty store.
    pub fn new() -> (res: ScopeExtras)
        ensures
            res.wf(),
            res.functions_view() == Map::<usize, FunctionDefinition>::empty(),
            res.objects_view() == Map::<usize, Map<ValueV, ValueV>>::empty(),
            res.maps_view() == Map::<Seq<char>, Map<ValueV, ValueV>>::empty(),
            res.counter_view() == 0,
    {
        ScopeExtras { functions: Vec::new(), objects: Vec::new(), maps: Vec::new(), counter: 0 }
    }

    /// True when the counter can hand out no further index.
    pub closed spec fn exhausted(self) -> bool {
        self.counter == usize::MAX
    }

    /// Everything except the function table is as it was.
    pub open spec fn same_but_functions(self, other: ScopeExtras) -> bool {
        &&& self.objects_view() == other.objects_view()
        &&& self.maps_view() == other.maps_view()
        &&& self.counter_view() == other.counter_view()
    }

    /// Everything except the object table is as it was.
    pub open spec fn same_but_objects(self, other: ScopeExtras) -> bool {
        &&& self.functions_view() == other.functions_view()
        &&& self.maps_view() == other.maps_view()
        &&& self.counter_view() == other.counter_view()
    }

    /// Everything except the map table is as it was.
    pub open spec fn same_but_maps(self, other: ScopeExtras) -> bool {
        &&& self.functions_view() == other.functions_view()
        &&& self.objects_view() == other.objects_view()
        &&& self.counter_view() == other.counter_view()
    }

    /// All four components are as they were.
    pub open spec fn same_as(self, other: ScopeExtras) -> bool {
        &&& self.functions_view() == other.functions_view()
        &&& self.same_but_functions(other)
    }

    fn function_index_of(&self, idx: usize) -> (res: Option<usize>)
        ensures
            match res {
                Some(i) => i < self.functions@.len() && self.functions@[i as int].0 == idx,
                None => forall|i: int|
                    #![trigger self.functions@[i]]
                    0 <= i < self.functions@.len() ==> self.functions@[i].0 != idx,
            },
    {
        let mut i: usize = 0;
        while i < self.functions.len()
            invariant
                i <= self.functions@.len(),
                forall|j: int|
                    #![trigger self.functions@[j]]
                    0 <= j < i ==> self.functions@[j].0 != idx,
            decreases self.functions@.len() - i,
        {
            if self.functions[i].0 == idx {
                return Some(i);
            }
            i = i + 1;
        }
        None
    }

    fn object_index_of(&self, idx: usize) -> (res: Option<usize>)
        ensures
            match res {
                Some(i) => i < self.objects@.len() && self.objects@[i as int].0 == idx,
                None => forall|i: int|
                    #![trigger self.objects@[i]]
                    0 <= i < self.objects@.len() ==> self.objects@[i].0 != idx,
            },
    {
        let mut i: usize = 0;
        while i < self.objects.len()
            invariant
                i <= self.objects@.len(),
                forall|j: int|
                    #![trigger self.objects@[j]]
                    0 <= j < i ==> self.objects@[j].0 != idx,
            decreases self.objects@.len() - i,
        {
            if self.objects[i].0 == idx {
                return Some(i);
            }
            i = i + 1;
        }
        None
    }

    fn map_index_of(&self, tag: &String) -> (res: Option<usize>)
        ensures
            match res {
                Some(i) => i < self.maps@.len() && self.maps@[i as int].0@ == tag@,
                None => forall|i: int|
                    #![trigger self.maps@[i]]
                    0 <= i < self.maps@.len() ==> self.maps@[i].0@ != tag@,
            },
    {
        let mut i: usize = 0;
        while i < self.maps.len()
            invariant
                i <= self.maps@.len(),
                forall|j: int|
                    #![trigger self.maps@[j]]
                    0 <= j < i ==> self.maps@[j].0@ != tag@,
            decreases self.maps@.len() - i,
        {
            if self.maps[i].0 == *tag {
                return Some(i);
            }
            i = i + 1;
        }
        None
    }

    /// Registers a definition under a fresh index, the only failure
    /// being an exhausted counter.
    pub fn new_function(&mut self, fd: Rc<FunctionDefinition>) -> (res: Option<usize>)
        requires
            old(self).wf(),
        ensures
            final(self).wf(),
            match res {
                Some(idx) => {
                    &&& !old(self).exhausted()
                    &&& idx == old(self).counter_view() + 1
                    &&& !old(self).functions_view().contains_key(idx)
                    &&& final(self).functions_view() == old(self).functions_view().insert(idx, fd@)
                    &&& final(self).objects_view() == old(self).objects_view()
                    &&& final(self).maps_view() == old(self).maps_view()
                    &&& final(self).counter_view() == old(self).counter_view() + 1
                },
                None => old(self).exhausted() && old(self).counter_view() == usize::MAX
                    && final(self).same_as(*old(self)),
            },
    {
        if self.counter == usize::MAX {
            return None;
        }
        self.counter = self.counter + 1;
        let idx = self.counter;
        proof {
            assert forall|i: int| #![trigger self.functions@[i]]
                0 <= i < self.functions@.len() implies self.functions@[i].0 != idx by {
                assert(self.functions@[i].0 <= old(self).counter);
            }
            lemma_map_of_contains(self.functions@, idx);
            lemma_distinct_push(self.functions@, (idx, fd));
            lemma_map_of_push(self.functions@, (idx, fd));
        }
        self.functions.push((idx, fd));
        Some(idx)
    }

    /// The definition registered under `idx`, if it is live.
    pub fn get_function(&self, idx: usize) -> (res: Option<&Rc<FunctionDefinition>>)
        requires
            self.wf(),
        ensures
            match res {
                Some(fd) => self.functions_view().contains_key(idx) && fd@
                    == self.functions_view()[idx],
                None => !self.functions_view().contains_key(idx),
            },
    {
        proof {
            lemma_map_of_contains(self.functions@, idx);
        }
        match self.function_index_of(idx) {
            Some(i) => {
                proof {
                    lemma_map_of_index(self.functions@, i as int);
                }
                Some(&self.functions[i].1)
            },
            None => None,
        }
    }

    /// Unregisters the definition under `idx`; the index is never
    /// handed out again.
    pub fn delete_function(&mut self, idx: usize) -> (res: Option<Rc<FunctionDefinition>>)
        requires
            old(self).wf(),
        ensures
            final(self).wf(),
            final(self).same_but_functions(*old(self)),
            match res {
                Some(fd) => old(self).functions_view().contains_key(idx) && fd@ == old(self).functions_view()[idx] && final(self).functions_view() == old(self).functions_view().remove(idx),
                None => !old(self).functions_view().contains_key(idx) && final(self).functions_view()
                    == old(self).functions_view(),
            },
    {
        proof {
            lemma_map_of_contains(self.functions@, idx);
        }
        match self.function_index_of(idx) {
            Some(i) => {
                proof {
                    lemma_map_of_index(self.functions@, i as int);
                    lemma_map_of_remove(self.functions@, i as int);
                }
                let entry = self.functions.remove(i);
                Some(entry.1)
            },
            None => None,
        }
    }

    /// Creates an empty object under a fresh index, the only failure
    /// being an exhausted counter.
    pub fn new_object(&mut self) -> (res: Option<usize>)
        requires
            old(self).wf(),
        ensures
            final(self).wf(),
            match res {
                Some(idx) => {
                    &&& !old(self).exhausted()
                    &&& idx == old(self).counter_view() + 1
                    &&& !old(self).objects_view().contains_key(idx)
                    &&& final(self).objects_view() == old(self).objects_view().insert(
                        idx,
                        Map::<ValueV, ValueV>::empty(),
                    )
                    &&& final(self).functions_view() == old(self).functions_view()
                    &&& final(self).maps_view() == old(self).maps_view()
                    &&& final(self).counter_view() == old(self).counter_view() + 1
                },
                None => old(self).exhausted() && old(self).counter_view() == usize::MAX
                    && final(self).same_as(*old(self)),
            },
    {
        if self.counter == usize::MAX {
            return None;
        }
        self.counter = self.counter + 1;
        let idx = self.counter;
        let table = ValueMap::new();
        proof {
            assert forall|i: int| #![trigger self.objects@[i]]
                0 <= i < self.objects@.len() implies self.objects@[i].0 != idx by {
                assert(self.objects@[i].0 <= old(self).counter);
            }
            lemma_map_of_contains(self.objects@, idx);
            lemma_distinct_push(self.objects@, (idx, table));
            lemma_map_of_push(self.objects@, (idx, table));
        }
        self.objects.push((idx, table));
        Some(idx)
    }

    /// The object stored under `idx`, if it is live.
    pub fn get_object(&self, idx: usize) -> (res: Option<&ValueMap>)
        requires
            self.wf(),
        ensures
            match res {
                Some(m) => self.objects_view().contains_key(idx) && m@ == self.objects_view()[idx]
                    && m.wf(),
                None => !self.objects_view().contains_key(idx),
            },
    {
        proof {
            lemma_map_of_contains(self.objects@, idx);
        }
        match self.object_index_of(idx) {
            Some(i) => {
                proof {
                    lemma_map_of_index(self.objects@, i as int);
                }
                Some(&self.objects[i].1)
            },
            None => None,
        }
    }

    /// Takes the object stored under `idx` out of the table.
    pub fn take_object(&mut self, idx: usize) -> (res: Option<ValueMap>)
        requires
            old(self).wf(),
        ensures
            final(self).wf(),
            final(self).same_but_objects(*old(self)),
            match res {
                Some(m) => old(self).objects_view().contains_key(idx) && m@ == old(self).objects_view()[idx] && m.wf() && idx <= old(self).counter_view()
                    && final(self).objects_view() == old(self).objects_view().remove(idx),
                None => !old(self).objects_view().contains_key(idx) && final(self).objects_view() == old(self).objects_view(),
            },
    {
        proof {
            lemma_map_of_contains(self.objects@, idx);
        }
        match self.object_index_of(idx) {
            Some(i) => {
                proof {
                    lemma_map_of_index(self.objects@, i as int);
                    lemma_map_of_remove(self.objects@, i as int);
                }
                let entry = self.objects.remove(i);
                Some(entry.1)
            },
            None => None,
        }
    }

    /// Puts an object taken by [`Self::take_object`] back under its index.
    pub fn put_object(&mut self, idx: usize, table: ValueMap)
        requires
            old(self).wf(),
            !old(self).objects_view().contains_key(idx),
            idx <= old(self).counter_view(),
            table.wf(),
        ensures
            final(self).wf(),
            final(self).same_but_objects(*old(self)),
            final(self).objects_view() == old(self).objects_view().insert(idx, table@),
    {
        proof {
            lemma_map_of_contains(self.objects@, idx);
            lemma_distinct_push(self.objects@, (idx, table));
            lemma_map_of_push(self.objects@, (idx, table));
        }
        self.objects.push((idx, table));
    }

    /// Creates an empty map under `tag`; reports whether the tag was free.
    pub fn new_map(&mut self, tag: String) -> (res: bool)
        requires
            old(self).wf(),
        ensures
            final(self).wf(),
            final(self).same_but_maps(*old(self)),
            res == !old(self).maps_view().contains_key(tag@),
            res ==> final(self).maps_view() == old(self).maps_view().insert(
                tag@,
                Map::<ValueV, ValueV>::empty(),
            ),
            !res ==> final(self).maps_view() == old(self).maps_view(),
    {
        proof {
            lemma_map_of_contains(self.maps@, tag@);
        }
        match self.map_index_of(&tag) {
            Some(_) => false,
            None => {
                let table = ValueMap::new();
                proof {
                    lemma_distinct_push(self.maps@, (tag, table));
                    lemma_map_of_push(self.maps@, (tag, table));
                }
                self.maps.push((tag, table));
                true
            },
        }
    }

    /// The map stored under `tag`, if it is live.
    pub fn get_map(&self, tag: &String) -> (res: Option<&ValueMap>)
        requires
            self.wf(),
        ensures
            match res {
                Some(m) => self.maps_view().contains_key(tag@) && m@ == self.maps_view()[tag@]
                    && m.wf(),
                None => !self.maps_view().contains_key(tag@),
            },
    {
        proof {
            lemma_map_of_contains(self.maps@, tag@);
        }
        match self.map_index_of(tag) {
            Some(i) => {
                proof {
                    lemma_map_of_index(self.maps@, i as int);
                }
                Some(&self.maps[i].1)
            },
            None => None,
        }
    }

    /// Takes the map stored under `tag` out of the table.
    pub fn take_map(&mut self, tag: &String) -> (res: Option<(String, ValueMap)>)
        requires
            old(self).wf(),
        ensures
            final(self).wf(),
            final(self).same_but_maps(*old(self)),
            match res {
                Some(p) => old(self).maps_view().contains_key(tag@) && p.0@ == tag@ && p.1@ == old(self).maps_view()[tag@] && p.1.wf() && final(self).maps_view() == old(self).maps_view().remove(tag@),
                None => !old(self).maps_view().contains_key(tag@) && final(self).maps_view() == old(self).maps_view(),
            },
    {
        proof {
            lemma_map_of_contains(self.maps@, tag@);
        }
        match self.map_index_of(tag) {
            Some(i) => {
                proof {
                    lemma_map_of_index(self.maps@, i as int);
                    lemma_map_of_remove(self.maps@, i as int);
                }
                let entry = self.maps.remove(i);
                Some(entry)
            },
            None => None,
        }
    }

    /// Puts a map taken by [`Self::take_map`] back under its tag.
    pub fn put_map(&mut self, tag: String, table: ValueMap)
        requires
            old(self).wf(),
            !old(self).maps_view().contains_key(tag@),
            table.wf(),
        ensures
            final(self).wf(),
            final(self).same_but_maps(*old(self)),
            final(self).maps_view() == old(self).maps_view().insert(tag@, table@),
    {
        proof {
            lemma_map_of_contains(self.maps@, tag@);
            lemma_distinct_push(self.maps@, (tag, table));
            lemma_map_of_push(self.maps@, (tag, table));
        }
        self.maps.push((tag, table));
    }
}

} // verus!
