//! One frame's table of variable bindings.

use vstd::prelude::*;

use crate::assoc::{
    distinct_keys, lemma_distinct_push, lemma_map_of_contains, lemma_map_of_index,
    lemma_map_of_push, lemma_map_of_remove, map_of,
};
use crate::expression::{Value, ValueV};

verus! {

/// An association list from variable names to values, holding each
/// name at most once. It denotes the mapping `self@`.
pub struct Bindings {
    entries: Vec<(String, Value)>,
}

impl View for Bindings {
    type V = Map<Seq<char>, ValueV>;

    closed spec fn view(&self) -> Map<Seq<char>, ValueV> {
        map_of(self.entries@)
    }
}

impl Bindings {
    /// Each name occurs at most once.
    pub closed spec fn wf(self) -> bool {
        distinct_keys(self.entries@)
    }

    /// An empty table.
    pub fn new() -> (res: Bindings)
        ensures
            res@ == Map::<Seq<char>, ValueV>::empty(),
            res.wf(),
    {
        Bindings { entries: Vec::new() }
    }

    /// Position of the entry carrying `name`, if any.
    fn index_of(&self, name: &String) -> (res: Option<usize>)
        ensures
            match res {
                Some(i) => i < self.entries@.len() && self.entries@[i as int].0@ == name@,
                None => forall|i: int|
                    #![trigger self.entries@[i]]
                    0 <= i < self.entries@.len() ==> self.entries@[i].0@ != name@,
            },
    {
        let mut i: usize = 0;
        while i < self.entries.len()
            invariant
                i <= self.entries@.len(),
                forall|j: int|
                    #![trigger self.entries@[j]]
                    0 <= j < i ==> self.entries@[j].0@ != name@,
            decreases self.entries@.len() - i,
        {
            if self.entries[i].0 == *name {
                return Some(i);
            }
            i = i + 1;
        }
        None
    }

    /// Whether `name` is bound here.
    pub fn contains(&self, name: &String) -> (res: bool)
        ensures
            res == self@.contains_key(name@),
    {
        proof {
            lemma_map_of_contains(self.entries@, name@);
        }
        self.index_of(name).is_some()
    }

    /// The value bound to `name`, if any.
    pub fn get(&self, name: &String) -> (res: Option<&Value>)
        requires
            self.wf(),
        ensures
            match res {
                Some(v) => self@.contains_key(name@) && v@ == self@[name@],
                None => !self@.contains_key(name@),
            },
    {
        proof {
            lemma_map_of_contains(self.entries@, name@);
        }
        match self.index_of(name) {
            Some(i) => {
                proof {
                    lemma_map_of_index(self.entries@, i as int);
                }
                Some(&self.entries[i].1)
            },
            None => None,
        }
    }

    /// Binds `name` to `value`, replacing any earlier binding.
    pub fn insert(&mut self, name: String, value: Value)
        requires
            old(self).wf(),
        ensures
            final(self).wf(),
            final(self)@ == old(self)@.insert(name@, value@),
    {
        let ghost pre = self.entries@;
        match self.index_of(&name) {
            Some(i) => {
                proof {
                    lemma_map_of_remove(pre, i as int);
                }
                self.entries.remove(i);
                proof {
                    assert forall|j: int| #![trigger self.entries@[j]]
                        0 <= j < self.entries@.len() implies self.entries@[j].0@ != name@ by {
                        if j < i {
                            assert(self.entries@[j] == pre[j]);
                            assert(pre[j].0@ != pre[i as int].0@);
                        } else {
                            assert(self.entries@[j] == pre[j + 1]);
                            assert(pre[j + 1].0@ != pre[i as int].0@);
                        }
                    }
                    lemma_distinct_push(self.entries@, (name, value));
                    lemma_map_of_push(self.entries@, (name, value));
                }
                self.entries.push((name, value));
                proof {
                    assert(self@ =~= old(self)@.insert(pre[i as int].0@, value@));
                }
            },
            None => {
                proof {
                    lemma_distinct_push(self.entries@, (name, value));
                    lemma_map_of_push(self.entries@, (name, value));
                }
                self.entries.push((name, value));
            },
        }
    }

    /// Unbinds `name`, returning the value it carried.
    pub fn remove(&mut self, name: &String) -> (res: Option<Value>)
        requires
            old(self).wf(),
        ensures
            final(self).wf(),
            match res {
                Some(v) => old(self)@.contains_key(name@) && v@ == old(self)@[name@] && final(self)@
                    == old(self)@.remove(name@),
                None => !old(self)@.contains_key(name@) && final(self)@ == old(self)@,
            },
    {
        proof {
            lemma_map_of_contains(self.entries@, name@);
        }
        match self.index_of(name) {
            Some(i) => {
                proof {
                    lemma_map_of_index(self.entries@, i as int);
                    lemma_map_of_remove(self.entries@, i as int);
                }
                let entry = self.entries.remove(i);
                Some(entry.1)
            },
            None => None,
        }
    }
}

} // verus!
