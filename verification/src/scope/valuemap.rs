//! One object's (or map's) ordered table of key/value pairs.

use vstd::prelude::*;

use crate::assoc::{
    distinct_keys, lemma_distinct_push, lemma_map_of_contains, lemma_map_of_index,
    lemma_map_of_len, lemma_map_of_push, lemma_map_of_remove, map_of,
};
use crate::expression::{Value, ValueV};

verus! {

/// An association list from key values to values, holding each key at
/// most once, in insertion order. It denotes the mapping `self@`.
pub struct ValueMap {
    entries: Vec<(Value, Value)>,
}

impl View for ValueMap {
    type V = Map<ValueV, ValueV>;

    closed spec fn view(&self) -> Map<ValueV, ValueV> {
        map_of(self.entries@)
    }
}

impl ValueMap {
    /// Each key occurs at most once.
    pub closed spec fn wf(self) -> bool {
        distinct_keys(self.entries@)
    }

    /// An empty table.
    pub fn new() -> (res: ValueMap)
        ensures
            res@ == Map::<ValueV, ValueV>::empty(),
            res.wf(),
    {
        ValueMap { entries: Vec::new() }
    }

    /// The entry sequence, in insertion order.
    pub closed spec fn entries_seq(self) -> Seq<(Value, Value)> {
        self.entries@
    }

    /// The entries in insertion order, for rendering.
    pub fn entries(&self) -> (res: &Vec<(Value, Value)>)
        ensures
            res@ == self.entries_seq(),
            map_of::<Value, Value>(res@) == self@,
    {
        &self.entries
    }

    /// Position of the entry carrying `key`, if any.
    fn index_of(&self, key: &Value) -> (res: Option<usize>)
        ensures
            match res {
                Some(i) => i < self.entries@.len() && self.entries@[i as int].0@ == key@,
                None => forall|i: int|
                    #![trigger self.entries@[i]]
                    0 <= i < self.entries@.len() ==> self.entries@[i].0@ != key@,
            },
    {
        let mut i: usize = 0;
        while i < self.entries.len()
            invariant
                i <= self.entries@.len(),
                forall|j: int|
                    #![trigger self.entries@[j]]
                    0 <= j < i ==> self.entries@[j].0@ != key@,
            decreases self.entries@.len() - i,
        {
            if self.entries[i].0 == *key {
                return Some(i);
            }
            i = i + 1;
        }
        None
    }

    /// Whether `key` is present.
    pub fn contains(&self, key: &Value) -> (res: bool)
        ensures
            res == self@.contains_key(key@),
    {
        proof {
            lemma_map_of_contains(self.entries@, key@);
        }
        self.index_of(key).is_some()
    }

    /// The value stored under `key`, if any.
    pub fn get(&self, key: &Value) -> (res: Option<&Value>)
        requires
            self.wf(),
        ensures
            match res {
                Some(v) => self@.contains_key(key@) && v@ == self@[key@],
                None => !self@.contains_key(key@),
            },
    {
        proof {
            lemma_map_of_contains(self.entries@, key@);
        }
        match self.index_of(key) {
            Some(i) => {
                proof {
                    lemma_map_of_index(self.entries@, i as int);
                }
                Some(&self.entries[i].1)
            },
            None => None,
        }
    }

    /// Stores `value` under `key`, returning the value it replaces.
    pub fn insert(&mut self, key: Value, value: Value) -> (res: Option<Value>)
        requires
            old(self).wf(),
        ensures
            final(self).wf(),
            final(self)@ == old(self)@.insert(key@, value@),
            match res {
                Some(v) => old(self)@.contains_key(key@) && v@ == old(self)@[key@],
                None => !old(self)@.contains_key(key@),
            },
    {
        let ghost pre = self.entries@;
        proof {
            lemma_map_of_contains(self.entries@, key@);
        }
        match self.index_of(&key) {
            Some(i) => {
                proof {
                    lemma_map_of_index(pre, i as int);
                    lemma_map_of_remove(pre, i as int);
                }
                let entry = self.entries.remove(i);
                proof {
                    assert forall|j: int| #![trigger self.entries@[j]]
                        0 <= j < self.entries@.len() implies self.entries@[j].0@ != key@ by {
                        if j < i {
                            assert(self.entries@[j] == pre[j]);
                            assert(pre[j].0@ != pre[i as int].0@);
                        } else {
                            assert(self.entries@[j] == pre[j + 1]);
                            assert(pre[j + 1].0@ != pre[i as int].0@);
                        }
                    }
                    lemma_distinct_push(self.entries@, (key, value));
                    lemma_map_of_push(self.entries@, (key, value));
                }
                self.entries.push((key, value));
                proof {
                    assert(self@ =~= old(self)@.insert(pre[i as int].0@, value@));
                }
                Some(entry.1)
            },
            None => {
                proof {
                    lemma_distinct_push(self.entries@, (key, value));
                    lemma_map_of_push(self.entries@, (key, value));
                }
                self.entries.push((key, value));
                None
            },
        }
    }

    /// Removes `key`, returning the value it carried.
    pub fn remove(&mut self, key: &Value) -> (res: Option<Value>)
        requires
            old(self).wf(),
        ensures
            final(self).wf(),
            match res {
                Some(v) => old(self)@.contains_key(key@) && v@ == old(self)@[key@] && final(self)@
                    == old(self)@.remove(key@),
                None => !old(self)@.contains_key(key@) && final(self)@ == old(self)@,
            },
    {
        proof {
            lemma_map_of_contains(self.entries@, key@);
        }
        match self.index_of(key) {
            Some(i) => {
                proof {
                    lemma_map_of_index(self.entries@, i as int);
                    lemma_map_of_remove(self.entries@, i as int);
                }
                let entry = self.entries.remove(i);
                Some(entry.1)
            },
            None => None,
        }
    }

    /// How many keys are present.
    pub fn size(&self) -> (res: usize)
        requires
            self.wf(),
        ensures
            res == self@.len(),
    {
        proof {
            lemma_map_of_len(self.entries@);
        }
        self.entries.len()
    }

    /// Removes every entry.
    pub fn clear(&mut self)
        ensures
            final(self).wf(),
            final(self)@ == Map::<ValueV, ValueV>::empty(),
    {
        self.entries.clear();
        proof {
            assert(self.entries@ =~= Seq::<(Value, Value)>::empty());
        }
    }
}

} // verus!
