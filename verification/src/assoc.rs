//! Association sequences: the mathematical account of the entry lists
//! that back every keyed store in this crate (variable frames, the
//! function table, the object table and the map table).
//!
//! An entry list denotes a finite `Map` ([`map_of`]) from key views to
//! value views; the lemmas here relate the usual list manipulations
//! (push, remove, overwrite) to `Map` operations, for lists whose key
//! views are pairwise distinct.

use vstd::prelude::*;

verus! {

/// The mapping denoted by a sequence of entries. A later entry for the
/// same key wins, though well-formed stores hold each key at most once.
pub open spec fn map_of<K: View, V: View>(s: Seq<(K, V)>) -> Map<K::V, V::V>
    decreases s.len(),
{
    if s.len() == 0 {
        Map::empty()
    } else {
        map_of(s.drop_last()).insert(s.last().0@, s.last().1@)
    }
}

/// Pairwise-distinct key views.
pub open spec fn distinct_keys<K: View, V: View>(s: Seq<(K, V)>) -> bool {
    forall|i: int, j: int|
        #![trigger s[i].0@, s[j].0@]
        0 <= i < j < s.len() ==> s[i].0@ != s[j].0@
}

/// A key is in the denoted map exactly when some entry carries it.
pub proof fn lemma_map_of_contains<K: View, V: View>(s: Seq<(K, V)>, x: K::V)
    ensures
        map_of(s).contains_key(x) <==> exists|i: int| 0 <= i < s.len() && s[i].0@ == x,
    decreases s.len(),
{
    if s.len() > 0 {
        lemma_map_of_contains(s.drop_last(), x);
        if s.last().0@ == x {
            assert(s[s.len() - 1].0@ == x);
        } else {
            if map_of(s).contains_key(x) {
                let i = choose|i: int| 0 <= i < s.drop_last().len() && s.drop_last()[i].0@ == x;
                assert(s[i].0@ == x);
            }
            if exists|i: int| 0 <= i < s.len() && s[i].0@ == x {
                let i = choose|i: int| 0 <= i < s.len() && s[i].0@ == x;
                assert(i < s.len() - 1);
                assert(s.drop_last()[i].0@ == x);
            }
        }
    }
}

/// With distinct keys, the entry carrying a key decides its value.
pub proof fn lemma_map_of_index<K: View, V: View>(s: Seq<(K, V)>, i: int)
    requires
        distinct_keys(s),
        0 <= i < s.len(),
    ensures
        map_of(s).contains_key(s[i].0@),
        map_of(s)[s[i].0@] == s[i].1@,
    decreases s.len(),
{
    if i == s.len() - 1 {
        assert(s.last().0@ == s[i].0@);
    } else {
        assert(distinct_keys(s.drop_last()));
        lemma_map_of_index(s.drop_last(), i);
        assert(s.drop_last()[i] == s[i]);
        assert(s.last().0@ != s[i].0@);
    }
}

/// Removing the entry that carries a key removes the key, and nothing else.
pub proof fn lemma_map_of_remove<K: View, V: View>(s: Seq<(K, V)>, i: int)
    requires
        distinct_keys(s),
        0 <= i < s.len(),
    ensures
        map_of(s.remove(i)) =~= map_of(s).remove(s[i].0@),
        distinct_keys(s.remove(i)),
    decreases s.len(),
{
    let x = s[i].0@;
    assert forall|a: int, b: int| 0 <= a < b < s.remove(i).len() implies s.remove(i)[a].0@ != s.remove(
        i,
    )[b].0@ by {
        let a0 = if a < i { a } else { a + 1 };
        let b0 = if b < i { b } else { b + 1 };
        assert(s.remove(i)[a] == s[a0]);
        assert(s.remove(i)[b] == s[b0]);
    }
    if i == s.len() - 1 {
        assert(s.remove(i) =~= s.drop_last());
        lemma_map_of_contains(s.drop_last(), x);
        assert forall|j: int| 0 <= j < s.drop_last().len() implies s.drop_last()[j].0@ != x by {
            assert(s.drop_last()[j] == s[j]);
        }
        assert(!map_of(s.drop_last()).contains_key(x));
    } else {
        assert(distinct_keys(s.drop_last()));
        lemma_map_of_remove(s.drop_last(), i);
        assert(s.remove(i).drop_last() =~= s.drop_last().remove(i));
        assert(s.remove(i).last() == s.last());
        assert(s.last().0@ != x);
    }
}

/// With distinct keys, the denoted map has exactly one binding per entry.
pub proof fn lemma_map_of_len<K: View, V: View>(s: Seq<(K, V)>)
    requires
        distinct_keys(s),
    ensures
        map_of(s).len() == s.len(),
        map_of(s).dom().finite(),
    decreases s.len(),
{
    if s.len() > 0 {
        assert(distinct_keys(s.drop_last()));
        lemma_map_of_len(s.drop_last());
        lemma_map_of_contains(s.drop_last(), s.last().0@);
        assert forall|j: int| 0 <= j < s.drop_last().len() implies s.drop_last()[j].0@
            != s.last().0@ by {
            assert(s.drop_last()[j] == s[j]);
            assert(s[j].0@ != s[s.len() - 1].0@);
        }
        assert(!map_of(s.drop_last()).contains_key(s.last().0@));
        vstd::set::axiom_set_insert_len(map_of(s.drop_last()).dom(), s.last().0@);
        assert(map_of(s).dom() =~= map_of(s.drop_last()).dom().insert(s.last().0@));
    }
}

/// Pushing an entry for a fresh key keeps the keys distinct.
pub proof fn lemma_distinct_push<K: View, V: View>(s: Seq<(K, V)>, p: (K, V))
    requires
        distinct_keys(s),
        forall|i: int| #![trigger s[i].0@] 0 <= i < s.len() ==> s[i].0@ != p.0@,
    ensures
        distinct_keys(s.push(p)),
{
    assert forall|a: int, b: int| 0 <= a < b < s.push(p).len() implies s.push(p)[a].0@ != s.push(
        p,
    )[b].0@ by {
        assert(s.push(p)[a] == s[a]);
        if b < s.len() {
            assert(s.push(p)[b] == s[b]);
        } else {
            assert(s.push(p)[b] == p);
        }
    }
}

/// Pushing an entry denotes inserting its binding.
pub proof fn lemma_map_of_push<K: View, V: View>(s: Seq<(K, V)>, p: (K, V))
    ensures
        map_of(s.push(p)) == map_of(s).insert(p.0@, p.1@),
{
    assert(s.push(p).drop_last() =~= s);
    assert(s.push(p).last() == p);
}

} // verus!
