//! Association vectors with unique `u64` keys, abstracted as `Map`s.
//!
//! The registry, the override stores and the container's singleton table
//! are all small vectors of key-carrying records.  This module gives every
//! such vector a mathematical `Map` view (`map_of`) and proves the lemmas
//! that connect linear search and in-place update to that view.

use vstd::prelude::*;

verus! {

/// A record that carries its own lookup key.
pub trait Keyed: Sized {
    /// The key under which the record is filed.
    spec fn skey(&self) -> u64;

    /// Returns the record's key.
    fn key(&self) -> (r: u64)
        ensures
            r == self.skey(),
    ;
}

/// The map represented by an association sequence: each record is filed
/// under its key, later records shadowing earlier ones.
pub open spec fn map_of<T: Keyed>(s: Seq<T>) -> Map<u64, T>
    decreases s.len(),
{
    if s.len() == 0 {
        Map::empty()
    } else {
        map_of(s.drop_last()).insert(s.last().skey(), s.last())
    }
}

/// No two records of the sequence share a key.
pub open spec fn distinct_keys<T: Keyed>(s: Seq<T>) -> bool {
    forall|i: int, j: int| 0 <= i < j < s.len() ==> s[i].skey() != s[j].skey()
}

/// A key is in the map view exactly when some record carries it.
pub proof fn lemma_map_of_contains<T: Keyed>(s: Seq<T>, k: u64)
    ensures
        map_of(s).contains_key(k) <==> exists|i: int| 0 <= i < s.len() && s[i].skey() == k,
    decreases s.len(),
{
    if s.len() > 0 {
        lemma_map_of_contains(s.drop_last(), k);
        if map_of(s).contains_key(k) {
            if s.last().skey() == k {
                assert(s[s.len() - 1].skey() == k);
            } else {
                let i = choose|i: int| 0 <= i < s.drop_last().len() && s.drop_last()[i].skey() == k;
                assert(s[i].skey() == k);
            }
        }
        if exists|i: int| 0 <= i < s.len() && s[i].skey() == k {
            let i = choose|i: int| 0 <= i < s.len() && s[i].skey() == k;
            if i < s.len() - 1 {
                assert(s.drop_last()[i].skey() == k);
            }
        }
    }
}

/// With distinct keys, the map view files each record under its key.
pub proof fn lemma_map_of_index<T: Keyed>(s: Seq<T>, i: int)
    requires
        distinct_keys(s),
        0 <= i < s.len(),
    ensures
        map_of(s).contains_key(s[i].skey()),
        map_of(s)[s[i].skey()] == s[i],
    decreases s.len(),
{
    if i == s.len() - 1 {
        assert(s[i] == s.last());
    } else {
        assert(distinct_keys(s.drop_last())) by {
            assert(forall|x: int, y: int|
                0 <= x < y < s.drop_last().len() ==> s.drop_last()[x].skey() == s[x].skey()
                    && s.drop_last()[y].skey() == s[y].skey());
        }
        lemma_map_of_index(s.drop_last(), i);
        assert(s.drop_last()[i] == s[i]);
        assert(s[i].skey() != s.last().skey());
    }
}

/// Appending a record inserts it into the map view.
pub proof fn lemma_map_of_push<T: Keyed>(s: Seq<T>, t: T)
    ensures
        map_of(s.push(t)) == map_of(s).insert(t.skey(), t),
{
    assert(s.push(t).drop_last() =~= s);
    assert(s.push(t).last() == t);
}

/// Overwriting a record in place, keeping its key, re-inserts it into the
/// map view.
pub proof fn lemma_map_of_update<T: Keyed>(s: Seq<T>, i: int, t: T)
    requires
        distinct_keys(s),
        0 <= i < s.len(),
        t.skey() == s[i].skey(),
    ensures
        map_of(s.update(i, t)) == map_of(s).insert(t.skey(), t),
    decreases s.len(),
{
    let su = s.update(i, t);
    if i == s.len() - 1 {
        assert(su.drop_last() =~= s.drop_last());
        assert(su.last() == t);
        assert(map_of(su) == map_of(s.drop_last()).insert(t.skey(), t));
        assert(map_of(s.drop_last()).insert(s.last().skey(), s.last()).insert(t.skey(), t)
            =~= map_of(s.drop_last()).insert(t.skey(), t));
    } else {
        assert(distinct_keys(s.drop_last())) by {
            assert(forall|x: int, y: int|
                0 <= x < y < s.drop_last().len() ==> s.drop_last()[x].skey() == s[x].skey()
                    && s.drop_last()[y].skey() == s[y].skey());
        }
        assert(su.drop_last() =~= s.drop_last().update(i, t));
        assert(su.last() == s.last());
        lemma_map_of_update(s.drop_last(), i, t);
        // The two inserts commute because the updated key differs from the
        // last record's key.
        assert(s.last().skey() != t.skey());
        assert(map_of(s.drop_last()).insert(t.skey(), t).insert(s.last().skey(), s.last())
            =~= map_of(s.drop_last()).insert(s.last().skey(), s.last()).insert(t.skey(), t));
    }
}

/// With distinct keys, whatever the map view files under a present key is
/// one of the records, filed under its own key.
pub proof fn lemma_map_of_lookup<T: Keyed>(s: Seq<T>, k: u64)
    requires
        distinct_keys(s),
        map_of(s).contains_key(k),
    ensures
        exists|i: int| 0 <= i < s.len() && s[i] == map_of(s)[k],
        map_of(s)[k].skey() == k,
{
    lemma_map_of_contains(s, k);
    let i = choose|i: int| 0 <= i < s.len() && s[i].skey() == k;
    lemma_map_of_index(s, i);
}

/// Updating a record in place, keeping its key, preserves key distinctness.
pub proof fn lemma_update_distinct<T: Keyed>(s: Seq<T>, i: int, t: T)
    requires
        distinct_keys(s),
        0 <= i < s.len(),
        t.skey() == s[i].skey(),
    ensures
        distinct_keys(s.update(i, t)),
{
}

/// Appending a record with a fresh key preserves key distinctness.
pub proof fn lemma_push_distinct<T: Keyed>(s: Seq<T>, t: T)
    requires
        distinct_keys(s),
        forall|i: int| 0 <= i < s.len() ==> s[i].skey() != t.skey(),
    ensures
        distinct_keys(s.push(t)),
{
}

/// Finds the position of the record filed under `k`, if any.
pub fn find_index<T: Keyed>(v: &Vec<T>, k: u64) -> (r: Option<usize>)
    ensures
        match r {
            Some(i) => i < v@.len() && v@[i as int].skey() == k,
            None => forall|i: int| 0 <= i < v@.len() ==> v@[i].skey() != k,
        },
        map_of(v@).contains_key(k) <==> r is Some,
{
    let mut i: usize = 0;
    let n = v.len();
    while i < n
        invariant
            i <= n,
            n == v@.len(),
            forall|j: int| 0 <= j < i ==> v@[j].skey() != k,
        decreases n - i,
    {
        if v[i].key() == k {
            proof {
                lemma_map_of_contains(v@, k);
            }
            return Some(i);
        }
        i += 1;
    }
    proof {
        lemma_map_of_contains(v@, k);
    }
    None
}

} // verus!
