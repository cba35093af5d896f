//! Lookup of rows by primary key, shared by the deduplicator and the
//! conflict policies of the store.

use vstd::prelude::*;
use crate::lex::str_eq;
use crate::rows::Keyed;

verus! {

/// Whether some row of the table has the given key.
pub open spec fn has_key<T: Keyed>(s: Seq<T>, k: Seq<char>) -> bool {
    exists|i: int| 0 <= i < s.len() && (#[trigger] s[i].skey()) == k
}

/// The position of the first row with the given key, scanning from `i`.
pub open spec fn first_key_index_from<T: Keyed>(s: Seq<T>, k: Seq<char>, i: int) -> Option<int>
    decreases s.len() - i,
{
    if i < 0 || i >= s.len() {
        None
    } else if s[i].skey() == k {
        Some(i)
    } else {
        first_key_index_from(s, k, i + 1)
    }
}

/// The position of the first row with the given key.
pub open spec fn first_key_index<T: Keyed>(s: Seq<T>, k: Seq<char>) -> Option<int> {
    first_key_index_from(s, k, 0)
}

/// The first-match scan finds a position exactly when some row from `i` on
/// has the key, and then the earliest one.
pub proof fn lemma_first_key_index_from<T: Keyed>(s: Seq<T>, k: Seq<char>, i: int)
    requires
        0 <= i <= s.len(),
    ensures
        match first_key_index_from(s, k, i) {
            Some(j) => i <= j < s.len() && s[j].skey() == k && forall|p: int|
                i <= p < j ==> (#[trigger] s[p].skey()) != k,
            None => forall|p: int| i <= p < s.len() ==> (#[trigger] s[p].skey()) != k,
        },
    decreases s.len() - i,
{
    if i < s.len() && s[i].skey() != k {
        lemma_first_key_index_from(s, k, i + 1);
    }
}

/// A key is found exactly when some row has it.
pub proof fn lemma_first_key_index_some<T: Keyed>(s: Seq<T>, k: Seq<char>)
    ensures
        (first_key_index(s, k) is Some) == has_key(s, k),
{
    lemma_first_key_index_from(s, k, 0);
    if first_key_index(s, k) is Some {
    } else {
        assert(forall|i: int| 0 <= i < s.len() ==> (#[trigger] s[i].skey()) != k);
    }
}

/// Finds the first row with the given key.
pub fn find_by_key<T: Keyed>(v: &Vec<T>, k: &str) -> (r: Option<usize>)
    ensures
        match r {
            Some(j) => first_key_index(v@, k@) == Some(j as int),
            None => first_key_index(v@, k@) is None,
        },
{
    let mut i: usize = 0;
    while i < v.len()
        invariant
            i <= v@.len(),
            first_key_index(v@, k@) == first_key_index_from(v@, k@, i as int),
        decreases v@.len() - i,
    {
        if str_eq(v[i].key(), k) {
            proof {
                assert(first_key_index_from(v@, k@, i as int) == Some(i as int));
            }
            return Some(i);
        }
        proof {
            assert(first_key_index_from(v@, k@, i as int) == first_key_index_from(
                v@,
                k@,
                i + 1,
            ));
        }
        i = i + 1;
    }
    None
}

/// Whether the table holds a row with the given key.
pub fn contains_key<T: Keyed>(v: &Vec<T>, k: &str) -> (r: bool)
    ensures
        r == has_key(v@, k@),
{
    proof {
        lemma_first_key_index_some(v@, k@);
    }
    match find_by_key(v, k) {
        Some(_) => true,
        None => false,
    }
}

} // verus!
