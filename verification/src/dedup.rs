//! Removal of rows that share a primary key within one batch: a stable pass
//! that keeps the first-seen row of every key.

use vstd::prelude::*;
use crate::rows::Keyed;
use crate::table::{contains_key, has_key};

verus! {

/// The batch with every row dropped whose key appeared earlier: the
/// first-seen row of each key survives, in first-seen order.
pub open spec fn spec_dedup<T: Keyed>(s: Seq<T>) -> Seq<T>
    decreases s.len(),
{
    if s.len() == 0 {
        Seq::empty()
    } else {
        let init = spec_dedup(s.drop_last());
        if has_key(s.drop_last(), s.last().skey()) {
            init
        } else {
            init.push(s.last())
        }
    }
}

/// Deduplication keeps exactly the keys of the batch.
pub proof fn lemma_dedup_keys<T: Keyed>(s: Seq<T>, k: Seq<char>)
    ensures
        has_key(spec_dedup(s), k) == has_key(s, k),
    decreases s.len(),
{
    if s.len() > 0 {
        lemma_dedup_keys(s.drop_last(), k);
        let init = spec_dedup(s.drop_last());
        if has_key(s.drop_last(), s.last().skey()) {
            if has_key(s, k) {
                let i = choose|i: int| 0 <= i < s.len() && (#[trigger] s[i].skey()) == k;
                if i < s.len() - 1 {
                    assert(s.drop_last()[i].skey() == k);
                } else {
                    assert(s.last().skey() == k);
                }
            }
        } else {
            if has_key(s, k) {
                let i = choose|i: int| 0 <= i < s.len() && (#[trigger] s[i].skey()) == k;
                if i < s.len() - 1 {
                    assert(s.drop_last()[i].skey() == k);
                    assert(has_key(init, k));
                    let j = choose|j: int| 0 <= j < init.len() && (#[trigger] init[j].skey()) == k;
                    assert(init.push(s.last())[j].skey() == k);
                } else {
                    assert(init.push(s.last()).last().skey() == k);
                }
            }
            if has_key(init.push(s.last()), k) {
                let j = choose|j: int|
                    0 <= j < init.push(s.last()).len() && (#[trigger] init.push(
                        s.last(),
                    )[j].skey()) == k;
                if j < init.len() {
                    assert(init[j].skey() == k);
                } else {
                    assert(s.last().skey() == k);
                }
            }
        }
    }
}

/// No two surviving rows share a key.
pub proof fn lemma_dedup_distinct<T: Keyed>(s: Seq<T>)
    ensures
        forall|i: int, j: int|
            0 <= i < j < spec_dedup(s).len() ==> (#[trigger] spec_dedup(s)[i].skey()) != (
            #[trigger] spec_dedup(s)[j].skey()),
    decreases s.len(),
{
    if s.len() > 0 {
        lemma_dedup_distinct(s.drop_last());
        let init = spec_dedup(s.drop_last());
        if !has_key(s.drop_last(), s.last().skey()) {
            lemma_dedup_keys(s.drop_last(), s.last().skey());
            assert forall|i: int, j: int|
                0 <= i < j < spec_dedup(s).len() implies (#[trigger] spec_dedup(s)[i].skey()) != (
            #[trigger] spec_dedup(s)[j].skey()) by {
                if j == spec_dedup(s).len() - 1 {
                    assert(spec_dedup(s)[j] == s.last());
                    if spec_dedup(s)[i].skey() == s.last().skey() {
                        assert(init[i].skey() == s.last().skey());
                        assert(has_key(init, s.last().skey()));
                    }
                } else {
                    assert(spec_dedup(s)[i] == init[i]);
                    assert(spec_dedup(s)[j] == init[j]);
                }
            }
        }
    }
}

/// Drops every row whose primary key appeared earlier in the batch,
/// keeping first-seen rows in first-seen order.
pub fn remove_duplicates<T: Keyed>(rows: Vec<T>) -> (r: Vec<T>)
    ensures
        r@ == spec_dedup(rows@),
{
    let ghost original = rows@;
    proof {
        assert(original.len() == rows.len());
    }
    let mut rest = rows;
    let mut out: Vec<T> = Vec::new();
    let mut i: usize = 0;
    proof {
        assert(original.subrange(0, 0) =~= Seq::<T>::empty());
        assert(original.skip(0) =~= rest@);
    }
    while rest.len() > 0
        invariant
            i <= original.len(),
            original.len() <= usize::MAX,
            rest@ =~= original.skip(i as int),
            out@ == spec_dedup(original.subrange(0, i as int)),
        decreases rest@.len(),
    {
        let ghost prefix = original.subrange(0, i as int);
        let x = rest.remove(0);
        proof {
            assert(x == original[i as int]);
            assert(rest@ =~= original.skip(i + 1));
        }
        let seen = contains_key(&out, x.key());
        proof {
            lemma_dedup_keys(prefix, x.skey());
            assert(original.subrange(0, i + 1).drop_last() =~= prefix);
            assert(original.subrange(0, i + 1).last() == x);
        }
        if !seen {
            out.push(x);
        }
        i = i + 1;
    }
    proof {
        assert(original.subrange(0, i as int) =~= original);
    }
    out
}

} // verus!
