//! Lexicographic order on character sequences, with executable comparison of
//! string slices and the lemmas that make the order total. The order agrees
//! with Rust's own ordering on `str`, since UTF-8 byte order preserves
//! code-point order.

use vstd::prelude::*;
use vstd::relations::total_ordering;
use vstd::string::StrSliceExecFns;

verus! {

/// Lexicographic less-or-equal on character sequences, by code point.
pub open spec fn lex_leq(a: Seq<char>, b: Seq<char>) -> bool
    decreases a.len(),
{
    if a.len() == 0 {
        true
    } else if b.len() == 0 {
        false
    } else if (a[0] as int) < (b[0] as int) {
        true
    } else if (a[0] as int) > (b[0] as int) {
        false
    } else {
        lex_leq(a.drop_first(), b.drop_first())
    }
}

/// The order as a binary relation value, for use with vstd's sorting specs.
pub open spec fn lex_leq_fn() -> spec_fn(Seq<char>, Seq<char>) -> bool {
    |a: Seq<char>, b: Seq<char>| lex_leq(a, b)
}

pub proof fn lemma_lex_refl(a: Seq<char>)
    ensures
        lex_leq(a, a),
    decreases a.len(),
{
    if a.len() > 0 {
        lemma_lex_refl(a.drop_first());
    }
}

pub proof fn lemma_lex_total(a: Seq<char>, b: Seq<char>)
    ensures
        lex_leq(a, b) || lex_leq(b, a),
    decreases a.len(),
{
    if a.len() > 0 && b.len() > 0 && a[0] == b[0] {
        lemma_lex_total(a.drop_first(), b.drop_first());
    }
}

pub proof fn lemma_lex_antisym(a: Seq<char>, b: Seq<char>)
    requires
        lex_leq(a, b),
        lex_leq(b, a),
    ensures
        a == b,
    decreases a.len(),
{
    if a.len() == 0 {
        assert(b.len() == 0);
        assert(a =~= b);
    } else {
        assert(b.len() > 0);
        assert(a[0] == b[0]);
        lemma_lex_antisym(a.drop_first(), b.drop_first());
        assert(a =~= seq![a[0]] + a.drop_first());
        assert(b =~= seq![b[0]] + b.drop_first());
    }
}

pub proof fn lemma_lex_trans(a: Seq<char>, b: Seq<char>, c: Seq<char>)
    requires
        lex_leq(a, b),
        lex_leq(b, c),
    ensures
        lex_leq(a, c),
    decreases a.len(),
{
    if a.len() > 0 && b.len() > 0 && c.len() > 0 && a[0] == b[0] && b[0] == c[0] {
        lemma_lex_trans(a.drop_first(), b.drop_first(), c.drop_first());
    }
}

/// The lexicographic order is a total ordering in the sense of vstd's
/// relation library, so sorting by it has a unique result.
pub proof fn lemma_lex_total_ordering()
    ensures
        total_ordering(lex_leq_fn()),
{
    assert forall|a: Seq<char>| #[trigger] lex_leq_fn()(a, a) by {
        lemma_lex_refl(a);
    }
    assert forall|a: Seq<char>, b: Seq<char>|
        #[trigger] lex_leq_fn()(a, b) && #[trigger] lex_leq_fn()(b, a) implies a == b by {
        lemma_lex_antisym(a, b);
    }
    assert forall|a: Seq<char>, b: Seq<char>, c: Seq<char>|
        #[trigger] lex_leq_fn()(a, b) && #[trigger] lex_leq_fn()(b, c) implies lex_leq_fn()(
        a,
        c,
    ) by {
        lemma_lex_trans(a, b, c);
    }
    assert forall|a: Seq<char>, b: Seq<char>| #[trigger]
        lex_leq_fn()(a, b) || #[trigger] lex_leq_fn()(b, a) by {
        lemma_lex_total(a, b);
    }
}

/// Skipping one more element of both sequences preserves the order question,
/// as long as the heads agree.
proof fn lemma_lex_skip(a: Seq<char>, b: Seq<char>, i: int)
    requires
        0 <= i < a.len(),
        i < b.len(),
        a[i] == b[i],
    ensures
        lex_leq(a.skip(i), b.skip(i)) == lex_leq(a.skip(i + 1), b.skip(i + 1)),
{
    assert(a.skip(i).len() > 0);
    assert(b.skip(i).len() > 0);
    assert(a.skip(i)[0] == a[i]);
    assert(b.skip(i)[0] == b[i]);
    assert(a.skip(i).drop_first() =~= a.skip(i + 1));
    assert(b.skip(i).drop_first() =~= b.skip(i + 1));
}

/// When one sequence is exhausted, the order holds exactly if it was the
/// shorter one.
proof fn lemma_lex_exhausted(a: Seq<char>, b: Seq<char>, i: int)
    requires
        0 <= i <= a.len(),
        i <= b.len(),
        i == a.len() || i == b.len(),
    ensures
        lex_leq(a.skip(i), b.skip(i)) == (a.len() <= b.len()),
{
    if i == a.len() {
        assert(a.skip(i).len() == 0);
    } else {
        assert(b.skip(i).len() == 0);
        assert(a.skip(i).len() > 0);
    }
}

/// Compares two string slices in lexicographic code-point order.
pub fn str_leq(a: &str, b: &str) -> (r: bool)
    ensures
        r == lex_leq(a@, b@),
{
    let a_len = a.unicode_len();
    let b_len = b.unicode_len();
    let mut i: usize = 0;
    proof {
        assert(a@.skip(0) =~= a@);
        assert(b@.skip(0) =~= b@);
    }
    while i < a_len && i < b_len
        invariant
            i <= a_len,
            i <= b_len,
            a_len == a@.len(),
            b_len == b@.len(),
            lex_leq(a@, b@) == lex_leq(a@.skip(i as int), b@.skip(i as int)),
        decreases a_len - i,
    {
        let ca = a.get_char(i);
        let cb = b.get_char(i);
        if (ca as u32) < (cb as u32) {
            proof {
                assert(a@.skip(i as int)[0] == a@[i as int]);
                assert(b@.skip(i as int)[0] == b@[i as int]);
            }
            return true;
        }
        if (ca as u32) > (cb as u32) {
            proof {
                assert(a@.skip(i as int)[0] == a@[i as int]);
                assert(b@.skip(i as int)[0] == b@[i as int]);
            }
            return false;
        }
        proof {
            lemma_lex_skip(a@, b@, i as int);
        }
        i = i + 1;
    }
    proof {
        lemma_lex_exhausted(a@, b@, i as int);
    }
    a_len <= b_len
}

/// Tests two string slices for equality of their character sequences.
pub fn str_eq(a: &str, b: &str) -> (r: bool)
    ensures
        r == (a@ == b@),
{
    let leq_ab = str_leq(a, b);
    let leq_ba = str_leq(b, a);
    proof {
        if lex_leq(a@, b@) && lex_leq(b@, a@) {
            lemma_lex_antisym(a@, b@);
        }
        if a@ == b@ {
            lemma_lex_refl(a@);
        }
    }
    leq_ab && leq_ba
}

} // verus!
