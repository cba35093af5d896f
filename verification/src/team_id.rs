//! Canonical team identity: the identifier of a team is its member ids sorted
//! lexicographically and joined with `-`, so the same pairing yields the same
//! identifier whatever order the members appear in.

use vstd::prelude::*;
use vstd::relations::{sorted_by, total_ordering};
use vstd::seq_lib::lemma_sorted_unique;
use vstd::string::StringExecFns;
use crate::lex::{lex_leq, lex_leq_fn, lemma_lex_total, lemma_lex_total_ordering, lemma_lex_trans, str_leq};

verus! {

/// The character sequences of a sequence of string slices.
pub open spec fn views_of(ids: Seq<&str>) -> Seq<Seq<char>> {
    ids.map_values(|s: &str| s@)
}

/// The members joined with a single `-` between consecutive ids.
pub open spec fn join_dash(ids: Seq<Seq<char>>) -> Seq<char>
    decreases ids.len(),
{
    if ids.len() == 0 {
        Seq::empty()
    } else if ids.len() == 1 {
        ids[0]
    } else {
        ids[0] + seq!['-'] + join_dash(ids.drop_first())
    }
}

/// The canonical identifier of a team with the given member ids: the ids in
/// lexicographic order, joined with `-`.
pub open spec fn canon_team_id(ids: Seq<Seq<char>>) -> Seq<char> {
    join_dash(ids.sort_by(lex_leq_fn()))
}

proof fn lemma_join_dash_push(ids: Seq<Seq<char>>, x: Seq<char>)
    requires
        ids.len() >= 1,
    ensures
        join_dash(ids.push(x)) == join_dash(ids) + seq!['-'] + x,
    decreases ids.len(),
{
    if ids.len() == 1 {
        let p = ids.push(x);
        assert(p.drop_first() =~= seq![x]);
        assert(join_dash(p.drop_first()) == x);
        assert(p[0] == ids[0]);
    } else {
        assert(ids.push(x).drop_first() =~= ids.drop_first().push(x));
        lemma_join_dash_push(ids.drop_first(), x);
        assert(ids.push(x)[0] == ids[0]);
        assert(join_dash(ids.push(x)) == ids[0] + seq!['-'] + (join_dash(ids.drop_first())
            + seq!['-'] + x));
        assert(ids[0] + seq!['-'] + (join_dash(ids.drop_first()) + seq!['-'] + x) =~= (ids[0]
            + seq!['-'] + join_dash(ids.drop_first())) + seq!['-'] + x);
    }
}

/// Sorts the ids into lexicographic order by repeatedly extracting a minimum.
fn sort_ids(ids: Vec<&str>) -> (r: Vec<&str>)
    ensures
        sorted_by(views_of(r@), lex_leq_fn()),
        views_of(r@).to_multiset() == views_of(ids@).to_multiset(),
{
    broadcast use vstd::seq_lib::group_to_multiset_ensures;

    let mut rest = ids;
    let mut out: Vec<&str> = Vec::new();
    let ghost all = views_of(rest@);
    proof {
        assert(views_of(out@) =~= Seq::<Seq<char>>::empty());
        assert(views_of(out@).to_multiset().add(views_of(rest@).to_multiset()) =~= all.to_multiset());
    }
    while rest.len() > 0
        invariant
            sorted_by(views_of(out@), lex_leq_fn()),
            views_of(out@).to_multiset().add(views_of(rest@).to_multiset()) == all.to_multiset(),
            forall|p: int, q: int|
                0 <= p < out@.len() && 0 <= q < rest@.len() ==> lex_leq(
                    #[trigger] views_of(out@)[p],
                    #[trigger] views_of(rest@)[q],
                ),
        decreases rest.len(),
    {
        let mut min_idx: usize = 0;
        let mut j: usize = 1;
        proof {
            crate::lex::lemma_lex_refl(rest@[0]@);
        }
        while j < rest.len()
            invariant
                min_idx < j,
                1 <= j <= rest.len(),
                forall|k: int| 0 <= k < j ==> lex_leq(rest@[min_idx as int]@, #[trigger] rest@[k]@),
            decreases rest.len() - j,
        {
            if str_leq(rest[j], rest[min_idx]) {
                proof {
                    assert forall|k: int| 0 <= k < j + 1 implies lex_leq(
                        rest@[j as int]@,
                        #[trigger] rest@[k]@,
                    ) by {
                        if k < j {
                            lemma_lex_trans(rest@[j as int]@, rest@[min_idx as int]@, rest@[k]@);
                        } else {
                            crate::lex::lemma_lex_refl(rest@[j as int]@);
                        }
                    }
                }
                min_idx = j;
            } else {
                proof {
                    lemma_lex_total(rest@[j as int]@, rest@[min_idx as int]@);
                }
            }
            j = j + 1;
        }
        let ghost old_out = out@;
        let ghost old_rest = rest@;
        let m = rest.remove(min_idx);
        out.push(m);
        proof {
            assert(views_of(old_rest.remove(min_idx as int)) =~= views_of(old_rest).remove(
                min_idx as int,
            ));
            assert(views_of(old_out.push(m)) =~= views_of(old_out).push(m@));
            assert(views_of(old_rest)[min_idx as int] == m@);
            vstd::seq_lib::to_multiset_build(views_of(old_out), m@);
            vstd::seq_lib::to_multiset_remove(views_of(old_rest), min_idx as int);
            assert(views_of(out@).to_multiset() =~= views_of(old_out).to_multiset().insert(m@));
            assert(views_of(rest@).to_multiset() =~= views_of(old_rest).to_multiset().remove(m@));
            assert(views_of(old_rest).contains(m@));
            views_of(old_rest).to_multiset_ensures();
            assert(views_of(old_rest).to_multiset().count(m@) > 0);
            assert(views_of(out@).to_multiset().add(views_of(rest@).to_multiset()) =~= all.to_multiset()) by {
                broadcast use vstd::multiset::group_multiset_axioms;

            }
            // the new last element keeps the output sorted
            assert forall|p: int, q: int|
                0 <= p < q < views_of(out@).len() implies lex_leq_fn()(
                views_of(out@)[p],
                views_of(out@)[q],
            ) by {
                if q < views_of(out@).len() - 1 {
                    assert(sorted_by(views_of(old_out), lex_leq_fn()));
                } else {
                    assert(views_of(out@)[q] == m@);
                    assert(lex_leq(views_of(old_out)[p], views_of(old_rest)[min_idx as int]));
                }
            }
            // every remaining element is at least the extracted minimum
            assert forall|p: int, q: int|
                0 <= p < out@.len() && 0 <= q < rest@.len() implies lex_leq(
                #[trigger] views_of(out@)[p],
                #[trigger] views_of(rest@)[q],
            ) by {
                let vq = views_of(rest@)[q];
                assert(views_of(rest@) == views_of(old_rest).remove(min_idx as int));
                if q < min_idx {
                    assert(vq == views_of(old_rest)[q]);
                } else {
                    assert(vq == views_of(old_rest)[q + 1]);
                }
                if p < out@.len() - 1 {
                    assert(lex_leq(views_of(out@)[p], m@));
                    lemma_lex_trans(views_of(out@)[p], m@, vq);
                } else {
                    assert(views_of(out@)[p] == m@);
                }
            }
        }
    }
    proof {
        assert(views_of(rest@) =~= Seq::<Seq<char>>::empty());
        assert(views_of(out@).to_multiset() =~= all.to_multiset());
    }
    out
}

/// Derives the canonical team identifier from the member ids: sorts them
/// lexicographically and joins them with `-`. Any two orderings of the same
/// members give the same identifier.
pub fn get_team_id(player_ids: Vec<&str>) -> (r: String)
    ensures
        r@ == canon_team_id(views_of(player_ids@)),
{
    proof {
        lemma_lex_total_ordering();
        views_of(player_ids@).lemma_sort_by_ensures(lex_leq_fn());
    }
    let sorted = sort_ids(player_ids);
    proof {
        lemma_sorted_unique(
            views_of(sorted@),
            views_of(player_ids@).sort_by(lex_leq_fn()),
            lex_leq_fn(),
        );
    }
    let mut r = String::new();
    if sorted.len() == 0 {
        return r;
    }
    r.append(sorted[0]);
    let mut i: usize = 1;
    proof {
        assert(views_of(sorted@).subrange(0, 1) =~= seq![sorted@[0]@]);
        assert(join_dash(seq![sorted@[0]@]) == sorted@[0]@);
        assert(r@ =~= sorted@[0]@);
    }
    while i < sorted.len()
        invariant
            1 <= i <= sorted@.len(),
            r@ == join_dash(views_of(sorted@).subrange(0, i as int)),
        decreases sorted@.len() - i,
    {
        let ghost prefix = views_of(sorted@).subrange(0, i as int);
        r.append("-");
        r.append(sorted[i]);
        proof {
            reveal_strlit("-");
            assert("-"@ =~= seq!['-']);
            lemma_join_dash_push(prefix, sorted@[i as int]@);
            assert(views_of(sorted@).subrange(0, i + 1 as int) =~= prefix.push(sorted@[i as int]@));
        }
        i = i + 1;
    }
    proof {
        assert(views_of(sorted@).subrange(0, sorted@.len() as int) =~= views_of(sorted@));
    }
    r
}

/// The team identifier is order-invariant: any two arrangements of the same
/// member ids map to the same canonical identifier.
pub proof fn lemma_team_id_order_invariant(a: Seq<Seq<char>>, b: Seq<Seq<char>>)
    requires
        a.to_multiset() == b.to_multiset(),
    ensures
        canon_team_id(a) == canon_team_id(b),
{
    lemma_lex_total_ordering();
    a.lemma_sort_by_ensures(lex_leq_fn());
    b.lemma_sort_by_ensures(lex_leq_fn());
    assert(a.sort_by(lex_leq_fn()).to_multiset() == b.sort_by(lex_leq_fn()).to_multiset());
    lemma_sorted_unique(a.sort_by(lex_leq_fn()), b.sort_by(lex_leq_fn()), lex_leq_fn());
}

} // verus!
