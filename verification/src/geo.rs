//! Resolution of boundary-query candidates to a stored country or
//! subdivision code. The boundary index returns, for one coordinate, the ids
//! of every region containing it; this module applies the deterministic
//! tie-break policy: prefer the last candidate, unless an earlier candidate
//! belongs to the fixed set of priority territories; take the first
//! subdivision candidate. A coordinate inside no region resolves to no code
//! at all, which is an expected outcome and not an error.

use vstd::prelude::*;
use crate::lex::str_eq;

verus! {

/// Whether a country code belongs to the fixed set of dependent territories
/// that win over the country they overlap with.
pub open spec fn is_priority_code(c: Seq<char>) -> bool {
    ||| c == "CW"@
    ||| c == "DO"@
    ||| c == "PR"@
    ||| c == "VI"@
    ||| c == "GU"@
    ||| c == "MP"@
    ||| c == "HK"@
    ||| c == "CX"@
    ||| c == "ST"@
    ||| c == "SJ"@
}

/// The position of the first priority code among all candidates but the
/// last, scanning from position `i`.
pub open spec fn first_priority_from(views: Seq<Seq<char>>, i: int) -> Option<int>
    decreases views.len() - i,
{
    if i < 0 || i >= views.len() - 1 {
        None
    } else if is_priority_code(views[i]) {
        Some(i)
    } else {
        first_priority_from(views, i + 1)
    }
}

/// The country code stored for a set of candidates: none when the coordinate
/// was inside no region, the first priority candidate among all but the
/// last when there is one, and the last candidate otherwise.
pub open spec fn spec_resolve_country(views: Seq<Seq<char>>) -> Option<Seq<char>> {
    if views.len() == 0 {
        None
    } else {
        match first_priority_from(views, 0) {
            Option::Some(i) => Option::Some(views[i]),
            Option::None => Option::Some(views[views.len() - 1]),
        }
    }
}

/// The subdivision code stored for a set of candidates: the first candidate,
/// or none when the coordinate was inside no region.
pub open spec fn spec_resolve_subdivision(views: Seq<Seq<char>>) -> Option<Seq<char>> {
    if views.len() == 0 {
        Option::None
    } else {
        Option::Some(views[0])
    }
}

/// Tests a candidate against the fixed priority set.
pub fn is_priority_country(code: &str) -> (r: bool)
    ensures
        r == is_priority_code(code@),
{
    str_eq(code, "CW") || str_eq(code, "DO") || str_eq(code, "PR") || str_eq(code, "VI") || str_eq(
        code,
        "GU",
    ) || str_eq(code, "MP") || str_eq(code, "HK") || str_eq(code, "CX") || str_eq(code, "ST")
        || str_eq(code, "SJ")
}

/// Picks the country code from the candidates a boundary query returned for
/// one coordinate. An empty candidate set yields no code; otherwise the
/// first priority candidate before the last wins, else the last.
pub fn resolve_country(codes: &Vec<String>) -> (r: Option<String>)
    ensures
        r.deep_view() == spec_resolve_country(codes.deep_view()),
        codes@.len() == 0 <==> r is None,
{
    let ghost dv = codes.deep_view();
    if codes.len() == 0 {
        return None;
    }
    let mut i: usize = 0;
    while i < codes.len() - 1
        invariant
            codes@.len() > 0,
            i < codes@.len(),
            dv == codes.deep_view(),
            first_priority_from(dv, 0) == first_priority_from(dv, i as int),
        decreases codes@.len() - i,
    {
        if is_priority_country(codes[i].as_str()) {
            proof {
                assert(first_priority_from(dv, i as int) == Option::Some(i as int));
            }
            return Some(codes[i].clone());
        }
        proof {
            assert(first_priority_from(dv, i as int) == first_priority_from(dv, i + 1));
        }
        i = i + 1;
    }
    proof {
        assert(first_priority_from(dv, i as int) is None);
    }
    Some(codes[codes.len() - 1].clone())
}

/// Picks the subdivision code from the candidates a boundary query returned
/// for one coordinate: the first candidate, if any.
pub fn resolve_subdivision(codes: &Vec<String>) -> (r: Option<String>)
    ensures
        r.deep_view() == spec_resolve_subdivision(codes.deep_view()),
        codes@.len() == 0 <==> r is None,
{
    if codes.len() == 0 {
        None
    } else {
        Some(codes[0].clone())
    }
}

/// A coordinate inside no region at all resolves to no country and no
/// subdivision code.
pub proof fn lemma_outside_all_regions_resolves_to_nothing(views: Seq<Seq<char>>)
    requires
        views.len() == 0,
    ensures
        spec_resolve_country(views) is None,
        spec_resolve_subdivision(views) is None,
{
}

} // verus!
