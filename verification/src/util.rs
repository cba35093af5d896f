//! Small text utilities the assembly logic needs: ASCII upper-casing of
//! country codes, decimal rendering of an unsigned number, and substring
//! search for classifying storage errors.

use vstd::prelude::*;
use vstd::string::StrSliceExecFns;

verus! {

/// Builds a string from its characters.
///
/// Relies on `String::from_iter` over `char`: the result is the string of
/// exactly those characters in order.
#[verifier::external_body]
fn string_from_chars(cs: Vec<char>) -> (r: String)
    ensures
        r@ == cs@,
{
    String::from_iter(cs)
}

/// A character with its ASCII lower-case letters replaced by upper-case
/// ones; every other character is unchanged.
pub open spec fn to_upper_char(c: char) -> char {
    if 'a' <= c && c <= 'z' {
        (((c as u8) - 32) as char)
    } else {
        c
    }
}

/// The sequence with every ASCII lower-case letter upper-cased.
pub open spec fn upper_seq(s: Seq<char>) -> Seq<char> {
    s.map_values(|c: char| to_upper_char(c))
}

/// Upper-cases the ASCII letters of a string, leaving all other characters
/// unchanged.
pub fn to_ascii_upper(s: &str) -> (r: String)
    ensures
        r@ == upper_seq(s@),
{
    let len = s.unicode_len();
    let mut cs: Vec<char> = Vec::new();
    let mut i: usize = 0;
    while i < len
        invariant
            i <= len,
            len == s@.len(),
            cs@ =~= upper_seq(s@).subrange(0, i as int),
        decreases len - i,
    {
        let c = s.get_char(i);
        let cu = c as u32;
        let up: char = if cu >= 97 && cu <= 122 {
            ((cu - 32) as u8) as char
        } else {
            c
        };
        cs.push(up);
        proof {
            assert(up == to_upper_char(s@[i as int]));
            assert(cs@ =~= upper_seq(s@).subrange(0, i + 1));
        }
        i = i + 1;
    }
    proof {
        assert(cs@ =~= upper_seq(s@));
    }
    string_from_chars(cs)
}

/// The decimal digit character of a value below ten.
pub open spec fn digit_char(d: int) -> char {
    (((48 + d) as u8) as char)
}

/// The decimal rendering of a natural number, most significant digit first,
/// without leading zeros (a lone zero for zero itself).
pub open spec fn decimal_of(n: nat) -> Seq<char>
    decreases n,
{
    if n < 10 {
        seq![digit_char(n as int)]
    } else {
        decimal_of(n / 10).push(digit_char((n % 10) as int))
    }
}

/// Renders an unsigned number in decimal.
pub fn u64_to_decimal(n: u64) -> (r: String)
    ensures
        r@ == decimal_of(n as nat),
{
    let mut rev: Vec<char> = Vec::new();
    let mut m: u64 = n;
    proof {
        assert(decimal_of(n as nat) =~= decimal_of(m as nat) + rev@.reverse());
    }
    loop
        invariant_except_break
            decimal_of(n as nat) =~= decimal_of(m as nat) + rev@.reverse(),
        ensures
            decimal_of(n as nat) =~= rev@.reverse(),
        decreases m,
    {
        let ghost old_rev = rev@;
        let ghost old_m = m as nat;
        let d: u64 = m % 10;
        rev.push(((48 + d) as u8) as char);
        proof {
            assert(rev@.reverse() =~= seq![digit_char(d as int)] + old_rev.reverse());
        }
        m = m / 10;
        proof {
            if old_m < 10 {
                assert(m == 0);
                assert(decimal_of(old_m) =~= seq![digit_char(d as int)]);
                assert(decimal_of(n as nat) =~= rev@.reverse());
            } else {
                assert(m > 0);
                assert(decimal_of(old_m) =~= decimal_of(old_m / 10).push(digit_char(d as int)));
                assert(decimal_of(old_m / 10).push(digit_char(d as int)) =~= decimal_of(
                    old_m / 10,
                ) + seq![digit_char(d as int)]);
                assert(decimal_of(n as nat) =~= decimal_of(m as nat) + rev@.reverse());
            }
        }
        if m == 0 {
            break;
        }
    }
    let mut fwd: Vec<char> = Vec::new();
    let len = rev.len();
    let mut j: usize = 0;
    while j < len
        invariant
            j <= len,
            len == rev@.len(),
            fwd@ =~= rev@.reverse().subrange(0, j as int),
        decreases len - j,
    {
        fwd.push(rev[len - 1 - j]);
        proof {
            assert(rev@.reverse()[j as int] == rev@[len - 1 - j]);
            assert(fwd@ =~= rev@.reverse().subrange(0, j + 1));
        }
        j = j + 1;
    }
    proof {
        assert(fwd@ =~= rev@.reverse());
    }
    string_from_chars(fwd)
}

/// Whether the needle occurs at position `at` of the haystack.
pub open spec fn matches_at(hay: Seq<char>, needle: Seq<char>, at: int) -> bool {
    0 <= at && at + needle.len() <= hay.len() && hay.subrange(at, at + needle.len()) == needle
}

/// Whether the needle occurs anywhere in the haystack.
pub open spec fn contains_seq(hay: Seq<char>, needle: Seq<char>) -> bool {
    exists|at: int| matches_at(hay, needle, at)
}

/// Searches the haystack for the needle.
pub fn contains_sub(hay: &str, needle: &str) -> (r: bool)
    ensures
        r == contains_seq(hay@, needle@),
{
    let hay_len = hay.unicode_len();
    let needle_len = needle.unicode_len();
    if needle_len > hay_len {
        proof {
            assert(forall|at: int| !matches_at(hay@, needle@, at));
        }
        return false;
    }
    if needle_len == 0 {
        proof {
            assert(hay@.subrange(0, 0) =~= needle@);
            assert(matches_at(hay@, needle@, 0));
        }
        return true;
    }
    let last = hay_len - needle_len;
    let mut at: usize = 0;
    while at <= last
        invariant
            1 <= needle_len <= hay_len,
            last == hay_len - needle_len,
            at <= last + 1,
            hay_len == hay@.len(),
            needle_len == needle@.len(),
            forall|p: int| 0 <= p < at ==> !matches_at(hay@, needle@, p),
        decreases last + 1 - at,
    {
        let mut j: usize = 0;
        let mut hit = true;
        while j < needle_len
            invariant
                j <= needle_len,
                at + needle_len <= hay_len,
                hay_len == hay@.len(),
                needle_len == needle@.len(),
                hit ==> forall|q: int|
                    0 <= q < j ==> hay@[at + q] == needle@[q],
                !hit ==> !matches_at(hay@, needle@, at as int),
            decreases needle_len - j,
        {
            if hit {
                let hc = hay.get_char(at + j);
                let nc = needle.get_char(j);
                if (hc as u32) != (nc as u32) {
                    hit = false;
                    proof {
                        assert(hay@.subrange(at as int, at + needle@.len())[j as int] == hay@[at
                            + j]);
                    }
                }
            }
            j = j + 1;
        }
        if hit {
            proof {
                assert(hay@.subrange(at as int, at + needle@.len()) =~= needle@);
                assert(matches_at(hay@, needle@, at as int));
            }
            return true;
        }
        at = at + 1;
    }
    proof {
        assert forall|p: int| !matches_at(hay@, needle@, p) by {
            if 0 <= p && p + needle@.len() <= hay@.len() {
                assert(p <= last);
                assert(p < at);
            }
        }
    }
    false
}

} // verus!
