//! The time-bounded memo that throttles outbound enrichment calls: an
//! entity observed recently is not enriched again until its entry expires.
//! The clock is injected: callers pass the current time in milliseconds.

use vstd::prelude::*;
use vstd::string::StringExecFns;
use crate::lex::str_eq;

verus! {

/// How long a successful enrichment suppresses the next one, in
/// milliseconds.
pub const CACHE_EXPIRE_MILLIS: i64 = 90000;

/// The value recorded for a key, scanning entries in order.
pub open spec fn lookup(s: Seq<(Seq<char>, i64)>, k: Seq<char>) -> Option<i64>
    decreases s.len(),
{
    if s.len() == 0 {
        None
    } else if s[0].0 == k {
        Some(s[0].1)
    } else {
        lookup(s.drop_first(), k)
    }
}

proof fn lemma_lookup_update(s: Seq<(Seq<char>, i64)>, i: int, k: Seq<char>, v: i64)
    requires
        0 <= i < s.len(),
        s[i].0 == k,
        forall|j: int| 0 <= j < i ==> (#[trigger] s[j].0) != k,
    ensures
        lookup(s.update(i, (k, v)), k) == Some(v),
        forall|k2: Seq<char>| k2 != k ==> lookup(s.update(i, (k, v)), k2) == lookup(s, k2),
    decreases i,
{
    let t = s.update(i, (k, v));
    if i == 0 {
        assert(t[0] == (k, v));
        assert(t.drop_first() =~= s.drop_first());
        assert forall|k2: Seq<char>| k2 != k implies lookup(t, k2) == lookup(s, k2) by {
            assert(lookup(t, k2) == lookup(t.drop_first(), k2));
            assert(lookup(s, k2) == lookup(s.drop_first(), k2));
        }
    } else {
        assert(t[0] == s[0]);
        assert(s[0].0 != k);
        assert(t.drop_first() =~= s.drop_first().update(i - 1, (k, v)));
        assert(forall|j: int|
            0 <= j < i - 1 ==> (#[trigger] s.drop_first()[j].0) == s[j + 1].0 && s[j + 1].0 != k);
        lemma_lookup_update(s.drop_first(), i - 1, k, v);
        assert forall|k2: Seq<char>| k2 != k implies lookup(t, k2) == lookup(s, k2) by {
            if s[0].0 == k2 {
                assert(lookup(t, k2) == Some(t[0].1));
                assert(lookup(s, k2) == Some(s[0].1));
            } else {
                assert(lookup(t, k2) == lookup(t.drop_first(), k2));
                assert(lookup(s, k2) == lookup(s.drop_first(), k2));
            }
        }
    }
}

proof fn lemma_lookup_push(s: Seq<(Seq<char>, i64)>, k: Seq<char>, v: i64)
    requires
        forall|j: int| 0 <= j < s.len() ==> (#[trigger] s[j].0) != k,
    ensures
        lookup(s.push((k, v)), k) == Some(v),
        forall|k2: Seq<char>| k2 != k ==> lookup(s.push((k, v)), k2) == lookup(s, k2),
    decreases s.len(),
{
    let t = s.push((k, v));
    if s.len() == 0 {
        assert(t[0] == (k, v));
        assert(t.drop_first() =~= Seq::<(Seq<char>, i64)>::empty());
        assert forall|k2: Seq<char>| k2 != k implies lookup(t, k2) == lookup(s, k2) by {
            assert(lookup(t, k2) == lookup(t.drop_first(), k2));
        }
    } else {
        assert(t[0] == s[0]);
        assert(s[0].0 != k);
        assert(t.drop_first() =~= s.drop_first().push((k, v)));
        assert(forall|j: int|
            0 <= j < s.drop_first().len() ==> (#[trigger] s.drop_first()[j].0) == s[j + 1].0 && s[
                j + 1].0 != k);
        lemma_lookup_push(s.drop_first(), k, v);
        assert forall|k2: Seq<char>| k2 != k implies lookup(t, k2) == lookup(s, k2) by {
            if s[0].0 == k2 {
                assert(lookup(t, k2) == Some(t[0].1));
                assert(lookup(s, k2) == Some(s[0].1));
            } else {
                assert(lookup(t, k2) == lookup(t.drop_first(), k2));
                assert(lookup(s, k2) == lookup(s.drop_first(), k2));
            }
        }
    }
}

/// The memo of recently-enriched entities: for each key, when its entry
/// expires.
pub struct TtlCache {
    entries: Vec<(String, i64)>,
}

impl TtlCache {
    /// The entries as key/expiry pairs, in scan order.
    pub closed spec fn entries_view(self) -> Seq<(Seq<char>, i64)> {
        self.entries@.map_values(|p: (String, i64)| (p.0@, p.1))
    }

    /// An empty cache: everything needs enrichment.
    pub fn new() -> (r: TtlCache)
        ensures
            r.entries_view() =~= Seq::<(Seq<char>, i64)>::empty(),
    {
        TtlCache { entries: Vec::new() }
    }

    /// Whether an entity should be enriched now: it has no entry, or its
    /// entry has expired. A stale answer only costs a redundant call, so
    /// this is a throttle, not a correctness mechanism.
    pub fn should_refresh(&self, key: &str, now_millis: i64) -> (r: bool)
        ensures
            r == (match lookup(self.entries_view(), key@) {
                Some(expiry) => now_millis >= expiry,
                None => true,
            }),
    {
        let ghost full = self.entries_view();
        let mut i: usize = 0;
        proof {
            assert(full.skip(0) =~= full);
        }
        while i < self.entries.len()
            invariant
                i <= self.entries@.len(),
                full == self.entries_view(),
                lookup(full, key@) == lookup(full.skip(i as int), key@),
            decreases self.entries@.len() - i,
        {
            if str_eq(self.entries[i].0.as_str(), key) {
                proof {
                    assert(full.skip(i as int)[0] == full[i as int]);
                }
                return now_millis >= self.entries[i].1;
            }
            proof {
                assert(full.skip(i as int)[0] == full[i as int]);
                assert(full.skip(i as int).drop_first() =~= full.skip(i + 1));
            }
            i = i + 1;
        }
        proof {
            assert(full.skip(i as int).len() == 0);
        }
        true
    }

    /// Records a successful enrichment: the key expires one interval from
    /// now. Other keys are untouched.
    pub fn record(&mut self, key: &str, now_millis: i64)
        requires
            now_millis <= i64::MAX - CACHE_EXPIRE_MILLIS,
        ensures
            lookup(final(self).entries_view(), key@) == Some(
                (now_millis + CACHE_EXPIRE_MILLIS) as i64,
            ),
            forall|k2: Seq<char>|
                k2 != key@ ==> lookup(final(self).entries_view(), k2) == lookup(
                    old(self).entries_view(),
                    k2,
                ),
    {
        let expiry: i64 = now_millis + CACHE_EXPIRE_MILLIS;
        let ghost full = self.entries_view();
        let mut i: usize = 0;
        while i < self.entries.len()
            invariant
                i <= self.entries@.len(),
                full == self.entries_view(),
                full == old(self).entries_view(),
                expiry as int == now_millis + CACHE_EXPIRE_MILLIS,
                forall|j: int| 0 <= j < i ==> (#[trigger] full[j].0) != key@,
        decreases self.entries@.len() - i,
        {
            let hit = str_eq(self.entries[i].0.as_str(), key);
            if hit {
                proof {
                    assert(full[i as int].0 == key@);
                }
                self.entries[i] = (String::from_str(key), expiry);
                proof {
                    assert(self.entries_view() =~= full.update(i as int, (key@, expiry)));
                    lemma_lookup_update(full, i as int, key@, expiry);
                    assert(lookup(self.entries_view(), key@) == Some(expiry));
                }
                return ;
            }
            i = i + 1;
        }
        self.entries.push((String::from_str(key), expiry));
        proof {
            assert(self.entries_view() =~= full.push((key@, expiry)));
            lemma_lookup_push(full, key@, expiry);
        }
    }
}

} // verus!
