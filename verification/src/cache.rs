//! A small cache: bounded, with a time to live, and the least recently used entry goes
//! first.

use vstd::prelude::*;

use crate::event::Moment;
use crate::number::Span;
use crate::text;

verus! {

/// What entries can be found by. Two keys are the same where their views are.
pub trait CacheKey: View + Sized {
    /// Whether this is the same key.
    fn is_key(&self, other: &Self) -> (r: bool)
        ensures
            r == (self@ == other@),
    ;
}

impl CacheKey for String {
    fn is_key(&self, other: &Self) -> (r: bool) {
        text::same(self.as_str(), other.as_str())
    }
}

impl CacheKey for u64 {
    fn is_key(&self, other: &Self) -> (r: bool) {
        *self == *other
    }
}

/// One entry.
#[derive(Debug)]
pub struct CacheEntry<K, V> {
    /// Its key.
    pub key: K,
    /// When it was put in.
    pub since: Moment,
    /// Its value.
    pub value: V,
}

/// A bounded cache.
#[derive(Debug)]
pub struct TtlLru<K, V> {
    /// The entries, the least recently used first.
    entries: Vec<CacheEntry<K, V>>,
    /// How many entries it holds at most.
    cap: usize,
    /// How long an entry lives.
    ttl: Span,
}

/// The place of a key among entries.
pub open spec fn place_of<K: View, V>(s: Seq<CacheEntry<K, V>>, k: K::V) -> Option<int>
    decreases s.len(),
{
    if s.len() == 0 {
        None
    } else if s.last().key@ == k {
        Some(s.len() - 1)
    } else {
        place_of(s.drop_last(), k)
    }
}

/// How long an entry that was put in at `since` has lived.
pub open spec fn age(since: Moment, now: Moment) -> int {
    if now.nanos >= since.nanos {
        now.nanos - since.nanos
    } else {
        0
    }
}

/// The entries without this key.
pub open spec fn without<K: View, V>(s: Seq<CacheEntry<K, V>>, k: K::V) -> Seq<
    CacheEntry<K, V>,
> {
    match place_of(s, k) {
        Some(i) => s.remove(i),
        None => s,
    }
}

/// The last `cap` entries.
pub open spec fn newest<K, V>(s: Seq<CacheEntry<K, V>>, cap: nat) -> Seq<CacheEntry<K, V>> {
    if s.len() > cap {
        s.skip(s.len() - cap)
    } else {
        s
    }
}

/// The entries whose key does not begin with `p`.
pub open spec fn unprefixed<V>(s: Seq<CacheEntry<String, V>>, p: Seq<char>) -> Seq<
    CacheEntry<String, V>,
>
    decreases s.len(),
{
    if s.len() == 0 {
        Seq::empty()
    } else if text::begins(s.last().key@, p) {
        unprefixed(s.drop_last(), p)
    } else {
        unprefixed(s.drop_last(), p).push(s.last())
    }
}

/// No key occurs twice.
pub open spec fn distinct<K: View, V>(s: Seq<CacheEntry<K, V>>) -> bool {
    forall|i: int, j: int|
        0 <= i < j < s.len() ==> (#[trigger] s[i]).key@ != (#[trigger] s[j]).key@
}

proof fn place_is_the_key<K: View, V>(s: Seq<CacheEntry<K, V>>, k: K::V)
    ensures
        place_of(s, k) matches Some(i) ==> 0 <= i < s.len() && s[i].key@ == k,
        place_of(s, k) is None ==> forall|i: int| 0 <= i < s.len() ==> (#[trigger] s[i]).key@ != k,
    decreases s.len(),
{
    if s.len() > 0 && s.last().key@ != k {
        let init = s.drop_last();
        place_is_the_key(init, k);
        assert forall|i: int| place_of(s, k) is None && 0 <= i < s.len() implies (
        #[trigger] s[i]).key@ != k by {
            if i < init.len() {
                assert(init[i] == s[i]);
            }
        }
    }
}

proof fn without_is_distinct<K: View, V>(s: Seq<CacheEntry<K, V>>, k: K::V)
    requires
        distinct(s),
    ensures
        distinct(without(s, k)),
        forall|i: int| 0 <= i < without(s, k).len() ==> (#[trigger] without(s, k)[i]).key@ != k,
        forall|i: int|
            0 <= i < without(s, k).len() ==> s.contains(#[trigger] without(s, k)[i]),
{
    place_is_the_key(s, k);
    let w = without(s, k);
    if let Some(p) = place_of(s, k) {
        assert forall|i: int, j: int| 0 <= i < j < w.len() implies (#[trigger] w[i]).key@ != (
        #[trigger] w[j]).key@ by {
            let a = if i < p {
                i
            } else {
                i + 1
            };
            let b = if j < p {
                j
            } else {
                j + 1
            };
            assert(w[i] == s[a] && w[j] == s[b]);
        }
        assert forall|i: int| 0 <= i < w.len() implies (#[trigger] w[i]).key@ != k && s.contains(
            w[i],
        ) by {
            let a = if i < p {
                i
            } else {
                i + 1
            };
            assert(w[i] == s[a]);
        }
    }
}

proof fn unprefixed_is_distinct<V>(s: Seq<CacheEntry<String, V>>, p: Seq<char>)
    requires
        distinct(s),
    ensures
        distinct(unprefixed(s, p)),
        unprefixed(s, p).len() <= s.len(),
        forall|i: int|
            0 <= i < unprefixed(s, p).len() ==> s.contains(#[trigger] unprefixed(s, p)[i])
                && !text::begins(unprefixed(s, p)[i].key@, p),
    decreases s.len(),
{
    if s.len() > 0 {
        let init = s.drop_last();
        let u = unprefixed(init, p);
        assert(distinct(init)) by {
            assert forall|i: int, j: int| 0 <= i < j < init.len() implies (
            #[trigger] init[i]).key@ != (#[trigger] init[j]).key@ by {
                assert(s[i].key@ != s[j].key@);
            }
        }
        unprefixed_is_distinct(init, p);
        let all = unprefixed(s, p);
        assert forall|i: int| 0 <= i < all.len() implies s.contains(#[trigger] all[i])
            && !text::begins(all[i].key@, p) by {
            if i < u.len() {
                assert(init.contains(u[i]));
                let m = choose|m: int| 0 <= m < init.len() && init[m] == u[i];
                assert(s[m] == u[i]);
            } else {
                assert(s[s.len() - 1] == s.last());
            }
        }
        assert forall|i: int, j: int| 0 <= i < j < all.len() implies (#[trigger] all[i]).key@ != (
        #[trigger] all[j]).key@ by {
            if j < u.len() {
                assert(u[i].key@ != u[j].key@);
            } else {
                assert(init.contains(u[i]));
                let m = choose|m: int| 0 <= m < init.len() && init[m] == u[i];
                assert(s[m].key@ != s[s.len() - 1].key@);
            }
        }
    }
}

impl<K: View, V> TtlLru<K, V> {
    /// The entries, the least recently used first.
    pub closed spec fn held(self) -> Seq<CacheEntry<K, V>> {
        self.entries@
    }

    /// How many entries it holds at most.
    pub closed spec fn capacity(self) -> nat {
        self.cap as nat
    }

    /// How long an entry lives, in nanoseconds.
    pub closed spec fn lifetime(self) -> nat {
        self.ttl.nanos as nat
    }

    /// No key occurs twice, and there are no more entries than fit.
    pub open spec fn wf(self) -> bool {
        distinct(self.held()) && self.held().len() <= self.capacity()
    }

    /// An empty cache.
    pub fn new(cap: usize, ttl: Span) -> (r: Self)
        ensures
            r.wf(),
            r.held() == Seq::<CacheEntry<K, V>>::empty(),
            r.capacity() == cap,
            r.lifetime() == ttl.nanos,
    {
        TtlLru { entries: Vec::new(), cap, ttl }
    }
}

impl<K: CacheKey, V> TtlLru<K, V> {
    fn find(&self, k: &K) -> (r: Option<usize>)
        ensures
            match r {
                Some(i) => i < self.entries@.len() && place_of(self.entries@, k@) == Some(i as int),
                None => place_of(self.entries@, k@) is None,
            },
    {
        let mut i: usize = self.entries.len();
        assert(self.entries@.take(i as int) =~= self.entries@);
        while i > 0
            invariant
                i <= self.entries@.len(),
                place_of(self.entries@, k@) == place_of(self.entries@.take(i as int), k@),
            decreases i,
        {
            assert(self.entries@.take(i as int).drop_last() =~= self.entries@.take(i - 1));
            if self.entries[i - 1].key.is_key(k) {
                return Some(i - 1);
            }
            i -= 1;
        }
        None
    }

    /// Puts an entry in, in place of one with the same key. It is the most recently used
    /// one. Where there are too many, the least recently used ones go.
    pub fn put(&mut self, k: K, v: V, now: Moment)
        requires
            old(self).wf(),
        ensures
            final(self).wf(),
            final(self).capacity() == old(self).capacity(),
            final(self).lifetime() == old(self).lifetime(),
            final(self).held() == newest(
                without(old(self).held(), k@).push(CacheEntry { key: k, since: now, value: v }),
                old(self).capacity(),
            ),
    {
        proof {
            without_is_distinct(self.entries@, k@);
        }
        if let Some(i) = self.find(&k) {
            let _ = self.entries.remove(i);
        }
        self.entries.push(CacheEntry { key: k, since: now, value: v });
        let ghost all = self.entries@;
        assert(distinct(all));
        assert(all.skip(0) =~= all);
        let ghost mut gone: int = 0;
        while self.entries.len() > self.cap
            invariant
                0 <= gone <= all.len(),
                self.entries@ == all.skip(gone),
                self.cap == old(self).cap,
                self.ttl == old(self).ttl,
                gone > 0 ==> all.len() - gone >= self.cap,
            decreases all.len() - gone,
        {
            let _ = self.entries.remove(0);
            proof {
                gone = gone + 1;
                assert(self.entries@ =~= all.skip(gone));
            }
        }
        proof {
            let last = self.entries@;
            assert(last =~= newest(all, self.cap as nat));
            assert forall|i: int, j: int| 0 <= i < j < last.len() implies (
            #[trigger] last[i]).key@ != (#[trigger] last[j]).key@ by {
                assert(last[i] == all[i + gone] && last[j] == all[j + gone]);
            }
        }
    }

    /// Drops the entry with this key.
    pub fn invalidate(&mut self, k: &K)
        requires
            old(self).wf(),
        ensures
            final(self).wf(),
            final(self).capacity() == old(self).capacity(),
            final(self).lifetime() == old(self).lifetime(),
            final(self).held() == without(old(self).held(), k@),
    {
        proof {
            without_is_distinct(self.entries@, k@);
        }
        if let Some(i) = self.find(k) {
            let _ = self.entries.remove(i);
        }
    }
}

impl<V> TtlLru<String, V> {
    /// Drops every entry whose key begins with `prefix`.
    pub fn invalidate_prefix(&mut self, prefix: &str)
        requires
            old(self).wf(),
        ensures
            final(self).wf(),
            final(self).capacity() == old(self).capacity(),
            final(self).lifetime() == old(self).lifetime(),
            final(self).held() == unprefixed(old(self).held(), prefix@),
    {
        let ghost all = self.entries@;
        let ghost mut k: int = 0;
        let mut i: usize = 0;
        proof {
            unprefixed_is_distinct(all, prefix@);
            assert(all.take(0) =~= Seq::<CacheEntry<String, V>>::empty());
            assert(all.take(0) + all.skip(0) =~= all);
        }
        while i < self.entries.len()
            invariant
                0 <= k <= all.len(),
                self.cap == old(self).cap,
                self.ttl == old(self).ttl,
                i == unprefixed(all.take(k), prefix@).len(),
                self.entries@ =~= unprefixed(all.take(k), prefix@) + all.skip(k),
            decreases all.len() - k,
        {
            proof {
                assert(all.take(k + 1).drop_last() =~= all.take(k));
                assert(all.take(k + 1).last() == all[k]);
                assert(self.entries@[i as int] == all[k]);
            }
            let ghost before = self.entries@;
            if text::starts_with(self.entries[i].key.as_str(), prefix) {
                let _ = self.entries.remove(i);
                assert(self.entries@ =~= unprefixed(all.take(k + 1), prefix@) + all.skip(k + 1));
            } else {
                i += 1;
                assert(self.entries@ =~= unprefixed(all.take(k + 1), prefix@) + all.skip(k + 1));
            }
            proof {
                k = k + 1;
            }
        }
        proof {
            assert(k == all.len());
            assert(all.take(k) =~= all);
            assert(self.entries@ =~= unprefixed(all, prefix@));
        }
    }
}

impl<K: CacheKey, V: Clone> TtlLru<K, V> {
    /// The value with this key, unless it has lived too long. It becomes the most
    /// recently used one, or goes where it has lived too long.
    pub fn get(&mut self, k: &K, now: Moment) -> (r: Option<V>)
        requires
            old(self).wf(),
        ensures
            final(self).wf(),
            final(self).capacity() == old(self).capacity(),
            final(self).lifetime() == old(self).lifetime(),
            match place_of(old(self).held(), k@) {
                None => r is None && final(self).held() == old(self).held(),
                Some(i) => {
                    let e = old(self).held()[i];
                    if age(e.since, now) < old(self).lifetime() {
                        &&& r is Some
                        &&& cloned(e.value, r->0)
                        &&& final(self).held() == old(self).held().remove(i).push(e)
                    } else {
                        r is None && final(self).held() == old(self).held().remove(i)
                    }
                },
            },
    {
        proof {
            without_is_distinct(self.entries@, k@);
            place_is_the_key(self.entries@, k@);
        }
        match self.find(k) {
            None => None,
            Some(i) => {
                let e = self.entries.remove(i);
                let lived: u128 = if now.nanos >= e.since.nanos {
                    now.nanos - e.since.nanos
                } else {
                    0
                };
                if lived < self.ttl.nanos {
                    let v = e.value.clone();
                    self.entries.push(e);
                    Some(v)
                } else {
                    None
                }
            },
        }
    }
}

// ---------------------------------------------------------------------------
// Laws
// ---------------------------------------------------------------------------

proof fn place_of_last<K: View, V>(s: Seq<CacheEntry<K, V>>, e: CacheEntry<K, V>)
    ensures
        place_of(s.push(e), e.key@) == Some(s.len() as int),
{
}

/// What was put in is found again, as long as it lives, in a cache that holds anything
/// at all.
pub proof fn what_is_put_is_found<K: View, V>(
    s: Seq<CacheEntry<K, V>>,
    e: CacheEntry<K, V>,
    cap: nat,
)
    requires
        cap > 0,
    ensures
        ({
            let held = newest(without(s, e.key@).push(e), cap);
            place_of(held, e.key@) matches Some(i) && held[i] == e
        }),
{
    let all = without(s, e.key@).push(e);
    let held = newest(all, cap);
    assert(held.last() == e);
    assert(held == held.drop_last().push(e));
    place_of_last(held.drop_last(), e);
}

/// What is dropped is gone.
pub proof fn what_is_dropped_is_gone<K: View, V>(s: Seq<CacheEntry<K, V>>, k: K::V)
    requires
        distinct(s),
    ensures
        place_of(without(s, k), k) is None,
{
    without_is_distinct(s, k);
    place_is_the_key(without(s, k), k);
}

/// Dropping by a prefix drops what begins with it, and nothing else.
pub proof fn a_prefix_is_all_that_goes<V>(
    s: Seq<CacheEntry<String, V>>,
    p: Seq<char>,
    i: int,
)
    requires
        distinct(s),
        0 <= i < s.len(),
    ensures
        unprefixed(s, p).contains(s[i]) <==> !text::begins(s[i].key@, p),
    decreases s.len(),
{
    unprefixed_is_distinct(s, p);
    let u = unprefixed(s, p);
    let init = s.drop_last();
    if u.contains(s[i]) {
        let m = choose|m: int| 0 <= m < u.len() && u[m] == s[i];
        assert(!text::begins(u[m].key@, p));
    } else if i == s.len() - 1 {
        if !text::begins(s.last().key@, p) {
            assert(u[u.len() - 1] == s[i]);
        }
    } else {
        assert(distinct(init)) by {
            assert forall|a: int, b: int| 0 <= a < b < init.len() implies (
            #[trigger] init[a]).key@ != (#[trigger] init[b]).key@ by {
                assert(s[a].key@ != s[b].key@);
            }
        }
        a_prefix_is_all_that_goes(init, p, i);
        assert(init[i] == s[i]);
        if unprefixed(init, p).contains(s[i]) {
            let v = unprefixed(init, p);
            let m = choose|m: int| 0 <= m < v.len() && v[m] == s[i];
            assert(u[m] == s[i]);
        }
    }
}

/// A full cache loses its least recently used entry to a new key, and no other.
pub proof fn the_least_recently_used_goes<K: View, V>(
    s: Seq<CacheEntry<K, V>>,
    e: CacheEntry<K, V>,
    cap: nat,
)
    requires
        s.len() == cap,
        cap > 0,
        place_of(s, e.key@) is None,
    ensures
        newest(without(s, e.key@).push(e), cap) == s.drop_first().push(e),
{
    assert(newest(s.push(e), cap) =~= s.drop_first().push(e));
}

/// An entry is as old as the time that went by since it was put in, and none is younger than
/// new.
pub proof fn an_entry_ages_with_time(since: Moment, now: Moment)
    ensures
        now.nanos >= since.nanos ==> since.nanos + age(since, now) == now.nanos,
        now.nanos < since.nanos ==> age(since, now) == 0,
{
}

/// A place that is found is that of the key, and where none is found no entry has the key.
pub proof fn a_place_is_that_of_its_key<K: View, V>(s: Seq<CacheEntry<K, V>>, k: K::V)
    ensures
        place_of(s, k) matches Some(i) ==> 0 <= i < s.len() && s[i].key@ == k,
        place_of(s, k) is None ==> forall|i: int| 0 <= i < s.len() ==> (#[trigger] s[i]).key@ != k,
{
    place_is_the_key(s, k);
}

/// Dropping a key drops one entry at most, and leaves every other one, in its order.
pub proof fn what_is_not_dropped_stays<K: View, V>(s: Seq<CacheEntry<K, V>>, k: K::V, i: int)
    requires
        0 <= i < s.len(),
        s[i].key@ != k,
    ensures
        without(s, k).contains(s[i]),
        without(s, k).len() >= s.len() - 1,
        place_of(s, k) is None ==> without(s, k) == s,
{
    place_is_the_key(s, k);
    let w = without(s, k);
    match place_of(s, k) {
        Some(p) => {
            if i < p {
                assert(w[i] == s[i]);
            } else {
                assert(w[i - 1] == s[i]);
            }
        },
        None => {
            assert(w[i] == s[i]);
        },
    }
}

/// The newest entries are the last ones, in their order, and as many as fit.
pub proof fn the_newest_are_the_last<K, V>(s: Seq<CacheEntry<K, V>>, cap: nat, j: int)
    ensures
        s.len() <= cap ==> newest(s, cap) == s,
        s.len() > cap ==> newest(s, cap).len() == cap,
        s.len() > cap && 0 <= j < cap ==> newest(s, cap)[j] == s[s.len() - cap + j],
{
}

} // verus!
