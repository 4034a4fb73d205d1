//! The key-to-service cache: lookups bump the entry's last-used instant and
//! take a reference; a key absent from the cache is constructed exactly once
//! per residence; a sweep evicts entries that are unreferenced and idle.

use vstd::prelude::*;
use crate::http::bytes_eq;

verus! {

/// One cached service with its bookkeeping.
#[derive(Debug)]
pub struct CacheEntry<V> {
    pub key: Vec<u8>,
    pub value: V,
    /// When the entry was last returned from a lookup.
    pub last_used: u64,
    /// Outstanding references held by callers.
    pub refs: u64,
}

/// The cache: entries with unique keys, an idle age bound, and a count of
/// how many values were ever constructed.
#[derive(Debug)]
pub struct Cache<V> {
    entries: Vec<CacheEntry<V>>,
    max_idle_age: u64,
    builds: u64,
}

impl<V> Cache<V> {
    /// Keys are unique. Constructors establish this and methods keep it.
    pub closed spec fn wf(self) -> bool {
        forall|i: int, j: int|
            0 <= i < j < self.entries@.len() ==> (#[trigger] self.entries@[i]).key@ != (
            #[trigger] self.entries@[j]).key@
    }

    pub closed spec fn spec_max_idle_age(self) -> u64 {
        self.max_idle_age
    }

    /// How many values this cache ever constructed.
    pub closed spec fn spec_builds(self) -> u64 {
        self.builds
    }

    pub closed spec fn spec_contains(self, k: Seq<u8>) -> bool {
        exists|i: int| 0 <= i < self.entries@.len() && (#[trigger] self.entries@[i]).key@ == k
    }

    pub closed spec fn spec_entry(self, k: Seq<u8>) -> CacheEntry<V> {
        self.entries@[choose|i: int|
            0 <= i < self.entries@.len() && (#[trigger] self.entries@[i]).key@ == k]
    }

    /// An empty cache that will evict after `max_idle_age` of disuse.
    pub fn new(max_idle_age: u64) -> (r: Cache<V>)
        ensures
            r.wf(),
            r.spec_max_idle_age() == max_idle_age,
            r.spec_builds() == 0,
            forall|k: Seq<u8>| !r.spec_contains(k),
    {
        Cache { entries: Vec::new(), max_idle_age, builds: 0 }
    }

    /// Looks the key up, constructing at most once: when the key is cached
    /// the stored value stays and `make` is discarded, so any number of
    /// lookups of one key construct its value exactly once while it stays
    /// resident. The entry's last-used instant is set to `now` and one
    /// reference is taken either way.
    #[verifier::loop_isolation(false)]
    pub fn get_or_make(&mut self, key: Vec<u8>, make: V, now: u64) -> (built: bool)
        requires
            old(self).wf(),
            old(self).spec_contains(key@) ==> old(self).spec_entry(key@).refs < u64::MAX,
            old(self).spec_builds() < u64::MAX,
        ensures
            final (self).wf(),
            built == !old(self).spec_contains(key@),
            final (self).spec_contains(key@),
            final (self).spec_entry(key@).last_used == now,
            final (self).spec_entry(key@).refs == if built {
                1u64
            } else {
                (old(self).spec_entry(key@).refs + 1) as u64
            },
            final (self).spec_builds() == old(self).spec_builds() + if built {
                1int
            } else {
                0int
            },
            final (self).spec_max_idle_age() == old(self).spec_max_idle_age(),
            forall|k2: Seq<u8>|
                k2 != key@ ==> (final (self).spec_contains(k2) == old(self).spec_contains(k2)
                    && (old(self).spec_contains(k2) ==> final (self).spec_entry(k2) == old(
                    self,
                ).spec_entry(k2))),
    {
        let ghost pre = *self;
        let mut i: usize = 0;
        while i < self.entries.len()
            invariant
                *self == pre,
                i <= self.entries@.len(),
                forall|j: int| 0 <= j < i ==> (#[trigger] self.entries@[j]).key@ != key@,
            decreases self.entries@.len() - i,
        {
            if bytes_eq(&self.entries[i].key, &key) {
                proof {
                    assert(self.spec_contains(key@));
                    assert(self.spec_entry(key@) == self.entries@[i as int]);
                }
                let refs = self.entries[i].refs;
                let entry = &mut self.entries[i];
                entry.last_used = now;
                entry.refs = refs + 1;
                proof {
                    assert(forall|j: int|
                        0 <= j < self.entries@.len() && j != i ==> self.entries@[j] == pre.entries@[
                        j]);
                    assert(self.spec_entry(key@) == self.entries@[i as int]);
                    assert(forall|k2: Seq<u8>|
                        k2 != key@ ==> (self.spec_contains(k2) == pre.spec_contains(k2) && (
                        pre.spec_contains(k2) ==> self.spec_entry(k2) == pre.spec_entry(k2))));
                }
                return false;
            }
            i = i + 1;
        }
        proof {
            assert(!pre.spec_contains(key@));
        }
        self.entries.push(CacheEntry { key, value: make, last_used: now, refs: 1 });
        self.builds = self.builds + 1;
        proof {
            let n = self.entries@.len() - 1;
            assert(self.entries@[n].key@ == key@);
            assert(self.spec_entry(key@) == self.entries@[n]);
            assert(forall|j: int| 0 <= j < n ==> self.entries@[j] == pre.entries@[j]);
            assert(forall|k2: Seq<u8>|
                k2 != key@ ==> (self.spec_contains(k2) == pre.spec_contains(k2) && (
                pre.spec_contains(k2) ==> self.spec_entry(k2) == pre.spec_entry(k2))));
        }
        true
    }

    /// Returns one reference on a cached entry.
    #[verifier::loop_isolation(false)]
    pub fn release(&mut self, key: &Vec<u8>)
        requires
            old(self).wf(),
            old(self).spec_contains(key@),
            old(self).spec_entry(key@).refs >= 1,
        ensures
            final (self).wf(),
            final (self).spec_contains(key@),
            final (self).spec_entry(key@).refs == old(self).spec_entry(key@).refs - 1,
            final (self).spec_entry(key@).last_used == old(self).spec_entry(key@).last_used,
            final (self).spec_builds() == old(self).spec_builds(),
            final (self).spec_max_idle_age() == old(self).spec_max_idle_age(),
            forall|k2: Seq<u8>|
                k2 != key@ ==> (final (self).spec_contains(k2) == old(self).spec_contains(k2)
                    && (old(self).spec_contains(k2) ==> final (self).spec_entry(k2) == old(
                    self,
                ).spec_entry(k2))),
    {
        let ghost pre = *self;
        let mut i: usize = 0;
        while i < self.entries.len()
            invariant
                *self == pre,
                pre.spec_contains(key@),
                i <= self.entries@.len(),
                forall|j: int| 0 <= j < i ==> (#[trigger] self.entries@[j]).key@ != key@,
            decreases self.entries@.len() - i,
        {
            if bytes_eq(&self.entries[i].key, &key) {
                proof {
                    assert(self.spec_entry(key@) == self.entries@[i as int]);
                }
                let refs = self.entries[i].refs;
                let entry = &mut self.entries[i];
                entry.refs = refs - 1;
                proof {
                    assert(forall|j: int|
                        0 <= j < self.entries@.len() && j != i ==> self.entries@[j] == pre.entries@[
                        j]);
                    assert(self.spec_entry(key@) == self.entries@[i as int]);
                    assert(forall|k2: Seq<u8>|
                        k2 != key@ ==> (self.spec_contains(k2) == pre.spec_contains(k2) && (
                        pre.spec_contains(k2) ==> self.spec_entry(k2) == pre.spec_entry(k2))));
                }
                return ;
            }
            i = i + 1;
        }
        proof {
            assert(!pre.spec_contains(key@));
        }
    }

    /// Whether an entry is kept by a sweep at `now`: it is still referenced,
    /// or it was used more recently than the idle age allows evicting.
    pub open spec fn spec_kept(e: CacheEntry<V>, now: u64, max_idle_age: u64) -> bool {
        e.refs > 0 || now < e.last_used + max_idle_age
    }

    /// Every kept entry is one of the first `upto` old entries, and is kept
    /// rightly.
    spec fn kept_sound(
        kept: Seq<CacheEntry<V>>,
        entries: Seq<CacheEntry<V>>,
        upto: int,
        now: u64,
        max_idle_age: u64,
    ) -> bool {
        forall|m: int|
            0 <= m < kept.len() ==> exists|j: int|
                0 <= j < upto && (#[trigger] kept[m]) == entries[j] && Self::spec_kept(
                    entries[j],
                    now,
                    max_idle_age,
                )
    }

    /// Every old entry among the first `upto` that is to be kept appears in
    /// `kept`.
    spec fn kept_complete(
        kept: Seq<CacheEntry<V>>,
        entries: Seq<CacheEntry<V>>,
        upto: int,
        now: u64,
        max_idle_age: u64,
    ) -> bool {
        forall|j: int|
            0 <= j < upto && Self::spec_kept(#[trigger] entries[j], now, max_idle_age) ==> exists|
                m: int,
            | 0 <= m < kept.len() && kept[m] == entries[j]
    }

    /// Every evicted key names one of the first `upto` old entries that was
    /// due for eviction.
    spec fn evicted_sound(
        evicted: Seq<Vec<u8>>,
        entries: Seq<CacheEntry<V>>,
        upto: int,
        now: u64,
        max_idle_age: u64,
    ) -> bool {
        forall|m: int|
            0 <= m < evicted.len() ==> exists|j: int|
                0 <= j < upto && (#[trigger] evicted[m])@ == entries[j].key@ && !Self::spec_kept(
                    entries[j],
                    now,
                    max_idle_age,
                )
    }

    /// Every old entry among the first `upto` that was due for eviction has
    /// its key in `evicted`.
    spec fn evicted_complete(
        evicted: Seq<Vec<u8>>,
        entries: Seq<CacheEntry<V>>,
        upto: int,
        now: u64,
        max_idle_age: u64,
    ) -> bool {
        forall|j: int|
            0 <= j < upto && !Self::spec_kept(#[trigger] entries[j], now, max_idle_age) ==> exists|
                m: int,
            | 0 <= m < evicted.len() && (#[trigger] evicted[m])@ == entries[j].key@
    }

    /// Examines one key as the periodic sweep does: the entry is evicted
    /// exactly when it is present, holds no outstanding references, and its
    /// last use is at least the idle age ago; a present entry that is still
    /// referenced or was used recently is retained unchanged. The sweep task
    /// applies this to every key each `max_idle_age / 4` period and fires
    /// the drain signal of each evicted entry.
    #[verifier::loop_isolation(false)]
    pub fn evict_if_idle(&mut self, key: &Vec<u8>, now: u64) -> (evicted: bool)
        requires
            old(self).wf(),
        ensures
            final (self).wf(),
            evicted == (old(self).spec_contains(key@) && !Self::spec_kept(
                old(self).spec_entry(key@),
                now,
                old(self).spec_max_idle_age(),
            )),
            final (self).spec_contains(key@) == (old(self).spec_contains(key@) && !evicted),
            final (self).spec_contains(key@) ==> final (self).spec_entry(key@) == old(
                self,
            ).spec_entry(key@),
            final (self).spec_builds() == old(self).spec_builds(),
            final (self).spec_max_idle_age() == old(self).spec_max_idle_age(),
            forall|k2: Seq<u8>|
                k2 != key@ ==> (final (self).spec_contains(k2) == old(self).spec_contains(k2)
                    && (old(self).spec_contains(k2) ==> final (self).spec_entry(k2) == old(
                    self,
                ).spec_entry(k2))),
    {
        let ghost pre = *self;
        let max_idle_age = self.max_idle_age;
        let mut i: usize = 0;
        while i < self.entries.len()
            invariant
                *self == pre,
                i <= self.entries@.len(),
                forall|j: int| 0 <= j < i ==> (#[trigger] self.entries@[j]).key@ != key@,
            decreases self.entries@.len() - i,
        {
            if bytes_eq(&self.entries[i].key, &key) {
                proof {
                    assert(self.spec_contains(key@));
                    assert(self.spec_entry(key@) == self.entries@[i as int]);
                }
                let e = &self.entries[i];
                let keep = e.refs > 0 || e.last_used > u64::MAX - max_idle_age || now
                    < e.last_used + max_idle_age;
                proof {
                    assert(keep == Self::spec_kept(pre.spec_entry(key@), now, max_idle_age));
                }
                if keep {
                    return false;
                }
                self.entries.remove(i);
                proof {
                    assert(self.entries@ =~= pre.entries@.remove(i as int));
                    assert forall|a: int, b: int|
                        0 <= a < b < self.entries@.len() implies (
                    #[trigger] self.entries@[a]).key@ != (#[trigger] self.entries@[b]).key@ by {
                        let pa = if a < i { a } else { a + 1 };
                        let pb = if b < i { b } else { b + 1 };
                        assert(self.entries@[a] == pre.entries@[pa]);
                        assert(self.entries@[b] == pre.entries@[pb]);
                    }
                    assert(!self.spec_contains(key@)) by {
                        if self.spec_contains(key@) {
                            let m = choose|m: int|
                                0 <= m < self.entries@.len() && (#[trigger] self.entries@[m]).key@
                                    == key@;
                            let pm = if m < i { m } else { m + 1 };
                            assert(pre.entries@[pm].key@ == key@);
                            assert(pre.entries@[i as int].key@ == key@);
                            assert(pm == i);
                        }
                    }
                    assert forall|k2: Seq<u8>| k2 != key@ implies (self.spec_contains(k2)
                        == pre.spec_contains(k2) && (pre.spec_contains(k2) ==> self.spec_entry(k2)
                        == pre.spec_entry(k2))) by {
                        if pre.spec_contains(k2) {
                            let pm = choose|m: int|
                                0 <= m < pre.entries@.len() && (#[trigger] pre.entries@[m]).key@
                                    == k2;
                            assert(pm != i);
                            let m = if pm < i { pm } else { pm - 1 };
                            assert(self.entries@[m] == pre.entries@[pm]);
                            assert(self.spec_contains(k2));
                            let m0 = choose|m0: int|
                                0 <= m0 < self.entries@.len() && (#[trigger] self.entries@[m0]).key@
                                    == k2;
                            assert(self.spec_entry(k2) == self.entries@[m0]);
                            let pm0 = if m0 < i { m0 } else { m0 + 1 };
                            assert(self.entries@[m0] == pre.entries@[pm0]);
                            assert(pre.spec_entry(k2) == pre.entries@[choose|n: int|
                                0 <= n < pre.entries@.len() && (#[trigger] pre.entries@[n]).key@
                                    == k2]);
                            let pn = choose|n: int|
                                0 <= n < pre.entries@.len() && (#[trigger] pre.entries@[n]).key@
                                    == k2;
                            assert(pn == pm0);
                        }
                        if self.spec_contains(k2) {
                            let m = choose|m: int|
                                0 <= m < self.entries@.len() && (#[trigger] self.entries@[m]).key@
                                    == k2;
                            let pm = if m < i { m } else { m + 1 };
                            assert(self.entries@[m] == pre.entries@[pm]);
                            assert(pre.spec_contains(k2));
                        }
                    }
                }
                return true;
            }
            i = i + 1;
        }
        proof {
            assert(!pre.spec_contains(key@));
        }
        false
    }
}

} // verus!
