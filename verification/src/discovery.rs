//! Discovery: the balancer's endpoint pool driven by resolver updates, the
//! power-of-two-choices selection rule, and the resolver handle that reports
//! whether subscriptions were shared and stayed within configuration.

use vstd::prelude::*;
use crate::connect::Metadata;
use crate::http::bytes_eq;
use crate::net::SockAddr;

verus! {

/// One event on a resolver stream.
#[derive(Clone, Debug)]
pub enum Update {
    /// An endpoint joined (or changed its metadata).
    Add(SockAddr, Metadata),
    /// An endpoint left.
    Remove(SockAddr),
    /// The destination does not exist: the balancer is terminal and fails
    /// requests with discovery-rejected.
    DoesNotExist,
    /// The destination exists but has no endpoints; transient.
    Empty,
}

/// The balancer's pool membership.
#[derive(Debug)]
pub struct Pool {
    endpoints: Vec<(SockAddr, Metadata)>,
    terminal: bool,
}

impl Pool {
    /// Addresses are unique.
    pub closed spec fn wf(self) -> bool {
        forall|i: int, j: int|
            0 <= i < j < self.endpoints@.len() ==> (#[trigger] self.endpoints@[i]).0 != (
            #[trigger] self.endpoints@[j]).0
    }

    /// A terminal pool refuses requests with discovery-rejected.
    pub closed spec fn spec_terminal(self) -> bool {
        self.terminal
    }

    pub closed spec fn spec_contains(self, a: SockAddr) -> bool {
        exists|i: int| 0 <= i < self.endpoints@.len() && (#[trigger] self.endpoints@[i]).0 == a
    }

    pub closed spec fn spec_meta(self, a: SockAddr) -> Metadata {
        self.endpoints@[choose|i: int|
            0 <= i < self.endpoints@.len() && (#[trigger] self.endpoints@[i]).0 == a].1
    }

    pub closed spec fn spec_len(self) -> nat {
        self.endpoints@.len()
    }

    pub fn new() -> (r: Pool)
        ensures
            r.wf(),
            !r.spec_terminal(),
            forall|a: SockAddr| !r.spec_contains(a),
    {
        Pool { endpoints: Vec::new(), terminal: false }
    }

    /// The number of pool members.
    pub fn len(&self) -> (r: usize)
        ensures
            r == self.spec_len(),
    {
        self.endpoints.len()
    }

    /// Whether the destination was declared nonexistent.
    pub fn is_terminal(&self) -> (r: bool)
        ensures
            r == self.spec_terminal(),
    {
        self.terminal
    }

    /// Applies one resolver event, in arrival order: `Add` inserts the
    /// endpoint or replaces its metadata; `Remove` drains it; `DoesNotExist`
    /// clears the pool and makes it terminal; `Empty` clears the pool and
    /// leaves it serving (unready, not failing).
    #[verifier::loop_isolation(false)]
    pub fn apply(&mut self, u: Update)
        requires
            old(self).wf(),
        ensures
            final (self).wf(),
            (match u {
                Update::Add(a, m) => {
                    &&& final (self).spec_contains(a)
                    &&& final (self).spec_meta(a) == m
                    &&& final (self).spec_terminal() == old(self).spec_terminal()
                    &&& forall|a2: SockAddr|
                        a2 != a ==> (final (self).spec_contains(a2) == old(self).spec_contains(a2)
                            && (old(self).spec_contains(a2) ==> final (self).spec_meta(a2) == old(
                            self,
                        ).spec_meta(a2)))
                },
                Update::Remove(a) => {
                    &&& !final (self).spec_contains(a)
                    &&& final (self).spec_terminal() == old(self).spec_terminal()
                    &&& forall|a2: SockAddr|
                        a2 != a ==> (final (self).spec_contains(a2) == old(self).spec_contains(a2)
                            && (old(self).spec_contains(a2) ==> final (self).spec_meta(a2) == old(
                            self,
                        ).spec_meta(a2)))
                },
                Update::DoesNotExist => final (self).spec_terminal() && forall|a2: SockAddr|
                    !final (self).spec_contains(a2),
                Update::Empty => !final (self).spec_terminal() && forall|a2: SockAddr|
                    !final (self).spec_contains(a2),
            }),
    {
        match u {
            Update::Add(a, m) => {
                let ghost pre = *self;
                let mut i: usize = 0;
                while i < self.endpoints.len()
                    invariant
                        *self == pre,
                        i <= self.endpoints@.len(),
                        forall|j: int| 0 <= j < i ==> (#[trigger] self.endpoints@[j]).0 != a,
                    decreases self.endpoints@.len() - i,
                {
                    if self.endpoints[i].0 == a {
                        proof {
                            assert(self.spec_contains(a));
                        }
                        self.endpoints[i].1 = m;
                        proof {
                            assert(forall|j: int|
                                0 <= j < self.endpoints@.len() && j != i ==> self.endpoints@[j]
                                    == pre.endpoints@[j]);
                            assert(self.endpoints@[i as int].0 == a);
                            assert(self.spec_meta(a) == self.endpoints@[i as int].1);
                            assert(forall|a2: SockAddr|
                                a2 != a ==> (self.spec_contains(a2) == pre.spec_contains(a2) && (
                                pre.spec_contains(a2) ==> self.spec_meta(a2) == pre.spec_meta(
                                    a2,
                                ))));
                        }
                        return ;
                    }
                    i = i + 1;
                }
                proof {
                    assert(!pre.spec_contains(a));
                }
                self.endpoints.push((a, m));
                proof {
                    let n = self.endpoints@.len() - 1;
                    assert(self.endpoints@[n].0 == a);
                    assert(self.spec_meta(a) == self.endpoints@[n].1);
                    assert(forall|j: int| 0 <= j < n ==> self.endpoints@[j] == pre.endpoints@[j]);
                    assert(forall|a2: SockAddr|
                        a2 != a ==> (self.spec_contains(a2) == pre.spec_contains(a2) && (
                        pre.spec_contains(a2) ==> self.spec_meta(a2) == pre.spec_meta(a2))));
                }
            },
            Update::Remove(a) => {
                let ghost pre = *self;
                let mut i: usize = 0;
                while i < self.endpoints.len()
                    invariant
                        *self == pre,
                        i <= self.endpoints@.len(),
                        forall|j: int| 0 <= j < i ==> (#[trigger] self.endpoints@[j]).0 != a,
                    decreases self.endpoints@.len() - i,
                {
                    if self.endpoints[i].0 == a {
                        self.endpoints.remove(i);
                        proof {
                            assert(self.endpoints@ =~= pre.endpoints@.remove(i as int));
                            assert forall|x: int, y: int|
                                0 <= x < y < self.endpoints@.len() implies (
                            #[trigger] self.endpoints@[x]).0 != (#[trigger] self.endpoints@[y]).0 by {
                                let px = if x < i { x } else { x + 1 };
                                let py = if y < i { y } else { y + 1 };
                                assert(self.endpoints@[x] == pre.endpoints@[px]);
                                assert(self.endpoints@[y] == pre.endpoints@[py]);
                            }
                            assert(!self.spec_contains(a)) by {
                                if self.spec_contains(a) {
                                    let m = choose|m: int|
                                        0 <= m < self.endpoints@.len() && (
                                        #[trigger] self.endpoints@[m]).0 == a;
                                    let pm = if m < i { m } else { m + 1 };
                                    assert(pre.endpoints@[pm].0 == a);
                                    assert(pre.endpoints@[i as int].0 == a);
                                    assert(pm == i);
                                }
                            }
                            assert forall|a2: SockAddr| a2 != a implies (self.spec_contains(a2)
                                == pre.spec_contains(a2) && (pre.spec_contains(a2)
                                ==> self.spec_meta(a2) == pre.spec_meta(a2))) by {
                                if pre.spec_contains(a2) {
                                    let pm = choose|m: int|
                                        0 <= m < pre.endpoints@.len() && (
                                        #[trigger] pre.endpoints@[m]).0 == a2;
                                    assert(pm != i);
                                    let m = if pm < i { pm } else { pm - 1 };
                                    assert(self.endpoints@[m] == pre.endpoints@[pm]);
                                    assert(self.spec_contains(a2));
                                    let m0 = choose|m0: int|
                                        0 <= m0 < self.endpoints@.len() && (
                                        #[trigger] self.endpoints@[m0]).0 == a2;
                                    assert(self.spec_meta(a2) == self.endpoints@[m0].1);
                                    let pm0 = if m0 < i { m0 } else { m0 + 1 };
                                    assert(self.endpoints@[m0] == pre.endpoints@[pm0]);
                                    let pn = choose|n: int|
                                        0 <= n < pre.endpoints@.len() && (
                                        #[trigger] pre.endpoints@[n]).0 == a2;
                                    assert(pn == pm0);
                                }
                                if self.spec_contains(a2) {
                                    let m = choose|m: int|
                                        0 <= m < self.endpoints@.len() && (
                                        #[trigger] self.endpoints@[m]).0 == a2;
                                    let pm = if m < i { m } else { m + 1 };
                                    assert(self.endpoints@[m] == pre.endpoints@[pm]);
                                    assert(pre.spec_contains(a2));
                                }
                            }
                        }
                        return ;
                    }
                    i = i + 1;
                }
                proof {
                    assert(!pre.spec_contains(a));
                }
            },
            Update::DoesNotExist => {
                self.endpoints = Vec::new();
                self.terminal = true;
            },
            Update::Empty => {
                self.endpoints = Vec::new();
                self.terminal = false;
            },
        }
    }
}

/// Power-of-two-choices: of two sampled ready endpoints, the one with the
/// lower load wins; a tie goes to the lower latency estimate, and then to
/// the first. Returns true when the first sample is chosen. The two samples
/// are drawn by the caller.
pub fn p2c_pick(a_load: u64, a_latency: u64, b_load: u64, b_latency: u64) -> (first: bool)
    ensures
        first == (a_load < b_load || (a_load == b_load && a_latency <= b_latency)),
{
    a_load < b_load || (a_load == b_load && a_latency <= b_latency)
}

/// Whether `x` stands among the entries of `hs` at or after `from`.
pub open spec fn spec_in_from(hs: Seq<Vec<u8>>, from: int, x: Seq<u8>) -> bool
    decreases hs.len() - from when 0 <= from <= hs.len()
{
    from < hs.len() && ((hs[from])@ == x || spec_in_from(hs, from + 1, x))
}

/// Whether, from `from` on, every resolved destination is configured and
/// none recurs later.
pub open spec fn spec_only_from(resolved: Seq<Vec<u8>>, from: int, configured: Seq<Vec<u8>>) -> bool
    decreases resolved.len() - from when 0 <= from <= resolved.len()
{
    ||| from >= resolved.len()
    ||| {
        &&& spec_in_from(configured, 0, (resolved[from])@)
        &&& !spec_in_from(resolved, from + 1, (resolved[from])@)
        &&& spec_only_from(resolved, from + 1, configured)
    }
}

/// Whether every resolution was for a configured destination and no
/// destination was resolved more than once.
pub open spec fn spec_only_configured(resolved: Seq<Vec<u8>>, configured: Seq<Vec<u8>>) -> bool {
    spec_only_from(resolved, 0, configured)
}

/// The test-facing handle of a resolver: the destinations it was configured
/// with, the log of subscriptions made, and how many are still alive.
#[derive(Debug)]
pub struct Resolver {
    configured: Vec<Vec<u8>>,
    resolved: Vec<Vec<u8>>,
    active: u64,
}

impl Resolver {
    pub closed spec fn spec_resolved(self) -> Seq<Vec<u8>> {
        self.resolved@
    }

    pub closed spec fn spec_configured(self) -> Seq<Vec<u8>> {
        self.configured@
    }

    pub closed spec fn spec_active(self) -> u64 {
        self.active
    }

    pub fn new(configured: Vec<Vec<u8>>) -> (r: Resolver)
        ensures
            r.spec_configured() == configured@,
            r.spec_resolved().len() == 0,
            r.spec_active() == 0,
    {
        Resolver { configured, resolved: Vec::new(), active: 0 }
    }

    /// Opens one subscription for a destination; the log records it.
    pub fn subscribe(&mut self, key: &Vec<u8>)
        requires
            old(self).spec_active() < u64::MAX,
        ensures
            final (self).spec_resolved().len() == old(self).spec_resolved().len() + 1,
            (final (self).spec_resolved().last())@ == key@,
            forall|i: int|
                0 <= i < old(self).spec_resolved().len() ==> final (self).spec_resolved()[i]
                    == old(self).spec_resolved()[i],
            final (self).spec_configured() == old(self).spec_configured(),
            final (self).spec_active() == old(self).spec_active() + 1,
    {
        self.resolved.push(key.clone());
        self.active = self.active + 1;
    }

    /// Closes one subscription.
    pub fn unsubscribe(&mut self)
        requires
            old(self).spec_active() > 0,
        ensures
            final (self).spec_resolved() == old(self).spec_resolved(),
            final (self).spec_configured() == old(self).spec_configured(),
            final (self).spec_active() == old(self).spec_active() - 1,
    {
        self.active = self.active - 1;
    }

    /// Whether no subscription is left alive.
    pub fn is_empty(&self) -> (r: bool)
        ensures
            r == (self.spec_active() == 0),
    {
        self.active == 0
    }

    /// Whether every resolution was for a configured destination and no
    /// destination was resolved more than once.
    pub fn only_configured(&self) -> (r: bool)
        ensures
            r == spec_only_configured(self.spec_resolved(), self.spec_configured()),
    {
        only_configured_from(&self.resolved, 0, &self.configured)
    }
}

/// Scans `hs` at or after `from` for an entry equal to `x`.
fn contains_from(hs: &Vec<Vec<u8>>, from: usize, x: &Vec<u8>) -> (r: bool)
    requires
        from <= hs@.len(),
    ensures
        r == spec_in_from(hs@, from as int, x@),
    decreases hs@.len() - from,
{
    if from >= hs.len() {
        return false;
    }
    if bytes_eq(&hs[from], x) {
        return true;
    }
    contains_from(hs, from + 1, x)
}

/// Checks `resolved` from `from` on against `configured`.
fn only_configured_from(resolved: &Vec<Vec<u8>>, from: usize, configured: &Vec<Vec<u8>>) -> (r:
    bool)
    requires
        from <= resolved@.len(),
    ensures
        r == spec_only_from(resolved@, from as int, configured@),
    decreases resolved@.len() - from,
{
    if from >= resolved.len() {
        return true;
    }
    if !contains_from(configured, 0, &resolved[from]) {
        return false;
    }
    if contains_from(resolved, from + 1, &resolved[from]) {
        return false;
    }
    only_configured_from(resolved, from + 1, configured)
}

} // verus!
