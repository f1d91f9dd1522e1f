//! Leases: how long to wait for one, and when to give one up as lost.
use vstd::prelude::*;

use crate::proto::{CanonicalPath, ChaprError, LeaseId};
use crate::text::{nearest, nearest_to};

verus! {

/// How often held leases are renewed, in seconds.
pub const RENEWAL_INTERVAL_SECS: u32 = 30;

/// How long an acquisition waits for a lease that is held elsewhere, in
/// nanoseconds.
pub const DEFAULT_ACQUIRE_BUDGET: u64 = 30000000000;

/// The first wait, in nanoseconds.
pub const FIRST_BACKOFF: u64 = 250000000;

/// The longest wait, in nanoseconds.
pub const MAX_BACKOFF: u64 = 4000000000;

/// A lease as the coordinator grants it.
#[derive(Debug, PartialEq, Eq)]
pub struct Grant {
    /// Its identifier.
    pub lease_id: LeaseId,
    /// How long it lasts without a renewal, in seconds.
    pub ttl_s: u32,
}

/// An acquisition on its way.
pub struct Acquisition {
    /// The paths to be leased, all or none.
    pub paths: Vec<CanonicalPath>,
    /// How long it may wait, in nanoseconds.
    pub budget: u64,
    /// The next wait, in nanoseconds.
    pub backoff: u64,
    /// How many times the coordinator was asked.
    pub attempts: u32,
}

/// What the coordinator's reply means for an acquisition.
pub enum AcquireStep {
    /// The lease is there.
    Granted(Grant),
    /// Wait this long, in nanoseconds, and ask again.
    Wait { backoff: u64 },
    /// It is over.
    Failed(ChaprError),
}

/// One more, as far as the type reaches.
pub open spec fn one_more(n: u32) -> u32 {
    if n == u32::MAX {
        n
    } else {
        (n + 1) as u32
    }
}

fn count(n: u32) -> (r: u32)
    ensures
        r == one_more(n),
{
    if n == u32::MAX {
        n
    } else {
        n + 1
    }
}

impl Acquisition {
    /// Whether the acquisition is in a state that it can come to: it wants at
    /// least one path, and waits no longer at a time than it may.
    pub open spec fn wf(&self) -> bool {
        &&& self.paths@.len() > 0
        &&& FIRST_BACKOFF <= self.backoff <= MAX_BACKOFF
    }

    /// What a reply means, `spent` nanoseconds after the first attempt.
    pub open spec fn meaning(&self, reply: Result<Grant, ChaprError>, spent: u64) -> AcquireStep {
        match reply {
            Ok(grant) => AcquireStep::Granted(grant),
            Err(ChaprError::LeaseHeld { holder, paths }) => if spent + self.backoff > self.budget {
                AcquireStep::Failed(
                    ChaprError::RetryBudgetExhausted {
                        path: if paths@.len() > 0 { paths@[0] } else { self.paths@[0] },
                        attempts: one_more(self.attempts),
                    },
                )
            } else {
                AcquireStep::Wait { backoff: self.backoff }
            },
            Err(e) => AcquireStep::Failed(e),
        }
    }

    /// The next wait after one of `backoff`.
    pub open spec fn next_backoff(&self) -> u64 {
        if self.backoff * 2 > MAX_BACKOFF {
            MAX_BACKOFF
        } else {
            (self.backoff * 2) as u64
        }
    }

    /// An acquisition that has not asked yet.
    pub fn begin(paths: Vec<CanonicalPath>, budget: u64) -> (r: Acquisition)
        requires
            paths@.len() > 0,
        ensures
            r.wf(),
            r == (Acquisition { paths, budget, backoff: FIRST_BACKOFF, attempts: 0 }),
    {
        Acquisition { paths, budget, backoff: FIRST_BACKOFF, attempts: 0 }
    }

    /// What the coordinator's reply means: a lease held elsewhere is waited for
    /// as long as the budget allows, with waits that double; any other failure
    /// is final at once.
    pub fn on_reply(&mut self, reply: Result<Grant, ChaprError>, spent: u64) -> (r: AcquireStep)
        requires
            old(self).wf(),
        ensures
            final(self).wf(),
            r == old(self).meaning(reply, spent),
            final(self).paths == old(self).paths,
            final(self).budget == old(self).budget,
            final(self).attempts == one_more(old(self).attempts),
            final(self).backoff == if r is Wait {
                old(self).next_backoff()
            } else {
                old(self).backoff
            },
    {
        self.attempts = count(self.attempts);
        match reply {
            Ok(grant) => AcquireStep::Granted(grant),
            Err(ChaprError::LeaseHeld { holder: _, paths }) => {
                let backoff: u64 = self.backoff;
                if backoff > self.budget || spent > self.budget - backoff {
                    let path = if paths.len() > 0 { paths[0].clone() } else { self.paths[0].clone() };
                    AcquireStep::Failed(ChaprError::RetryBudgetExhausted { path, attempts: self.attempts })
                } else {
                    self.backoff = if backoff * 2 > MAX_BACKOFF { MAX_BACKOFF } else { backoff * 2 };
                    AcquireStep::Wait { backoff }
                }
            },
            Err(e) => AcquireStep::Failed(e),
        }
    }
}

/// An acquisition never plans to wait past its budget.
pub proof fn waits_stay_within_budget(s: Acquisition, reply: Result<Grant, ChaprError>, spent: u64)
    requires
        s.meaning(reply, spent) is Wait,
    ensures
        spent + s.backoff <= s.budget,
        reply matches Err(ChaprError::LeaseHeld { .. }),
{
}

/// Only a lease held elsewhere is worth waiting for: every other failure is
/// handed on as it is.
pub proof fn other_failures_are_final(s: Acquisition, e: ChaprError, spent: u64)
    requires
        !(e is LeaseHeld),
    ensures
        s.meaning(Err(e), spent) == AcquireStep::Failed(e),
{
}

/// A wait with up to half of itself added, by which waiters that were refused
/// together do not all come back together. `nanos` is the clock's fraction of a
/// second: its last three digits say how many thousandths of the half are added,
/// to the nearest nanosecond.
pub fn jittered(base: u64, nanos: u32) -> (r: u64)
    requires
        base + nearest_to((base * (nanos % 1000)) as nat, 2000) <= u64::MAX,
    ensures
        r == base + nearest_to((base * (nanos % 1000)) as nat, 2000),
        base <= r <= base + base / 2,
{
    let part: u128 = (nanos % 1000) as u128;
    proof {
        assert(base * part <= base * 999) by (nonlinear_arith)
            requires
                part <= 999,
        ;
    }
    base + nearest(base as u128 * part, 2000) as u64
}

/// What is known of a lease that is held.
#[derive(Clone, Copy, Debug, PartialEq, Eq, Structural)]
pub struct Held {
    /// It was given up as lost.
    pub lost: bool,
    /// How many renewals failed in a row.
    pub failures: u32,
    /// How long it lasts without a renewal, in seconds.
    pub ttl_s: u32,
}

/// The leases that this endpoint holds, each under its identifier.
pub struct HeldLeases {
    /// The leases.
    pub entries: Vec<(LeaseId, Held)>,
}

/// What is known of a lease among some.
pub open spec fn find(entries: Seq<(LeaseId, Held)>, id: Seq<char>) -> Option<Held>
    decreases entries.len(),
{
    if entries.len() == 0 {
        None
    } else if entries.last().0@ == id {
        Some(entries.last().1)
    } else {
        find(entries.drop_last(), id)
    }
}

/// Whether no identifier stands twice.
pub open spec fn distinct(entries: Seq<(LeaseId, Held)>) -> bool {
    forall|i: int, j: int| 0 <= i < j < entries.len() ==> (#[trigger] entries[i]).0@ != (#[trigger] entries[j]).0@
}

proof fn find_at(entries: Seq<(LeaseId, Held)>, k: int)
    requires
        distinct(entries),
        0 <= k < entries.len(),
    ensures
        find(entries, entries[k].0@) == Some(entries[k].1),
    decreases entries.len(),
{
    if k < entries.len() - 1 {
        assert(entries.drop_last()[k] == entries[k]);
        assert(distinct(entries.drop_last())) by {
            let d = entries.drop_last();
            assert forall|i: int, j: int| 0 <= i < j < d.len() implies (#[trigger] d[i]).0@ != (#[trigger] d[j]).0@ by {
                assert(d[i] == entries[i] && d[j] == entries[j]);
            }
        }
        find_at(entries.drop_last(), k);
    }
}

proof fn find_none(entries: Seq<(LeaseId, Held)>, id: Seq<char>)
    ensures
        find(entries, id) is None <==> forall|i: int| 0 <= i < entries.len() ==> (#[trigger] entries[i]).0@ != id,
    decreases entries.len(),
{
    if entries.len() > 0 {
        let d = entries.drop_last();
        find_none(d, id);
        if find(entries, id) is None {
            assert forall|i: int| 0 <= i < entries.len() implies (#[trigger] entries[i]).0@ != id by {
                if i < d.len() {
                    assert(d[i] == entries[i]);
                }
            }
        }
        if forall|i: int| 0 <= i < entries.len() ==> (#[trigger] entries[i]).0@ != id {
            assert forall|i: int| 0 <= i < d.len() implies (#[trigger] d[i]).0@ != id by {
                assert(d[i] == entries[i]);
            }
        }
    }
}

/// The same entries find the same leases: two lists without doubles that hold
/// the same pairs.
proof fn find_same(a: Seq<(LeaseId, Held)>, b: Seq<(LeaseId, Held)>, id: Seq<char>)
    requires
        distinct(a),
        distinct(b),
        forall|k: int| 0 <= k < a.len() && (#[trigger] a[k]).0@ == id ==> exists|l: int| 0 <= l < b.len() && #[trigger] b[l] == a[k],
        forall|l: int| 0 <= l < b.len() && (#[trigger] b[l]).0@ == id ==> exists|k: int| 0 <= k < a.len() && #[trigger] a[k] == b[l],
    ensures
        find(a, id) == find(b, id),
{
    find_none(a, id);
    find_none(b, id);
    if find(a, id) is Some {
        let k = choose|k: int| 0 <= k < a.len() && (#[trigger] a[k]).0@ == id;
        let l = choose|l: int| 0 <= l < b.len() && #[trigger] b[l] == a[k];
        find_at(a, k);
        find_at(b, l);
    } else {
        if find(b, id) is Some {
            let l = choose|l: int| 0 <= l < b.len() && (#[trigger] b[l]).0@ == id;
            let k = choose|k: int| 0 <= k < a.len() && #[trigger] a[k] == b[l];
            assert(a[k].0@ == id);
        }
    }
}

/// The identifiers of the leases that are not lost.
pub open spec fn live(entries: Seq<(LeaseId, Held)>) -> Seq<LeaseId>
    decreases entries.len(),
{
    if entries.len() == 0 {
        Seq::empty()
    } else if entries.last().1.lost {
        live(entries.drop_last())
    } else {
        live(entries.drop_last()).push(entries.last().0)
    }
}

/// Every lease that is held and not lost is among those to be renewed, and no
/// other is.
pub proof fn live_are_the_held(entries: Seq<(LeaseId, Held)>, id: Seq<char>)
    requires
        distinct(entries),
    ensures
        (exists|i: int| 0 <= i < live(entries).len() && (#[trigger] live(entries)[i])@ == id) <==> (find(entries, id) matches Some(h) && !h.lost),
    decreases entries.len(),
{
    if entries.len() > 0 {
        let d = entries.drop_last();
        let last = entries.last();
        assert(distinct(d)) by {
            assert forall|i: int, j: int| 0 <= i < j < d.len() implies (#[trigger] d[i]).0@ != (#[trigger] d[j]).0@ by {
                assert(d[i] == entries[i] && d[j] == entries[j]);
            }
        }
        live_are_the_held(d, id);
        if last.0@ == id {
            assert forall|i: int| 0 <= i < d.len() implies (#[trigger] d[i]).0@ != id by {
                assert(d[i] == entries[i]);
                assert(entries[entries.len() - 1] == last);
            }
            find_none(d, id);
        }
        if !last.1.lost {
            assert(live(entries) == live(d).push(last.0));
            if exists|i: int| 0 <= i < live(d).len() && (#[trigger] live(d)[i])@ == id {
                let i = choose|i: int| 0 <= i < live(d).len() && (#[trigger] live(d)[i])@ == id;
                assert(live(entries)[i] == live(d)[i]);
            }
            if last.0@ == id {
                assert(live(entries)[live(entries).len() - 1]@ == id);
            }
            if exists|i: int| 0 <= i < live(entries).len() && (#[trigger] live(entries)[i])@ == id {
                let i = choose|i: int| 0 <= i < live(entries).len() && (#[trigger] live(entries)[i])@ == id;
                if i < live(d).len() {
                    assert(live(d)[i] == live(entries)[i]);
                }
            }
        }
    }
}

/// Whether a failure to renew says for certain that the lease is gone.
pub open spec fn is_definitive(e: ChaprError) -> bool {
    e is LeaseNotFound || e is LeaseExpired || e is MaxLeaseLifetimeExceeded
}

/// How many renewals in a row may fail before a lease of `ttl_s` seconds counts
/// as lost: as many as fit into its life, and at least one.
pub open spec fn tolerance(ttl_s: u32, interval_secs: u32) -> nat {
    let interval = if interval_secs == 0 { 1 } else { interval_secs as nat };
    let fit = ttl_s as nat / interval;
    if fit == 0 {
        1
    } else {
        fit
    }
}

/// A lease after a renewal that failed.
pub open spec fn after_failure(h: Held, e: ChaprError, interval_secs: u32) -> Held {
    Held {
        lost: is_definitive(e) || one_more(h.failures) >= tolerance(h.ttl_s, interval_secs),
        failures: one_more(h.failures),
        ttl_s: h.ttl_s,
    }
}

impl HeldLeases {
    /// Whether no identifier stands twice.
    pub open spec fn wf(&self) -> bool {
        distinct(self.entries@)
    }

    /// What is known of a lease.
    pub open spec fn known(&self, id: Seq<char>) -> Option<Held> {
        find(self.entries@, id)
    }

    /// No leases.
    pub fn new() -> (r: HeldLeases)
        ensures
            r.wf(),
            forall|id: Seq<char>| r.known(id) is None,
    {
        HeldLeases { entries: Vec::new() }
    }

    fn position(&self, id: &LeaseId) -> (r: Option<usize>)
        requires
            self.wf(),
        ensures
            match r {
                Some(k) => k < self.entries@.len() && self.entries@[k as int].0@ == id@
                    && self.known(id@) == Some(self.entries@[k as int].1),
                None => self.known(id@) is None,
            },
    {
        let mut k: usize = 0;
        while k < self.entries.len()
            invariant
                self.wf(),
                k <= self.entries@.len(),
                forall|i: int| 0 <= i < k ==> (#[trigger] self.entries@[i]).0@ != id@,
            decreases self.entries@.len() - k,
        {
            if self.entries[k].0.same(id) {
                proof {
                    find_at(self.entries@, k as int);
                }
                return Some(k);
            }
            k = k + 1;
        }
        proof {
            find_none(self.entries@, id@);
        }
        None
    }

    /// Takes a lease out, and tells what was known of it.
    pub fn remove(&mut self, id: &LeaseId) -> (r: Option<Held>)
        requires
            old(self).wf(),
        ensures
            final(self).wf(),
            r == old(self).known(id@),
            forall|other: Seq<char>| #[trigger] final(self).known(other) == if other == id@ {
                None
            } else {
                old(self).known(other)
            },
    {
        match self.position(id) {
            None => {
                None
            },
            Some(k) => {
                let ghost start = self.entries@;
                let (_, h) = self.entries.remove(k);
                proof {
                    let end = self.entries@;
                    assert(end =~= start.remove(k as int));
                    assert forall|i: int, j: int| 0 <= i < j < end.len() implies (#[trigger] end[i]).0@ != (#[trigger] end[j]).0@ by {
                        let si = if i < k { i } else { i + 1 };
                        let sj = if j < k { j } else { j + 1 };
                        assert(end[i] == start[si] && end[j] == start[sj]);
                    }
                    assert forall|other: Seq<char>| #[trigger] find(end, other) == if other == id@ {
                        None
                    } else {
                        find(start, other)
                    } by {
                        if other == id@ {
                            assert forall|i: int| 0 <= i < end.len() implies (#[trigger] end[i]).0@ != id@ by {
                                let si = if i < k { i } else { i + 1 };
                                assert(end[i] == start[si]);
                                if si < k {
                                    assert(start[si].0@ != start[k as int].0@);
                                } else {
                                    assert(start[k as int].0@ != start[si].0@);
                                }
                            }
                            find_none(end, id@);
                        } else {
                            assert forall|l: int| 0 <= l < start.len() && (#[trigger] start[l]).0@ == other implies exists|i: int|
                                0 <= i < end.len() && #[trigger] end[i] == start[l] by {
                                let i = if l < k { l } else { l - 1 };
                                assert(end[i] == start[l]);
                            }
                            assert forall|i: int| 0 <= i < end.len() && (#[trigger] end[i]).0@ == other implies exists|l: int|
                                0 <= l < start.len() && #[trigger] start[l] == end[i] by {
                                let l = if i < k { i } else { i + 1 };
                                assert(start[l] == end[i]);
                            }
                            find_same(end, start, other);
                        }
                    }
                }
                Some(h)
            },
        }
    }

    /// Takes a granted lease in, in place of anything known under its
    /// identifier.
    pub fn insert(&mut self, id: LeaseId, ttl_s: u32)
        requires
            old(self).wf(),
        ensures
            final(self).wf(),
            forall|other: Seq<char>| #[trigger] final(self).known(other) == if other == id@ {
                Some(Held { lost: false, failures: 0, ttl_s })
            } else {
                old(self).known(other)
            },
    {
        let _ = self.remove(&id);
        let ghost start = self.entries@;
        let ghost mid = *self;
        proof {
            assert(self.known(id@) is None);
            find_none(start, id@);
        }
        let ghost text = id@;
        self.entries.push((id, Held { lost: false, failures: 0, ttl_s }));
        proof {
            let end = self.entries@;
            assert(end.drop_last() =~= start);
            assert forall|i: int, j: int| 0 <= i < j < end.len() implies (#[trigger] end[i]).0@ != (#[trigger] end[j]).0@ by {
                assert(end[i] == start[i]);
                if j < start.len() {
                    assert(end[j] == start[j]);
                }
            }
            assert forall|other: Seq<char>| #[trigger] find(end, other) == if other == text {
                Some(Held { lost: false, failures: 0, ttl_s })
            } else {
                old(self).known(other)
            } by {
                assert(mid.known(other) == find(start, other));
            }
        }
    }

    /// Whether a lease is held and not lost.
    pub fn is_held(&self, id: &LeaseId) -> (r: bool)
        requires
            self.wf(),
        ensures
            r == (self.known(id@) matches Some(h) && !h.lost),
    {
        match self.position(id) {
            Some(k) => !self.entries[k].1.lost,
            None => false,
        }
    }

    /// The leases that are to be renewed: those that are not lost.
    pub fn live_ids(&self) -> (r: Vec<LeaseId>)
        ensures
            r@ == live(self.entries@),
    {
        let mut r: Vec<LeaseId> = Vec::new();
        let mut k: usize = 0;
        while k < self.entries.len()
            invariant
                k <= self.entries@.len(),
                r@ == live(self.entries@.take(k as int)),
            decreases self.entries@.len() - k,
        {
            assert(self.entries@.take(k + 1).drop_last() =~= self.entries@.take(k as int));
            if !self.entries[k].1.lost {
                r.push(self.entries[k].0.clone());
            }
            k = k + 1;
        }
        assert(self.entries@.take(self.entries@.len() as int) =~= self.entries@);
        r
    }

    fn update(&mut self, k: usize, h: Held)
        requires
            old(self).wf(),
            k < old(self).entries@.len(),
        ensures
            final(self).wf(),
            forall|other: Seq<char>| #[trigger] final(self).known(other) == if other == old(self).entries@[k as int].0@ {
                Some(h)
            } else {
                old(self).known(other)
            },
    {
        let ghost start = self.entries@;
        let id = self.entries[k].0.clone();
        self.entries.set(k, (id, h));
        proof {
            let end = self.entries@;
            assert(end[k as int].0@ == start[k as int].0@);
            assert forall|i: int, j: int| 0 <= i < j < end.len() implies (#[trigger] end[i]).0@ != (#[trigger] end[j]).0@ by {
                assert(end[i].0@ == start[i].0@ && end[j].0@ == start[j].0@);
            }
            find_at(end, k as int);
            assert forall|other: Seq<char>| #[trigger] find(end, other) == if other == start[k as int].0@ {
                Some(h)
            } else {
                find(start, other)
            } by {
                if other != start[k as int].0@ {
                    assert forall|l: int| 0 <= l < start.len() && (#[trigger] start[l]).0@ == other implies exists|i: int|
                        0 <= i < end.len() && #[trigger] end[i] == start[l] by {
                        assert(end[l] == start[l]);
                    }
                    assert forall|i: int| 0 <= i < end.len() && (#[trigger] end[i]).0@ == other implies exists|l: int|
                        0 <= l < start.len() && #[trigger] start[l] == end[i] by {
                        assert(start[i] == end[i]);
                    }
                    find_same(end, start, other);
                }
            }
        }
    }

    /// A renewal went through: failures before it no longer count.
    pub fn renewed(&mut self, id: &LeaseId)
        requires
            old(self).wf(),
        ensures
            final(self).wf(),
            forall|other: Seq<char>| #[trigger] final(self).known(other) == match old(self).known(other) {
                Some(h) if other == id@ => Some(Held { lost: h.lost, failures: 0, ttl_s: h.ttl_s }),
                h => h,
            },
    {
        match self.position(id) {
            Some(k) => {
                let h = self.entries[k].1;
                self.update(k, Held { lost: h.lost, failures: 0, ttl_s: h.ttl_s });
            },
            None => {},
        }
    }

    /// A renewal failed: the lease is lost if the failure says so for certain or
    /// is one too many in a row. Tells whether it is lost now; a lease that was
    /// given back meanwhile is no concern of anyone's.
    pub fn on_renew_failure(&mut self, id: &LeaseId, e: &ChaprError, interval_secs: u32) -> (lost: bool)
        requires
            old(self).wf(),
        ensures
            final(self).wf(),
            lost == (old(self).known(id@) matches Some(h) && after_failure(h, *e, interval_secs).lost),
            forall|other: Seq<char>| #[trigger] final(self).known(other) == match old(self).known(other) {
                Some(h) if other == id@ => Some(after_failure(h, *e, interval_secs)),
                h => h,
            },
    {
        let definitive = matches!(
            e,
            ChaprError::LeaseNotFound { .. } | ChaprError::LeaseExpired { .. } | ChaprError::MaxLeaseLifetimeExceeded { .. }
        );
        match self.position(id) {
            Some(k) => {
                let h = self.entries[k].1;
                let failures = count(h.failures);
                let interval: u32 = if interval_secs == 0 { 1 } else { interval_secs };
                let fit: u32 = h.ttl_s / interval;
                let allowed: u32 = if fit == 0 { 1 } else { fit };
                let lost = definitive || failures >= allowed;
                self.update(k, Held { lost, failures, ttl_s: h.ttl_s });
                lost
            },
            None => false,
        }
    }
}

/// One renewal that fails for want of an answer does not cost a lease that
/// lives for at least two of them.
pub proof fn one_failure_is_tolerated(h: Held, e: ChaprError, interval_secs: u32)
    requires
        !is_definitive(e),
        h.failures == 0,
        interval_secs > 0,
        h.ttl_s >= 2 * interval_secs,
    ensures
        !after_failure(h, e, interval_secs).lost,
{
    assert(h.ttl_s as nat / interval_secs as nat >= 2) by (nonlinear_arith)
        requires
            h.ttl_s >= 2 * interval_secs,
            interval_secs > 0,
    ;
}

/// A failure that says the lease is gone settles it at once.
pub proof fn definitive_failures_settle(h: Held, e: ChaprError, interval_secs: u32)
    requires
        is_definitive(e),
    ensures
        after_failure(h, e, interval_secs).lost,
{
}

/// A lease that is granted is taken. One that is held elsewhere is waited for exactly as
/// long as the next wait still ends within the budget, and given up otherwise, naming a path
/// that is held and how often it was asked for.
pub proof fn a_held_lease_is_waited_for(s: Acquisition, grant: Grant, e: ChaprError, spent: u64)
    requires
        s.wf(),
    ensures
        s.meaning(Ok(grant), spent) == AcquireStep::Granted(grant),
        e is LeaseHeld && spent + s.backoff <= s.budget ==> s.meaning(Err(e), spent) == (AcquireStep::Wait { backoff: s.backoff }),
        e is LeaseHeld && spent + s.backoff > s.budget ==> (s.meaning(Err(e), spent) matches AcquireStep::Failed(
            ChaprError::RetryBudgetExhausted { path, attempts },
        ) && (s.attempts < u32::MAX ==> attempts == s.attempts + 1) && (e matches ChaprError::LeaseHeld { holder, paths } && if paths@.len()
            > 0 {
            path == paths@[0]
        } else {
            path == s.paths@[0]
        })),
{
}

/// Waits begin at a quarter of a second and double up to four seconds.
pub proof fn waits_double_up_to_a_limit(s: Acquisition)
    requires
        s.wf(),
    ensures
        250000000 <= s.backoff <= 4000000000,
        s.backoff <= s.next_backoff() <= 4000000000,
        2 * s.backoff <= 4000000000 ==> s.next_backoff() == 2 * s.backoff,
        2 * s.backoff > 4000000000 ==> s.next_backoff() == 4000000000,
{
}

/// What is known of a lease is what its entry says, and nothing is known of one without an
/// entry.
pub proof fn a_lease_is_known_by_its_entry(leases: HeldLeases, k: int, id: Seq<char>)
    requires
        leases.wf(),
        0 <= k < leases.entries@.len(),
    ensures
        leases.known(leases.entries@[k].0@) == Some(leases.entries@[k].1),
        leases.known(id) is None <==> forall|i: int| 0 <= i < leases.entries@.len() ==> (#[trigger] leases.entries@[i]).0@ != id,
{
    find_at(leases.entries@, k);
    find_none(leases.entries@, id);
}

/// A lease that cannot be renewed for want of an answer is kept as long as it would live
/// past the next attempt, and lost from then on; one that the coordinator says is gone is
/// lost at once. A failure is counted either way.
pub proof fn a_lease_is_lost_when_its_life_is_over(h: Held, e: ChaprError, interval_secs: u32)
    requires
        interval_secs > 0,
        h.failures < u32::MAX,
    ensures
        e is LeaseNotFound || e is LeaseExpired || e is MaxLeaseLifetimeExceeded ==> after_failure(h, e, interval_secs).lost,
        !(e is LeaseNotFound || e is LeaseExpired || e is MaxLeaseLifetimeExceeded) ==> (after_failure(h, e, interval_secs).lost
            <==> h.ttl_s < (h.failures + 2) * interval_secs),
        after_failure(h, e, interval_secs).failures == h.failures + 1,
        after_failure(h, e, interval_secs).ttl_s == h.ttl_s,
{
    let t = h.ttl_s as nat;
    let i = interval_secs as nat;
    let f = (h.failures + 1) as nat;
    let fit = t / i;
    assert(fit <= f <==> t < (f + 1) * i) by (nonlinear_arith)
        requires
            fit == t / i,
            i > 0,
    ;
    if fit == 0 {
        assert(t < (f + 1) * i);
    }
}

} // verus!
