//! The queue of warm sandboxes of one template.
use std::collections::VecDeque;

use vstd::prelude::*;

use crate::domain::Sandbox;

verus! {

/// How the pool is kept.
#[derive(Debug, Clone, Copy, PartialEq, Eq, Structural)]
pub struct PoolConfig {
    /// How many warm sandboxes of a template there should be at least.
    pub min_idle: usize,
    /// How many warm sandboxes of a template there may be at most.
    pub max_idle: usize,
    /// How many sandboxes there may be over all templates.
    pub max_total: usize,
    /// How long a sandbox may stay idle, in milliseconds.
    pub idle_timeout_ms: u64,
    /// How often the pool is refilled, in milliseconds.
    pub refill_interval_ms: u64,
}

impl Default for PoolConfig {
    fn default() -> (r: Self)
        ensures
            r == (PoolConfig {
                min_idle: 5,
                max_idle: 20,
                max_total: 200,
                idle_timeout_ms: 600_000,
                refill_interval_ms: 5_000,
            }),
    {
        PoolConfig {
            min_idle: 5,
            max_idle: 20,
            max_total: 200,
            idle_timeout_ms: 600_000,
            refill_interval_ms: 5_000,
        }
    }
}

/// A warm sandbox. Times are nanoseconds of a clock that only goes forward.
#[derive(Debug)]
pub struct PoolEntry {
    pub sandbox: Sandbox,
    pub created_at: u64,
    pub last_used_at: u64,
}

/// Whether an entry has been idle for longer than the timeout.
pub open spec fn is_idle(e: PoolEntry, timeout_ms: u64, now: u64) -> bool {
    now - e.last_used_at > timeout_ms * 1_000_000
}

impl PoolEntry {
    /// A sandbox that becomes warm now.
    pub fn new(sandbox: Sandbox, now: u64) -> (r: PoolEntry)
        ensures
            r == (PoolEntry { sandbox, created_at: now, last_used_at: now }),
    {
        PoolEntry { sandbox, created_at: now, last_used_at: now }
    }

    /// Whether the entry has been idle for longer than the timeout.
    pub fn is_idle_timeout(&self, timeout_ms: u64, now: u64) -> (r: bool)
        ensures
            r == is_idle(*self, timeout_ms, now),
            r <==> now > self.last_used_at + timeout_ms * 1_000_000,
    {
        now as i128 - self.last_used_at as i128 > timeout_ms as i128 * 1_000_000
    }
}

/// The entries that stay when the idle ones leave.
pub open spec fn fresh_entries(s: Seq<PoolEntry>, timeout_ms: u64, now: u64) -> Seq<PoolEntry>
    decreases s.len(),
{
    if s.len() == 0 {
        seq![]
    } else {
        let before = fresh_entries(s.drop_last(), timeout_ms, now);
        if is_idle(s.last(), timeout_ms, now) {
            before
        } else {
            before.push(s.last())
        }
    }
}

/// The sandboxes that leave when the idle entries leave.
pub open spec fn idle_sandboxes(s: Seq<PoolEntry>, timeout_ms: u64, now: u64) -> Seq<Sandbox>
    decreases s.len(),
{
    if s.len() == 0 {
        seq![]
    } else {
        let before = idle_sandboxes(s.drop_last(), timeout_ms, now);
        if is_idle(s.last(), timeout_ms, now) {
            before.push(s.last().sandbox)
        } else {
            before
        }
    }
}

/// The warm sandboxes of a template, the one that waits longest in front.
#[derive(Debug)]
pub struct PoolQueue {
    entries: VecDeque<PoolEntry>,
    min_idle: usize,
    max_idle: usize,
    idle_timeout_ms: u64,
}

/// A queue as the entries in it and its limits.
#[verifier::ext_equal]
pub struct QueueView {
    pub entries: Seq<PoolEntry>,
    pub min_idle: usize,
    pub max_idle: usize,
    pub idle_timeout_ms: u64,
}

impl QueueView {
    /// The queue with other entries.
    pub open spec fn with(self, entries: Seq<PoolEntry>) -> QueueView {
        QueueView { entries, ..self }
    }

    /// Whether there is no place left.
    pub open spec fn full(self) -> bool {
        self.entries.len() >= self.max_idle
    }

    /// The queue after a sandbox asked for a place.
    pub open spec fn offered(self, sandbox: Sandbox, now: u64) -> QueueView {
        if self.full() {
            self
        } else {
            self.with(
                self.entries.push(PoolEntry { sandbox, created_at: now, last_used_at: now }),
            )
        }
    }
}

impl PoolQueue {
    pub closed spec fn view(self) -> QueueView {
        QueueView {
            entries: self.entries@,
            min_idle: self.min_idle,
            max_idle: self.max_idle,
            idle_timeout_ms: self.idle_timeout_ms,
        }
    }

    /// An empty queue.
    pub fn new(min_idle: usize, max_idle: usize, idle_timeout_ms: u64) -> (r: PoolQueue)
        ensures
            r@ == (QueueView { entries: seq![], min_idle, max_idle, idle_timeout_ms }),
    {
        PoolQueue { entries: VecDeque::new(), min_idle, max_idle, idle_timeout_ms }
    }

    /// Hands out the sandbox that has waited longest.
    pub fn checkout(&mut self) -> (r: Option<Sandbox>)
        ensures
            match r {
                Some(s) => old(self)@.entries.len() > 0 && s == old(self)@.entries[0].sandbox
                    && final(self)@ == old(self)@.with(old(self)@.entries.drop_first()),
                None => old(self)@.entries.len() == 0 && final(self)@ == old(self)@,
            },
    {
        match self.entries.pop_front() {
            Some(entry) => {
                assert(self@.entries =~= old(self)@.entries.drop_first());
                Some(entry.sandbox)
            },
            None => None,
        }
    }

    /// Takes a sandbox in behind the others, where there is a place for it.
    pub fn checkin(&mut self, sandbox: Sandbox, now: u64) -> (r: bool)
        ensures
            r == !old(self)@.full(),
            final(self)@ == old(self)@.offered(sandbox, now),
            r == (old(self)@.entries.len() < old(self)@.max_idle),
            r ==> final(self)@.entries == old(self)@.entries.push(
                PoolEntry { sandbox, created_at: now, last_used_at: now },
            ),
            !r ==> final(self)@.entries == old(self)@.entries,
    {
        if self.entries.len() >= self.max_idle {
            return false;
        }
        self.entries.push_back(PoolEntry::new(sandbox, now));
        true
    }

    /// The number of sandboxes that wait.
    pub fn idle_count(&self) -> (r: usize)
        ensures
            r == self@.entries.len(),
    {
        self.entries.len()
    }

    /// The least number that should wait.
    pub fn min_idle(&self) -> (r: usize)
        ensures
            r == self@.min_idle,
    {
        self.min_idle
    }

    /// The greatest number that may wait.
    pub fn max_idle(&self) -> (r: usize)
        ensures
            r == self@.max_idle,
    {
        self.max_idle
    }

    /// Lets the sandboxes go that have been idle for too long.
    pub fn evict_idle(&mut self, now: u64) -> (r: Vec<Sandbox>)
        ensures
            final(self)@ == old(self)@.with(
                fresh_entries(old(self)@.entries, old(self)@.idle_timeout_ms, now),
            ),
            r@ == idle_sandboxes(old(self)@.entries, old(self)@.idle_timeout_ms, now),
    {
        let timeout_ms: u64 = self.idle_timeout_ms;
        let ghost all = self.entries@;
        let total: usize = self.entries.len();
        let mut evicted: Vec<Sandbox> = Vec::new();
        let mut kept: VecDeque<PoolEntry> = VecDeque::new();
        let mut i: usize = 0;
        assert(all.take(0) =~= seq![]);
        assert(all.skip(0) =~= all);
        while i < total
            invariant
                i <= total,
                total == all.len(),
                self.entries@ == all.skip(i as int),
                self.min_idle == old(self).min_idle,
                self.max_idle == old(self).max_idle,
                self.idle_timeout_ms == timeout_ms,
                old(self).idle_timeout_ms == timeout_ms,
                kept@ == fresh_entries(all.take(i as int), timeout_ms, now),
                evicted@ == idle_sandboxes(all.take(i as int), timeout_ms, now),
            decreases total - i,
        {
            proof {
                assert(all.take(i + 1).drop_last() =~= all.take(i as int));
                assert(all.take(i + 1).last() == all[i as int]);
                assert(all.skip(i as int).drop_first() =~= all.skip(i + 1));
            }
            match self.entries.pop_front() {
                Some(entry) => {
                    assert(self.entries@ =~= all.skip(i + 1));
                    if entry.is_idle_timeout(timeout_ms, now) {
                        evicted.push(entry.sandbox);
                    } else {
                        kept.push_back(entry);
                    }
                },
                None => {},
            }
            i = i + 1;
        }
        assert(all.take(i as int) =~= all);
        self.entries = kept;
        evicted
    }

    /// Lets every sandbox go.
    pub fn drain(&mut self) -> (r: Vec<Sandbox>)
        ensures
            final(self)@ == old(self)@.with(seq![]),
            r@ == old(self)@.entries.map_values(|e: PoolEntry| e.sandbox),
    {
        let ghost all = self.entries@;
        let total: usize = self.entries.len();
        let mut out: Vec<Sandbox> = Vec::new();
        let mut i: usize = 0;
        assert(all.skip(0) =~= all);
        while i < total
            invariant
                i <= total,
                total == all.len(),
                self.entries@ == all.skip(i as int),
                self.min_idle == old(self).min_idle,
                self.max_idle == old(self).max_idle,
                self.idle_timeout_ms == old(self).idle_timeout_ms,
                out@.len() == i,
                forall|j: int| 0 <= j < i ==> out@[j] == all[j].sandbox,
            decreases total - i,
        {
            match self.entries.pop_front() {
                Some(entry) => {
                    assert(self.entries@ =~= all.skip(i + 1));
                    out.push(entry.sandbox);
                },
                None => {},
            }
            i = i + 1;
        }
        assert(self.entries@ =~= seq![]);
        assert(out@ =~= all.map_values(|e: PoolEntry| e.sandbox));
        out
    }

    /// Whether fewer sandboxes wait than should.
    pub fn needs_refill(&self) -> (r: bool)
        ensures
            r == (self@.entries.len() < self@.min_idle),
    {
        self.entries.len() < self.min_idle
    }
}

/// Eviction splits a queue: what stays and what leaves are as many as there were.
pub proof fn law_evict_loses_nothing(s: Seq<PoolEntry>, timeout_ms: u64, now: u64)
    ensures
        fresh_entries(s, timeout_ms, now).len() + idle_sandboxes(s, timeout_ms, now).len()
            == s.len(),
    decreases s.len(),
{
    if s.len() > 0 {
        law_evict_loses_nothing(s.drop_last(), timeout_ms, now);
    }
}

/// Eviction at one time is done after one pass: a second one finds nothing idle.
pub proof fn law_evict_idempotent(s: Seq<PoolEntry>, timeout_ms: u64, now: u64)
    ensures
        fresh_entries(fresh_entries(s, timeout_ms, now), timeout_ms, now) == fresh_entries(
            s,
            timeout_ms,
            now,
        ),
        idle_sandboxes(fresh_entries(s, timeout_ms, now), timeout_ms, now).len() == 0,
    decreases s.len(),
{
    if s.len() > 0 {
        law_evict_idempotent(s.drop_last(), timeout_ms, now);
        let before = fresh_entries(s.drop_last(), timeout_ms, now);
        if !is_idle(s.last(), timeout_ms, now) {
            assert(before.push(s.last()).drop_last() =~= before);
        }
    }
}

/// A queue hands sandboxes out in the order in which it took them in: one that enters
/// overtakes none that waits, and comes no later for one that leaves before it. Where none
/// waited, it is the next to leave, and leaves the queue as it was.
pub proof fn law_first_in_first_out(q: QueueView, sandbox: Sandbox, now: u64)
    requires
        !q.full(),
    ensures
        ({
            let after = q.offered(sandbox, now);
            let next = after.with(after.entries.drop_first());
            if q.entries.len() > 0 {
                &&& after.entries[0] == q.entries[0]
                &&& next == q.with(q.entries.drop_first()).offered(sandbox, now)
            } else {
                &&& after.entries[0].sandbox == sandbox
                &&& next == q
            }
        }),
{
    let after = q.offered(sandbox, now);
    if q.entries.len() > 0 {
        assert(after.entries.drop_first() =~= q.with(q.entries.drop_first()).offered(
            sandbox,
            now,
        ).entries);
    } else {
        assert(after.entries.drop_first() =~= q.entries);
    }
}

/// A queue that holds no more than it may never comes to hold more.
pub proof fn law_queue_stays_bounded(q: QueueView, sandbox: Sandbox, now: u64)
    requires
        q.entries.len() <= q.max_idle,
    ensures
        q.offered(sandbox, now).entries.len() <= q.max_idle,
        fresh_entries(q.entries, q.idle_timeout_ms, now).len() <= q.max_idle,
{
    law_evict_loses_nothing(q.entries, q.idle_timeout_ms, now);
}

/// A sandbox stays in a queue exactly as long as no more than the timeout has passed since it
/// was last used; those that stay keep their order, and the others leave in their order. The
/// positions of those that stay and of those that leave come with the law.
pub proof fn law_eviction_goes_by_idle_time(s: Seq<PoolEntry>, timeout_ms: u64, now: u64) -> (r: (
    Seq<int>,
    Seq<int>,
))
    ensures
        fresh_entries(s, timeout_ms, now).len() == r.0.len(),
        idle_sandboxes(s, timeout_ms, now).len() == r.1.len(),
        forall|k: int|
            0 <= k < r.0.len() ==> {
                &&& 0 <= #[trigger] r.0[k] < s.len()
                &&& fresh_entries(s, timeout_ms, now)[k] == s[r.0[k]]
                &&& now <= s[r.0[k]].last_used_at + timeout_ms * 1_000_000
            },
        forall|k: int|
            0 <= k < r.1.len() ==> {
                &&& 0 <= #[trigger] r.1[k] < s.len()
                &&& idle_sandboxes(s, timeout_ms, now)[k] == s[r.1[k]].sandbox
                &&& now > s[r.1[k]].last_used_at + timeout_ms * 1_000_000
            },
        forall|k: int, l: int| 0 <= k < l < r.0.len() ==> #[trigger] r.0[k] < #[trigger] r.0[l],
        forall|k: int, l: int| 0 <= k < l < r.1.len() ==> #[trigger] r.1[k] < #[trigger] r.1[l],
        r.0.len() + r.1.len() == s.len(),
    decreases s.len(),
{
    if s.len() == 0 {
        (Seq::empty(), Seq::empty())
    } else {
        let front = s.drop_last();
        let n = s.len() - 1;
        let before = law_eviction_goes_by_idle_time(front, timeout_ms, now);
        assert(s[n] == s.last());
        let r = if now > s[n].last_used_at + timeout_ms * 1_000_000 {
            (before.0, before.1.push(n))
        } else {
            (before.0.push(n), before.1)
        };
        assert forall|k: int| 0 <= k < r.0.len() implies {
            &&& 0 <= #[trigger] r.0[k] < s.len()
            &&& fresh_entries(s, timeout_ms, now)[k] == s[r.0[k]]
            &&& now <= s[r.0[k]].last_used_at + timeout_ms * 1_000_000
        } by {
            if k < before.0.len() {
                assert(r.0[k] == before.0[k]);
                assert(front[before.0[k]] == s[before.0[k]]);
            }
        }
        assert forall|k: int| 0 <= k < r.1.len() implies {
            &&& 0 <= #[trigger] r.1[k] < s.len()
            &&& idle_sandboxes(s, timeout_ms, now)[k] == s[r.1[k]].sandbox
            &&& now > s[r.1[k]].last_used_at + timeout_ms * 1_000_000
        } by {
            if k < before.1.len() {
                assert(r.1[k] == before.1[k]);
                assert(front[before.1[k]] == s[before.1[k]]);
            }
        }
        r
    }
}

} // verus!
