//! The pool over all templates: handing out, taking back, recovering and refilling.
use vstd::prelude::*;

use crate::domain::{DomainError, DomainErrorView, Sandbox, SandboxStatus};
use crate::pool::queue;
use crate::pool::queue::{PoolConfig, PoolEntry, PoolQueue, QueueView};
use crate::table::{Entry, Table};

verus! {

/// How long a sandbox lives that is made for the pool, in milliseconds.
pub const POOLED_TIMEOUT_MS: u64 = 3_600_000;

/// The statistics of one template.
#[derive(Debug)]
pub struct TemplateStats {
    pub template: String,
    pub idle: usize,
    pub min_idle: usize,
    pub max_idle: usize,
}

/// The statistics of the pool.
#[derive(Debug)]
pub struct PoolStats {
    pub templates: Vec<TemplateStats>,
    /// Sandboxes that are handed out.
    pub active: usize,
    /// Sandboxes that wait.
    pub idle: usize,
    /// Both together.
    pub total: usize,
}

/// What came of a recovery.
#[derive(Debug, Clone, Copy, PartialEq, Eq, Structural)]
pub struct RecoveryResult {
    /// Sandboxes that are back in the pool.
    pub reintegrated: usize,
    /// Sandboxes for which the pool had no place.
    pub skipped_pool_full: usize,
    /// Sandboxes whose template is not registered.
    pub skipped_not_registered: usize,
    /// Sandboxes that the repository took for active and that do not run.
    pub orphaned_terminated: usize,
    /// Sandboxes that could not be recovered.
    pub failed: usize,
}

impl Default for RecoveryResult {
    fn default() -> (r: Self)
        ensures
            r == no_recovery(),
    {
        RecoveryResult {
            reintegrated: 0,
            skipped_pool_full: 0,
            skipped_not_registered: 0,
            orphaned_terminated: 0,
            failed: 0,
        }
    }
}

/// The result of a recovery that found nothing.
pub open spec fn no_recovery() -> RecoveryResult {
    RecoveryResult {
        reintegrated: 0,
        skipped_pool_full: 0,
        skipped_not_registered: 0,
        orphaned_terminated: 0,
        failed: 0,
    }
}

/// What the repository said of a running sandbox.
#[derive(Debug, Clone, Copy, PartialEq, Eq, Structural)]
pub enum RecoveryAnswer {
    /// It holds the sandbox.
    Found,
    /// It did not hold the sandbox, and has saved it now.
    Saved,
    /// It did not hold the sandbox and could not save it.
    SaveFailed,
    /// It could not be asked.
    LookupFailed,
}

/// What became of a running sandbox in a recovery.
pub enum RecoveryOutcome {
    Reintegrated,
    PoolFull,
    NotRegistered,
    Failed,
}

/// A pool as its queues by template and its counters.
#[verifier::ext_equal]
pub struct PoolModel {
    pub pools: Map<Seq<char>, QueueView>,
    pub active: usize,
    pub idle: usize,
    pub creating: usize,
}

/// How many sandboxes a pool answers for: those that wait, those that are handed out, and
/// those that are being created for a request.
#[verifier::ext_equal]
pub struct PoolCounts {
    pub waiting: nat,
    pub active: nat,
    pub creating: nat,
}

impl PoolCounts {
    /// All of them together.
    pub open spec fn total(self) -> nat {
        self.waiting + self.active + self.creating
    }
}

/// What can happen to the sandboxes of a pool.
pub enum PoolEvent {
    /// One that waited is handed out.
    HandedOut,
    /// A place is taken for one that is to be created for a request.
    Reserved,
    /// The one that was to be created is there, and is handed out.
    Arrived,
    /// The one that was to be created will not come.
    Abandoned,
    /// One is given back, and waits again or does not.
    Returned { pooled: bool },
    /// So many that waited leave.
    Left(nat),
    /// A new one waits.
    Refilled,
}

/// The counts after an event.
pub open spec fn counts_after(c: PoolCounts, event: PoolEvent) -> PoolCounts {
    match event {
        PoolEvent::HandedOut => PoolCounts {
            waiting: (c.waiting - 1) as nat,
            active: c.active + 1,
            ..c
        },
        PoolEvent::Reserved => PoolCounts { creating: c.creating + 1, ..c },
        PoolEvent::Arrived => PoolCounts {
            creating: (c.creating - 1) as nat,
            active: c.active + 1,
            ..c
        },
        PoolEvent::Abandoned => PoolCounts { creating: (c.creating - 1) as nat, ..c },
        PoolEvent::Returned { pooled } => PoolCounts {
            waiting: if pooled {
                c.waiting + 1
            } else {
                c.waiting
            },
            active: if c.active > 0 {
                (c.active - 1) as nat
            } else {
                0
            },
            ..c
        },
        PoolEvent::Left(n) => PoolCounts { waiting: (c.waiting - n) as nat, ..c },
        PoolEvent::Refilled => PoolCounts { waiting: c.waiting + 1, ..c },
    }
}

/// Whether an event may happen to a pool of at most `max_total` sandboxes. New sandboxes
/// come only below that limit. One that is given back was handed out before, or finds a
/// place below the limit.
pub open spec fn may_happen(c: PoolCounts, max_total: usize, event: PoolEvent) -> bool {
    match event {
        PoolEvent::HandedOut => c.waiting > 0,
        PoolEvent::Reserved | PoolEvent::Refilled => c.total() < max_total,
        PoolEvent::Arrived | PoolEvent::Abandoned => c.creating > 0,
        PoolEvent::Returned { pooled } => pooled ==> c.active > 0 || c.total() < max_total,
        PoolEvent::Left(n) => n <= c.waiting,
    }
}

/// The counts after events, one after the other.
pub open spec fn counts_over(c: PoolCounts, events: Seq<PoolEvent>) -> PoolCounts
    decreases events.len(),
{
    if events.len() == 0 {
        c
    } else {
        counts_after(counts_over(c, events.drop_last()), events.last())
    }
}

/// A pool that holds no more sandboxes than it may keeps to that limit through every
/// sequence of requests, returns, evictions and refills, those that are being created
/// counted in.
pub proof fn law_pool_keeps_its_limit(c: PoolCounts, max_total: usize, events: Seq<PoolEvent>)
    requires
        c.total() <= max_total,
        forall|i: int|
            0 <= i < events.len() ==> may_happen(
                counts_over(c, events.take(i)),
                max_total,
                #[trigger] events[i],
            ),
    ensures
        counts_over(c, events).total() <= max_total,
    decreases events.len(),
{
    if events.len() > 0 {
        let front = events.drop_last();
        assert forall|i: int| 0 <= i < front.len() implies may_happen(
            counts_over(c, front.take(i)),
            max_total,
            #[trigger] front[i],
        ) by {
            assert(front.take(i) =~= events.take(i));
            assert(front[i] == events[i]);
        }
        law_pool_keeps_its_limit(c, max_total, front);
        assert(events.take(events.len() - 1) =~= front);
        assert(may_happen(counts_over(c, front), max_total, events[events.len() - 1]));
    }
}

impl PoolModel {
    /// The pool after a sandbox asked the queue of its template for a place.
    pub open spec fn offered(self, template: Seq<char>, sandbox: Sandbox, now: u64) -> PoolModel {
        PoolModel {
            pools: self.pools.insert(template, self.pools[template].offered(sandbox, now)),
            idle: if self.pools[template].full() {
                self.idle
            } else {
                self.idle.wrapping_add(1)
            },
            ..self
        }
    }
}

/// What becomes of a running sandbox: it is skipped where its template is not
/// registered, it fails where the repository fails, and else it asks for a place.
pub open spec fn recovery_outcome(
    m: PoolModel,
    sandbox: Sandbox,
    answer: RecoveryAnswer,
) -> RecoveryOutcome {
    if !m.pools.contains_key(sandbox.template_id@) {
        RecoveryOutcome::NotRegistered
    } else if answer is SaveFailed || answer is LookupFailed {
        RecoveryOutcome::Failed
    } else if m.pools[sandbox.template_id@].full() {
        RecoveryOutcome::PoolFull
    } else {
        RecoveryOutcome::Reintegrated
    }
}

/// The pool after one running sandbox was looked at.
pub open spec fn recovery_step(
    m: PoolModel,
    sandbox: Sandbox,
    answer: RecoveryAnswer,
    now: u64,
) -> PoolModel {
    if recovery_outcome(m, sandbox, answer) is Reintegrated {
        m.offered(sandbox.template_id@, sandbox, now)
    } else {
        m
    }
}

/// The result with one more sandbox counted.
pub open spec fn counted(r: RecoveryResult, outcome: RecoveryOutcome) -> RecoveryResult {
    match outcome {
        RecoveryOutcome::Reintegrated => RecoveryResult {
            reintegrated: (r.reintegrated + 1) as usize,
            ..r
        },
        RecoveryOutcome::PoolFull => RecoveryResult {
            skipped_pool_full: (r.skipped_pool_full + 1) as usize,
            ..r
        },
        RecoveryOutcome::NotRegistered => RecoveryResult {
            skipped_not_registered: (r.skipped_not_registered + 1) as usize,
            ..r
        },
        RecoveryOutcome::Failed => RecoveryResult { failed: (r.failed + 1) as usize, ..r },
    }
}

/// The pool and the result after the running sandboxes were looked at, one by one.
pub open spec fn recovered(
    m: PoolModel,
    sandboxes: Seq<Sandbox>,
    answers: Seq<RecoveryAnswer>,
    now: u64,
) -> (PoolModel, RecoveryResult)
    decreases sandboxes.len(),
{
    if sandboxes.len() == 0 {
        (m, no_recovery())
    } else {
        let before = recovered(m, sandboxes.drop_last(), answers.drop_last(), now);
        (
            recovery_step(before.0, sandboxes.last(), answers.last(), now),
            counted(before.1, recovery_outcome(before.0, sandboxes.last(), answers.last())),
        )
    }
}

/// How many of the writes succeeded.
pub open spec fn times_written(written: Seq<bool>) -> nat
    decreases written.len(),
{
    if written.len() == 0 {
        0
    } else {
        times_written(written.drop_last()) + (if written.last() {
            1nat
        } else {
            0
        })
    }
}

/// How many of the writes succeeded.
fn count_written(written: &Vec<bool>) -> (r: usize)
    ensures
        r == times_written(written@),
        r <= written@.len(),
{
    let mut count: usize = 0;
    let mut i: usize = 0;
    assert(written@.take(0) =~= seq![]);
    while i < written.len()
        invariant
            i <= written@.len(),
            count <= i,
            count == times_written(written@.take(i as int)),
        decreases written@.len() - i,
    {
        proof {
            assert(written@.take(i + 1).drop_last() =~= written@.take(i as int));
            assert(written@.take(i + 1).last() == written@[i as int]);
        }
        if written[i] {
            count = count + 1;
        }
        i = i + 1;
    }
    assert(written@.take(i as int) =~= written@);
    count
}

/// How many sandboxes a result counts, the orphans apart.
pub open spec fn recovery_total(r: RecoveryResult) -> int {
    r.reintegrated + r.skipped_pool_full + r.skipped_not_registered + r.failed
}

/// A queue without its idle entries.
pub open spec fn evicted_queue(q: QueueView, now: u64) -> QueueView {
    q.with(queue::fresh_entries(q.entries, q.idle_timeout_ms, now))
}

/// The idle sandboxes of all queues, queue by queue.
pub open spec fn all_idle(queues: Seq<QueueView>, now: u64) -> Seq<Sandbox>
    decreases queues.len(),
{
    if queues.len() == 0 {
        seq![]
    } else {
        all_idle(queues.drop_last(), now) + queue::idle_sandboxes(
            queues.last().entries,
            queues.last().idle_timeout_ms,
            now,
        )
    }
}

/// The sandboxes of all queues, queue by queue.
pub open spec fn all_waiting(queues: Seq<QueueView>) -> Seq<Sandbox>
    decreases queues.len(),
{
    if queues.len() == 0 {
        seq![]
    } else {
        all_waiting(queues.drop_last()) + queues.last().entries.map_values(
            |e: PoolEntry| e.sandbox,
        )
    }
}

/// How many sandboxes wait in all queues.
pub open spec fn waiting_total(queues: Seq<QueueView>) -> nat
    decreases queues.len(),
{
    if queues.len() == 0 {
        0
    } else {
        waiting_total(queues.drop_last()) + queues.last().entries.len()
    }
}

proof fn lemma_waiting_grows(queues: Seq<QueueView>, i: int)
    requires
        0 <= i <= queues.len(),
    ensures
        waiting_total(queues.take(i)) <= waiting_total(queues),
    decreases queues.len() - i,
{
    if i < queues.len() {
        assert(queues.take(i + 1).drop_last() =~= queues.take(i));
        lemma_waiting_grows(queues, i + 1);
    } else {
        assert(queues.take(i) =~= queues);
    }
}

proof fn lemma_nothing_waits(queues: Seq<QueueView>)
    requires
        forall|i: int| 0 <= i < queues.len() ==> (#[trigger] queues[i]).entries.len() == 0,
    ensures
        waiting_total(queues) == 0,
    decreases queues.len(),
{
    if queues.len() > 0 {
        lemma_nothing_waits(queues.drop_last());
    }
}

proof fn lemma_waiting_update(queues: Seq<QueueView>, i: int, q: QueueView)
    requires
        0 <= i < queues.len(),
    ensures
        waiting_total(queues.update(i, q)) == waiting_total(queues) - queues[i].entries.len()
            + q.entries.len(),
    decreases queues.len(),
{
    let changed = queues.update(i, q);
    if i == queues.len() - 1 {
        assert(changed.drop_last() =~= queues.drop_last());
    } else {
        assert(changed.drop_last() =~= queues.drop_last().update(i, q));
        lemma_waiting_update(queues.drop_last(), i, q);
    }
}

proof fn lemma_evicted_totals(queues: Seq<QueueView>, now: u64)
    ensures
        waiting_total(queues.map_values(|q: QueueView| evicted_queue(q, now))) + all_idle(
            queues,
            now,
        ).len() == waiting_total(queues),
    decreases queues.len(),
{
    let f = |q: QueueView| evicted_queue(q, now);
    if queues.len() > 0 {
        lemma_evicted_totals(queues.drop_last(), now);
        assert(queues.map_values(f).drop_last() =~= queues.drop_last().map_values(f));
        queue::law_evict_loses_nothing(queues.last().entries, queues.last().idle_timeout_ms, now);
    }
}

/// What is to be done on a request for a sandbox.
#[derive(Debug)]
pub enum CheckoutStep {
    /// Hand out this warm sandbox.
    Warm(Sandbox),
    /// Create a sandbox, since none is warm. A place is kept for it.
    Create,
    /// Answer with this error: none is warm, and there are as many as there may be.
    Refused(DomainError),
}

/// What became of a sandbox that was given back.
#[derive(Debug, Clone, Copy, PartialEq, Eq, Structural)]
pub enum CheckinStep {
    /// It waits in the pool.
    Pooled,
    /// There was no place for it.
    Released,
}

/// What the repository has to write about a sandbox that runs.
#[derive(Debug)]
pub enum RepositoryWrite {
    /// Nothing: it is known as running.
    Nothing,
    /// The sandbox with the status that it has now.
    Update(Sandbox),
    /// The sandbox as the provider lists it.
    Save,
}

/// What came of the attempt to refill a queue by one sandbox.
#[derive(Debug)]
pub enum RefillEvent {
    /// No sandbox could be created.
    CreateFailed,
    /// A sandbox was created and saved.
    Created(Sandbox),
}

/// The pool of warm sandboxes.
pub struct SandboxPoolManager {
    pools: Table<PoolQueue>,
    config: PoolConfig,
    total_active: usize,
    total_idle: usize,
    creating: usize,
}

/// Whether a queue has the limits of a configuration and keeps to them.
pub open spec fn follows(q: QueueView, config: PoolConfig) -> bool {
    &&& q.min_idle == config.min_idle
    &&& q.max_idle == config.max_idle
    &&& q.idle_timeout_ms == config.idle_timeout_ms
    &&& q.entries.len() <= config.max_idle
}

/// The queues of the entries.
pub open spec fn queues_of(rows: Seq<Entry<PoolQueue>>) -> Seq<QueueView> {
    rows.map_values(|e: Entry<PoolQueue>| e.value@)
}

impl SandboxPoolManager {
    pub closed spec fn wf(self) -> bool {
        &&& self.pools.wf()
        &&& forall|t: Seq<char>| #[trigger]
            self.pools@.contains_key(t) ==> follows(self.pools@[t]@, self.config)
    }

    /// Every queue has the limits that are set for the pool, and no more sandboxes wait in it
    /// than may.
    pub proof fn law_queues_keep_their_limits(self)
        requires
            self.wf(),
        ensures
            forall|t: Seq<char>| #[trigger]
                self@.pools.contains_key(t) ==> follows(self@.pools[t], self.settings()),
            forall|i: int|
                0 <= i < self.queues().len() ==> follows(
                    #[trigger] self.queues()[i],
                    self.settings(),
                ),
    {
        self.lemma_templates();
        assert forall|i: int| 0 <= i < self.queues().len() implies follows(
            #[trigger] self.queues()[i],
            self.settings(),
        ) by {
            assert(self@.pools.contains_key(self.templates()[i]));
        }
    }

    pub closed spec fn view(self) -> PoolModel {
        PoolModel {
            pools: self.pools@.map_values(|q: PoolQueue| q@),
            active: self.total_active,
            idle: self.total_idle,
            creating: self.creating,
        }
    }

    /// How many sandboxes the pool answers for.
    pub open spec fn counts(self) -> PoolCounts {
        PoolCounts {
            waiting: waiting_total(self.queues()),
            active: self@.active as nat,
            creating: self@.creating as nat,
        }
    }

    /// There are no more sandboxes over all templates than there may be, those that are
    /// being created counted in.
    pub open spec fn within_total(self) -> bool {
        self.counts().total() <= self.settings().max_total
    }

    /// The configuration.
    pub closed spec fn settings(self) -> PoolConfig {
        self.config
    }

    /// The templates in the order in which they are listed.
    pub closed spec fn templates(self) -> Seq<Seq<char>> {
        self.pools.keys()
    }

    /// The queues in the order of the templates.
    pub closed spec fn queues(self) -> Seq<QueueView> {
        queues_of(self.pools.rows())
    }

    /// The count of idle sandboxes is the number of those that wait.
    pub open spec fn accounted(self) -> bool {
        self@.idle == waiting_total(self.queues())
    }

    proof fn lemma_limits_kept(self)
        requires
            self.pools.wf(),
            forall|i: int|
                0 <= i < self.queues().len() ==> follows(#[trigger] self.queues()[i], self.config),
        ensures
            self.wf(),
    {
        self.pools.lemma_rows();
        let rows = self.pools.rows();
        assert forall|t: Seq<char>| #[trigger] self.pools@.contains_key(t) implies follows(
            self.pools@[t]@,
            self.config,
        ) by {
            let i = choose|i: int| 0 <= i < rows.len() && (#[trigger] rows[i]).key@ == t;
            assert(self.queues()[i] == rows[i].value@);
        }
    }

    proof fn lemma_queue_changed(before: Self, after: Self, t: Seq<char>, q: QueueView)
        requires
            before.wf(),
            after.wf(),
            before.templates() == after.templates(),
            before@.pools.contains_key(t),
            after@.pools == before@.pools.insert(t, q),
        ensures
            waiting_total(after.queues()) == waiting_total(before.queues())
                - before@.pools[t].entries.len() + q.entries.len(),
    {
        before.lemma_templates();
        after.lemma_templates();
        assert(before.templates().contains(t));
        let i = choose|i: int| 0 <= i < before.templates().len() && before.templates()[i] == t;
        assert(after.queues() =~= before.queues().update(i, q)) by {
            assert forall|j: int| 0 <= j < after.queues().len() implies after.queues()[j]
                == before.queues().update(i, q)[j] by {
                assert(after@.pools[after.templates()[j]] == after.queues()[j]);
                assert(before@.pools[before.templates()[j]] == before.queues()[j]);
            }
        }
        assert(before@.pools[before.templates()[i]] == before.queues()[i]);
        lemma_waiting_update(before.queues(), i, q);
    }

    proof fn lemma_queues_same(before: Self, after: Self)
        requires
            before.wf(),
            after.wf(),
            before.templates() == after.templates(),
            after@.pools == before@.pools,
        ensures
            after.queues() == before.queues(),
    {
        before.lemma_templates();
        after.lemma_templates();
        assert(after.queues() =~= before.queues()) by {
            assert forall|j: int| 0 <= j < after.queues().len() implies after.queues()[j]
                == before.queues()[j] by {
                assert(after@.pools[after.templates()[j]] == after.queues()[j]);
                assert(before@.pools[before.templates()[j]] == before.queues()[j]);
            }
        }
    }

    /// The listed templates are the registered ones, each once, with their queues.
    pub proof fn lemma_templates(self)
        requires
            self.wf(),
        ensures
            self.templates().len() == self.queues().len(),
            forall|i: int|
                0 <= i < self.templates().len() ==> self@.pools.contains_key(
                    #[trigger] self.templates()[i],
                ) && self@.pools[self.templates()[i]] == self.queues()[i],
            forall|t: Seq<char>| #[trigger]
                self@.pools.contains_key(t) ==> self.templates().contains(t),
            self.templates().no_duplicates(),
    {
        self.pools.lemma_rows();
        let rows = self.pools.rows();
        assert forall|i: int| 0 <= i < self.templates().len() implies self@.pools.contains_key(
            #[trigger] self.templates()[i],
        ) && self@.pools[self.templates()[i]] == self.queues()[i] by {
            assert(self.templates()[i] == rows[i].key@);
        }
        assert forall|t: Seq<char>| #[trigger]
            self@.pools.contains_key(t) implies self.templates().contains(t) by {
            assert(self.pools@.contains_key(t));
            let i = choose|i: int| 0 <= i < rows.len() && (#[trigger] rows[i]).key@ == t;
            assert(self.templates()[i] == t);
        }
        assert forall|i: int, j: int|
            0 <= i < self.templates().len() && 0 <= j < self.templates().len() && i != j implies self.templates()[i]
            != self.templates()[j] by {
            assert(self.templates()[i] == rows[i].key@);
            assert(self.templates()[j] == rows[j].key@);
        }
    }

    /// A pool without templates.
    pub fn new(config: PoolConfig) -> (r: SandboxPoolManager)
        ensures
            r.wf(),
            r.settings() == config,
            r@ == (PoolModel { pools: Map::empty(), active: 0, idle: 0, creating: 0 }),
            r.templates().len() == 0,
            r.accounted(),
            r.counts() == (PoolCounts { waiting: 0, active: 0, creating: 0 }),
            r.within_total(),
    {
        let r = SandboxPoolManager {
            pools: Table::new(),
            config,
            total_active: 0,
            total_idle: 0,
            creating: 0,
        };
        assert(r@.pools =~= Map::empty());
        r
    }

    /// Gives a template an empty queue, in place of the one that it had.
    pub fn register_template(&mut self, template: &str)
        requires
            old(self).wf(),
        ensures
            final(self).wf(),
            final(self).settings() == old(self).settings(),
            final(self)@ == (PoolModel {
                pools: old(self)@.pools.insert(
                    template@,
                    QueueView {
                        entries: seq![],
                        min_idle: old(self).settings().min_idle,
                        max_idle: old(self).settings().max_idle,
                        idle_timeout_ms: old(self).settings().idle_timeout_ms,
                    },
                ),
                ..old(self)@
            }),
            old(self)@.pools.contains_key(template@) ==> final(self).templates() == old(self).templates(),
            !old(self)@.pools.contains_key(template@) ==> final(self).templates() == old(self).templates().push(template@),
            final(self).counts() == (PoolCounts {
                waiting: (old(self).counts().waiting - (if old(self)@.pools.contains_key(template@) {
                    old(self)@.pools[template@].entries.len() as int
                } else {
                    0
                })) as nat,
                ..old(self).counts()
            }),
            old(self).within_total() ==> final(self).within_total(),
    {
        let queue = PoolQueue::new(
            self.config.min_idle,
            self.config.max_idle,
            self.config.idle_timeout_ms,
        );
        let ghost q = queue@;
        let _ = self.pools.insert(template.to_owned(), queue);
        proof {
            assert(self@.pools =~= old(self)@.pools.insert(template@, q));
            if old(self)@.pools.contains_key(template@) {
                Self::lemma_queue_changed(*old(self), *self, template@, q);
            } else {
                old(self).lemma_templates();
                self.lemma_templates();
                let n = old(self).queues().len() as int;
                assert(self.queues() =~= old(self).queues().push(q)) by {
                    assert forall|j: int| 0 <= j < self.queues().len() implies self.queues()[j]
                        == old(self).queues().push(q)[j] by {
                        assert(self@.pools[self.templates()[j]] == self.queues()[j]);
                        if j < n {
                            assert(old(self)@.pools.contains_key(old(self).templates()[j]));
                        }
                    }
                }
                assert(self.queues().drop_last() =~= old(self).queues());
            }
        }
    }

    /// Offers a sandbox to the queue of a registered template.
    fn offer(&mut self, template: &str, sandbox: Sandbox, now: u64) -> (r: bool)
        requires
            old(self).wf(),
            old(self)@.pools.contains_key(template@),
        ensures
            final(self).wf(),
            final(self).settings() == old(self).settings(),
            final(self).templates() == old(self).templates(),
            r == !old(self)@.pools[template@].full(),
            final(self)@ == old(self)@.offered(template@, sandbox, now),
            waiting_total(final(self).queues()) == waiting_total(old(self).queues()) + (if r {
                1int
            } else {
                0
            }),
            old(self).accounted() && waiting_total(old(self).queues()) < usize::MAX ==> final(self).accounted(),
    {
        match self.pools.place_of(template) {
            Some(place) => {
                let taken = self.pools.value_mut(place).checkin(sandbox, now);
                if taken {
                    self.total_idle = self.total_idle.wrapping_add(1);
                }
                proof {
                    assert(self@ =~= old(self)@.offered(template@, sandbox, now));
                    let q = old(self)@.pools[template@].offered(sandbox, now);
                    Self::lemma_queue_changed(*old(self), *self, template@, q);
                }
                taken
            },
            None => {
                assert(false);
                false
            },
        }
    }

    /// Whether no more than so many sandboxes wait in all queues.
    fn waiting_within(&self, limit: usize) -> (r: bool)
        requires
            self.wf(),
        ensures
            r == (waiting_total(self.queues()) <= limit),
    {
        let ghost queues = self.queues();
        let mut rest: usize = limit;
        let mut i: usize = 0;
        assert(queues.take(0) =~= seq![]);
        while i < self.pools.len()
            invariant
                i <= self.pools.rows().len(),
                queues == self.queues(),
                queues.len() == self.pools.rows().len(),
                waiting_total(queues.take(i as int)) + rest == limit,
            decreases self.pools.rows().len() - i,
        {
            let idle: usize = self.pools.value_at(i).idle_count();
            proof {
                assert(queues[i as int] == self.pools.rows()[i as int].value@);
                assert(queues.take(i + 1).drop_last() =~= queues.take(i as int));
                assert(queues.take(i + 1).last() == queues[i as int]);
                lemma_waiting_grows(queues, i + 1);
            }
            if idle > rest {
                return false;
            }
            rest = rest - idle;
            i = i + 1;
        }
        assert(queues.take(i as int) =~= queues);
        true
    }

    /// Whether there may be one more sandbox.
    pub fn has_place(&self) -> (r: bool)
        requires
            self.wf(),
        ensures
            r == (self.counts().total() < self.settings().max_total),
            r <==> waiting_total(self.queues()) + self@.active + self@.creating
                < self.settings().max_total,
    {
        if self.total_active >= self.config.max_total {
            return false;
        }
        let rest: usize = self.config.max_total - self.total_active;
        if self.creating >= rest {
            return false;
        }
        self.waiting_within(rest - self.creating - 1)
    }

    /// How many sandboxes are being created for requests.
    pub fn creations_under_way(&self) -> (r: usize)
        ensures
            r == self@.creating,
    {
        self.creating
    }

    /// Whether the sandboxes that wait and those that are handed out can be counted together.
    pub fn countable(&self) -> (r: bool)
        requires
            self.wf(),
        ensures
            r == (waiting_total(self.queues()) + self@.active <= usize::MAX),
    {
        self.waiting_within(usize::MAX - self.total_active)
    }

    /// Whether the repository has to be asked about a sandbox of this template.
    pub fn wants_lookup(&self, template: &str) -> (r: bool)
        requires
            self.wf(),
        ensures
            r == self@.pools.contains_key(template@),
    {
        self.pools.contains_key(template)
    }

    /// What the repository has to write about a running sandbox, given what it holds.
    /// One that it holds with another status is set to running where that change is
    /// allowed.
    pub fn repository_write(found: Option<Sandbox>) -> (r: RepositoryWrite)
        ensures
            match found {
                None => r is Save,
                Some(s) => if s.status is Pending || s.status is Paused {
                    r == RepositoryWrite::Update(s.with_status(SandboxStatus::Running))
                } else {
                    r is Nothing
                },
            },
    {
        match found {
            None => RepositoryWrite::Save,
            Some(sandbox) => {
                if sandbox.status == SandboxStatus::Running {
                    return RepositoryWrite::Nothing;
                }
                let mut updated = sandbox;
                if updated.mark_running().is_ok() {
                    RepositoryWrite::Update(updated)
                } else {
                    RepositoryWrite::Nothing
                }
            },
        }
    }

    /// Takes the running sandboxes that the provider lists back into the pool. Each
    /// is counted once, by what became of it. `answers` holds what the repository
    /// said of each; where the provider could not list them, nothing changes.
    /// `orphans_written` tells of each orphan whether the repository wrote it as stopped.
    ///
    /// The sandboxes run already, so they are taken in also where there are as many as
    /// there may be: each that is reintegrated is one more that waits. Beyond the limit no
    /// sandbox is created until there are fewer again.
    pub fn recover_active_sandboxes(
        &mut self,
        listed: Option<Vec<Sandbox>>,
        answers: &Vec<RecoveryAnswer>,
        orphans_written: &Vec<bool>,
        now: u64,
    ) -> (r: RecoveryResult)
        requires
            old(self).wf(),
            listed matches Some(v) ==> v@.len() == answers@.len(),
        ensures
            final(self).wf(),
            final(self).settings() == old(self).settings(),
            final(self).templates() == old(self).templates(),
            match listed {
                None => r == no_recovery() && final(self)@ == old(self)@,
                Some(v) => final(self)@ == recovered(old(self)@, v@, answers@, now).0 && r == (
                RecoveryResult {
                    orphaned_terminated: times_written(orphans_written@) as usize,
                    ..recovered(old(self)@, v@, answers@, now).1
                }),
            },
            old(self).accounted() && waiting_total(old(self).queues()) + answers@.len()
                <= usize::MAX ==> final(self).accounted(),
            final(self).counts() == (PoolCounts {
                waiting: old(self).counts().waiting + r.reintegrated as nat,
                ..old(self).counts()
            }),
            final(self).within_total() <==> old(self).counts().total() + r.reintegrated
                <= old(self).settings().max_total,
    {
        let sandboxes = match listed {
            None => return RecoveryResult::default(),
            Some(v) => v,
        };
        let ghost fits = old(self).accounted() && waiting_total(old(self).queues()) + answers@.len()
            <= usize::MAX;
        let mut result = RecoveryResult::default();
        let ghost all = sandboxes@;
        let ghost start = self@;
        let total: usize = sandboxes.len();
        let mut i: usize = 0;
        assert(all.take(0) =~= seq![]);
        assert(answers@.take(0) =~= seq![]);
        for sandbox in it: sandboxes
            invariant
                it.seq() == all,
                i == it.index(),
                total == all.len(),
                all.len() == answers@.len(),
                self.wf(),
                self.settings() == old(self).settings(),
                self.templates() == old(self).templates(),
                (self@, result) == recovered(
                    start,
                    all.take(i as int),
                    answers@.take(i as int),
                    now,
                ),
                recovery_total(result) == i,
                self.counts() == (PoolCounts {
                    waiting: old(self).counts().waiting + result.reintegrated as nat,
                    ..old(self).counts()
                }),
                fits == (old(self).accounted() && waiting_total(old(self).queues())
                    + answers@.len() <= usize::MAX),
                fits ==> self.accounted() && waiting_total(self.queues()) <= waiting_total(
                    old(self).queues(),
                ) + i,
        {
            let ghost before = self@;
            let ghost result_before = result;
            proof {
                assert(sandbox == all[i as int]);
                assert(all.take(i + 1).drop_last() =~= all.take(i as int));
                assert(answers@.take(i + 1).drop_last() =~= answers@.take(i as int));
                assert(all.take(i + 1).last() == sandbox);
                assert(answers@.take(i + 1).last() == answers@[i as int]);
            }
            let template = sandbox.template_id.clone();
            if !self.pools.contains_key(template.as_str()) {
                result.skipped_not_registered = result.skipped_not_registered + 1;
            } else {
                match answers[i] {
                    RecoveryAnswer::SaveFailed | RecoveryAnswer::LookupFailed => {
                        result.failed = result.failed + 1;
                    },
                    RecoveryAnswer::Found | RecoveryAnswer::Saved => {
                        if self.offer(template.as_str(), sandbox, now) {
                            result.reintegrated = result.reintegrated + 1;
                        } else {
                            result.skipped_pool_full = result.skipped_pool_full + 1;
                            assert(self@.pools =~= before.pools);
                        }
                    },
                }
            }
            proof {
                let outcome = recovery_outcome(before, sandbox, answers@[i as int]);
                assert(self@ =~= recovery_step(before, sandbox, answers@[i as int], now));
                assert(result == counted(result_before, outcome));
            }
            i = i + 1;
        }
        assert(all.take(i as int) =~= all);
        assert(answers@.take(i as int) =~= answers@);
        result.orphaned_terminated = count_written(orphans_written);
        result
    }

    /// The sandboxes that the repository takes for active and the provider does not
    /// list, as stopped: those are to be written.
    pub fn orphan_updates(provider_ids: &Vec<String>, active: Vec<Sandbox>) -> (r: Vec<Sandbox>)
        ensures
            r@ == orphans(provider_ids@, active@),
            forall|j: int|
                0 <= j < active@.len() && ((#[trigger] active@[j]).status is Pending
                    || active@[j].status is Running || active@[j].status is Paused) && (forall|k: int|
                    0 <= k < provider_ids@.len() ==> (#[trigger] provider_ids@[k])@
                        != active@[j].id@) ==> exists|k: int|
                    0 <= k < r@.len() && (#[trigger] r@[k]).id == active@[j].id,
            forall|k: int| 0 <= k < r@.len() ==> (#[trigger] r@[k]).status is Stopped,
            forall|k: int, i: int|
                0 <= k < r@.len() && 0 <= i < provider_ids@.len() ==> (#[trigger] r@[k]).id@ != (
                #[trigger] provider_ids@[i])@,
            r@.len() <= active@.len(),
    {
        let mut out: Vec<Sandbox> = Vec::new();
        let ghost all = active@;
        assert(all.take(0) =~= seq![]);
        for sandbox in it: active
            invariant
                it.seq() == all,
                out@ == orphans(provider_ids@, all.take(it.index() as int)),
        {
            proof {
                let i = it.index() as int;
                assert(all.take(i + 1).drop_last() =~= all.take(i));
                assert(all.take(i + 1).last() == sandbox);
            }
            if !lists_id(provider_ids, sandbox.id.as_str()) {
                let mut updated = sandbox;
                if updated.terminate().is_ok() {
                    out.push(updated);
                }
            }
        }
        assert(all.take(all.len() as int) =~= all);
        proof {
            let at = law_every_orphan_is_stopped_once(provider_ids@, all);
            assert forall|j: int|
                0 <= j < all.len() && ((#[trigger] all[j]).status is Pending
                    || all[j].status is Running || all[j].status is Paused) && (forall|k: int|
                    0 <= k < provider_ids@.len() ==> (#[trigger] provider_ids@[k])@
                        != all[j].id@) implies exists|k: int|
                0 <= k < out@.len() && (#[trigger] out@[k]).id == all[j].id by {
                assert(at.contains(j));
                let k = choose|k: int| 0 <= k < at.len() && at[k] == j;
                assert(out@[k].id == all[at[k]].id);
            }
            assert forall|k: int| 0 <= k < out@.len() implies (#[trigger] out@[k]).status is Stopped by {
                assert(0 <= at[k] < all.len());
            }
            assert forall|k: int, i: int|
                0 <= k < out@.len() && 0 <= i < provider_ids@.len() implies (
            #[trigger] out@[k]).id@ != (#[trigger] provider_ids@[i])@ by {
                assert(at.contains(at[k]));
                assert(all[at[k]].id == out@[k].id);
            }
            lemma_orphans_len(provider_ids@, all);
        }
        out
    }

    /// Hands out a warm sandbox of the template, where one waits. Else one is to be created,
    /// for which a place is kept, and where no place is left the request is refused.
    pub fn checkout(&mut self, template: &str) -> (r: CheckoutStep)
        requires
            old(self).wf(),
        ensures
            final(self).wf(),
            final(self).settings() == old(self).settings(),
            final(self).templates() == old(self).templates(),
            (r is Warm) == (old(self)@.pools.contains_key(template@)
                && old(self)@.pools[template@].entries.len() > 0),
            match r {
                CheckoutStep::Warm(s) => {
                    &&& s == old(self)@.pools[template@].entries[0].sandbox
                    &&& final(self)@ == (PoolModel {
                        pools: old(self)@.pools.insert(
                            template@,
                            old(self)@.pools[template@].with(
                                old(self)@.pools[template@].entries.drop_first(),
                            ),
                        ),
                        active: old(self)@.active.wrapping_add(1),
                        idle: old(self)@.idle.wrapping_sub(1),
                        ..old(self)@
                    })
                    &&& old(self).counts().total() <= usize::MAX ==> {
                        &&& may_happen(
                            old(self).counts(),
                            old(self).settings().max_total,
                            PoolEvent::HandedOut,
                        )
                        &&& final(self).counts() == counts_after(
                            old(self).counts(),
                            PoolEvent::HandedOut,
                        )
                    }
                },
                CheckoutStep::Create => {
                    &&& final(self)@ == (PoolModel {
                        creating: (old(self)@.creating + 1) as usize,
                        ..old(self)@
                    })
                    &&& may_happen(
                        old(self).counts(),
                        old(self).settings().max_total,
                        PoolEvent::Reserved,
                    )
                    &&& final(self).counts() == counts_after(
                        old(self).counts(),
                        PoolEvent::Reserved,
                    )
                },
                CheckoutStep::Refused(e) => {
                    &&& old(self).counts().total() >= old(self).settings().max_total
                    &&& e@ == DomainErrorView::ResourceExhausted("No permits available"@)
                    &&& final(self)@ == old(self)@
                    &&& final(self).counts() == old(self).counts()
                },
            },
            old(self).accounted() && waiting_total(old(self).queues()) <= usize::MAX ==> final(self).accounted(),
            old(self).within_total() ==> final(self).within_total(),
            ({
                let warm = old(self)@.pools.contains_key(template@)
                    && old(self)@.pools[template@].entries.len() > 0;
                let all = waiting_total(old(self).queues()) + old(self)@.active
                    + old(self)@.creating;
                &&& r is Create <==> !warm && all < old(self).settings().max_total
                &&& r is Refused <==> !warm && all >= old(self).settings().max_total
                &&& r is Create ==> final(self)@.creating == old(self)@.creating + 1
                    && final(self)@.active == old(self)@.active
                &&& r is Warm && old(self)@.active < usize::MAX ==> final(self)@.active == old(
                    self,
                )@.active + 1 && final(self)@.creating == old(self)@.creating
                &&& forall|t: Seq<char>|
                    t != template@ && old(self)@.pools.contains_key(t)
                        ==> #[trigger] final(self)@.pools.contains_key(t) && final(self)@.pools[t]
                        == old(self)@.pools[t]
            }),
    {
        match self.pools.place_of(template) {
            None => {},
            Some(place) => {
                match self.pools.value_mut(place).checkout() {
                    None => {
                        proof {
                            assert(self@ =~= old(self)@);
                            Self::lemma_queues_same(*old(self), *self);
                        }
                    },
                    Some(sandbox) => {
                        self.total_idle = self.total_idle.wrapping_sub(1);
                        self.total_active = self.total_active.wrapping_add(1);
                        proof {
                            let q = old(self)@.pools[template@];
                            assert(self@.pools =~= old(self)@.pools.insert(
                                template@,
                                q.with(q.entries.drop_first()),
                            ));
                            Self::lemma_queue_changed(
                                *old(self),
                                *self,
                                template@,
                                q.with(q.entries.drop_first()),
                            );
                        }
                        return CheckoutStep::Warm(sandbox);
                    },
                }
            },
        }
        if self.has_place() {
            self.creating = self.creating + 1;
            CheckoutStep::Create
        } else {
            CheckoutStep::Refused(
                DomainError::ResourceExhausted("No permits available".to_owned()),
            )
        }
    }

    /// Counts a sandbox that was created and saved because none was warm. It takes the place
    /// that was kept for it.
    pub fn checkout_created(&mut self)
        requires
            old(self).wf(),
            old(self)@.creating > 0,
        ensures
            final(self).wf(),
            final(self).settings() == old(self).settings(),
            final(self).templates() == old(self).templates(),
            final(self)@ == (PoolModel {
                active: old(self)@.active.wrapping_add(1),
                creating: (old(self)@.creating - 1) as usize,
                ..old(self)@
            }),
            old(self).accounted() ==> final(self).accounted(),
            old(self).counts().total() <= usize::MAX ==> {
                &&& may_happen(
                    old(self).counts(),
                    old(self).settings().max_total,
                    PoolEvent::Arrived,
                )
                &&& final(self).counts() == counts_after(old(self).counts(), PoolEvent::Arrived)
            },
            old(self).within_total() ==> final(self).within_total(),
    {
        self.creating = self.creating - 1;
        self.total_active = self.total_active.wrapping_add(1);
    }

    /// Gives up the place of a sandbox that could not be created or saved.
    pub fn checkout_failed(&mut self)
        requires
            old(self).wf(),
            old(self)@.creating > 0,
        ensures
            final(self).wf(),
            final(self).settings() == old(self).settings(),
            final(self).templates() == old(self).templates(),
            final(self)@ == (PoolModel {
                creating: (old(self)@.creating - 1) as usize,
                ..old(self)@
            }),
            old(self).accounted() ==> final(self).accounted(),
            may_happen(
                old(self).counts(),
                old(self).settings().max_total,
                PoolEvent::Abandoned,
            ),
            final(self).counts() == counts_after(old(self).counts(), PoolEvent::Abandoned),
            old(self).within_total() ==> final(self).within_total(),
    {
        self.creating = self.creating - 1;
    }

    /// Takes a sandbox back, given what the repository holds under its id. It waits
    /// in the pool where its template is registered and has a place for it.
    ///
    /// The provider has been asked to end the sandbox by then. It waits under its old id and
    /// with the status that the repository holds; whether it is made anew before it is handed
    /// out is left to the caller. One that was not counted as handed out lowers no count.
    pub fn checkin(&mut self, sandbox_id: &str, found: Option<Sandbox>, now: u64) -> (r: Result<
        CheckinStep,
        DomainError,
    >)
        requires
            old(self).wf(),
        ensures
            final(self).wf(),
            final(self).settings() == old(self).settings(),
            final(self).templates() == old(self).templates(),
            match found {
                None => final(self)@ == old(self)@ && (r matches Err(e) && e@
                    == DomainErrorView::NotFound(sandbox_id@)),
                Some(s) => {
                    let t = s.template_id@;
                    let released = PoolModel {
                        active: if old(self)@.active > 0 {
                            (old(self)@.active - 1) as usize
                        } else {
                            0
                        },
                        ..old(self)@
                    };
                    if old(self)@.pools.contains_key(t) && !old(self)@.pools[t].full() {
                        r == Ok::<CheckinStep, DomainError>(CheckinStep::Pooled) && final(self)@
                            == released.offered(t, s, now)
                    } else {
                        r == Ok::<CheckinStep, DomainError>(CheckinStep::Released) && final(self)@
                            == released
                    }
                },
            },
            old(self).accounted() && waiting_total(old(self).queues()) < usize::MAX ==> final(self).accounted(),
            match r {
                Ok(step) => {
                    let event = PoolEvent::Returned { pooled: step is Pooled };
                    &&& final(self).counts() == counts_after(old(self).counts(), event)
                    &&& old(self)@.active > 0 || old(self).counts().total()
                        < old(self).settings().max_total ==> may_happen(
                        old(self).counts(),
                        old(self).settings().max_total,
                        event,
                    )
                },
                Err(_) => final(self).counts() == old(self).counts(),
            },
            old(self).within_total() && (old(self)@.active > 0 || old(self).counts().total()
                < old(self).settings().max_total) ==> final(self).within_total(),
            found matches Some(s) ==> {
                let t = s.template_id@;
                let before = old(self)@.pools[t];
                let pooled = old(self)@.pools.contains_key(t) && before.entries.len()
                    < before.max_idle;
                &&& r is Ok && (r->Ok_0 is Pooled <==> pooled)
                &&& old(self)@.active > 0 ==> final(self)@.active == old(self)@.active - 1
                &&& old(self)@.active == 0 ==> final(self)@.active == 0
                &&& pooled ==> final(self)@.pools.contains_key(t) && final(self)@.pools[t].entries
                    == before.entries.push(
                    PoolEntry { sandbox: s, created_at: now, last_used_at: now },
                )
                &&& !pooled ==> final(self)@.pools == old(self)@.pools
            },
    {
        let sandbox = match found {
            None => return Err(DomainError::NotFound(sandbox_id.to_owned())),
            Some(sandbox) => sandbox,
        };
        if self.total_active > 0 {
            self.total_active = self.total_active - 1;
        }
        let template = sandbox.template_id.clone();
        if self.pools.contains_key(template.as_str()) {
            let ghost before = self@;
            assert(before.pools =~= old(self)@.pools);
            if self.offer(template.as_str(), sandbox, now) {
                return Ok(CheckinStep::Pooled);
            }
            assert(self@.pools =~= before.pools);
        }
        Ok(CheckinStep::Released)
    }

    /// Lets the sandboxes of all queues go that have been idle for too long. They are
    /// to be terminated and deleted.
    pub fn evict_idle(&mut self, now: u64) -> (r: Vec<Sandbox>)
        requires
            old(self).wf(),
        ensures
            final(self).wf(),
            final(self).settings() == old(self).settings(),
            final(self).templates() == old(self).templates(),
            r@ == all_idle(old(self).queues(), now),
            final(self).queues() == old(self).queues().map_values(
                |q: QueueView| evicted_queue(q, now),
            ),
            final(self)@ == (PoolModel {
                pools: old(self)@.pools.map_values(|q: QueueView| evicted_queue(q, now)),
                idle: old(self)@.idle.wrapping_sub(r@.len() as usize),
                ..old(self)@
            }),
            old(self).accounted() ==> final(self).accounted(),
            may_happen(
                old(self).counts(),
                old(self).settings().max_total,
                PoolEvent::Left(r@.len()),
            ),
            final(self).counts() == counts_after(old(self).counts(), PoolEvent::Left(r@.len())),
            old(self).within_total() ==> final(self).within_total(),
    {
        let ghost before = *self;
        let ghost queues = self.queues();
        let mut evicted: Vec<Sandbox> = Vec::new();
        let mut i: usize = 0;
        let total: usize = self.pools.len();
        assert(queues.take(0) =~= seq![]);
        while i < total
            invariant
                i <= total,
                total == queues.len(),
                queues == before.queues(),
                total == before.pools.rows().len(),
                self.pools.wf(),
                self.config == before.config,
                self.total_active == before.total_active,
                self.total_idle == before.total_idle,
                self.creating == before.creating,
                self.pools.keys() == before.pools.keys(),
                self.pools.rows().len() == total,
                forall|j: int|
                    0 <= j < i ==> (#[trigger] self.pools.rows()[j]).value@ == evicted_queue(
                        queues[j],
                        now,
                    ),
                forall|j: int|
                    i <= j < total ==> (#[trigger] self.pools.rows()[j]).value@ == queues[j],
                evicted@ == all_idle(queues.take(i as int), now),
            decreases total - i,
        {
            proof {
                assert(queues.take(i + 1).drop_last() =~= queues.take(i as int));
                assert(queues.take(i + 1).last() == queues[i as int]);
            }
            let ghost rows_before = self.pools.rows();
            assert(rows_before[i as int].value@ == queues[i as int]);
            let mut gone = self.pools.value_mut(i).evict_idle(now);
            evicted.append(&mut gone);
            assert(self.pools.rows()[i as int].value@ == evicted_queue(queues[i as int], now));
            i = i + 1;
        }
        assert(queues.take(i as int) =~= queues);
        self.total_idle = self.total_idle.wrapping_sub(evicted.len());
        proof {
            assert(self.queues() =~= queues.map_values(|q: QueueView| evicted_queue(q, now)));
            lemma_evicted_totals(queues, now);
            before.lemma_templates();
            before.law_queues_keep_their_limits();
            assert forall|j: int| 0 <= j < self.queues().len() implies follows(
                #[trigger] self.queues()[j],
                self.config,
            ) by {
                let q = queues[j];
                assert(follows(q, before.config));
                queue::law_evict_loses_nothing(q.entries, q.idle_timeout_ms, now);
            }
            self.lemma_limits_kept();
            self.lemma_templates();
            assert(self@.pools =~= before@.pools.map_values(
                |q: QueueView| evicted_queue(q, now),
            )) by {
                assert forall|t: Seq<char>| #[trigger]
                    self@.pools.contains_key(t) == before@.pools.contains_key(t) by {
                    if self@.pools.contains_key(t) {
                        assert(before.templates().contains(t));
                    }
                    if before@.pools.contains_key(t) {
                        assert(self.templates().contains(t));
                    }
                }
                assert forall|t: Seq<char>| self@.pools.contains_key(t) implies self@.pools[t]
                    == evicted_queue(before@.pools[t], now) by {
                    assert(self.templates().contains(t));
                    let j = choose|j: int|
                        0 <= j < self.templates().len() && self.templates()[j] == t;
                    assert(self@.pools[self.templates()[j]] == self.queues()[j]);
                    assert(before@.pools[before.templates()[j]] == before.queues()[j]);
                }
            }
        }
        evicted
    }

    /// Empties every queue and counts no sandbox as handed out or as waiting. Those that are
    /// being created stay counted until they are there. The sandboxes that waited are to be
    /// terminated and deleted.
    pub fn stop(&mut self) -> (r: Vec<Sandbox>)
        requires
            old(self).wf(),
        ensures
            final(self).wf(),
            final(self).settings() == old(self).settings(),
            final(self).templates() == old(self).templates(),
            r@ == all_waiting(old(self).queues()),
            final(self)@.active == 0,
            final(self)@.idle == 0,
            final(self)@.creating == old(self)@.creating,
            waiting_total(final(self).queues()) == 0,
            old(self).within_total() ==> final(self).within_total(),
            final(self)@.pools.dom() == old(self)@.pools.dom(),
            forall|t: Seq<char>| #[trigger]
                final(self)@.pools.contains_key(t) ==> final(self)@.pools[t] == old(self)@.pools[t].with(seq![]),
    {
        let ghost before = *self;
        let ghost queues = self.queues();
        let mut out: Vec<Sandbox> = Vec::new();
        let mut i: usize = 0;
        let total: usize = self.pools.len();
        assert(queues.take(0) =~= seq![]);
        while i < total
            invariant
                i <= total,
                total == queues.len(),
                queues == before.queues(),
                total == before.pools.rows().len(),
                self.pools.wf(),
                self.config == before.config,
                self.creating == before.creating,
                self.pools.keys() == before.pools.keys(),
                self.pools.rows().len() == total,
                forall|j: int|
                    0 <= j < i ==> (#[trigger] self.pools.rows()[j]).value@ == queues[j].with(
                        seq![],
                    ),
                forall|j: int|
                    i <= j < total ==> (#[trigger] self.pools.rows()[j]).value@ == queues[j],
                out@ == all_waiting(queues.take(i as int)),
            decreases total - i,
        {
            proof {
                assert(queues.take(i + 1).drop_last() =~= queues.take(i as int));
                assert(queues.take(i + 1).last() == queues[i as int]);
            }
            assert(self.pools.rows()[i as int].value@ == queues[i as int]);
            let mut gone = self.pools.value_mut(i).drain();
            out.append(&mut gone);
            assert(self.pools.rows()[i as int].value@ == queues[i as int].with(seq![]));
            i = i + 1;
        }
        assert(queues.take(i as int) =~= queues);
        self.total_idle = 0;
        self.total_active = 0;
        proof {
            lemma_nothing_waits(self.queues());
            before.lemma_templates();
            before.law_queues_keep_their_limits();
            assert forall|j: int| 0 <= j < self.queues().len() implies follows(
                #[trigger] self.queues()[j],
                self.config,
            ) by {
                assert(self.queues()[j] == queues[j].with(seq![]));
                assert(follows(queues[j], before.config));
            }
            self.lemma_limits_kept();
            self.lemma_templates();
            assert forall|t: Seq<char>| #[trigger]
                self@.pools.contains_key(t) == before@.pools.contains_key(t) by {
                if self@.pools.contains_key(t) {
                    assert(before.templates().contains(t));
                }
                if before@.pools.contains_key(t) {
                    assert(self.templates().contains(t));
                }
            }
            assert(self@.pools.dom() =~= before@.pools.dom());
            assert forall|t: Seq<char>| #[trigger]
                self@.pools.contains_key(t) implies self@.pools[t] == before@.pools[t].with(
                seq![],
            ) by {
                assert(self.templates().contains(t));
                let j = choose|j: int| 0 <= j < self.templates().len() && self.templates()[j] == t;
                assert(self@.pools[self.templates()[j]] == self.queues()[j]);
                assert(before@.pools[before.templates()[j]] == before.queues()[j]);
            }
        }
        out
    }

    /// The first template, from a position on, whose queue needs a sandbox; none where there
    /// are as many sandboxes as there may be.
    pub fn refill_target(&self, from: usize) -> (r: Option<usize>)
        requires
            self.wf(),
        ensures
            match r {
                Some(i) => {
                    &&& self.counts().total() < self.settings().max_total
                    &&& from <= i < self.queues().len()
                    &&& self.queues()[i as int].entries.len() < self.queues()[i as int].min_idle
                    &&& forall|j: int|
                        from <= j < i ==> (#[trigger] self.queues()[j]).entries.len()
                            >= self.queues()[j].min_idle
                },
                None => {
                    ||| self.counts().total() >= self.settings().max_total
                    ||| forall|j: int|
                        from <= j < self.queues().len() ==> (
                        #[trigger] self.queues()[j]).entries.len() >= self.queues()[j].min_idle
                },
            },
    {
        if !self.has_place() {
            return None;
        }
        let mut i: usize = from;
        while i < self.pools.len()
            invariant
                from <= i,
                self.queues().len() == self.pools.rows().len(),
                self.counts().total() < self.settings().max_total,
                forall|j: int|
                    from <= j < i && j < self.queues().len() ==> (
                    #[trigger] self.queues()[j]).entries.len() >= self.queues()[j].min_idle,
            decreases self.pools.rows().len() - i,
        {
            assert(self.queues()[i as int] == self.pools.rows()[i as int].value@);
            if self.pools.value_at(i).needs_refill() {
                return Some(i);
            }
            i = i + 1;
        }
        None
    }

    /// The template at a position.
    pub fn template_at(&self, i: usize) -> (r: &String)
        requires
            i < self.templates().len(),
        ensures
            r@ == self.templates()[i as int],
    {
        self.pools.key_at(i)
    }

    /// Takes note of an attempt to refill the queue at `position`. Returns where to
    /// look next, and a sandbox to terminate where the queue had no place for it or there
    /// are as many sandboxes as there may be. A queue that took a sandbox is looked at
    /// again; else the pass goes on behind it.
    pub fn refill_event(&mut self, position: usize, event: RefillEvent, now: u64) -> (r: (
        usize,
        Option<Sandbox>,
    ))
        requires
            old(self).wf(),
            position < old(self).queues().len(),
        ensures
            final(self).wf(),
            final(self).settings() == old(self).settings(),
            final(self).templates() == old(self).templates(),
            match event {
                RefillEvent::CreateFailed => {
                    &&& r == ((position + 1) as usize, None::<Sandbox>)
                    &&& final(self)@ == old(self)@
                    &&& final(self).counts() == old(self).counts()
                },
                RefillEvent::Created(s) => {
                    let t = old(self).templates()[position as int];
                    if old(self)@.pools[t].full() || old(self).counts().total()
                        >= old(self).settings().max_total {
                        &&& r == ((position + 1) as usize, Some(s))
                        &&& final(self)@ == old(self)@
                        &&& final(self).counts() == old(self).counts()
                    } else {
                        &&& r == (position, None::<Sandbox>)
                        &&& final(self)@ == old(self)@.offered(t, s, now)
                        &&& may_happen(
                            old(self).counts(),
                            old(self).settings().max_total,
                            PoolEvent::Refilled,
                        )
                        &&& final(self).counts() == counts_after(
                            old(self).counts(),
                            PoolEvent::Refilled,
                        )
                    }
                },
            },
            old(self).accounted() && waiting_total(old(self).queues()) < usize::MAX ==> final(self).accounted(),
            old(self).within_total() ==> final(self).within_total(),
            event matches RefillEvent::Created(s) ==> {
                let t = old(self).templates()[position as int];
                let before = old(self)@.pools[t];
                let room = before.entries.len() < before.max_idle && waiting_total(
                    old(self).queues(),
                ) + old(self)@.active + old(self)@.creating < old(self).settings().max_total;
                &&& r.1 is None <==> room
                &&& room ==> final(self)@.pools.contains_key(t) && final(self)@.pools[t].entries
                    == before.entries.push(
                    PoolEntry { sandbox: s, created_at: now, last_used_at: now },
                )
                &&& !room ==> r.1 == Some(s) && final(self)@.pools == old(self)@.pools
            },
    {
        let total: usize = self.pools.len();
        assert(position < total);
        match event {
            RefillEvent::CreateFailed => (position + 1, None),
            RefillEvent::Created(sandbox) => {
                proof {
                    self.lemma_templates();
                }
                let ghost t = self.templates()[position as int];
                let queue = self.pools.value_at(position);
                assert(self.pools.rows()[position as int].value@ == self.queues()[position as int]);
                assert(self@.pools[t] == self.queues()[position as int]);
                if queue.idle_count() >= queue.max_idle() || !self.has_place() {
                    return (position + 1, Some(sandbox));
                }
                let template = self.pools.key_at(position).clone();
                let _ = self.offer(template.as_str(), sandbox, now);
                (position, None)
            },
        }
    }

    /// The statistics of the pool.
    pub fn stats(&self) -> (r: PoolStats)
        requires
            self.wf(),
            waiting_total(self.queues()) + self@.active <= usize::MAX,
        ensures
            r.active == self@.active,
            r.idle == waiting_total(self.queues()),
            r.total == r.idle + r.active,
            r.templates@.len() == self.templates().len(),
            forall|i: int|
                0 <= i < r.templates@.len() ==> {
                    let t = #[trigger] r.templates@[i];
                    &&& t.template@ == self.templates()[i]
                    &&& t.idle == self.queues()[i].entries.len()
                    &&& t.min_idle == self.queues()[i].min_idle
                    &&& t.max_idle == self.queues()[i].max_idle
                },
    {
        let mut templates: Vec<TemplateStats> = Vec::new();
        let mut total_idle: usize = 0;
        let mut i: usize = 0;
        let ghost queues = self.queues();
        assert(queues.take(0) =~= seq![]);
        while i < self.pools.len()
            invariant
                i <= self.pools.rows().len(),
                queues == self.queues(),
                self.templates().len() == self.pools.rows().len(),
                queues.len() == self.pools.rows().len(),
                waiting_total(queues) + self.total_active <= usize::MAX,
                total_idle == waiting_total(queues.take(i as int)),
                templates@.len() == i,
                forall|j: int|
                    0 <= j < i ==> {
                        let t = #[trigger] templates@[j];
                        &&& t.template@ == self.templates()[j]
                        &&& t.idle == queues[j].entries.len()
                        &&& t.min_idle == queues[j].min_idle
                        &&& t.max_idle == queues[j].max_idle
                    },
            decreases self.pools.rows().len() - i,
        {
            let queue = self.pools.value_at(i);
            let idle: usize = queue.idle_count();
            proof {
                assert(queues[i as int] == queue@);
                assert(queues.take(i + 1).drop_last() =~= queues.take(i as int));
                assert(queues.take(i + 1).last() == queue@);
                lemma_waiting_grows(queues, i + 1);
            }
            total_idle = total_idle + idle;
            templates.push(
                TemplateStats {
                    template: self.pools.key_at(i).clone(),
                    idle,
                    min_idle: queue.min_idle(),
                    max_idle: queue.max_idle(),
                },
            );
            i = i + 1;
        }
        assert(queues.take(i as int) =~= queues);
        PoolStats {
            templates,
            active: self.total_active,
            idle: total_idle,
            total: total_idle + self.total_active,
        }
    }
}

/// Whether the id is among the ids.
pub open spec fn listed_id(ids: Seq<String>, id: Seq<char>) -> bool {
    exists|i: int| 0 <= i < ids.len() && (#[trigger] ids[i])@ == id
}

/// Whether the id is among the ids.
pub fn lists_id(ids: &Vec<String>, id: &str) -> (r: bool)
    ensures
        r == listed_id(ids@, id@),
        r <==> exists|i: int| 0 <= i < ids@.len() && (#[trigger] ids@[i])@ == id@,
{
    let mut i: usize = 0;
    while i < ids.len()
        invariant
            i <= ids@.len(),
            forall|j: int| 0 <= j < i ==> (#[trigger] ids@[j])@ != id@,
        decreases ids@.len() - i,
    {
        if crate::text::str_eq(ids[i].as_str(), id) {
            return true;
        }
        i = i + 1;
    }
    false
}

/// The active sandboxes that are not listed and may be stopped, as stopped.
pub open spec fn orphans(ids: Seq<String>, active: Seq<Sandbox>) -> Seq<Sandbox>
    decreases active.len(),
{
    if active.len() == 0 {
        seq![]
    } else {
        let before = orphans(ids, active.drop_last());
        let s = active.last();
        if !listed_id(ids, s.id@) && !(s.status is Stopped) && !(s.status is Failed) {
            before.push(s.with_status(SandboxStatus::Stopped))
        } else {
            before
        }
    }
}

/// Every running sandbox that the provider lists is counted exactly once.
pub proof fn law_recovery_counts_each_once(
    m: PoolModel,
    sandboxes: Seq<Sandbox>,
    answers: Seq<RecoveryAnswer>,
    now: u64,
)
    requires
        sandboxes.len() == answers.len(),
        sandboxes.len() <= usize::MAX,
    ensures
        recovery_total(recovered(m, sandboxes, answers, now).1) == sandboxes.len(),
    decreases sandboxes.len(),
{
    if sandboxes.len() > 0 {
        law_recovery_counts_each_once(m, sandboxes.drop_last(), answers.drop_last(), now);
    }
}

/// A recovery registers and drops no template, leaves the active count alone, and
/// fills no queue over its limit.
pub proof fn law_recovery_keeps_limits(
    m: PoolModel,
    sandboxes: Seq<Sandbox>,
    answers: Seq<RecoveryAnswer>,
    now: u64,
    t: Seq<char>,
)
    requires
        sandboxes.len() == answers.len(),
        m.pools.contains_key(t),
        m.pools[t].entries.len() <= m.pools[t].max_idle,
    ensures
        ({
            let after = recovered(m, sandboxes, answers, now).0;
            &&& after.pools.dom() == m.pools.dom()
            &&& after.active == m.active
            &&& after.pools[t].max_idle == m.pools[t].max_idle
            &&& m.pools[t].entries.len() <= after.pools[t].entries.len()
                <= after.pools[t].max_idle
        }),
    decreases sandboxes.len(),
{
    if sandboxes.len() > 0 {
        law_recovery_keeps_limits(m, sandboxes.drop_last(), answers.drop_last(), now, t);
        let before = recovered(m, sandboxes.drop_last(), answers.drop_last(), now).0;
        let after = recovered(m, sandboxes, answers, now).0;
        assert(after.pools.dom() =~= before.pools.dom());
    }
}

/// Where no template is registered, a recovery skips every sandbox and changes nothing.
pub proof fn law_recovery_skips_unregistered(
    m: PoolModel,
    sandboxes: Seq<Sandbox>,
    answers: Seq<RecoveryAnswer>,
    now: u64,
)
    requires
        sandboxes.len() == answers.len(),
        sandboxes.len() <= usize::MAX,
        forall|i: int|
            0 <= i < sandboxes.len() ==> !m.pools.contains_key(
                (#[trigger] sandboxes[i]).template_id@,
            ),
    ensures
        recovered(m, sandboxes, answers, now).0 == m,
        recovered(m, sandboxes, answers, now).1 == (RecoveryResult {
            skipped_not_registered: sandboxes.len() as usize,
            ..no_recovery()
        }),
    decreases sandboxes.len(),
{
    if sandboxes.len() > 0 {
        law_recovery_skips_unregistered(m, sandboxes.drop_last(), answers.drop_last(), now);
    }
}

/// Every orphan is stopped, is not listed by the provider, and stands among the
/// active sandboxes of the repository.
pub proof fn law_orphans_are_unlisted(ids: Seq<String>, active: Seq<Sandbox>, i: int)
    requires
        0 <= i < orphans(ids, active).len(),
    ensures
        orphans(ids, active)[i].status is Stopped,
        !listed_id(ids, orphans(ids, active)[i].id@),
        exists|j: int|
            0 <= j < active.len() && orphans(ids, active)[i] == (#[trigger] active[j]).with_status(
                SandboxStatus::Stopped,
            ),
    decreases active.len(),
{
    let before = orphans(ids, active.drop_last());
    if i < before.len() {
        law_orphans_are_unlisted(ids, active.drop_last(), i);
        let j = choose|j: int|
            0 <= j < active.drop_last().len() && before[i] == (
            #[trigger] active.drop_last()[j]).with_status(SandboxStatus::Stopped);
        assert(active.drop_last()[j] == active[j]);
        assert(orphans(ids, active)[i] == active[j].with_status(SandboxStatus::Stopped));
    } else {
        assert(orphans(ids, active)[i] == active[active.len() - 1].with_status(
            SandboxStatus::Stopped,
        ));
    }
}

/// Every active sandbox that the provider does not list, and that has not ended, is among the
/// orphans exactly once, in its order and as stopped; all else of it is left as it was. The
/// positions of those sandboxes come with the law.
pub proof fn law_every_orphan_is_stopped_once(ids: Seq<String>, active: Seq<Sandbox>) -> (at: Seq<
    int,
>)
    ensures
        at.len() == orphans(ids, active).len(),
        forall|k: int|
            0 <= k < at.len() ==> {
                let o = orphans(ids, active)[k];
                &&& 0 <= #[trigger] at[k] < active.len()
                &&& o.status is Stopped
                &&& o.id == active[at[k]].id
                &&& o.template_id == active[at[k]].template_id
                &&& o.provider_id == active[at[k]].provider_id
                &&& o.created_at == active[at[k]].created_at
                &&& o.expires_at == active[at[k]].expires_at
                &&& o.resources == active[at[k]].resources
                &&& o.network == active[at[k]].network
                &&& o.metadata == active[at[k]].metadata
            },
        forall|k: int, l: int| 0 <= k < l < at.len() ==> #[trigger] at[k] < #[trigger] at[l],
        forall|j: int|
            0 <= j < active.len() ==> (at.contains(j) <==> {
                &&& (#[trigger] active[j]).status is Pending || active[j].status is Running
                    || active[j].status is Paused
                &&& forall|k: int| 0 <= k < ids.len() ==> (#[trigger] ids[k])@ != active[j].id@
            }),
    decreases active.len(),
{
    if active.len() == 0 {
        Seq::empty()
    } else {
        let front = active.drop_last();
        let n = active.len() - 1;
        let before = law_every_orphan_is_stopped_once(ids, front);
        let s = active[n];
        assert(s == active.last());
        let taken = orphans(ids, active).len() > orphans(ids, front).len();
        let at = if taken {
            before.push(n)
        } else {
            before
        };
        assert forall|k: int| 0 <= k < at.len() implies {
            let o = orphans(ids, active)[k];
            &&& 0 <= #[trigger] at[k] < active.len()
            &&& o.status is Stopped
            &&& o.id == active[at[k]].id
            &&& o.template_id == active[at[k]].template_id
            &&& o.provider_id == active[at[k]].provider_id
            &&& o.created_at == active[at[k]].created_at
            &&& o.expires_at == active[at[k]].expires_at
            &&& o.resources == active[at[k]].resources
            &&& o.network == active[at[k]].network
            &&& o.metadata == active[at[k]].metadata
        } by {
            if k < before.len() {
                assert(at[k] == before[k]);
                assert(front[before[k]] == active[before[k]]);
            }
        }
        assert forall|j: int| 0 <= j < active.len() implies (at.contains(j) <==> {
            &&& (#[trigger] active[j]).status is Pending || active[j].status is Running
                || active[j].status is Paused
            &&& forall|k: int| 0 <= k < ids.len() ==> (#[trigger] ids[k])@ != active[j].id@
        }) by {
            if j < n {
                assert(front[j] == active[j]);
                if before.contains(j) {
                    let k = choose|k: int| 0 <= k < before.len() && before[k] == j;
                    assert(at[k] == j);
                }
                if at.contains(j) {
                    let k = choose|k: int| 0 <= k < at.len() && at[k] == j;
                    assert(k < before.len());
                    assert(before[k] == j);
                }
            } else {
                if at.contains(j) && !taken {
                    let k = choose|k: int| 0 <= k < at.len() && at[k] == j;
                    assert(before[k] < front.len());
                }
                if taken {
                    assert(at[at.len() - 1] == n);
                }
            }
        }
        at
    }
}

/// Every sandbox that waits in some queue is among those that are let go when the pool stops,
/// and there are no more than wait.
pub proof fn law_stop_lets_every_sandbox_go(queues: Seq<QueueView>, i: int, k: int)
    requires
        0 <= i < queues.len(),
        0 <= k < queues[i].entries.len(),
    ensures
        all_waiting(queues).contains(queues[i].entries[k].sandbox),
        all_waiting(queues).len() == waiting_total(queues),
        waiting_total(queues) >= queues[i].entries.len(),
    decreases queues.len(),
{
    let front = queues.drop_last();
    let before = all_waiting(front);
    let last = queues.last().entries.map_values(|e: PoolEntry| e.sandbox);
    lemma_all_waiting_len(queues);
    lemma_all_waiting_len(front);
    if i < front.len() {
        law_stop_lets_every_sandbox_go(front, i, k);
        let j = choose|j: int| 0 <= j < before.len() && before[j] == front[i].entries[k].sandbox;
        assert(all_waiting(queues)[j] == queues[i].entries[k].sandbox);
    } else {
        assert(all_waiting(queues)[before.len() + k] == last[k]);
    }
}

proof fn lemma_all_waiting_len(queues: Seq<QueueView>)
    ensures
        all_waiting(queues).len() == waiting_total(queues),
    decreases queues.len(),
{
    if queues.len() > 0 {
        lemma_all_waiting_len(queues.drop_last());
    }
}

/// Every sandbox of some queue that has been idle for longer than the timeout of the queue is
/// among those that an eviction lets go; and none is that has not been.
pub proof fn law_eviction_reaches_every_queue(queues: Seq<QueueView>, now: u64)
    ensures
        forall|i: int, k: int|
            0 <= i < queues.len() && 0 <= k < queues[i].entries.len() && now
                > queues[i].entries[k].last_used_at + queues[i].idle_timeout_ms * 1_000_000
                ==> all_idle(queues, now).contains((#[trigger] queues[i].entries[k]).sandbox),
        forall|j: int|
            0 <= j < all_idle(queues, now).len() ==> exists|i: int, k: int|
                {
                    &&& 0 <= i < queues.len()
                    &&& 0 <= k < queues[i].entries.len()
                    &&& (#[trigger] queues[i].entries[k]).sandbox == #[trigger] all_idle(
                        queues,
                        now,
                    )[j]
                    &&& now > queues[i].entries[k].last_used_at + queues[i].idle_timeout_ms
                        * 1_000_000
                },
    decreases queues.len(),
{
    if queues.len() > 0 {
        let front = queues.drop_last();
        let n = queues.len() - 1;
        let q = queues[n];
        law_eviction_reaches_every_queue(front, now);
        let before = all_idle(front, now);
        let gone = queue::idle_sandboxes(q.entries, q.idle_timeout_ms, now);
        let all = all_idle(queues, now);
        let at = queue::law_eviction_goes_by_idle_time(q.entries, q.idle_timeout_ms, now);
        lemma_idle_positions(q.entries, q.idle_timeout_ms, now);
        assert(all == before + gone);
        assert forall|i: int, k: int|
            0 <= i < queues.len() && 0 <= k < queues[i].entries.len() && now
                > queues[i].entries[k].last_used_at + queues[i].idle_timeout_ms * 1_000_000 implies all.contains(
            (#[trigger] queues[i].entries[k]).sandbox) by {
            if i < n {
                assert(front[i].entries[k] == queues[i].entries[k]);
                let j = choose|j: int|
                    0 <= j < before.len() && before[j] == front[i].entries[k].sandbox;
                assert(all[j] == queues[i].entries[k].sandbox);
            } else {
                assert(gone.contains(q.entries[k].sandbox));
                let j = choose|j: int| 0 <= j < gone.len() && gone[j] == q.entries[k].sandbox;
                assert(all[before.len() + j] == q.entries[k].sandbox);
            }
        }
        assert forall|j: int| 0 <= j < all.len() implies exists|i: int, k: int|
            {
                &&& 0 <= i < queues.len()
                &&& 0 <= k < queues[i].entries.len()
                &&& (#[trigger] queues[i].entries[k]).sandbox == #[trigger] all[j]
                &&& now > queues[i].entries[k].last_used_at + queues[i].idle_timeout_ms * 1_000_000
            } by {
            if j < before.len() {
                assert(before[j] == all[j]);
                let (i, k) = choose|i: int, k: int|
                    {
                        &&& 0 <= i < front.len()
                        &&& 0 <= k < front[i].entries.len()
                        &&& (#[trigger] front[i].entries[k]).sandbox == before[j]
                        &&& now > front[i].entries[k].last_used_at + front[i].idle_timeout_ms
                            * 1_000_000
                    };
                assert(queues[i].entries[k].sandbox == all[j]);
            } else {
                let k = at.1[j - before.len()];
                assert(queues[n].entries[k].sandbox == all[j]);
            }
        }
    }
}

proof fn lemma_idle_positions(s: Seq<PoolEntry>, timeout_ms: u64, now: u64)
    ensures
        forall|k: int|
            0 <= k < s.len() && now > s[k].last_used_at + timeout_ms * 1_000_000
                ==> queue::idle_sandboxes(s, timeout_ms, now).contains((#[trigger] s[k]).sandbox),
    decreases s.len(),
{
    if s.len() > 0 {
        let front = s.drop_last();
        lemma_idle_positions(front, timeout_ms, now);
        let before = queue::idle_sandboxes(front, timeout_ms, now);
        let all = queue::idle_sandboxes(s, timeout_ms, now);
        assert forall|k: int|
            0 <= k < s.len() && now > s[k].last_used_at + timeout_ms * 1_000_000 implies all.contains(
            (#[trigger] s[k]).sandbox) by {
            if k < front.len() {
                assert(front[k] == s[k]);
                let j = choose|j: int| 0 <= j < before.len() && before[j] == front[k].sandbox;
                assert(all[j] == s[k].sandbox);
            } else {
                assert(all[all.len() - 1] == s[k].sandbox);
            }
        }
    }
}

/// A recovery puts the running sandboxes of a registered template that the repository holds or
/// has saved behind those that wait already, in their order and each once, as long as the queue
/// has a place; their positions come with the law. One is left out only where those before it
/// have filled the queue.
pub proof fn law_recovery_fills_the_queue_in_order(
    m: PoolModel,
    sandboxes: Seq<Sandbox>,
    answers: Seq<RecoveryAnswer>,
    now: u64,
    t: Seq<char>,
) -> (at: Seq<int>)
    requires
        sandboxes.len() == answers.len(),
        m.pools.contains_key(t),
    ensures
        ({
            let before = m.pools[t];
            let after = recovered(m, sandboxes, answers, now).0.pools[t];
            &&& recovered(m, sandboxes, answers, now).0.pools.dom() == m.pools.dom()
            &&& after.max_idle == before.max_idle
            &&& after.entries.len() == before.entries.len() + at.len()
            &&& forall|k: int|
                0 <= k < before.entries.len() ==> #[trigger] after.entries[k] == before.entries[k]
            &&& forall|k: int|
                0 <= k < at.len() ==> {
                    let e = after.entries[before.entries.len() + k];
                    &&& 0 <= #[trigger] at[k] < sandboxes.len()
                    &&& sandboxes[at[k]].template_id@ == t
                    &&& answers[at[k]] is Found || answers[at[k]] is Saved
                    &&& e.sandbox == sandboxes[at[k]]
                    &&& e.created_at == now
                    &&& e.last_used_at == now
                }
            &&& forall|k: int, l: int| 0 <= k < l < at.len() ==> #[trigger] at[k] < #[trigger] at[l]
            &&& forall|j: int|
                0 <= j < sandboxes.len() && (#[trigger] sandboxes[j]).template_id@ == t && (
                answers[j] is Found || answers[j] is Saved) && !at.contains(j) ==> {
                    &&& after.entries.len() >= before.max_idle
                    &&& forall|k: int| 0 <= k < at.len() ==> #[trigger] at[k] < j
                }
        }),
    decreases sandboxes.len(),
{
    if sandboxes.len() == 0 {
        Seq::empty()
    } else {
        let front = sandboxes.drop_last();
        let n = sandboxes.len() - 1;
        let earlier = law_recovery_fills_the_queue_in_order(m, front, answers.drop_last(), now, t);
        let mid = recovered(m, front, answers.drop_last(), now).0;
        let end = recovered(m, sandboxes, answers, now).0;
        let s = sandboxes[n];
        assert(s == sandboxes.last());
        assert(answers[n] == answers.last());
        assert(end.pools.dom() =~= mid.pools.dom());
        let at = if s.template_id@ == t && (answers[n] is Found || answers[n] is Saved)
            && mid.pools[t].entries.len() < mid.pools[t].max_idle {
            earlier.push(n)
        } else {
            earlier
        };
        let before = m.pools[t];
        let after = end.pools[t];
        assert(mid.pools.contains_key(t));
        assert forall|k: int| 0 <= k < at.len() implies {
            let e = after.entries[before.entries.len() + k];
            &&& 0 <= #[trigger] at[k] < sandboxes.len()
            &&& sandboxes[at[k]].template_id@ == t
            &&& answers[at[k]] is Found || answers[at[k]] is Saved
            &&& e.sandbox == sandboxes[at[k]]
            &&& e.created_at == now
            &&& e.last_used_at == now
        } by {
            if k < earlier.len() {
                assert(at[k] == earlier[k]);
                assert(front[earlier[k]] == sandboxes[earlier[k]]);
                assert(answers.drop_last()[earlier[k]] == answers[earlier[k]]);
            }
        }
        assert forall|j: int|
            0 <= j < sandboxes.len() && (#[trigger] sandboxes[j]).template_id@ == t && (answers[j] is Found
                || answers[j] is Saved) && !at.contains(j) implies {
            &&& after.entries.len() >= before.max_idle
            &&& forall|k: int| 0 <= k < at.len() ==> #[trigger] at[k] < j
        } by {
            if j < n {
                assert(front[j] == sandboxes[j]);
                assert(answers.drop_last()[j] == answers[j]);
                assert(!earlier.contains(j)) by {
                    if earlier.contains(j) {
                        let k = choose|k: int| 0 <= k < earlier.len() && earlier[k] == j;
                        assert(at[k] == j);
                    }
                }
                assert(mid.pools[t].entries.len() >= before.max_idle);
            } else {
                if at.len() > earlier.len() {
                    assert(at[at.len() - 1] == n);
                }
            }
        }
        at
    }
}

/// A recovery counts as skipped exactly the sandboxes whose templates are not registered, and
/// as failed exactly those of registered templates that the repository could not look up or
/// save; the positions of both come with the law.
pub proof fn law_recovery_tells_skipped_and_failed(
    m: PoolModel,
    sandboxes: Seq<Sandbox>,
    answers: Seq<RecoveryAnswer>,
    now: u64,
) -> (at: (Seq<int>, Seq<int>))
    requires
        sandboxes.len() == answers.len(),
        sandboxes.len() <= usize::MAX,
    ensures
        ({
            let r = recovered(m, sandboxes, answers, now).1;
            &&& r.skipped_not_registered == at.0.len()
            &&& r.failed == at.1.len()
            &&& r.reintegrated + r.skipped_pool_full == sandboxes.len() - at.0.len() - at.1.len()
            &&& at.0.no_duplicates()
            &&& at.1.no_duplicates()
            &&& forall|k: int| 0 <= k < at.0.len() ==> 0 <= #[trigger] at.0[k] < sandboxes.len()
            &&& forall|k: int| 0 <= k < at.1.len() ==> 0 <= #[trigger] at.1[k] < sandboxes.len()
            &&& forall|j: int|
                0 <= j < sandboxes.len() ==> {
                    let registered = m.pools.contains_key((#[trigger] sandboxes[j]).template_id@);
                    &&& at.0.contains(j) <==> !registered
                    &&& at.1.contains(j) <==> registered && (answers[j] is SaveFailed
                        || answers[j] is LookupFailed)
                }
        }),
    decreases sandboxes.len(),
{
    if sandboxes.len() == 0 {
        (Seq::empty(), Seq::empty())
    } else {
        let front = sandboxes.drop_last();
        let n = sandboxes.len() - 1;
        let before = law_recovery_tells_skipped_and_failed(m, front, answers.drop_last(), now);
        law_recovery_counts_each_once(m, sandboxes, answers, now);
        law_recovery_counts_each_once(m, front, answers.drop_last(), now);
        lemma_recovery_keeps_templates(m, front, answers.drop_last(), now);
        let s = sandboxes[n];
        assert(s == sandboxes.last());
        assert(answers[n] == answers.last());
        let registered = m.pools.contains_key(s.template_id@);
        let failed = registered && (answers[n] is SaveFailed || answers[n] is LookupFailed);
        let at = (
            if registered {
                before.0
            } else {
                before.0.push(n)
            },
            if failed {
                before.1.push(n)
            } else {
                before.1
            },
        );
        assert forall|j: int| 0 <= j < sandboxes.len() implies {
            let known = m.pools.contains_key((#[trigger] sandboxes[j]).template_id@);
            &&& at.0.contains(j) <==> !known
            &&& at.1.contains(j) <==> known && (answers[j] is SaveFailed || answers[j] is LookupFailed)
        } by {
            lemma_push_contains(before.0, n, j);
            lemma_push_contains(before.1, n, j);
            if j < n {
                assert(front[j] == sandboxes[j]);
                assert(answers.drop_last()[j] == answers[j]);
            } else {
                assert(!before.0.contains(n));
                assert(!before.1.contains(n));
            }
        }
        at
    }
}

proof fn lemma_push_contains(s: Seq<int>, n: int, j: int)
    ensures
        s.push(n).contains(j) <==> s.contains(j) || n == j,
{
    if s.contains(j) {
        let k = choose|k: int| 0 <= k < s.len() && s[k] == j;
        assert(s.push(n)[k] == j);
    }
    assert(s.push(n)[s.len() as int] == n);
    if s.push(n).contains(j) && n != j {
        let k = choose|k: int| 0 <= k < s.push(n).len() && s.push(n)[k] == j;
        assert(s[k] == j);
    }
}

proof fn lemma_recovery_keeps_templates(
    m: PoolModel,
    sandboxes: Seq<Sandbox>,
    answers: Seq<RecoveryAnswer>,
    now: u64,
)
    ensures
        recovered(m, sandboxes, answers, now).0.pools.dom() == m.pools.dom(),
    decreases sandboxes.len(),
{
    if sandboxes.len() > 0 {
        lemma_recovery_keeps_templates(m, sandboxes.drop_last(), answers.drop_last(), now);
        let before = recovered(m, sandboxes.drop_last(), answers.drop_last(), now).0;
        assert(recovered(m, sandboxes, answers, now).0.pools.dom() =~= before.pools.dom());
    }
}

/// The orphans that are counted are those that were written.
pub proof fn law_written_orphans_are_counted(written: Seq<bool>)
    ensures
        times_written(written) == written.filter(|w: bool| w).len(),
    decreases written.len(),
{
    reveal(Seq::filter);
    if written.len() > 0 {
        law_written_orphans_are_counted(written.drop_last());
    }
}

/// The number of sandboxes that wait is that of all the sandboxes in the queues.
pub proof fn law_waiting_counts_every_sandbox(queues: Seq<QueueView>)
    ensures
        waiting_total(queues) == all_waiting(queues).len(),
{
    lemma_all_waiting_len(queues);
}

proof fn lemma_orphans_len(ids: Seq<String>, active: Seq<Sandbox>)
    ensures
        orphans(ids, active).len() <= active.len(),
    decreases active.len(),
{
    if active.len() > 0 {
        lemma_orphans_len(ids, active.drop_last());
    }
}

} // verus!
