//! The resources that workers report with their heartbeats.
use vstd::prelude::*;

use crate::table::Table;

verus! {

/// What a sandbox used at its last heartbeat. The measured numbers are kept as the
/// bits of numbers of double precision.
#[derive(Debug)]
pub struct WorkerResources {
    pub sandbox_id: String,
    pub cpu_percent_bits: u64,
    pub mem_used_mb_bits: u64,
    pub mem_limit_mb_bits: u64,
    pub disk_used_mb_bits: u64,
    pub loadavg_1m_bits: u64,
    pub uptime_seconds: u64,
    /// The time of the heartbeat in seconds since the epoch.
    pub last_heartbeat_epoch: i64,
}

impl Clone for WorkerResources {
    fn clone(&self) -> (r: Self)
        ensures
            r == *self,
    {
        WorkerResources {
            sandbox_id: self.sandbox_id.clone(),
            cpu_percent_bits: self.cpu_percent_bits,
            mem_used_mb_bits: self.mem_used_mb_bits,
            mem_limit_mb_bits: self.mem_limit_mb_bits,
            disk_used_mb_bits: self.disk_used_mb_bits,
            loadavg_1m_bits: self.loadavg_1m_bits,
            uptime_seconds: self.uptime_seconds,
            last_heartbeat_epoch: self.last_heartbeat_epoch,
        }
    }
}

/// What all sandboxes used: the reports that the sums are taken over, and the time of
/// the latest one.
#[derive(Debug)]
pub struct SystemResources {
    pub reports: Vec<WorkerResources>,
    pub active_sandboxes: usize,
    pub last_heartbeat_epoch: i64,
}

/// The latest reports by sandbox. Those that are older than a threshold are dropped
/// when the reports are asked for.
pub struct HeartbeatBridge {
    resources: Table<WorkerResources>,
    stale_threshold_secs: u64,
}

/// Whether a report is older than the threshold.
pub open spec fn is_stale(report: WorkerResources, threshold: u64, now: i64) -> bool {
    report.last_heartbeat_epoch < now - threshold
}

/// The reports that are not older than the threshold.
pub open spec fn fresh_part(
    reports: Map<Seq<char>, WorkerResources>,
    threshold: u64,
    now: i64,
) -> Map<Seq<char>, WorkerResources> {
    Map::new(
        |k: Seq<char>| reports.contains_key(k) && !is_stale(reports[k], threshold, now),
        |k: Seq<char>| reports[k],
    )
}

/// Whether an identifier stands among the first ones of a list.
spec fn stands_before(ids: Seq<String>, id: Seq<char>, n: int) -> bool {
    exists|k: int| 0 <= k < n && (#[trigger] ids[k])@ == id
}

/// The time of the latest of the reports.
pub open spec fn latest(reports: Seq<WorkerResources>) -> int
    decreases reports.len(),
{
    if reports.len() <= 1 {
        reports[0].last_heartbeat_epoch as int
    } else {
        let before = latest(reports.drop_last());
        if before < reports.last().last_heartbeat_epoch {
            reports.last().last_heartbeat_epoch as int
        } else {
            before
        }
    }
}

impl HeartbeatBridge {
    pub closed spec fn wf(self) -> bool {
        self.resources.wf()
    }

    /// The reports by sandbox.
    pub closed spec fn view(self) -> Map<Seq<char>, WorkerResources> {
        self.resources@
    }

    /// The sandboxes in the order in which they are listed.
    pub closed spec fn ids(self) -> Seq<Seq<char>> {
        self.resources.keys()
    }

    /// The threshold in seconds.
    pub closed spec fn threshold(self) -> u64 {
        self.stale_threshold_secs
    }

    /// The listed sandboxes are those that have a report, each once.
    pub proof fn law_ids_are_the_sandboxes(self)
        requires
            self.wf(),
        ensures
            self.ids().no_duplicates(),
            forall|k: Seq<char>| #[trigger] self@.contains_key(k) <==> self.ids().contains(k),
    {
        self.resources.lemma_rows();
        assert forall|k: Seq<char>| #[trigger] self@.contains_key(k) implies self.ids().contains(
            k,
        ) by {
            let i = choose|i: int|
                0 <= i < self.resources.rows().len() && (
                #[trigger] self.resources.rows()[i]).key@ == k;
            assert(self.ids()[i] == k);
        }
        assert forall|k: Seq<char>| self.ids().contains(k) implies #[trigger] self@.contains_key(
            k,
        ) by {
            let i = choose|i: int| 0 <= i < self.ids().len() && self.ids()[i] == k;
            assert(self.resources@.contains_key(self.resources.rows()[i].key@));
        }
        assert forall|i: int, j: int|
            0 <= i < self.ids().len() && 0 <= j < self.ids().len() && i != j implies self.ids()[i]
            != self.ids()[j] by {
            assert(self.ids()[i] == self.resources.rows()[i].key@);
            assert(self.ids()[j] == self.resources.rows()[j].key@);
        }
    }

    /// A bridge without reports, with a threshold of 30 seconds.
    pub fn new() -> (r: Self)
        ensures
            r.wf(),
            r@ == Map::<Seq<char>, WorkerResources>::empty(),
            r.ids().len() == 0,
            r.threshold() == 30,
    {
        Self::with_stale_threshold(30)
    }

    /// A bridge without reports.
    pub fn with_stale_threshold(stale_threshold_secs: u64) -> (r: Self)
        ensures
            r.wf(),
            r@ == Map::<Seq<char>, WorkerResources>::empty(),
            r.ids().len() == 0,
            r.threshold() == stale_threshold_secs,
    {
        HeartbeatBridge { resources: Table::new(), stale_threshold_secs }
    }

    /// Keeps a report in place of the one that its sandbox had.
    pub fn update_resources(&mut self, snapshot: WorkerResources)
        requires
            old(self).wf(),
        ensures
            final(self).wf(),
            final(self).threshold() == old(self).threshold(),
            final(self)@ == old(self)@.insert(snapshot.sandbox_id@, snapshot),
    {
        let sandbox_id = snapshot.sandbox_id.clone();
        let _ = self.resources.insert(sandbox_id, snapshot);
    }

    /// Forgets a sandbox. Returns whether it had a report.
    pub fn remove_resources(&mut self, sandbox_id: &str) -> (r: bool)
        requires
            old(self).wf(),
        ensures
            final(self).wf(),
            final(self).threshold() == old(self).threshold(),
            r == old(self)@.contains_key(sandbox_id@),
            final(self)@ == old(self)@.remove(sandbox_id@),
    {
        self.resources.remove(sandbox_id).is_some()
    }

    fn report_is_stale(&self, report: &WorkerResources, now: i64) -> (r: bool)
        ensures
            r == is_stale(*report, self.threshold(), now),
            r <==> now - report.last_heartbeat_epoch > self.threshold(),
    {
        (report.last_heartbeat_epoch as i128) < now as i128 - self.stale_threshold_secs as i128
    }

    /// Drops the reports that are older than the threshold. Returns how many there
    /// were.
    pub fn prune_stale(&mut self, now: i64) -> (r: usize)
        requires
            old(self).wf(),
        ensures
            final(self).wf(),
            final(self).threshold() == old(self).threshold(),
            final(self)@ == fresh_part(old(self)@, old(self).threshold(), now),
            r + final(self).ids().len() == old(self).ids().len(),
            forall|k: Seq<char>| #[trigger]
                final(self)@.contains_key(k) <==> old(self)@.contains_key(k) && now - old(
                    self,
                )@[k].last_heartbeat_epoch <= old(self).threshold(),
            forall|k: Seq<char>| #[trigger]
                final(self)@.contains_key(k) ==> final(self)@[k] == old(self)@[k],
    {
        let ghost before = *self;
        let ids = self.tracked_sandbox_ids();
        let mut pruned: usize = 0;
        let mut n: usize = 0;
        while n < ids.len()
            invariant
                self.wf(),
                before.wf(),
                self.threshold() == before.threshold(),
                n <= ids@.len(),
                pruned <= n,
                pruned + self.ids().len() == before.ids().len(),
                forall|q: Seq<char>| #[trigger]
                    self@.contains_key(q) <==> before@.contains_key(q) && !(is_stale(
                        before@[q],
                        before.threshold(),
                        now,
                    ) && stands_before(ids@, q, n as int)),
                forall|q: Seq<char>| #[trigger]
                    self@.contains_key(q) ==> self@[q] == before@[q],
            decreases ids@.len() - n,
        {
            let ghost id = ids@[n as int]@;
            let ghost now_map = self@;
            proof {
                assert forall|q: Seq<char>| #[trigger]
                    stands_before(ids@, q, n + 1) <==> stands_before(ids@, q, n as int) || q
                        == id by {
                    if q == id {
                        assert(ids@[n as int]@ == q);
                    }
                }
            }
            let stale: bool = match self.resources.get(ids[n].as_str()) {
                Some(report) => self.report_is_stale(report, now),
                None => false,
            };
            if stale {
                let _ = self.resources.remove(ids[n].as_str());
                pruned = pruned + 1;
                assert(self@ == now_map.remove(id));
            }
            proof {
                assert forall|q: Seq<char>| #[trigger]
                    self@.contains_key(q) <==> before@.contains_key(q) && !(is_stale(
                        before@[q],
                        before.threshold(),
                        now,
                    ) && stands_before(ids@, q, n + 1)) by {
                    assert(now_map.contains_key(q) <==> before@.contains_key(q) && !(is_stale(
                        before@[q],
                        before.threshold(),
                        now,
                    ) && stands_before(ids@, q, n as int)));
                    assert(stands_before(ids@, q, n + 1) <==> stands_before(ids@, q, n as int) || q
                        == id);
                }
                assert forall|q: Seq<char>| #[trigger] self@.contains_key(q) implies self@[q]
                    == before@[q] by {
                    assert(now_map.contains_key(q));
                }
            }
            n = n + 1;
        }
        proof {
            before.law_ids_are_the_sandboxes();
            let fresh = fresh_part(before@, before.threshold(), now);
            assert forall|q: Seq<char>| #[trigger] self@.contains_key(q)
                <==> fresh.contains_key(q) by {
                if before@.contains_key(q) {
                    assert(before.ids().contains(q));
                    let j = choose|j: int| 0 <= j < before.ids().len() && before.ids()[j] == q;
                    assert(ids@[j]@ == q);
                    assert(stands_before(ids@, q, ids@.len() as int));
                }
            }
            assert(self@ =~= fresh);
        }
        pruned
    }

    /// The report of a sandbox; none where it has none, or but one that is older than
    /// the threshold. Reports that are too old are dropped.
    pub fn get_resources(&mut self, sandbox_id: &str, now: i64) -> (r: Option<WorkerResources>)
        requires
            old(self).wf(),
        ensures
            final(self).wf(),
            final(self).threshold() == old(self).threshold(),
            final(self)@ == fresh_part(old(self)@, old(self).threshold(), now),
            match r {
                Some(report) => {
                    &&& old(self)@.contains_key(sandbox_id@)
                    &&& report == old(self)@[sandbox_id@]
                    &&& !is_stale(report, old(self).threshold(), now)
                },
                None => !old(self)@.contains_key(sandbox_id@) || is_stale(
                    old(self)@[sandbox_id@],
                    old(self).threshold(),
                    now,
                ),
            },
            (r is Some) == (old(self)@.contains_key(sandbox_id@) && now
                - old(self)@[sandbox_id@].last_heartbeat_epoch <= old(self).threshold()),
    {
        let _ = self.prune_stale(now);
        match self.resources.get(sandbox_id) {
            Some(report) => Some(report.clone()),
            None => None,
        }
    }

    /// The sandboxes that have a report.
    pub fn tracked_sandbox_ids(&self) -> (r: Vec<String>)
        requires
            self.wf(),
        ensures
            r@.len() == self.ids().len(),
            forall|i: int| 0 <= i < r@.len() ==> (#[trigger] r@[i])@ == self.ids()[i],
    {
        let mut out: Vec<String> = Vec::new();
        let mut i: usize = 0;
        while i < self.resources.len()
            invariant
                i <= self.resources.rows().len(),
                out@.len() == i,
                forall|j: int| 0 <= j < i ==> (#[trigger] out@[j])@ == self.resources.keys()[j],
            decreases self.resources.rows().len() - i,
        {
            out.push(self.resources.key_at(i).clone());
            i = i + 1;
        }
        out
    }

    /// What the sandboxes that reported within the threshold used: their reports, how
    /// many there are, and the time of the latest; none and 0 where nothing is
    /// reported. Reports that are too old are dropped.
    pub fn get_system_resources(&mut self, now: i64) -> (r: SystemResources)
        requires
            old(self).wf(),
        ensures
            final(self).wf(),
            final(self).threshold() == old(self).threshold(),
            final(self)@ == fresh_part(old(self)@, old(self).threshold(), now),
            r.active_sandboxes == final(self).ids().len(),
            r.reports@.len() == final(self).ids().len(),
            forall|i: int|
                0 <= i < r.reports@.len() ==> final(self)@.contains_key(final(self).ids()[i])
                    && #[trigger] r.reports@[i] == final(self)@[final(self).ids()[i]],
            r.last_heartbeat_epoch == (if r.reports@.len() == 0 {
                0
            } else {
                latest(r.reports@)
            }),
            r.reports@.len() > 0 ==> exists|i: int|
                0 <= i < r.reports@.len() && (#[trigger] r.reports@[i]).last_heartbeat_epoch
                    == r.last_heartbeat_epoch,
            forall|i: int|
                0 <= i < r.reports@.len() ==> (#[trigger] r.reports@[i]).last_heartbeat_epoch
                    <= r.last_heartbeat_epoch,
            forall|i: int|
                0 <= i < r.reports@.len() ==> now - (
                #[trigger] r.reports@[i]).last_heartbeat_epoch <= old(self).threshold(),
    {
        let _ = self.prune_stale(now);
        proof {
            self.resources.lemma_rows();
        }
        let ghost rows = self.resources.rows();
        let mut reports: Vec<WorkerResources> = Vec::new();
        let mut last: i64 = 0;
        let mut i: usize = 0;
        while i < self.resources.len()
            invariant
                self.wf(),
                rows == self.resources.rows(),
                i <= rows.len(),
                reports@.len() == i,
                forall|j: int| 0 <= j < i ==> #[trigger] reports@[j] == rows[j].value,
                last == (if i == 0 {
                    0
                } else {
                    latest(reports@)
                }),
            decreases rows.len() - i,
        {
            let report = self.resources.value_at(i).clone();
            if i == 0 || last < report.last_heartbeat_epoch {
                last = report.last_heartbeat_epoch;
            }
            let ghost earlier = reports@;
            reports.push(report);
            assert(reports@.drop_last() =~= earlier);
            i = i + 1;
        }
        assert forall|j: int| 0 <= j < reports@.len() implies self@.contains_key(self.ids()[j])
            && #[trigger] reports@[j] == self@[self.ids()[j]] by {
            assert(self.ids()[j] == rows[j].key@);
        }
        proof {
            if reports@.len() > 0 {
                law_latest_is_the_most_recent(reports@);
            }
        }
        SystemResources {
            active_sandboxes: reports.len(),
            reports,
            last_heartbeat_epoch: last,
        }
    }

    /// Sets the threshold.
    pub fn set_stale_threshold(&mut self, secs: u64)
        requires
            old(self).wf(),
        ensures
            final(self).wf(),
            final(self)@ == old(self)@,
            final(self).threshold() == secs,
    {
        self.stale_threshold_secs = secs;
    }

    /// The threshold in seconds.
    pub fn stale_threshold(&self) -> (r: u64)
        ensures
            r == self.threshold(),
    {
        self.stale_threshold_secs
    }

    /// The number of sandboxes that have a report.
    pub fn tracked_count(&self) -> (r: usize)
        ensures
            r == self.ids().len(),
    {
        self.resources.len()
    }
}

impl Default for HeartbeatBridge {
    fn default() -> (r: Self)
        ensures
            r.wf(),
            r@ == Map::<Seq<char>, WorkerResources>::empty(),
            r.threshold() == 30,
    {
        Self::new()
    }
}

/// The time of the latest heartbeat is that of one of the reports, and no report has a later
/// one.
pub proof fn law_latest_is_the_most_recent(reports: Seq<WorkerResources>)
    requires
        reports.len() > 0,
    ensures
        exists|i: int|
            0 <= i < reports.len() && (#[trigger] reports[i]).last_heartbeat_epoch == latest(
                reports,
            ),
        forall|i: int|
            0 <= i < reports.len() ==> (#[trigger] reports[i]).last_heartbeat_epoch <= latest(
                reports,
            ),
    decreases reports.len(),
{
    let n = reports.len() - 1;
    if n > 0 {
        let front = reports.drop_last();
        law_latest_is_the_most_recent(front);
        let k = choose|k: int|
            0 <= k < front.len() && (#[trigger] front[k]).last_heartbeat_epoch == latest(front);
        assert(reports[k] == front[k]);
        assert(reports[n] == reports.last());
        assert forall|i: int| 0 <= i < reports.len() implies (
        #[trigger] reports[i]).last_heartbeat_epoch <= latest(reports) by {
            if i < n {
                assert(front[i] == reports[i]);
            }
        }
        if latest(reports) == latest(front) {
            assert(reports[k].last_heartbeat_epoch == latest(reports));
        } else {
            assert(reports[n].last_heartbeat_epoch == latest(reports));
        }
    } else {
        assert(reports[0].last_heartbeat_epoch == latest(reports));
    }
}

/// A report is kept exactly as long as no more seconds have passed since its heartbeat than
/// the threshold says; what is kept of it is the report itself.
pub proof fn law_reports_live_for_the_threshold(
    reports: Map<Seq<char>, WorkerResources>,
    threshold: u64,
    now: i64,
    id: Seq<char>,
)
    ensures
        fresh_part(reports, threshold, now).contains_key(id) <==> reports.contains_key(id) && now
            - reports[id].last_heartbeat_epoch <= threshold,
        fresh_part(reports, threshold, now).contains_key(id) ==> fresh_part(
            reports,
            threshold,
            now,
        )[id] == reports[id],
{
}

/// Dropping old reports twice at one time drops no more than once.
pub proof fn law_prune_idempotent(
    reports: Map<Seq<char>, WorkerResources>,
    threshold: u64,
    now: i64,
)
    ensures
        fresh_part(fresh_part(reports, threshold, now), threshold, now) == fresh_part(
            reports,
            threshold,
            now,
        ),
{
    assert(fresh_part(fresh_part(reports, threshold, now), threshold, now) =~= fresh_part(
        reports,
        threshold,
        now,
    ));
}

} // verus!
