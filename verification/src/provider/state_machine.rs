//! The state of each sandbox that a provider tracks.
use vstd::prelude::*;

use crate::domain;
use crate::domain::{
    is_valid_transition, transition_error, DomainError, DomainErrorView, SandboxStatus,
};
use crate::table::{Entry, Table};
use crate::text::concat3;

verus! {

/// What is known of one tracked sandbox.
pub struct StateEntry<P> {
    pub status: SandboxStatus,
    pub payload: Option<P>,
    pub registered_at: u64,
}

/// How many tracked sandboxes stand in each status.
#[derive(Debug, Clone, Copy, PartialEq, Eq, Structural)]
pub struct StatusCounts {
    pub pending: usize,
    pub running: usize,
    pub paused: usize,
    pub stopped: usize,
    pub failed: usize,
}

impl StatusCounts {
    /// The count for a status.
    pub open spec fn of(self, status: SandboxStatus) -> usize {
        match status {
            SandboxStatus::Pending => self.pending,
            SandboxStatus::Running => self.running,
            SandboxStatus::Paused => self.paused,
            SandboxStatus::Stopped => self.stopped,
            SandboxStatus::Failed => self.failed,
        }
    }
}

/// The tracked sandboxes and the status of each.
pub struct DashMapSandboxStateMachine<P> {
    states: Table<StateEntry<P>>,
}

/// The message about a sandbox that is not tracked.
pub open spec fn sandbox_not_found(id: Seq<char>) -> Seq<char> {
    "Sandbox "@ + id + " not found"@
}

/// The error about a sandbox that is not tracked.
pub fn not_found(id: &str) -> (r: DomainError)
    ensures
        r@ == DomainErrorView::NotFound(sandbox_not_found(id@)),
        r@ == DomainErrorView::NotFound("Sandbox "@ + id@ + " not found"@),
{
    DomainError::NotFound(concat3("Sandbox ", id, " not found"))
}

/// How many of the entries stand in a status.
pub open spec fn count_in<P>(rows: Seq<Entry<StateEntry<P>>>, status: SandboxStatus) -> nat
    decreases rows.len(),
{
    if rows.len() == 0 {
        0
    } else {
        count_in(rows.drop_last(), status) + (if rows.last().value.status == status {
            1nat
        } else {
            0nat
        })
    }
}

impl<P> DashMapSandboxStateMachine<P> {
    pub closed spec fn wf(self) -> bool {
        self.states.wf()
    }

    /// The tracked sandboxes by id.
    pub closed spec fn view(self) -> Map<Seq<char>, StateEntry<P>> {
        self.states@
    }

    /// The entries in the order in which they are listed.
    pub closed spec fn rows(self) -> Seq<Entry<StateEntry<P>>> {
        self.states.rows()
    }

    /// The status of a tracked sandbox.
    pub open spec fn status_of(self, id: Seq<char>) -> Option<SandboxStatus> {
        if self@.contains_key(id) {
            Some(self@[id].status)
        } else {
            None
        }
    }

    /// The listed entries are the tracked sandboxes, each once.
    pub proof fn lemma_rows(self)
        requires
            self.wf(),
        ensures
            forall|i: int|
                0 <= i < self.rows().len() ==> self@.contains_key((#[trigger] self.rows()[i]).key@)
                    && self@[self.rows()[i].key@] == self.rows()[i].value,
            forall|k: Seq<char>| #[trigger]
                self@.contains_key(k) ==> exists|i: int|
                    0 <= i < self.rows().len() && (#[trigger] self.rows()[i]).key@ == k,
            forall|i: int, j: int|
                0 <= i < self.rows().len() && 0 <= j < self.rows().len()
                    && (#[trigger] self.rows()[i]).key@ == (#[trigger] self.rows()[j]).key@ ==> i == j,
    {
        self.states.lemma_rows();
        assert(self.rows() == self.states.rows());
    }

    /// A machine that tracks nothing.
    pub fn new() -> (r: Self)
        ensures
            r.wf(),
            r@ == Map::<Seq<char>, StateEntry<P>>::empty(),
            r.rows().len() == 0,
    {
        DashMapSandboxStateMachine { states: Table::new() }
    }

    /// Tracks a sandbox as pending. One that was tracked already starts again as
    /// pending, and the caller is told.
    pub fn register(&mut self, id: String, now: u64) -> (r: Result<(), DomainError>)
        requires
            old(self).wf(),
        ensures
            final(self).wf(),
            final(self)@ == old(self)@.insert(
                id@,
                StateEntry { status: SandboxStatus::Pending, payload: None, registered_at: now },
            ),
            match r {
                Ok(_) => !old(self)@.contains_key(id@),
                Err(e) => old(self)@.contains_key(id@) && e@ == DomainErrorView::AlreadyExists(
                    "Sandbox already registered"@,
                ),
            },
    {
        let entry: StateEntry<P> = StateEntry {
            status: SandboxStatus::Pending,
            payload: None,
            registered_at: now,
        };
        if self.states.insert(id, entry).is_some() {
            return Err(DomainError::AlreadyExists("Sandbox already registered".to_owned()));
        }
        Ok(())
    }

    /// Moves a tracked sandbox to another status and returns the one that it leaves.
    pub fn transition(&mut self, id: &str, new_status: SandboxStatus) -> (r: Result<
        SandboxStatus,
        DomainError,
    >)
        requires
            old(self).wf(),
        ensures
            final(self).wf(),
            match r {
                Ok(before) => old(self).status_of(id@) == Some(before) && domain::may_become(
                    before,
                    new_status,
                ) && final(self)@ == old(self)@.insert(
                    id@,
                    StateEntry { status: new_status, ..old(self)@[id@] },
                ),
                Err(e) => final(self)@ == old(self)@ && match old(self).status_of(id@) {
                    None => e@ == DomainErrorView::NotFound(sandbox_not_found(id@)),
                    Some(before) => !domain::may_become(before, new_status) && e@
                        == DomainErrorView::Validation(domain::transition_message(before, new_status)),
                },
            },
    {
        let place: usize = match self.states.place_of(id) {
            Some(place) => place,
            None => return Err(not_found(id)),
        };
        let old_status = self.states.value_at(place).status;
        if !Self::is_valid_transition(old_status, new_status) {
            return Err(transition_error(old_status, new_status));
        }
        self.states.value_mut(place).status = new_status;
        Ok(old_status)
    }

    /// Whether a sandbox may change from one status to the other.
    pub fn is_valid_transition(from: SandboxStatus, to: SandboxStatus) -> (r: bool)
        ensures
            r == domain::may_become(from, to),
            r <==> match to {
                SandboxStatus::Pending => false,
                SandboxStatus::Running => from is Pending || from is Paused,
                SandboxStatus::Paused => from is Running,
                SandboxStatus::Stopped => from is Pending || from is Running || from is Paused,
                SandboxStatus::Failed => from is Pending || from is Running,
            },
    {
        is_valid_transition(from, to)
    }

    /// The status of a sandbox, where it is tracked.
    pub fn get_state(&self, id: &str) -> (r: Option<SandboxStatus>)
        requires
            self.wf(),
        ensures
            r == self.status_of(id@),
            self@.contains_key(id@) ==> r == Some(self@[id@].status),
            !self@.contains_key(id@) ==> r is None,
    {
        match self.states.get(id) {
            Some(entry) => Some(entry.status),
            None => None,
        }
    }

    /// Attaches a payload to a tracked sandbox, in place of the one that it had.
    pub fn attach_payload(&mut self, id: &str, payload: P) -> (r: Result<(), DomainError>)
        requires
            old(self).wf(),
        ensures
            final(self).wf(),
            match r {
                Ok(_) => old(self)@.contains_key(id@) && final(self)@ == old(self)@.insert(
                    id@,
                    StateEntry { payload: Some(payload), ..old(self)@[id@] },
                ),
                Err(e) => !old(self)@.contains_key(id@) && final(self)@ == old(self)@ && e@
                    == DomainErrorView::NotFound(sandbox_not_found(id@)),
            },
    {
        let place: usize = match self.states.place_of(id) {
            Some(place) => place,
            None => return Err(not_found(id)),
        };
        self.states.value_mut(place).payload = Some(payload);
        Ok(())
    }

    /// The payload of a sandbox, where it is tracked and has one.
    pub fn get_payload(&self, id: &str) -> (r: Option<&P>)
        requires
            self.wf(),
        ensures
            match r {
                Some(p) => self@.contains_key(id@) && self@[id@].payload == Some(*p),
                None => !self@.contains_key(id@) || self@[id@].payload is None,
            },
    {
        match self.states.get(id) {
            Some(entry) => entry.payload.as_ref(),
            None => None,
        }
    }

    /// Stops tracking a sandbox and hands back its payload.
    pub fn remove(&mut self, id: &str) -> (r: Option<P>)
        requires
            old(self).wf(),
        ensures
            final(self).wf(),
            final(self)@ == old(self)@.remove(id@),
            r == (if old(self)@.contains_key(id@) {
                old(self)@[id@].payload
            } else {
                None
            }),
    {
        match self.states.remove(id) {
            Some(entry) => entry.payload,
            None => None,
        }
    }

    /// The ids of the tracked sandboxes.
    pub fn list_active(&self) -> (r: Vec<String>)
        requires
            self.wf(),
        ensures
            r@.len() == self.rows().len(),
            forall|i: int| 0 <= i < r@.len() ==> (#[trigger] r@[i])@ == self.rows()[i].key@,
    {
        let mut out: Vec<String> = Vec::new();
        let mut i: usize = 0;
        while i < self.states.len()
            invariant
                i <= self.states.rows().len(),
                out@.len() == i,
                forall|j: int| 0 <= j < i ==> (#[trigger] out@[j])@ == self.states.rows()[j].key@,
            decreases self.states.rows().len() - i,
        {
            out.push(self.states.key_at(i).clone());
            i = i + 1;
        }
        out
    }

    /// How many tracked sandboxes stand in each status.
    pub fn count_by_status(&self) -> (r: StatusCounts)
        requires
            self.wf(),
        ensures
            forall|s: SandboxStatus| #[trigger] r.of(s) == count_in(self.rows(), s),
            r.pending == count_in(self.rows(), SandboxStatus::Pending),
            r.running == count_in(self.rows(), SandboxStatus::Running),
            r.paused == count_in(self.rows(), SandboxStatus::Paused),
            r.stopped == count_in(self.rows(), SandboxStatus::Stopped),
            r.failed == count_in(self.rows(), SandboxStatus::Failed),
    {
        let mut counts = StatusCounts { pending: 0, running: 0, paused: 0, stopped: 0, failed: 0 };
        let mut i: usize = 0;
        let ghost rows = self.rows();
        assert(rows.take(0) =~= seq![]);
        while i < self.states.len()
            invariant
                i <= rows.len(),
                rows == self.states.rows(),
                forall|s: SandboxStatus| #[trigger]
                    counts.of(s) == count_in(rows.take(i as int), s) && counts.of(s) <= i,
            decreases rows.len() - i,
        {
            proof {
                assert(rows.take(i + 1).drop_last() =~= rows.take(i as int));
                assert(rows.take(i + 1).last() == rows[i as int]);
                assert(counts.of(SandboxStatus::Pending) <= i);
                assert(counts.of(SandboxStatus::Running) <= i);
                assert(counts.of(SandboxStatus::Paused) <= i);
                assert(counts.of(SandboxStatus::Stopped) <= i);
                assert(counts.of(SandboxStatus::Failed) <= i);
            }
            match self.states.value_at(i).status {
                SandboxStatus::Pending => counts.pending = counts.pending + 1,
                SandboxStatus::Running => counts.running = counts.running + 1,
                SandboxStatus::Paused => counts.paused = counts.paused + 1,
                SandboxStatus::Stopped => counts.stopped = counts.stopped + 1,
                SandboxStatus::Failed => counts.failed = counts.failed + 1,
            }
            i = i + 1;
        }
        assert(rows.take(i as int) =~= rows);
        assert(counts.of(SandboxStatus::Pending) == count_in(rows, SandboxStatus::Pending));
        assert(counts.of(SandboxStatus::Running) == count_in(rows, SandboxStatus::Running));
        assert(counts.of(SandboxStatus::Paused) == count_in(rows, SandboxStatus::Paused));
        assert(counts.of(SandboxStatus::Stopped) == count_in(rows, SandboxStatus::Stopped));
        assert(counts.of(SandboxStatus::Failed) == count_in(rows, SandboxStatus::Failed));
        counts
    }
}

/// Every sandbox that a machine lists is counted in exactly one status.
pub proof fn law_counts_add_up<P>(rows: Seq<Entry<StateEntry<P>>>)
    ensures
        count_in(rows, SandboxStatus::Pending) + count_in(rows, SandboxStatus::Running) + count_in(
            rows,
            SandboxStatus::Paused,
        ) + count_in(rows, SandboxStatus::Stopped) + count_in(rows, SandboxStatus::Failed)
            == rows.len(),
    decreases rows.len(),
{
    if rows.len() > 0 {
        law_counts_add_up(rows.drop_last());
    }
}

/// A stopped or failed sandbox never changes its status again, and no sandbox
/// returns to pending or changes to the status that it has.
pub proof fn law_ended_stays_ended(from: SandboxStatus, to: SandboxStatus)
    requires
        domain::may_become(from, to),
    ensures
        !(from is Stopped),
        !(from is Failed),
        !(to is Pending),
        from != to,
{
}

/// The count of a status is the number of the sandboxes that stand in it.
pub proof fn law_counts_are_the_sandboxes<P>(
    rows: Seq<Entry<StateEntry<P>>>,
    status: SandboxStatus,
)
    ensures
        count_in(rows, status) == rows.filter(
            |e: Entry<StateEntry<P>>| e.value.status == status,
        ).len(),
    decreases rows.len(),
{
    reveal(Seq::filter);
    if rows.len() > 0 {
        law_counts_are_the_sandboxes(rows.drop_last(), status);
    }
}

} // verus!
