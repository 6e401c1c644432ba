//! The cleanup of the database of enrichment runs: which records are dropped, and in what
//! steps.
use vstd::prelude::*;

use crate::domain::Timestamp;
use crate::enrichment::config::RetentionConfig;
use crate::enrichment::fs::EnrichmentError;
use crate::enrichment::sqlite_worker::{cleanup_cutoff, rows_over_limit};
use crate::interop;
use crate::text::concat2;

verus! {

/// A step of a cleanup.
#[derive(Debug)]
pub enum CleanupStep {
    /// Delete the records whose times stand before a text.
    DeleteBefore(String),
    /// Count the records that are left.
    Count,
    /// Delete so many records, the oldest first.
    DeleteOldest(u64),
    /// Nothing is left to do.
    Done,
}

/// A step of a cleanup.
pub enum CleanupStepView {
    DeleteBefore(Seq<char>),
    Count,
    DeleteOldest(u64),
    Done,
}

impl View for CleanupStep {
    type V = CleanupStepView;

    open spec fn view(&self) -> CleanupStepView {
        match self {
            CleanupStep::DeleteBefore(t) => CleanupStepView::DeleteBefore(t@),
            CleanupStep::Count => CleanupStepView::Count,
            CleanupStep::DeleteOldest(n) => CleanupStepView::DeleteOldest(*n),
            CleanupStep::Done => CleanupStepView::Done,
        }
    }
}

/// Where a cleanup stands: the step to take next, the most records that are kept, how many
/// were deleted, and what went wrong.
pub struct CleanupState {
    pub step: CleanupStepView,
    pub max_rows: u64,
    pub deleted: u64,
    pub failure: Option<Seq<char>>,
}

/// The point in time before which records are dropped.
pub open spec fn cutoff_of(retention: RetentionConfig, now: Timestamp) -> Timestamp {
    Timestamp { secs: (now.secs - retention.max_age_days * 86_400) as i64, nanos: now.nanos }
}

/// What is said of a step that failed.
pub open spec fn failure_text(step: CleanupStepView) -> Seq<char> {
    match step {
        CleanupStepView::DeleteBefore(_) => "cleanup age-based delete failed: "@,
        CleanupStepView::Count => "count query failed: "@,
        CleanupStepView::DeleteOldest(_) => "cleanup row-count delete failed: "@,
        CleanupStepView::Done => ""@,
    }
}

/// A cleanup that is to begin, with the text of the time before which records are dropped.
pub open spec fn begun(retention: RetentionConfig, cutoff: Option<Seq<char>>) -> CleanupState {
    CleanupState {
        step: match cutoff {
            Some(text) if retention.enabled => CleanupStepView::DeleteBefore(text),
            _ => CleanupStepView::Done,
        },
        max_rows: retention.max_rows,
        deleted: 0,
        failure: if retention.enabled && cutoff is None {
            Some("cleanup age-based delete failed: time out of range"@)
        } else {
            None
        },
    }
}

/// How many records were deleted in all, at most as many as can be told.
pub open spec fn more_deleted(deleted: u64, more: u64) -> u64 {
    if deleted + more > u64::MAX {
        u64::MAX
    } else {
        (deleted + more) as u64
    }
}

/// Where a cleanup stands after a step: the outcome is how many records were deleted or
/// counted, or the text of an error, which ends the cleanup.
pub open spec fn advanced(s: CleanupState, outcome: Result<u64, Seq<char>>) -> CleanupState {
    match outcome {
        Ok(n) => match s.step {
            CleanupStepView::DeleteBefore(_) => CleanupState {
                step: CleanupStepView::Count,
                deleted: more_deleted(s.deleted, n),
                ..s
            },
            CleanupStepView::Count => CleanupState {
                step: if n > s.max_rows {
                    CleanupStepView::DeleteOldest((n - s.max_rows) as u64)
                } else {
                    CleanupStepView::Done
                },
                ..s
            },
            CleanupStepView::DeleteOldest(_) => CleanupState {
                step: CleanupStepView::Done,
                deleted: more_deleted(s.deleted, n),
                ..s
            },
            CleanupStepView::Done => s,
        },
        Err(e) => if s.step is Done {
            s
        } else {
            CleanupState {
                step: CleanupStepView::Done,
                failure: Some(failure_text(s.step) + e),
                ..s
            }
        },
    }
}

/// A cleanup on its way.
#[derive(Debug)]
pub struct Cleanup {
    step: CleanupStep,
    max_rows: u64,
    deleted: u64,
    failure: Option<String>,
}

impl Cleanup {
    /// Where the cleanup stands.
    pub closed spec fn state(self) -> CleanupState {
        CleanupState {
            step: self.step@,
            max_rows: self.max_rows,
            deleted: self.deleted,
            failure: match self.failure {
                Some(e) => Some(e@),
                None => None,
            },
        }
    }

    /// A cleanup that is to begin. Where records are not dropped there is nothing to do.
    pub fn start(retention: &RetentionConfig, now: Timestamp) -> (r: Self)
        requires
            now.secs - retention.max_age_days * 86_400 >= i64::MIN,
        ensures
            ({
                let cutoff = cutoff_of(*retention, now);
                r.state() == begun(*retention, interop::rfc3339_text(cutoff.secs, cutoff.nanos))
            }),
            r.state().max_rows == retention.max_rows,
            r.state().deleted == 0,
            !retention.enabled ==> r.state().step is Done && r.state().failure is None,
            retention.enabled ==> match interop::rfc3339_text(
                (now.secs - retention.max_age_days * 86_400) as i64,
                now.nanos,
            ) {
                Some(t) => r.state().step == CleanupStepView::DeleteBefore(t)
                    && r.state().failure is None,
                None => r.state().step is Done && r.state().failure == Some(
                    "cleanup age-based delete failed: time out of range"@,
                ),
            },
    {
        let mut cleanup = Cleanup {
            step: CleanupStep::Done,
            max_rows: retention.max_rows,
            deleted: 0,
            failure: None,
        };
        if let Some(cutoff) = cleanup_cutoff(retention, now) {
            match cutoff.to_rfc3339() {
                Some(text) => {
                    cleanup.step = CleanupStep::DeleteBefore(text);
                },
                None => {
                    cleanup.failure =
                    Some("cleanup age-based delete failed: time out of range".to_string());
                },
            }
        }
        cleanup
    }

    /// The step to take next.
    pub fn step(&self) -> (r: &CleanupStep)
        ensures
            r@ == self.state().step,
    {
        &self.step
    }

    /// Goes on with what became of the step: how many records it deleted or counted, or the
    /// text of its error.
    pub fn advance(&mut self, outcome: Result<u64, String>)
        ensures
            final(self).state() == advanced(
                old(self).state(),
                match outcome {
                    Ok(n) => Ok(n),
                    Err(e) => Err(e@),
                },
            ),
            ({
                let before = old(self).state();
                let now = final(self).state();
                &&& now.max_rows == before.max_rows
                &&& outcome is Ok ==> now.failure == before.failure
                &&& outcome matches Ok(n) ==> {
                    &&& before.step is DeleteBefore ==> now.step is Count
                    &&& before.step is Count && n > before.max_rows ==> now.step
                        == CleanupStepView::DeleteOldest((n - before.max_rows) as u64)
                    &&& before.step is Count && n <= before.max_rows ==> now.step is Done
                    &&& before.step is DeleteOldest || before.step is Done ==> now.step is Done
                    &&& (before.step is DeleteBefore || before.step is DeleteOldest)
                        && before.deleted + n <= u64::MAX ==> now.deleted == before.deleted + n
                    &&& before.step is Count || before.step is Done ==> now.deleted
                        == before.deleted
                }
                &&& outcome matches Err(e) ==> {
                    &&& now.step is Done
                    &&& now.deleted == before.deleted
                    &&& before.step is DeleteBefore ==> now.failure == Some(
                        "cleanup age-based delete failed: "@ + e@,
                    )
                    &&& before.step is Count ==> now.failure == Some("count query failed: "@ + e@)
                    &&& before.step is DeleteOldest ==> now.failure == Some(
                        "cleanup row-count delete failed: "@ + e@,
                    )
                    &&& before.step is Done ==> now.failure == before.failure
                }
            }),
    {
        match outcome {
            Ok(n) => match self.step {
                CleanupStep::DeleteBefore(_) => {
                    self.deleted = self.deleted.saturating_add(n);
                    self.step = CleanupStep::Count;
                },
                CleanupStep::Count => {
                    let over: u64 = rows_over_limit(n, self.max_rows);
                    self.step = if over > 0 {
                        CleanupStep::DeleteOldest(over)
                    } else {
                        CleanupStep::Done
                    };
                },
                CleanupStep::DeleteOldest(_) => {
                    self.deleted = self.deleted.saturating_add(n);
                    self.step = CleanupStep::Done;
                },
                CleanupStep::Done => {},
            },
            Err(e) => {
                let text: &str = match self.step {
                    CleanupStep::DeleteBefore(_) => "cleanup age-based delete failed: ",
                    CleanupStep::Count => "count query failed: ",
                    CleanupStep::DeleteOldest(_) => "cleanup row-count delete failed: ",
                    CleanupStep::Done => {
                        return ;
                    },
                };
                self.failure = Some(concat2(text, e.as_str()));
                self.step = CleanupStep::Done;
            },
        }
    }

    /// How the cleanup came out: how many records were deleted, or what went wrong.
    pub fn finish(self) -> (r: Result<u64, EnrichmentError>)
        ensures
            match r {
                Ok(n) => self.state().failure is None && n == self.state().deleted,
                Err(EnrichmentError::Recorder(e)) => self.state().failure == Some(e@),
                Err(_) => false,
            },
    {
        match self.failure {
            None => Ok(self.deleted),
            Some(e) => Err(EnrichmentError::Recorder(e)),
        }
    }
}

/// The records of a database: the time of each, by its id.
pub type Runs = Map<Seq<char>, Seq<char>>;

/// Whether a text stands before another: by the first character in which they differ, and a
/// text before each one that it begins.
pub open spec fn text_before(a: Seq<char>, b: Seq<char>) -> bool
    decreases a.len(),
{
    if b.len() == 0 {
        false
    } else if a.len() == 0 {
        true
    } else if a[0] != b[0] {
        (a[0] as u32) < (b[0] as u32)
    } else {
        text_before(a.drop_first(), b.drop_first())
    }
}

/// The records whose times do not stand before a text.
pub open spec fn not_before(runs: Runs, cutoff: Seq<char>) -> Runs {
    runs.restrict(runs.dom().filter(|id: Seq<char>| !text_before(runs[id], cutoff)))
}

/// Whether the records of one database are those of another without so many of its oldest.
/// Which of the records of one time are dropped is left open.
pub open spec fn without_oldest(before: Runs, n: int, after: Runs) -> bool {
    &&& after.submap_of(before)
    &&& after.len() == (if before.len() > n {
        before.len() - n
    } else {
        0
    })
    &&& forall|dropped: Seq<char>, kept: Seq<char>|
        before.contains_key(dropped) && !after.contains_key(dropped) && after.contains_key(kept)
            ==> !#[trigger] text_before(before[kept], before[dropped])
}

/// Whether a step that succeeds brings the records of a database from one state to another,
/// and tells the number that it should.
pub open spec fn takes(step: CleanupStepView, before: Runs, n: u64, after: Runs) -> bool {
    match step {
        CleanupStepView::DeleteBefore(cutoff) => {
            &&& after == not_before(before, cutoff)
            &&& n == before.len() - after.len()
        },
        CleanupStepView::Count => after == before && n == before.len(),
        CleanupStepView::DeleteOldest(k) => {
            &&& without_oldest(before, k as int, after)
            &&& n == before.len() - after.len()
        },
        CleanupStepView::Done => after == before,
    }
}

/// A cleanup keeps, of the records that are not too old, the newest, as many as may be kept,
/// and tells how many records it deleted.
///
/// The states are those of the database before the cleanup and after each of its steps; a
/// step that is not taken leaves the records as they are.
pub proof fn law_cleanup_keeps_the_newest(
    retention: RetentionConfig,
    cutoff: Seq<char>,
    before: Runs,
    fresh: Runs,
    end: Runs,
    numbers: (u64, u64, u64),
)
    requires
        retention.enabled,
        before.dom().finite(),
        before.len() <= u64::MAX,
        ({
            let first = begun(retention, Some(cutoff));
            let second = advanced(first, Ok(numbers.0));
            let third = advanced(second, Ok(numbers.1));
            &&& takes(first.step, before, numbers.0, fresh)
            &&& takes(second.step, fresh, numbers.1, fresh)
            &&& takes(third.step, fresh, numbers.2, end)
        }),
    ensures
        fresh == not_before(before, cutoff),
        end.submap_of(fresh),
        end.len() == (if fresh.len() > retention.max_rows {
            retention.max_rows as nat
        } else {
            fresh.len()
        }),
        forall|dropped: Seq<char>, kept: Seq<char>|
            fresh.contains_key(dropped) && !end.contains_key(dropped) && end.contains_key(kept)
                ==> !#[trigger] text_before(before[kept], before[dropped]),
        ({
            let third = advanced(
                advanced(begun(retention, Some(cutoff)), Ok(numbers.0)),
                Ok(numbers.1),
            );
            let last = advanced(third, Ok(numbers.2));
            &&& last.step is Done
            &&& last.failure is None
            &&& last.deleted == before.len() - end.len()
        }),
{
    assert(fresh.dom() =~= before.dom().filter(
        |id: Seq<char>| !text_before(before[id], cutoff),
    ));
    vstd::set_lib::lemma_len_subset(fresh.dom(), before.dom());
    assert(end.dom().subset_of(fresh.dom()));
    vstd::set_lib::lemma_len_subset(end.dom(), fresh.dom());
    assert forall|dropped: Seq<char>, kept: Seq<char>|
        fresh.contains_key(dropped) && !end.contains_key(dropped) && end.contains_key(
            kept,
        ) implies !#[trigger] text_before(before[kept], before[dropped]) by {
        assert(fresh[kept] == before[kept]);
        assert(fresh[dropped] == before[dropped]);
        assert(!text_before(fresh[kept], fresh[dropped]));
    }
}

/// Where records are not dropped a cleanup has nothing to do and deletes none.
pub proof fn law_cleanup_is_switched_off(retention: RetentionConfig, cutoff: Option<Seq<char>>)
    requires
        !retention.enabled,
    ensures
        begun(retention, cutoff).step is Done,
        begun(retention, cutoff).deleted == 0,
        begun(retention, cutoff).failure is None,
{
}

} // verus!
