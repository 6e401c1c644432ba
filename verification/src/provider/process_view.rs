//! Sandboxes whose processes a provider holds: what it tells of them.
use vstd::prelude::*;

use crate::domain::{
    DomainError, DomainErrorView, NetworkSpec, ResourcesSpec, Sandbox, SandboxFilter, SandboxStatus,
    Timestamp,
};

verus! {

/// What a sandbox is described with where nothing else is known of it.
#[derive(Debug)]
pub struct SandboxDefaults {
    pub resources: ResourcesSpec,
    pub network: NetworkSpec,
}

/// The description of a sandbox of which only the id and the provider are known.
pub open spec fn is_minimal(
    s: Sandbox,
    id: Seq<char>,
    template: Seq<char>,
    provider: Seq<char>,
    status: SandboxStatus,
    defaults: SandboxDefaults,
    now: Timestamp,
) -> bool {
    &&& s.id@ == id
    &&& s.template_id@ == template
    &&& s.provider_id@ == provider
    &&& s.status == status
    &&& s.created_at == now
    &&& s.expires_at is None
    &&& s.resources == defaults.resources
    &&& s.network == defaults.network
    &&& s.metadata@.len() == 0
}

/// The description of a sandbox of which only the id and the provider are known.
pub fn minimal_sandbox(
    id: &str,
    template: &str,
    provider: &str,
    defaults: &SandboxDefaults,
    now: Timestamp,
) -> (r: Sandbox)
    ensures
        is_minimal(r, id@, template@, provider@, SandboxStatus::Pending, *defaults, now),
{
    Sandbox::new(
        id.to_owned(),
        template.to_owned(),
        provider.to_owned(),
        defaults.resources,
        defaults.network.clone(),
        now,
    )
}

/// The greatest number of sandboxes that a filter lets through.
pub open spec fn filter_limit(filter: SandboxFilter) -> nat {
    match filter.limit {
        Some(n) => n as nat,
        None => u32::MAX as nat,
    }
}

/// The greatest number of sandboxes that a filter lets through.
pub fn limit_of(filter: &SandboxFilter) -> (r: u32)
    ensures
        r == filter_limit(*filter),
        filter.limit matches Some(n) ==> r == n,
        filter.limit is None ==> r == u32::MAX,
{
    match filter.limit {
        Some(n) => n,
        None => u32::MAX,
    }
}

/// The status that a process shows.
pub open spec fn process_status(alive: bool) -> SandboxStatus {
    if alive {
        SandboxStatus::Running
    } else {
        SandboxStatus::Stopped
    }
}

/// Whether the filter lets a tracked sandbox through, given whether its process runs.
/// One without a process is left out.
pub open spec fn shown(filter: SandboxFilter, process: Option<bool>) -> bool {
    match process {
        None => false,
        Some(alive) => match filter.status {
            None => true,
            Some(status) => process_status(alive) == status,
        },
    }
}

/// The positions of the sandboxes that the filter lets through.
pub open spec fn shown_positions(filter: SandboxFilter, processes: Seq<Option<bool>>) -> Seq<int>
    decreases processes.len(),
{
    if processes.len() == 0 {
        seq![]
    } else {
        let before = shown_positions(filter, processes.drop_last());
        if shown(filter, processes.last()) {
            before.push(processes.len() - 1)
        } else {
            before
        }
    }
}

/// The positions that are looked at: no more than the limit.
pub open spec fn limited(filter: SandboxFilter, processes: Seq<Option<bool>>) -> Seq<Option<bool>> {
    processes.take(
        if processes.len() <= filter_limit(filter) {
            processes.len() as int
        } else {
            filter_limit(filter) as int
        },
    )
}

/// The listing of the tracked sandboxes that the filter lets through. `processes`
/// tells of each whether its process runs, or that there is none. The limit counts
/// the sandboxes that are looked at.
pub fn list_tracked(
    ids: &Vec<String>,
    processes: &Vec<Option<bool>>,
    filter: &SandboxFilter,
    provider: &str,
    defaults: &SandboxDefaults,
    now: Timestamp,
) -> (r: Vec<Sandbox>)
    requires
        ids@.len() == processes@.len(),
    ensures
        ({
            let positions = shown_positions(*filter, limited(*filter, processes@));
            &&& r@.len() == positions.len()
            &&& forall|k: int|
                0 <= k < r@.len() ==> is_minimal(
                    #[trigger] r@[k],
                    ids@[positions[k]]@,
                    provider@,
                    provider@,
                    SandboxStatus::Pending,
                    *defaults,
                    now,
                )
        }),
{
    let mut out: Vec<Sandbox> = Vec::new();
    let limit: u64 = limit_of(filter) as u64;
    let ghost looked = limited(*filter, processes@);
    let mut i: usize = 0;
    assert(looked.take(0) =~= seq![]);
    while i < ids.len() && (i as u64) < limit
        invariant
            i <= looked.len(),
            limit == filter_limit(*filter),
            looked == limited(*filter, processes@),
            ids@.len() == processes@.len(),
            out@.len() == shown_positions(*filter, looked.take(i as int)).len(),
            forall|k: int|
                0 <= k < out@.len() ==> is_minimal(
                    #[trigger] out@[k],
                    ids@[shown_positions(*filter, looked.take(i as int))[k]]@,
                    provider@,
                    provider@,
                    SandboxStatus::Pending,
                    *defaults,
                    now,
                ),
        decreases ids@.len() - i,
    {
        proof {
            assert(looked.take(i + 1).drop_last() =~= looked.take(i as int));
            assert(looked.take(i + 1).last() == processes@[i as int]);
        }
        match processes[i] {
            None => {},
            Some(alive) => {
                let status = if alive {
                    SandboxStatus::Running
                } else {
                    SandboxStatus::Stopped
                };
                let wanted = match filter.status {
                    None => true,
                    Some(s) => s == status,
                };
                if wanted {
                    out.push(minimal_sandbox(ids[i].as_str(), provider, provider, defaults, now));
                }
            },
        }
        i = i + 1;
    }
    assert(looked.take(i as int) =~= looked);
    out
}

/// What a provider tells of one sandbox: running or stopped, by its process. Without
/// a process the sandbox is not known.
pub fn tracked_info(
    id: &str,
    process: Option<bool>,
    provider: &str,
    defaults: &SandboxDefaults,
    now: Timestamp,
) -> (r: Result<Sandbox, DomainError>)
    ensures
        match process {
            None => r matches Err(e) && e@ == DomainErrorView::NotFound(id@),
            Some(alive) => r matches Ok(s) && is_minimal(
                s,
                id@,
                provider@,
                provider@,
                process_status(alive),
                *defaults,
                now,
            ) && (alive ==> s.status is Running) && (!alive ==> s.status is Stopped),
        },
{
    let alive: bool = match process {
        None => return Err(DomainError::NotFound(id.to_owned())),
        Some(alive) => alive,
    };
    let mut sandbox = minimal_sandbox(id, provider, provider, defaults, now);
    if alive {
        match sandbox.mark_running() {
            Ok(_) => {},
            Err(e) => return Err(e),
        }
    } else {
        let _ = sandbox.terminate();
    }
    Ok(sandbox)
}

/// Whether the state that is tracked says already that a sandbox has ended.
pub fn has_ended(state: Option<SandboxStatus>) -> (r: bool)
    ensures
        r == (state == Some(SandboxStatus::Stopped) || state == Some(SandboxStatus::Failed)),
{
    match state {
        Some(SandboxStatus::Stopped) | Some(SandboxStatus::Failed) => true,
        _ => false,
    }
}

/// Requires that the provider holds the sandbox. The timeout itself is kept elsewhere.
pub fn set_timeout(id: &str, known: bool) -> (r: Result<(), DomainError>)
    ensures
        match r {
            Ok(_) => known,
            Err(e) => !known && e@ == DomainErrorView::NotFound(id@),
        },
{
    if known {
        Ok(())
    } else {
        Err(DomainError::NotFound(id.to_owned()))
    }
}

/// A listing never holds more than the filter allows.
pub proof fn law_listing_within_limit(filter: SandboxFilter, processes: Seq<Option<bool>>)
    ensures
        shown_positions(filter, limited(filter, processes)).len() <= filter_limit(filter),
{
    lemma_shown_bound(filter, limited(filter, processes));
}

proof fn lemma_shown_bound(filter: SandboxFilter, processes: Seq<Option<bool>>)
    ensures
        shown_positions(filter, processes).len() <= processes.len(),
    decreases processes.len(),
{
    if processes.len() > 0 {
        lemma_shown_bound(filter, processes.drop_last());
    }
}

proof fn lemma_shown_positions(filter: SandboxFilter, processes: Seq<Option<bool>>)
    ensures
        ({
            let positions = shown_positions(filter, processes);
            &&& forall|k: int, l: int|
                0 <= k < l < positions.len() ==> #[trigger] positions[k] < #[trigger] positions[l]
            &&& forall|k: int|
                0 <= k < positions.len() ==> 0 <= #[trigger] positions[k] < processes.len()
                    && shown(filter, processes[positions[k]])
            &&& forall|j: int|
                0 <= j < processes.len() && shown(filter, #[trigger] processes[j])
                    ==> positions.contains(j)
        }),
    decreases processes.len(),
{
    if processes.len() > 0 {
        let front = processes.drop_last();
        let n = processes.len() - 1;
        lemma_shown_positions(filter, front);
        let before = shown_positions(filter, front);
        let after = shown_positions(filter, processes);
        assert forall|k: int| 0 <= k < after.len() implies 0 <= #[trigger] after[k]
            < processes.len() && shown(filter, processes[after[k]]) by {
            if k < before.len() {
                assert(front[before[k]] == processes[before[k]]);
            }
        }
        assert forall|j: int|
            0 <= j < processes.len() && shown(
                filter,
                #[trigger] processes[j],
            ) implies after.contains(j) by {
            if j < n {
                assert(front[j] == processes[j]);
                let k = choose|k: int| 0 <= k < before.len() && before[k] == j;
                assert(after[k] == j);
            } else {
                assert(after[after.len() - 1] == n);
            }
        }
    }
}

/// A listing shows a sandbox, once and in its order, exactly where it is among the first ones
/// that the limit of the filter allows, has a process, and its process does what the filter
/// asks for, if it asks for anything: run, or have ended.
pub proof fn law_listed_by_its_process(
    filter: SandboxFilter,
    processes: Seq<Option<bool>>,
    j: int,
)
    requires
        0 <= j < processes.len() <= u32::MAX,
    ensures
        ({
            let positions = shown_positions(filter, limited(filter, processes));
            &&& positions.contains(j) <==> {
                &&& filter.limit matches Some(n) ==> j < n
                &&& processes[j] is Some
                &&& match filter.status {
                    None => true,
                    Some(SandboxStatus::Running) => processes[j] == Some(true),
                    Some(SandboxStatus::Stopped) => processes[j] == Some(false),
                    Some(_) => false,
                }
            }
            &&& forall|k: int, l: int|
                0 <= k < l < positions.len() ==> #[trigger] positions[k] < #[trigger] positions[l]
        }),
{
    let looked = limited(filter, processes);
    lemma_shown_positions(filter, looked);
    if j < looked.len() {
        assert(looked[j] == processes[j]);
    }
}

} // verus!
