//! The records of runs, by enricher.
use vstd::prelude::*;

use crate::enrichment::adapter::EnrichmentRunRecord;
use crate::text;
use crate::text::str_eq;

verus! {

/// The records of one enricher.
#[derive(Debug)]
pub struct EnricherRuns {
    pub enricher_id: String,
    pub runs: Vec<EnrichmentRunRecord>,
}

/// The records of an enricher, in their order.
pub open spec fn runs_of(records: Seq<EnrichmentRunRecord>, id: Seq<char>) -> Seq<
    EnrichmentRunRecord,
>
    decreases records.len(),
{
    if records.len() == 0 {
        Seq::empty()
    } else if records.last().enricher_id@ == id {
        runs_of(records.drop_last(), id).push(records.last())
    } else {
        runs_of(records.drop_last(), id)
    }
}

/// The enrichers of the records, each once, in the order in which they first stand.
pub open spec fn enrichers_of(records: Seq<EnrichmentRunRecord>) -> Seq<Seq<char>>
    decreases records.len(),
{
    if records.len() == 0 {
        Seq::empty()
    } else {
        let before = enrichers_of(records.drop_last());
        if before.contains(records.last().enricher_id@) {
            before
        } else {
            before.push(records.last().enricher_id@)
        }
    }
}

fn enricher_ids(records: &Vec<EnrichmentRunRecord>) -> (r: Vec<String>)
    ensures
        text::texts(r@) == enrichers_of(records@),
{
    let mut out: Vec<String> = Vec::new();
    let mut i: usize = 0;
    assert(records@.take(0) =~= seq![]);
    assert(text::texts(out@) =~= seq![]);
    while i < records.len()
        invariant
            i <= records@.len(),
            text::texts(out@) == enrichers_of(records@.take(i as int)),
        decreases records@.len() - i,
    {
        proof {
            assert(records@.take(i + 1).drop_last() =~= records@.take(i as int));
            assert(records@.take(i + 1).last() == records@[i as int]);
        }
        let ghost before = text::texts(out@);
        let ghost id = records@[i as int].enricher_id@;
        let mut known = false;
        let mut k: usize = 0;
        while k < out.len()
            invariant
                k <= out@.len(),
                i < records@.len(),
                before == text::texts(out@),
                id == records@[i as int].enricher_id@,
                known ==> before.contains(id),
                !known ==> forall|j: int| 0 <= j < k ==> #[trigger] before[j] != id,
            decreases out@.len() - k,
        {
            if str_eq(out[k].as_str(), records[i].enricher_id.as_str()) {
                assert(before[k as int] == id);
                known = true;
            }
            k = k + 1;
        }
        if !known {
            let ghost o = out@;
            out.push(records[i].enricher_id.clone());
            assert(text::texts(out@) =~= text::texts(o).push(id));
        }
        i = i + 1;
    }
    assert(records@.take(i as int) =~= records@);
    out
}

fn collect_runs(records: &Vec<EnrichmentRunRecord>, id: &str) -> (r: Vec<EnrichmentRunRecord>)
    ensures
        r@ == runs_of(records@, id@),
{
    let mut out: Vec<EnrichmentRunRecord> = Vec::new();
    let mut i: usize = 0;
    assert(records@.take(0) =~= seq![]);
    while i < records.len()
        invariant
            i <= records@.len(),
            out@ == runs_of(records@.take(i as int), id@),
        decreases records@.len() - i,
    {
        proof {
            assert(records@.take(i + 1).drop_last() =~= records@.take(i as int));
            assert(records@.take(i + 1).last() == records@[i as int]);
        }
        if str_eq(records[i].enricher_id.as_str(), id) {
            out.push(records[i].clone());
        }
        i = i + 1;
    }
    assert(records@.take(i as int) =~= records@);
    out
}

/// The records by enricher.
pub fn group_by_enricher(records: &Vec<EnrichmentRunRecord>) -> (r: Vec<EnricherRuns>)
    ensures
        r@.len() == enrichers_of(records@).len(),
        forall|i: int|
            0 <= i < r@.len() ==> (#[trigger] r@[i]).enricher_id@ == enrichers_of(records@)[i]
                && r@[i].runs@ == runs_of(records@, r@[i].enricher_id@),
{
    let ids = enricher_ids(records);
    let mut out: Vec<EnricherRuns> = Vec::new();
    let mut i: usize = 0;
    while i < ids.len()
        invariant
            i <= ids@.len(),
            text::texts(ids@) == enrichers_of(records@),
            out@.len() == i,
            forall|k: int|
                0 <= k < i ==> (#[trigger] out@[k]).enricher_id@ == enrichers_of(records@)[k]
                    && out@[k].runs@ == runs_of(records@, out@[k].enricher_id@),
        decreases ids@.len() - i,
    {
        assert(text::texts(ids@)[i as int] == ids@[i as int]@);
        let runs = collect_runs(records, ids[i].as_str());
        out.push(EnricherRuns { enricher_id: ids[i].clone(), runs });
        i = i + 1;
    }
    out
}

/// The number of records in the groups of the enrichers.
pub open spec fn grouped_count(records: Seq<EnrichmentRunRecord>, ids: Seq<Seq<char>>) -> nat
    decreases ids.len(),
{
    if ids.len() == 0 {
        0
    } else {
        grouped_count(records, ids.drop_last()) + runs_of(records, ids.last()).len()
    }
}

proof fn lemma_group_grows(records: Seq<EnrichmentRunRecord>, ids: Seq<Seq<char>>)
    requires
        records.len() > 0,
        ids.no_duplicates(),
    ensures
        grouped_count(records, ids) == grouped_count(records.drop_last(), ids) + (if ids.contains(
            records.last().enricher_id@,
        ) {
            1nat
        } else {
            0nat
        }),
    decreases ids.len(),
{
    if ids.len() > 0 {
        let front = ids.drop_last();
        let id = records.last().enricher_id@;
        lemma_group_grows(records, front);
        assert(ids.contains(id) <==> front.contains(id) || ids.last() == id) by {
            if front.contains(id) {
                let i = choose|i: int| 0 <= i < front.len() && front[i] == id;
                assert(ids[i] == id);
            }
            if ids.last() == id {
                assert(ids[ids.len() - 1] == id);
            }
            if ids.contains(id) && ids.last() != id {
                let i = choose|i: int| 0 <= i < ids.len() && ids[i] == id;
                assert(front[i] == id);
            }
        }
        if ids.last() == id && front.contains(id) {
            let i = choose|i: int| 0 <= i < front.len() && front[i] == id;
            assert(ids[i] == ids[ids.len() - 1]);
        }
    }
}

proof fn lemma_no_runs(records: Seq<EnrichmentRunRecord>, id: Seq<char>)
    requires
        !enrichers_of(records).contains(id),
    ensures
        runs_of(records, id).len() == 0,
    decreases records.len(),
{
    if records.len() > 0 {
        let before = enrichers_of(records.drop_last());
        let all = enrichers_of(records);
        if before.contains(id) {
            let i = choose|i: int| 0 <= i < before.len() && before[i] == id;
            assert(all[i] == id);
        }
        if records.last().enricher_id@ == id && !before.contains(id) {
            assert(all[all.len() - 1] == id);
        }
        lemma_no_runs(records.drop_last(), id);
    }
}

/// Every record stands in the group of exactly one enricher: none is lost, and none
/// counted twice.
pub proof fn law_groups_lose_nothing(records: Seq<EnrichmentRunRecord>)
    ensures
        enrichers_of(records).no_duplicates(),
        grouped_count(records, enrichers_of(records)) == records.len(),
    decreases records.len(),
{
    if records.len() > 0 {
        let front = records.drop_last();
        let before = enrichers_of(front);
        let all = enrichers_of(records);
        let id = records.last().enricher_id@;
        law_groups_lose_nothing(front);
        lemma_group_grows(records, before);
        if !before.contains(id) {
            assert(all.drop_last() =~= before);
            assert(all.last() == id);
            lemma_no_runs(front, id);
            assert(runs_of(records, id).len() == 1);
            assert(grouped_count(records, all) == grouped_count(records, before) + 1);
        }
    }
}

/// The group of an enricher holds the records that name it, in their order.
pub proof fn law_groups_hold_the_records_of_their_enricher(
    records: Seq<EnrichmentRunRecord>,
    id: Seq<char>,
)
    ensures
        runs_of(records, id) == records.filter(|r: EnrichmentRunRecord| r.enricher_id@ == id),
    decreases records.len(),
{
    reveal(Seq::filter);
    if records.len() > 0 {
        law_groups_hold_the_records_of_their_enricher(records.drop_last(), id);
    }
}

/// There is a group for an enricher exactly where a record names it, and the groups stand in
/// the order of the first records that name their enrichers: the positions of these records
/// are given.
pub proof fn law_groups_come_in_order(records: Seq<EnrichmentRunRecord>) -> (at: Seq<int>)
    ensures
        at.len() == enrichers_of(records).len(),
        forall|k: int|
            0 <= k < at.len() ==> 0 <= (#[trigger] at[k]) < records.len()
                && records[at[k]].enricher_id@ == enrichers_of(records)[k],
        forall|k: int, l: int| 0 <= k < l < at.len() ==> #[trigger] at[k] < #[trigger] at[l],
        forall|j: int|
            0 <= j < records.len() ==> enrichers_of(records).contains(
                (#[trigger] records[j]).enricher_id@,
            ),
        forall|j: int, k: int|
            0 <= k < at.len() && 0 <= j < at[k] ==> (#[trigger] records[j]).enricher_id@ != (
            #[trigger] enrichers_of(records)[k]),
    decreases records.len(),
{
    let all = enrichers_of(records);
    if records.len() == 0 {
        Seq::empty()
    } else {
        let front = records.drop_last();
        let before = enrichers_of(front);
        let at_front = law_groups_come_in_order(front);
        let last = records.len() - 1;
        let id = records[last].enricher_id@;
        assert(records.last() == records[last]);
        let fresh = !before.contains(id);
        let at = if fresh {
            at_front.push(last)
        } else {
            at_front
        };
        assert forall|k: int| 0 <= k < at_front.len() implies #[trigger] at[k] == at_front[k] && 0
            <= at_front[k] < front.len() && records[at_front[k]] == front[at_front[k]] && all[k]
            == before[k] by {}
        assert forall|j: int| 0 <= j < records.len() implies all.contains(
            (#[trigger] records[j]).enricher_id@,
        ) by {
            if j < front.len() {
                assert(front[j] == records[j]);
                assert(before.contains(front[j].enricher_id@));
                let k = choose|k: int| 0 <= k < before.len() && before[k] == front[j].enricher_id@;
                assert(all[k] == records[j].enricher_id@);
            } else if fresh {
                assert(all[before.len() as int] == id);
            }
        }
        assert forall|j: int, k: int| 0 <= k < at.len() && 0 <= j < at[k] implies (
        #[trigger] records[j]).enricher_id@ != (#[trigger] all[k]) by {
            assert(front[j] == records[j]);
            if k < at_front.len() {
                assert(before[k] == all[k]);
            } else {
                assert(before.contains(front[j].enricher_id@));
            }
        }
        at
    }
}

} // verus!
