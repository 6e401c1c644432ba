//! The catalog of enrichers: how they are kept in rows, found for a command, and taken
//! over from files.
use vstd::prelude::*;

use crate::catalog::collection;
use crate::catalog::collection::extension;
use crate::domain::{DomainError, DomainErrorView};
use crate::enrichment::models::{
    EnricherDescriptor, EnricherView, ExtractorConfig, RuleAction, RuleConfig,
};
use crate::interop;
use crate::interop::{check_regex, parse_strings, regex_matches, write_strings};
use crate::text;
use crate::text::{concat2, concat4, str_eq};

verus! {

/// The row of an enricher.
#[derive(Debug)]
pub struct EnricherRow {
    pub id: String,
    pub name: String,
    pub version: String,
    pub match_patterns_json: String,
    pub template: String,
    pub enabled: i32,
}

/// The row in which an enricher is kept. Its patterns are a JSON document, from which
/// they can be read again.
pub fn enricher_row(enricher: &EnricherDescriptor) -> (r: EnricherRow)
    ensures
        r.id@ == enricher.id@,
        r.name@ == enricher.name@,
        r.version@ == enricher.version@,
        r.match_patterns_json@ == interop::strings_text(text::texts(enricher.match_patterns@)),
        interop::json_strings(r.match_patterns_json@) == Some(text::texts(enricher.match_patterns@)),
        r.template@ == enricher.template@,
        r.enabled == (if enricher.enabled {
            1i32
        } else {
            0i32
        }),
{
    let enabled: i32 = if enricher.enabled {
        1
    } else {
        0
    };
    EnricherRow {
        id: enricher.id.clone(),
        name: enricher.name.clone(),
        version: enricher.version.clone(),
        match_patterns_json: write_strings(&enricher.match_patterns),
        template: enricher.template.clone(),
        enabled,
    }
}

/// A row of an enricher joined with one of its extractors, or with none.
#[derive(Debug)]
pub struct JoinedRow {
    pub id: String,
    pub name: String,
    pub version: String,
    pub match_patterns_json: String,
    pub template: String,
    pub enabled: i32,
    pub extractor_id: Option<String>,
    pub extractor_type: Option<String>,
    pub pattern: Option<String>,
    pub fact_key: Option<String>,
    pub priority: Option<i32>,
    pub merge_mode: Option<String>,
}

/// The patterns that a document holds; none where it is not a list of texts.
pub open spec fn patterns_of(document: Seq<char>) -> Seq<Seq<char>> {
    match interop::json_strings(document) {
        Some(v) => v,
        None => Seq::empty(),
    }
}

/// Whether a row names an extractor.
pub open spec fn names_extractor(row: JoinedRow) -> bool {
    row.extractor_id is Some && row.extractor_type is Some && row.pattern is Some && row.fact_key
        is Some && row.priority is Some
}

/// Whether an extractor is the one that a row names.
pub open spec fn is_extractor_of(e: ExtractorConfig, row: JoinedRow) -> bool {
    &&& row.extractor_id == Some(e.id)
    &&& row.extractor_type == Some(e.extractor_type)
    &&& row.pattern == Some(e.pattern)
    &&& row.fact_key == Some(e.fact_key)
    &&& row.priority == Some(e.priority)
    &&& match row.merge_mode {
        Some(m) => e.merge_mode == m,
        None => e.merge_mode@ == "single"@,
    }
}

/// Whether extractors are those that the rows of an enricher name, in their order.
pub open spec fn are_extractors_of(
    extractors: Seq<ExtractorConfig>,
    rows: Seq<JoinedRow>,
    id: Seq<char>,
) -> bool
    decreases rows.len(),
{
    if rows.len() == 0 {
        extractors.len() == 0
    } else if rows.last().id@ == id && names_extractor(rows.last()) {
        &&& extractors.len() > 0
        &&& is_extractor_of(extractors.last(), rows.last())
        &&& are_extractors_of(extractors.drop_last(), rows.drop_last(), id)
    } else {
        are_extractors_of(extractors, rows.drop_last(), id)
    }
}

/// The place of the last row of an enricher, or -1 where there is none.
pub open spec fn last_row(rows: Seq<JoinedRow>, id: Seq<char>) -> int
    decreases rows.len(),
{
    if rows.len() == 0 {
        -1
    } else if rows.last().id@ == id {
        rows.len() - 1
    } else {
        last_row(rows.drop_last(), id)
    }
}

/// Whether an enricher is the one that the rows describe: its last row says what it
/// is, and all of its rows name its extractors.
pub open spec fn is_described(e: EnricherView, rows: Seq<JoinedRow>) -> bool {
    let i = last_row(rows, e.id);
    &&& 0 <= i < rows.len()
    &&& e.name == rows[i].name@
    &&& e.version == rows[i].version@
    &&& e.match_patterns == patterns_of(rows[i].match_patterns_json@)
    &&& e.template == rows[i].template@
    &&& e.enabled == (rows[i].enabled != 0)
    &&& are_extractors_of(e.extractors, rows, e.id)
}

fn option_clone(text: &Option<String>) -> (r: Option<String>)
    ensures
        r == *text,
{
    match text {
        Some(s) => Some(s.clone()),
        None => None,
    }
}

fn extractor_of(row: &JoinedRow) -> (r: Option<ExtractorConfig>)
    ensures
        match r {
            Some(e) => names_extractor(*row) && is_extractor_of(e, *row),
            None => !names_extractor(*row),
        },
        r is Some <==> row.extractor_id is Some && row.extractor_type is Some && row.pattern is Some
            && row.fact_key is Some && row.priority is Some,
        r matches Some(e) ==> {
            &&& e.id == row.extractor_id->0
            &&& e.extractor_type == row.extractor_type->0
            &&& e.pattern == row.pattern->0
            &&& e.fact_key == row.fact_key->0
            &&& e.priority == row.priority->0
            &&& row.merge_mode is Some ==> e.merge_mode == row.merge_mode->0
            &&& row.merge_mode is None ==> e.merge_mode@ == "single"@
        },
{
    match (
        option_clone(&row.extractor_id),
        option_clone(&row.extractor_type),
        option_clone(&row.pattern),
        option_clone(&row.fact_key),
        row.priority,
    ) {
        (Some(id), Some(extractor_type), Some(pattern), Some(fact_key), Some(priority)) => {
            let merge_mode = match &row.merge_mode {
                Some(m) => m.clone(),
                None => "single".to_owned(),
            };
            Some(ExtractorConfig { id, extractor_type, pattern, fact_key, priority, merge_mode })
        },
        _ => None,
    }
}

/// The enricher that the rows of an identifier describe.
fn describe(rows: &Vec<JoinedRow>, id: &str) -> (r: EnricherDescriptor)
    requires
        last_row(rows@, id@) >= 0,
    ensures
        r@.id == id@,
        is_described(r@, rows@),
{
    let mut last: Option<usize> = None;
    let mut extractors: Vec<ExtractorConfig> = Vec::new();
    let mut i: usize = 0;
    assert(rows@.take(0) =~= seq![]);
    while i < rows.len()
        invariant
            i <= rows@.len(),
            match last {
                Some(k) => k < i && last_row(rows@.take(i as int), id@) == k,
                None => last_row(rows@.take(i as int), id@) == -1,
            },
            are_extractors_of(extractors@, rows@.take(i as int), id@),
        decreases rows@.len() - i,
    {
        proof {
            assert(rows@.take(i + 1).drop_last() =~= rows@.take(i as int));
            assert(rows@.take(i + 1).last() == rows@[i as int]);
        }
        if str_eq(rows[i].id.as_str(), id) {
            last = Some(i);
            match extractor_of(&rows[i]) {
                Some(e) => {
                    let ghost before = extractors@;
                    extractors.push(e);
                    assert(extractors@.drop_last() =~= before);
                },
                None => {},
            }
        }
        i = i + 1;
    }
    assert(rows@.take(i as int) =~= rows@);
    let k: usize = match last {
        Some(k) => k,
        None => 0,
    };
    let match_patterns: Vec<String> = match parse_strings(rows[k].match_patterns_json.as_str()) {
        Some(v) => v,
        None => Vec::new(),
    };
    assert(text::texts(match_patterns@) =~= patterns_of(rows@[k as int].match_patterns_json@));
    EnricherDescriptor {
        id: id.to_owned(),
        name: rows[k].name.clone(),
        version: rows[k].version.clone(),
        match_patterns,
        template: rows[k].template.clone(),
        enabled: rows[k].enabled != 0,
        extractors,
    }
}

/// The extractors of an enricher are those of its rows that name one, each once and in the
/// order of the rows; the positions of those rows come with the law.
pub proof fn law_extractors_are_those_of_the_rows(
    extractors: Seq<ExtractorConfig>,
    rows: Seq<JoinedRow>,
    id: Seq<char>,
) -> (at: Seq<int>)
    requires
        are_extractors_of(extractors, rows, id),
    ensures
        at.len() == extractors.len(),
        forall|k: int|
            0 <= k < at.len() ==> {
                &&& 0 <= #[trigger] at[k] < rows.len()
                &&& rows[at[k]].extractor_id == Some(extractors[k].id)
                &&& rows[at[k]].extractor_type == Some(extractors[k].extractor_type)
                &&& rows[at[k]].pattern == Some(extractors[k].pattern)
                &&& rows[at[k]].fact_key == Some(extractors[k].fact_key)
                &&& rows[at[k]].priority == Some(extractors[k].priority)
                &&& rows[at[k]].merge_mode is Some ==> rows[at[k]].merge_mode == Some(
                    extractors[k].merge_mode,
                )
                &&& rows[at[k]].merge_mode is None ==> extractors[k].merge_mode@ == "single"@
            },
        forall|k: int, l: int| 0 <= k < l < at.len() ==> #[trigger] at[k] < #[trigger] at[l],
        forall|j: int|
            0 <= j < rows.len() ==> (at.contains(j) <==> {
                &&& (#[trigger] rows[j]).id@ == id
                &&& rows[j].extractor_id is Some
                &&& rows[j].extractor_type is Some
                &&& rows[j].pattern is Some
                &&& rows[j].fact_key is Some
                &&& rows[j].priority is Some
            }),
    decreases rows.len(),
{
    if rows.len() == 0 {
        Seq::empty()
    } else {
        let front = rows.drop_last();
        let n = rows.len() - 1;
        assert(rows[n] == rows.last());
        let named = rows[n].id@ == id && names_extractor(rows[n]);
        let before = if named {
            law_extractors_are_those_of_the_rows(extractors.drop_last(), front, id)
        } else {
            law_extractors_are_those_of_the_rows(extractors, front, id)
        };
        let at = if named {
            before.push(n)
        } else {
            before
        };
        assert forall|k: int| 0 <= k < at.len() implies {
            &&& 0 <= #[trigger] at[k] < rows.len()
            &&& rows[at[k]].extractor_id == Some(extractors[k].id)
            &&& rows[at[k]].extractor_type == Some(extractors[k].extractor_type)
            &&& rows[at[k]].pattern == Some(extractors[k].pattern)
            &&& rows[at[k]].fact_key == Some(extractors[k].fact_key)
            &&& rows[at[k]].priority == Some(extractors[k].priority)
            &&& rows[at[k]].merge_mode is Some ==> rows[at[k]].merge_mode == Some(
                extractors[k].merge_mode,
            )
            &&& rows[at[k]].merge_mode is None ==> extractors[k].merge_mode@ == "single"@
        } by {
            if k < before.len() {
                assert(at[k] == before[k]);
                assert(front[before[k]] == rows[before[k]]);
            }
        }
        assert forall|j: int| 0 <= j < rows.len() implies (at.contains(j) <==> {
            &&& (#[trigger] rows[j]).id@ == id
            &&& rows[j].extractor_id is Some
            &&& rows[j].extractor_type is Some
            &&& rows[j].pattern is Some
            &&& rows[j].fact_key is Some
            &&& rows[j].priority is Some
        }) by {
            if j < n {
                assert(front[j] == rows[j]);
                if before.contains(j) {
                    let k = choose|k: int| 0 <= k < before.len() && before[k] == j;
                    assert(at[k] == j);
                }
                if at.contains(j) {
                    let k = choose|k: int| 0 <= k < at.len() && at[k] == j;
                    assert(before[k] == j);
                }
            } else if named {
                assert(at[at.len() - 1] == n);
            } else if at.contains(n) {
                let k = choose|k: int| 0 <= k < at.len() && at[k] == n;
                assert(before[k] < front.len());
            }
        }
        at
    }
}

/// The identifiers of the rows, each once, in the order in which they first stand.
pub open spec fn row_ids(rows: Seq<JoinedRow>) -> Seq<Seq<char>>
    decreases rows.len(),
{
    if rows.len() == 0 {
        Seq::empty()
    } else {
        let before = row_ids(rows.drop_last());
        if before.contains(rows.last().id@) {
            before
        } else {
            before.push(rows.last().id@)
        }
    }
}

/// Each identifier of the rows is listed, each once, and nothing else.
pub proof fn law_rows_are_listed_once(rows: Seq<JoinedRow>)
    ensures
        row_ids(rows).no_duplicates(),
        forall|i: int| 0 <= i < rows.len() ==> row_ids(rows).contains((#[trigger] rows[i]).id@),
        forall|i: int|
            0 <= i < row_ids(rows).len() ==> last_row(rows, #[trigger] row_ids(rows)[i]) >= 0,
    decreases rows.len(),
{
    if rows.len() > 0 {
        let front = rows.drop_last();
        let before = row_ids(front);
        let all = row_ids(rows);
        let id = rows.last().id@;
        law_rows_are_listed_once(front);
        assert forall|i: int| 0 <= i < rows.len() implies all.contains((#[trigger] rows[i]).id@) by {
            if i < front.len() {
                assert(before.contains(front[i].id@));
                let j = choose|j: int| 0 <= j < before.len() && before[j] == front[i].id@;
                assert(all[j] == rows[i].id@);
            } else if !before.contains(id) {
                assert(all[all.len() - 1] == id);
            }
        }
        assert forall|i: int| 0 <= i < all.len() implies last_row(rows, #[trigger] all[i]) >= 0 by {
            if i < before.len() {
                assert(last_row(front, before[i]) >= 0);
            }
        }
        assert(all.no_duplicates());
    }
}

fn distinct_ids(rows: &Vec<JoinedRow>) -> (r: Vec<String>)
    ensures
        text::texts(r@) == row_ids(rows@),
{
    let mut out: Vec<String> = Vec::new();
    let mut i: usize = 0;
    assert(rows@.take(0) =~= seq![]);
    assert(text::texts(out@) =~= seq![]);
    while i < rows.len()
        invariant
            i <= rows@.len(),
            text::texts(out@) == row_ids(rows@.take(i as int)),
        decreases rows@.len() - i,
    {
        proof {
            assert(rows@.take(i + 1).drop_last() =~= rows@.take(i as int));
            assert(rows@.take(i + 1).last() == rows@[i as int]);
        }
        let ghost before = text::texts(out@);
        let ghost id = rows@[i as int].id@;
        let mut known = false;
        let mut k: usize = 0;
        while k < out.len()
            invariant
                k <= out@.len(),
                i < rows@.len(),
                before == text::texts(out@),
                id == rows@[i as int].id@,
                known ==> before.contains(id),
                !known ==> forall|j: int| 0 <= j < k ==> #[trigger] before[j] != id,
            decreases out@.len() - k,
        {
            if str_eq(out[k].as_str(), rows[i].id.as_str()) {
                assert(before[k as int] == id);
                known = true;
            }
            k = k + 1;
        }
        if !known {
            let ghost o = out@;
            out.push(rows[i].id.clone());
            assert(text::texts(out@) =~= text::texts(o).push(id));
        }
        i = i + 1;
    }
    assert(rows@.take(i as int) =~= rows@);
    out
}

/// All enrichers that the rows describe.
pub fn list_all(rows: &Vec<JoinedRow>) -> (r: Vec<EnricherDescriptor>)
    ensures
        r@.len() == row_ids(rows@).len(),
        forall|i: int|
            0 <= i < r@.len() ==> (#[trigger] r@[i])@.id == row_ids(rows@)[i] && is_described(
                r@[i]@,
                rows@,
            ),
{
    let ids = distinct_ids(rows);
    let mut out: Vec<EnricherDescriptor> = Vec::new();
    let mut i: usize = 0;
    proof {
        law_rows_are_listed_once(rows@);
    }
    while i < ids.len()
        invariant
            i <= ids@.len(),
            text::texts(ids@) == row_ids(rows@),
            forall|k: int|
                0 <= k < row_ids(rows@).len() ==> last_row(rows@, #[trigger] row_ids(rows@)[k])
                    >= 0,
            out@.len() == i,
            forall|k: int|
                0 <= k < i ==> (#[trigger] out@[k])@.id == row_ids(rows@)[k] && is_described(
                    out@[k]@,
                    rows@,
                ),
        decreases ids@.len() - i,
    {
        proof {
            assert(text::texts(ids@)[i as int] == ids@[i as int]@);
            assert(last_row(rows@, row_ids(rows@)[i as int]) >= 0);
        }
        out.push(describe(rows, ids[i].as_str()));
        i = i + 1;
    }
    out
}

/// Whether one of the patterns is found in a command. A pattern that does not compile
/// finds nothing.
pub open spec fn some_pattern_finds(patterns: Seq<Seq<char>>, command: Seq<char>) -> bool {
    exists|i: int|
        0 <= i < patterns.len() && interop::regex_finds(#[trigger] patterns[i], command) == Some(true)
}

/// Whether one of the patterns of an enricher is found in a command.
pub fn matches_command(enricher: &EnricherDescriptor, command: &str) -> (r: bool)
    ensures
        r == some_pattern_finds(enricher@.match_patterns, command@),
        r <==> exists|i: int|
            0 <= i < enricher.match_patterns@.len() && interop::regex_finds(
                (#[trigger] enricher.match_patterns@[i])@,
                command@,
            ) == Some(true),
{
    let ghost patterns = enricher@.match_patterns;
    let mut i: usize = 0;
    while i < enricher.match_patterns.len()
        invariant
            i <= enricher.match_patterns@.len(),
            patterns == text::texts(enricher.match_patterns@),
            forall|j: int|
                0 <= j < i ==> interop::regex_finds(#[trigger] patterns[j], command@) != Some(true),
        decreases enricher.match_patterns@.len() - i,
    {
        match regex_matches(enricher.match_patterns[i].as_str(), command) {
            Some(true) => {
                assert(interop::regex_finds(patterns[i as int], command@) == Some(true));
                assert(interop::regex_finds(enricher.match_patterns@[i as int]@, command@) == Some(
                    true,
                ));
                return true;
            },
            _ => {},
        }
        i = i + 1;
    }
    assert forall|k: int| 0 <= k < enricher.match_patterns@.len() implies interop::regex_finds(
        (#[trigger] enricher.match_patterns@[k])@,
        command@,
    ) != Some(true) by {
        assert(patterns[k] == enricher.match_patterns@[k]@);
    }
    false
}

/// The identifiers of the enrichers of which a pattern is found in a command.
pub open spec fn matching_ids(
    ids: Seq<Seq<char>>,
    rows: Seq<JoinedRow>,
    command: Seq<char>,
) -> Seq<Seq<char>>
    decreases ids.len(),
{
    if ids.len() == 0 {
        Seq::empty()
    } else {
        let before = matching_ids(ids.drop_last(), rows, command);
        let document = rows[last_row(rows, ids.last())].match_patterns_json@;
        if some_pattern_finds(patterns_of(document), command) {
            before.push(ids.last())
        } else {
            before
        }
    }
}

/// The enrichers of which a pattern is found in a command, from the rows of those that
/// are enabled.
pub fn find_enrichers(rows: &Vec<JoinedRow>, command: &str) -> (r: Vec<EnricherDescriptor>)
    ensures
        r@.len() == matching_ids(row_ids(rows@), rows@, command@).len(),
        forall|i: int|
            0 <= i < r@.len() ==> (#[trigger] r@[i])@.id == matching_ids(
                row_ids(rows@),
                rows@,
                command@,
            )[i] && is_described(r@[i]@, rows@) && some_pattern_finds(
                r@[i]@.match_patterns,
                command@,
            ),
        forall|i: int, p: int|
            {
                &&& 0 <= i < rows@.len()
                &&& forall|j: int|
                    i < j < rows@.len() ==> (#[trigger] rows@[j]).id@ != (#[trigger] rows@[i]).id@
                &&& interop::json_strings(rows@[i].match_patterns_json@) is Some
                &&& 0 <= p < interop::json_strings(rows@[i].match_patterns_json@)->0.len()
                &&& interop::regex_finds(
                    #[trigger] interop::json_strings(rows@[i].match_patterns_json@)->0[p],
                    command@,
                ) == Some(true)
            } ==> exists|k: int| 0 <= k < r@.len() && (#[trigger] r@[k])@.id == rows@[i].id@,
        forall|k: int, l: int|
            0 <= k < l < r@.len() ==> (#[trigger] r@[k])@.id != (#[trigger] r@[l])@.id,
{
    let all = list_all(rows);
    let ghost listed = all@;
    let ghost ids = row_ids(rows@);
    let mut out: Vec<EnricherDescriptor> = Vec::new();
    assert(ids.take(0) =~= seq![]);
    for enricher in it: all
        invariant
            it.seq() == listed,
            ids == row_ids(rows@),
            listed.len() == ids.len(),
            forall|k: int|
                0 <= k < listed.len() ==> (#[trigger] listed[k])@.id == ids[k] && is_described(
                    listed[k]@,
                    rows@,
                ),
            out@.len() == matching_ids(ids.take(it.index() as int), rows@, command@).len(),
            forall|k: int|
                0 <= k < out@.len() ==> (#[trigger] out@[k])@.id == matching_ids(
                    ids.take(it.index() as int),
                    rows@,
                    command@,
                )[k] && is_described(out@[k]@, rows@) && some_pattern_finds(
                    out@[k]@.match_patterns,
                    command@,
                ),
    {
        proof {
            let i = it.index() as int;
            assert(ids.take(i + 1).drop_last() =~= ids.take(i));
            assert(ids.take(i + 1).last() == ids[i]);
            assert(enricher == listed[i]);
        }
        if matches_command(&enricher, command) {
            out.push(enricher);
        }
    }
    assert(ids.take(ids.len() as int) =~= ids);
    proof {
        let found = matching_ids(ids, rows@, command@);
        law_found_where_a_pattern_is_found(rows@, command@, Seq::empty());
        assert forall|i: int, p: int|
            {
                &&& 0 <= i < rows@.len()
                &&& forall|j: int|
                    i < j < rows@.len() ==> (#[trigger] rows@[j]).id@ != (#[trigger] rows@[i]).id@
                &&& interop::json_strings(rows@[i].match_patterns_json@) is Some
                &&& 0 <= p < interop::json_strings(rows@[i].match_patterns_json@)->0.len()
                &&& interop::regex_finds(
                    #[trigger] interop::json_strings(rows@[i].match_patterns_json@)->0[p],
                    command@,
                ) == Some(true)
            } implies exists|k: int| 0 <= k < out@.len() && (#[trigger] out@[k])@.id
            == rows@[i].id@ by {
            law_found_where_a_pattern_is_found(rows@, command@, rows@[i].id@);
            assert(found.contains(rows@[i].id@));
            let k = choose|k: int| 0 <= k < found.len() && found[k] == rows@[i].id@;
            assert(out@[k]@.id == found[k]);
        }
        assert forall|k: int, l: int| 0 <= k < l < out@.len() implies (#[trigger] out@[k])@.id != (
        #[trigger] out@[l])@.id by {
            assert(out@[k]@.id == found[k] && out@[l]@.id == found[l]);
        }
    }
    out
}

proof fn lemma_last_row(rows: Seq<JoinedRow>, id: Seq<char>, i: int)
    requires
        0 <= i < rows.len(),
        rows[i].id@ == id,
        forall|j: int| i < j < rows.len() ==> (#[trigger] rows[j]).id@ != id,
    ensures
        last_row(rows, id) == i,
    decreases rows.len(),
{
    if i < rows.len() - 1 {
        let front = rows.drop_last();
        assert(rows[rows.len() - 1].id@ != id);
        assert forall|j: int| i < j < front.len() implies (#[trigger] front[j]).id@ != id by {
            assert(front[j] == rows[j]);
        }
        lemma_last_row(front, id, i);
    }
}

proof fn lemma_last_row_is_there(rows: Seq<JoinedRow>, id: Seq<char>)
    ensures
        last_row(rows, id) < rows.len(),
        last_row(rows, id) >= 0 ==> rows[last_row(rows, id)].id@ == id,
        last_row(rows, id) < 0 ==> forall|j: int|
            0 <= j < rows.len() ==> (#[trigger] rows[j]).id@ != id,
    decreases rows.len(),
{
    if rows.len() > 0 {
        let front = rows.drop_last();
        lemma_last_row_is_there(front, id);
        if rows.last().id@ != id {
            assert forall|j: int|
                last_row(rows, id) < 0 && 0 <= j < rows.len() implies (#[trigger] rows[j]).id@
                != id by {
                if j < front.len() {
                    assert(front[j] == rows[j]);
                }
            }
        }
    }
}

proof fn lemma_matching_ids(
    ids: Seq<Seq<char>>,
    rows: Seq<JoinedRow>,
    command: Seq<char>,
    id: Seq<char>,
)
    requires
        ids.no_duplicates(),
    ensures
        matching_ids(ids, rows, command).no_duplicates(),
        matching_ids(ids, rows, command).contains(id) <==> ids.contains(id) && some_pattern_finds(
            patterns_of(rows[last_row(rows, id)].match_patterns_json@),
            command,
        ),
        forall|k: int|
            0 <= k < matching_ids(ids, rows, command).len() ==> ids.contains(
                #[trigger] matching_ids(ids, rows, command)[k],
            ),
    decreases ids.len(),
{
    if ids.len() > 0 {
        let front = ids.drop_last();
        let last = ids.last();
        assert(front.no_duplicates());
        lemma_matching_ids(front, rows, command, id);
        let before = matching_ids(front, rows, command);
        let after = matching_ids(ids, rows, command);
        assert(!front.contains(last)) by {
            if front.contains(last) {
                let i = choose|i: int| 0 <= i < front.len() && front[i] == last;
                assert(ids[i] == ids[ids.len() - 1]);
            }
        }
        assert(ids.contains(id) <==> front.contains(id) || last == id) by {
            if front.contains(id) {
                let i = choose|i: int| 0 <= i < front.len() && front[i] == id;
                assert(ids[i] == id);
            }
            if last == id {
                assert(ids[ids.len() - 1] == id);
            }
            if ids.contains(id) && last != id {
                let i = choose|i: int| 0 <= i < ids.len() && ids[i] == id;
                assert(front[i] == id);
            }
        }
        if after.len() > before.len() {
            assert(after.contains(id) <==> before.contains(id) || last == id) by {
                if before.contains(id) {
                    let i = choose|i: int| 0 <= i < before.len() && before[i] == id;
                    assert(after[i] == id);
                }
                if last == id {
                    assert(after[after.len() - 1] == id);
                }
                if after.contains(id) && last != id {
                    let i = choose|i: int| 0 <= i < after.len() && after[i] == id;
                    assert(before[i] == id);
                }
            }
        }
        assert forall|k: int| 0 <= k < after.len() implies ids.contains(#[trigger] after[k]) by {
            if k < before.len() {
                assert(front.contains(before[k]));
                let i = choose|i: int| 0 <= i < front.len() && front[i] == before[k];
                assert(ids[i] == after[k]);
            } else {
                assert(ids[ids.len() - 1] == after[k]);
            }
        }
        assert(after.no_duplicates()) by {
            if after.len() > before.len() {
                assert(!before.contains(last)) by {
                    if before.contains(last) {
                        let i = choose|i: int| 0 <= i < before.len() && before[i] == last;
                        assert(front.contains(before[i]));
                    }
                }
            }
        }
    }
}

/// An enricher is found for a command, and found once, exactly where it has a row and one of
/// the patterns in its last row is found in the command.
pub proof fn law_found_where_a_pattern_is_found(
    rows: Seq<JoinedRow>,
    command: Seq<char>,
    id: Seq<char>,
)
    ensures
        ({
            let found = matching_ids(row_ids(rows), rows, command);
            &&& found.no_duplicates()
            &&& found.contains(id) <==> exists|i: int, p: int|
                {
                    &&& 0 <= i < rows.len()
                    &&& (#[trigger] rows[i]).id@ == id
                    &&& forall|j: int| i < j < rows.len() ==> (#[trigger] rows[j]).id@ != id
                    &&& interop::json_strings(rows[i].match_patterns_json@) is Some
                    &&& 0 <= p < interop::json_strings(rows[i].match_patterns_json@)->0.len()
                    &&& interop::regex_finds(
                        #[trigger] interop::json_strings(rows[i].match_patterns_json@)->0[p],
                        command,
                    ) == Some(true)
                }
        }),
{
    let ids = row_ids(rows);
    let found = matching_ids(ids, rows, command);
    law_rows_are_listed_once(rows);
    lemma_matching_ids(ids, rows, command, id);
    lemma_last_row_is_there(rows, id);
    let i = last_row(rows, id);
    if found.contains(id) {
        let k = choose|k: int| 0 <= k < ids.len() && ids[k] == id;
        assert(last_row(rows, ids[k]) >= 0);
        lemma_nothing_behind_last_row(rows, id);
        let patterns = patterns_of(rows[i].match_patterns_json@);
        let p = choose|p: int|
            0 <= p < patterns.len() && interop::regex_finds(#[trigger] patterns[p], command)
                == Some(true);
        assert(rows[i].id@ == id);
        assert(interop::regex_finds(
            interop::json_strings(rows[i].match_patterns_json@)->0[p],
            command,
        ) == Some(true));
    }
    if exists|i: int, p: int|
        {
            &&& 0 <= i < rows.len()
            &&& (#[trigger] rows[i]).id@ == id
            &&& forall|j: int| i < j < rows.len() ==> (#[trigger] rows[j]).id@ != id
            &&& interop::json_strings(rows[i].match_patterns_json@) is Some
            &&& 0 <= p < interop::json_strings(rows[i].match_patterns_json@)->0.len()
            &&& interop::regex_finds(
                #[trigger] interop::json_strings(rows[i].match_patterns_json@)->0[p],
                command,
            ) == Some(true)
        } {
        let (a, p) = choose|a: int, p: int|
            {
                &&& 0 <= a < rows.len()
                &&& (#[trigger] rows[a]).id@ == id
                &&& forall|j: int| a < j < rows.len() ==> (#[trigger] rows[j]).id@ != id
                &&& interop::json_strings(rows[a].match_patterns_json@) is Some
                &&& 0 <= p < interop::json_strings(rows[a].match_patterns_json@)->0.len()
                &&& interop::regex_finds(
                    #[trigger] interop::json_strings(rows[a].match_patterns_json@)->0[p],
                    command,
                ) == Some(true)
            };
        lemma_last_row(rows, id, a);
        assert(ids.contains(rows[a].id@));
        let patterns = patterns_of(rows[a].match_patterns_json@);
        assert(interop::regex_finds(patterns[p], command) == Some(true));
    }
}

proof fn lemma_nothing_behind_last_row(rows: Seq<JoinedRow>, id: Seq<char>)
    ensures
        last_row(rows, id) >= -1,
        forall|j: int| last_row(rows, id) < j < rows.len() ==> (#[trigger] rows[j]).id@ != id,
    decreases rows.len(),
{
    if rows.len() > 0 {
        let front = rows.drop_last();
        lemma_nothing_behind_last_row(front, id);
        assert forall|j: int| last_row(rows, id) < j < rows.len() implies (#[trigger] rows[j]).id@
            != id by {
            if j < front.len() {
                assert(front[j] == rows[j]);
            }
        }
    }
}

/// A row of a rule.
#[derive(Debug)]
pub struct RuleRow {
    pub id: String,
    pub enricher_id: String,
    pub condition: String,
    pub priority: i32,
    pub enabled: i32,
}

/// The rule of a row, with the actions that its document was read as; without actions
/// where it was not read.
pub fn rule_of_row(row: RuleRow, actions: Option<Vec<RuleAction>>) -> (r: RuleConfig)
    ensures
        r.id == row.id,
        r.enricher_id == row.enricher_id,
        r.condition == row.condition,
        r.priority == row.priority,
        r.enabled == (row.enabled != 0),
        match actions {
            Some(v) => r.actions == v,
            None => r.actions@.len() == 0,
        },
{
    let actions: Vec<RuleAction> = match actions {
        Some(v) => v,
        None => Vec::new(),
    };
    RuleConfig {
        id: row.id,
        enricher_id: row.enricher_id,
        condition: row.condition,
        priority: row.priority,
        enabled: row.enabled != 0,
        actions,
    }
}

/// What an enricher says that is kept in a row and whose extractors are kept in rows of
/// their own, of which each stands joined with it.
pub open spec fn joined_rows(row: EnricherRow, extractors: Seq<ExtractorConfig>) -> Seq<JoinedRow> {
    let bare = JoinedRow {
        id: row.id,
        name: row.name,
        version: row.version,
        match_patterns_json: row.match_patterns_json,
        template: row.template,
        enabled: row.enabled,
        extractor_id: None,
        extractor_type: None,
        pattern: None,
        fact_key: None,
        priority: None,
        merge_mode: None,
    };
    if extractors.len() == 0 {
        seq![bare]
    } else {
        extractors.map_values(
            |e: ExtractorConfig|
                JoinedRow {
                    extractor_id: Some(e.id),
                    extractor_type: Some(e.extractor_type),
                    pattern: Some(e.pattern),
                    fact_key: Some(e.fact_key),
                    priority: Some(e.priority),
                    merge_mode: Some(e.merge_mode),
                    ..bare
                },
        )
    }
}

proof fn lemma_joined_extractors(row: EnricherRow, all: Seq<ExtractorConfig>, n: int)
    requires
        0 <= n <= all.len(),
        all.len() > 0,
    ensures
        are_extractors_of(all.take(n), joined_rows(row, all).take(n), row.id@),
    decreases n,
{
    if n > 0 {
        let rows = joined_rows(row, all).take(n);
        lemma_joined_extractors(row, all, n - 1);
        assert(rows.drop_last() =~= joined_rows(row, all).take(n - 1));
        assert(all.take(n).drop_last() =~= all.take(n - 1));
    }
}

/// An enricher that is kept in rows is read from them as it was: the enricher with its
/// patterns and its extractors in their order.
pub proof fn law_kept_enricher_reads_back(e: EnricherDescriptor, row: EnricherRow)
    requires
        row.id@ == e.id@,
        row.name@ == e.name@,
        row.version@ == e.version@,
        interop::json_strings(row.match_patterns_json@) == Some(text::texts(e.match_patterns@)),
        row.template@ == e.template@,
        row.enabled == (if e.enabled {
            1i32
        } else {
            0i32
        }),
    ensures
        is_described(e@, joined_rows(row, e.extractors@)),
        row_ids(joined_rows(row, e.extractors@)) == seq![e.id@],
{
    let all = e.extractors@;
    let rows = joined_rows(row, all);
    if all.len() > 0 {
        lemma_joined_extractors(row, all, all.len() as int);
        assert(rows.take(all.len() as int) =~= rows);
        assert(all.take(all.len() as int) =~= all);
    } else {
        assert(rows.drop_last() =~= Seq::<JoinedRow>::empty());
        assert(all =~= Seq::<ExtractorConfig>::empty());
        reveal_with_fuel(are_extractors_of, 2);
    }
    lemma_one_id(rows, e.id@);
}

proof fn lemma_one_id(rows: Seq<JoinedRow>, id: Seq<char>)
    requires
        rows.len() > 0,
        forall|i: int| 0 <= i < rows.len() ==> (#[trigger] rows[i]).id@ == id,
    ensures
        row_ids(rows) == seq![id],
    decreases rows.len(),
{
    let front = rows.drop_last();
    assert(rows[rows.len() - 1].id@ == id);
    if front.len() == 0 {
        assert(row_ids(front) =~= Seq::<Seq<char>>::empty());
        assert(row_ids(rows) =~= seq![id]);
    } else {
        assert forall|i: int| 0 <= i < front.len() implies (#[trigger] front[i]).id@ == id by {
            assert(rows[i].id@ == id);
        }
        lemma_one_id(front, id);
        assert(seq![id][0] == id);
        assert(seq![id].contains(id));
    }
}

/// In which way an enricher file is written.
#[derive(Debug, Clone, Copy, PartialEq, Eq, Structural)]
pub enum FileFormat {
    Yaml,
    Toml,
}

/// In which way a file of this name is written; none where it is no enricher file.
pub open spec fn format_of(name: Seq<char>) -> Option<FileFormat> {
    if collection::extension_of(name) == Some("yaml"@) || collection::extension_of(name) == Some("yml"@) {
        Some(FileFormat::Yaml)
    } else if collection::extension_of(name) == Some("toml"@) {
        Some(FileFormat::Toml)
    } else {
        None
    }
}

/// In which way a file of this name is written; none where it is no enricher file.
pub fn file_format(name: &str) -> (r: Option<FileFormat>)
    ensures
        r == format_of(name@),
{
    match extension(name) {
        Some(e) => if str_eq(e.as_str(), "yaml") || str_eq(e.as_str(), "yml") {
            Some(FileFormat::Yaml)
        } else if str_eq(e.as_str(), "toml") {
            Some(FileFormat::Toml)
        } else {
            None
        },
        None => None,
    }
}

/// Enricher files end in `.yaml`, `.yml` or `.toml`; the ending tells how they are written.
pub proof fn law_formats_go_by_the_ending(stem: Seq<char>, ext: Seq<char>)
    requires
        stem.len() > 0,
        ext.len() > 0,
        !ext.contains('.'),
    ensures
        ({
            let format = format_of(stem + seq!['.'] + ext);
            &&& format == Some(FileFormat::Yaml) <==> ext == "yaml"@ || ext == "yml"@
            &&& format == Some(FileFormat::Toml) <==> ext == "toml"@
            &&& format is None <==> ext != "yaml"@ && ext != "yml"@ && ext != "toml"@
        }),
{
    reveal_strlit("yaml");
    reveal_strlit("yml");
    reveal_strlit("toml");
    assert("yaml"@[0] == 'y' && "toml"@[0] == 't' && "yml"@.len() == 3);
    collection::law_extension_follows_the_last_dot(stem, ext);
}

/// An enricher is what its last row says.
pub proof fn law_enricher_is_its_last_row(e: EnricherView, rows: Seq<JoinedRow>, i: int)
    requires
        is_described(e, rows),
        0 <= i < rows.len(),
        rows[i].id@ == e.id,
        forall|j: int| i < j < rows.len() ==> (#[trigger] rows[j]).id@ != e.id,
    ensures
        e.name == rows[i].name@,
        e.version == rows[i].version@,
        e.template == rows[i].template@,
        e.enabled <==> rows[i].enabled != 0,
        interop::json_strings(rows[i].match_patterns_json@) is Some ==> e.match_patterns
            == interop::json_strings(rows[i].match_patterns_json@)->0,
        interop::json_strings(rows[i].match_patterns_json@) is None ==> e.match_patterns.len() == 0,
{
    lemma_last_row(rows, e.id, i);
}

/// Whether an enricher is enabled where its file does not say.
pub fn default_enabled() -> (r: bool)
    ensures
        r,
{
    true
}

/// How an extractor merges where its file does not say.
pub fn default_merge_mode() -> (r: String)
    ensures
        r@ == "single"@,
{
    "single".to_owned()
}

/// A rule as an enricher file writes it.
#[derive(Debug)]
pub struct FileRule {
    pub id: String,
    pub condition: String,
    pub priority: i32,
    pub enabled: bool,
    pub actions: Vec<RuleAction>,
}

/// An enricher file.
#[derive(Debug)]
pub struct EnricherFile {
    pub id: String,
    pub name: String,
    pub version: String,
    pub match_patterns: Vec<String>,
    pub template: String,
    pub enabled: bool,
    pub extractors: Vec<ExtractorConfig>,
    pub rules: Vec<FileRule>,
}

/// Whether a rule is a file's rule of the given enricher.
pub open spec fn is_rule_of(r: RuleConfig, f: FileRule, enricher_id: Seq<char>) -> bool {
    &&& r.id == f.id
    &&& r.enricher_id@ == enricher_id
    &&& r.condition == f.condition
    &&& r.priority == f.priority
    &&& r.enabled == f.enabled
    &&& r.actions == f.actions
}

/// Whether rules are a file's rules, one for one.
pub open spec fn are_rules_of(
    rules: Seq<RuleConfig>,
    file: Seq<FileRule>,
    enricher_id: Seq<char>,
) -> bool {
    &&& rules.len() == file.len()
    &&& forall|i: int|
        0 <= i < rules.len() ==> is_rule_of(#[trigger] rules[i], file[i], enricher_id)
}

/// The enricher of a file.
pub open spec fn enricher_of(file: EnricherFile) -> EnricherView {
    EnricherView {
        id: file.id@,
        name: file.name@,
        version: file.version@,
        match_patterns: text::texts(file.match_patterns@),
        template: file.template@,
        enabled: file.enabled,
        extractors: file.extractors@,
    }
}

/// An enricher and its rules, to be kept.
#[derive(Debug)]
pub struct Import {
    pub enricher: EnricherDescriptor,
    pub rules: Vec<RuleConfig>,
}

/// The enricher and the rules of a file.
pub fn from_file(file: EnricherFile) -> (r: Import)
    ensures
        r.enricher@ == enricher_of(file),
        are_rules_of(r.rules@, file.rules@, file.id@),
        r.enricher.id == file.id,
        r.enricher.name == file.name,
        r.enricher.version == file.version,
        r.enricher.match_patterns == file.match_patterns,
        r.enricher.template == file.template,
        r.enricher.enabled == file.enabled,
        r.enricher.extractors == file.extractors,
        r.rules@.len() == file.rules@.len(),
        forall|i: int|
            0 <= i < r.rules@.len() ==> {
                &&& (#[trigger] r.rules@[i]).id == file.rules@[i].id
                &&& r.rules@[i].enricher_id@ == file.id@
                &&& r.rules@[i].condition == file.rules@[i].condition
                &&& r.rules@[i].priority == file.rules@[i].priority
                &&& r.rules@[i].enabled == file.rules@[i].enabled
                &&& r.rules@[i].actions == file.rules@[i].actions
            },
{
    let ghost all = file.rules@;
    let ghost id = file.id@;
    let mut rules: Vec<RuleConfig> = Vec::new();
    for rule in it: file.rules
        invariant
            it.seq() == all,
            id == file.id@,
            rules@.len() == it.index(),
            forall|k: int| 0 <= k < rules@.len() ==> is_rule_of(#[trigger] rules@[k], all[k], id),
    {
        rules.push(
            RuleConfig {
                id: rule.id,
                enricher_id: file.id.clone(),
                condition: rule.condition,
                priority: rule.priority,
                enabled: rule.enabled,
                actions: rule.actions,
            },
        );
    }
    Import {
        enricher: EnricherDescriptor {
            id: file.id,
            name: file.name,
            version: file.version,
            match_patterns: file.match_patterns,
            template: file.template,
            enabled: file.enabled,
            extractors: file.extractors,
        },
        rules,
    }
}

/// Whether an extractor has a pattern that does not compile.
pub open spec fn has_bad_pattern(e: ExtractorConfig) -> bool {
    e.extractor_type@ == "regex"@ && interop::regex_error(e.pattern@) is Some
}

/// The place of the first extractor with a pattern that does not compile, or their
/// number.
pub open spec fn first_bad_pattern(extractors: Seq<ExtractorConfig>) -> int
    decreases extractors.len(),
{
    if extractors.len() == 0 || has_bad_pattern(extractors[0]) {
        0
    } else {
        1 + first_bad_pattern(extractors.drop_first())
    }
}

/// The place of the first rule whose condition does not parse, or their number.
pub open spec fn first_bad_condition(parsed: Seq<Result<(), String>>) -> int
    decreases parsed.len(),
{
    if parsed.len() == 0 || parsed[0] is Err {
        0
    } else {
        1 + first_bad_condition(parsed.drop_first())
    }
}

proof fn lemma_first_bad_pattern(extractors: Seq<ExtractorConfig>, i: int)
    requires
        0 <= i <= extractors.len(),
        forall|j: int| 0 <= j < i ==> !has_bad_pattern(#[trigger] extractors[j]),
        i < extractors.len() ==> has_bad_pattern(extractors[i]),
    ensures
        first_bad_pattern(extractors) == i,
    decreases extractors.len(),
{
    if i > 0 {
        assert(!has_bad_pattern(extractors[0]));
        let t = extractors.drop_first();
        assert forall|j: int| 0 <= j < i - 1 implies !has_bad_pattern(#[trigger] t[j]) by {
            assert(t[j] == extractors[j + 1]);
        }
        lemma_first_bad_pattern(t, i - 1);
    }
}

proof fn lemma_first_bad_condition(parsed: Seq<Result<(), String>>, i: int)
    requires
        0 <= i <= parsed.len(),
        forall|j: int| 0 <= j < i ==> (#[trigger] parsed[j]) is Ok,
        i < parsed.len() ==> parsed[i] is Err,
    ensures
        first_bad_condition(parsed) == i,
    decreases parsed.len(),
{
    if i > 0 {
        assert(parsed[0] is Ok);
        let t = parsed.drop_first();
        assert forall|j: int| 0 <= j < i - 1 implies (#[trigger] t[j]) is Ok by {
            assert(t[j] == parsed[j + 1]);
        }
        lemma_first_bad_condition(t, i - 1);
    }
}

/// An enricher is refused for the first of its extractors of the type `regex` whose pattern
/// does not compile, and for the first of its rules whose condition does not parse.
pub proof fn law_refused_for_the_first_fault(
    extractors: Seq<ExtractorConfig>,
    parsed: Seq<Result<(), String>>,
)
    ensures
        0 <= first_bad_pattern(extractors) <= extractors.len(),
        forall|i: int|
            0 <= i < first_bad_pattern(extractors) && (#[trigger] extractors[i]).extractor_type@
                == "regex"@ ==> interop::regex_error(extractors[i].pattern@) is None,
        first_bad_pattern(extractors) < extractors.len() ==> {
            let e = extractors[first_bad_pattern(extractors)];
            e.extractor_type@ == "regex"@ && interop::regex_error(e.pattern@) is Some
        },
        0 <= first_bad_condition(parsed) <= parsed.len(),
        forall|i: int| 0 <= i < first_bad_condition(parsed) ==> (#[trigger] parsed[i]) is Ok,
        first_bad_condition(parsed) < parsed.len() ==> parsed[first_bad_condition(parsed)] is Err,
    decreases extractors.len() + parsed.len(),
{
    if extractors.len() > 0 && !has_bad_pattern(extractors[0]) {
        let t = extractors.drop_first();
        law_refused_for_the_first_fault(t, parsed);
        assert forall|i: int|
            0 <= i < first_bad_pattern(extractors) && (#[trigger] extractors[i]).extractor_type@
                == "regex"@ implies interop::regex_error(extractors[i].pattern@) is None by {
            if i > 0 {
                assert(t[i - 1] == extractors[i]);
            }
        }
        if first_bad_pattern(extractors) < extractors.len() {
            assert(t[first_bad_pattern(t)] == extractors[first_bad_pattern(extractors)]);
        }
    } else if parsed.len() > 0 && parsed[0] is Ok {
        let t = parsed.drop_first();
        law_refused_for_the_first_fault(extractors, t);
        assert forall|i: int| 0 <= i < first_bad_condition(parsed) implies (
        #[trigger] parsed[i]) is Ok by {
            if i > 0 {
                assert(t[i - 1] == parsed[i]);
            }
        }
        if first_bad_condition(parsed) < parsed.len() {
            assert(t[first_bad_condition(t)] == parsed[first_bad_condition(parsed)]);
        }
    }
}

/// Why an enricher is refused, if so: the first pattern of an extractor that does not
/// compile, else the first condition of a rule that does not parse.
pub open spec fn refusal(
    enricher: EnricherView,
    rules: Seq<RuleConfig>,
    parsed: Seq<Result<(), String>>,
) -> Option<Seq<char>> {
    let e = first_bad_pattern(enricher.extractors);
    let c = first_bad_condition(parsed);
    if e < enricher.extractors.len() {
        Some(
            "Enricher '"@ + enricher.id + "' has invalid regex in extractor '"@
                + enricher.extractors[e].id@ + "': "@ + interop::regex_error(
                enricher.extractors[e].pattern@,
            )->0,
        )
    } else if c < parsed.len() {
        Some(
            "Enricher '"@ + enricher.id + "' has invalid rule '"@ + rules[c].id@ + "' condition '"@
                + rules[c].condition@ + "': "@ + parsed[c]->Err_0@,
        )
    } else {
        None
    }
}

/// Whether an enricher may be kept. How the rules engine parses the conditions of the
/// rules comes with the call.
pub fn validate(import: &Import, parsed: &Vec<Result<(), String>>) -> (r: Result<(), DomainError>)
    requires
        parsed@.len() == import.rules@.len(),
    ensures
        match r {
            Ok(_) => refusal(import.enricher@, import.rules@, parsed@) is None,
            Err(DomainError::Validation(m)) => refusal(import.enricher@, import.rules@, parsed@)
                == Some(m@),
            Err(_) => false,
        },
        r is Ok <==> {
            &&& forall|i: int|
                0 <= i < import.enricher.extractors@.len() ==> (
                #[trigger] import.enricher.extractors@[i]).extractor_type@ == "regex"@
                    ==> interop::regex_error(import.enricher.extractors@[i].pattern@) is None
            &&& forall|i: int| 0 <= i < parsed@.len() ==> (#[trigger] parsed@[i]) is Ok
        },
        r is Err ==> r->Err_0 is Validation && ({
            let said = r->Err_0->Validation_0@;
            let extractors = import.enricher.extractors@;
            ||| exists|i: int|
                {
                    &&& 0 <= i < extractors.len()
                    &&& (#[trigger] extractors[i]).extractor_type@ == "regex"@
                    &&& interop::regex_error(extractors[i].pattern@) is Some
                    &&& said == "Enricher '"@ + import.enricher.id@
                        + "' has invalid regex in extractor '"@ + extractors[i].id@ + "': "@
                        + interop::regex_error(extractors[i].pattern@)->0
                }
            ||| exists|k: int|
                {
                    &&& 0 <= k < parsed@.len()
                    &&& (#[trigger] parsed@[k]) is Err
                    &&& forall|j: int| 0 <= j < k ==> (#[trigger] parsed@[j]) is Ok
                    &&& forall|j: int|
                        0 <= j < extractors.len() && (#[trigger] extractors[j]).extractor_type@
                            == "regex"@ ==> interop::regex_error(extractors[j].pattern@) is None
                    &&& said == "Enricher '"@ + import.enricher.id@ + "' has invalid rule '"@
                        + import.rules@[k].id@ + "' condition '"@ + import.rules@[k].condition@
                        + "': "@ + parsed@[k]->Err_0@
                }
        }),
{
    proof {
        law_refused_for_the_first_fault(import.enricher.extractors@, parsed@);
    }
    let ghost extractors = import.enricher.extractors@;
    let mut i: usize = 0;
    while i < import.enricher.extractors.len()
        invariant
            i <= extractors.len(),
            extractors == import.enricher.extractors@,
            forall|j: int| 0 <= j < i ==> !has_bad_pattern(#[trigger] extractors[j]),
        decreases extractors.len() - i,
    {
        let extractor = &import.enricher.extractors[i];
        if str_eq(extractor.extractor_type.as_str(), "regex") {
            match check_regex(extractor.pattern.as_str()) {
                Ok(_) => {},
                Err(e) => {
                    proof {
                        lemma_first_bad_pattern(extractors, i as int);
                    }
                    let head = concat4(
                        "Enricher '",
                        import.enricher.id.as_str(),
                        "' has invalid regex in extractor '",
                        extractor.id.as_str(),
                    );
                    let tail = concat2("': ", e.as_str());
                    let message = concat2(head.as_str(), tail.as_str());
                    assert(message@ =~= "Enricher '"@ + import.enricher@.id
                        + "' has invalid regex in extractor '"@ + extractor.id@ + "': "@ + e@);
                    assert(extractors[i as int] == *extractor);
                    return Err(DomainError::Validation(message));
                },
            }
        }
        i = i + 1;
    }
    proof {
        lemma_first_bad_pattern(extractors, i as int);
    }
    let mut k: usize = 0;
    while k < import.rules.len()
        invariant
            k <= parsed@.len(),
            parsed@.len() == import.rules@.len(),
            first_bad_pattern(import.enricher.extractors@) == import.enricher.extractors@.len(),
            forall|j: int| 0 <= j < k ==> (#[trigger] parsed@[j]) is Ok,
        decreases parsed@.len() - k,
    {
        match &parsed[k] {
            Ok(_) => {},
            Err(e) => {
                proof {
                    lemma_first_bad_condition(parsed@, k as int);
                    law_refused_for_the_first_fault(import.enricher.extractors@, parsed@);
                    assert(parsed@[k as int] is Err && parsed@[k as int]->Err_0 == *e);
                }
                let rule = &import.rules[k];
                let head = concat4(
                    "Enricher '",
                    import.enricher.id.as_str(),
                    "' has invalid rule '",
                    rule.id.as_str(),
                );
                let tail = concat4("' condition '", rule.condition.as_str(), "': ", e.as_str());
                let message = concat2(head.as_str(), tail.as_str());
                assert(message@ =~= "Enricher '"@ + import.enricher@.id + "' has invalid rule '"@
                    + rule.id@ + "' condition '"@ + rule.condition@ + "': "@ + e@);
                return Err(DomainError::Validation(message));
            },
        }
        k = k + 1;
    }
    proof {
        lemma_first_bad_condition(parsed@, k as int);
    }
    Ok(())
}

/// What a file is that could not be parsed.
pub open spec fn parse_error(format: FileFormat, error: Seq<char>) -> Seq<char> {
    match format {
        FileFormat::Yaml => "YAML parse error: YAML parse error: "@ + error,
        FileFormat::Toml => "TOML parse error: TOML parse error: "@ + error,
    }
}

/// What is to be kept of an enricher file, from what its text was parsed as. A file
/// that did not parse is not tried in the other format.
pub fn import_file(format: FileFormat, parsed: Result<EnricherFile, String>) -> (r: Result<
    Import,
    DomainError,
>)
    ensures
        match r {
            Ok(import) => {
                &&& parsed matches Ok(file)
                &&& import.enricher@ == enricher_of(file)
                &&& are_rules_of(import.rules@, file.rules@, file.id@)
            },
            Err(e) => {
                &&& parsed matches Err(m)
                &&& e@ == DomainErrorView::Internal(parse_error(format, m@))
            },
        },
        parsed matches Err(m) ==> (format is Yaml ==> r->Err_0@ == DomainErrorView::Internal(
            "YAML parse error: YAML parse error: "@ + m@,
        )),
        parsed matches Err(m) ==> (format is Toml ==> r->Err_0@ == DomainErrorView::Internal(
            "TOML parse error: TOML parse error: "@ + m@,
        )),
        parsed matches Ok(file) ==> {
            &&& r->Ok_0.enricher.id@ == file.id@
            &&& r->Ok_0.enricher.match_patterns == file.match_patterns
            &&& r->Ok_0.enricher.extractors == file.extractors
            &&& r->Ok_0.enricher.enabled == file.enabled
            &&& r->Ok_0.rules@.len() == file.rules@.len()
        },
{
    match parsed {
        Ok(file) => Ok(from_file(file)),
        Err(e) => match format {
            FileFormat::Yaml => Err(
                DomainError::Internal(concat2("YAML parse error: YAML parse error: ", e.as_str())),
            ),
            FileFormat::Toml => Err(
                DomainError::Internal(concat2("TOML parse error: TOML parse error: ", e.as_str())),
            ),
        },
    }
}

} // verus!
