//! The rows in which experiences are kept.
use vstd::prelude::*;

use crate::domain::{DomainError, Timestamp};
use crate::interop;
use crate::interop::{is_json, parse_rfc3339, write_rfc3339};
use crate::text::{concat2, concat4};

verus! {

/// What became of one run of a tool.
#[derive(Debug)]
pub struct ExperienceRecord {
    pub id: String,
    pub trace_id: Option<String>,
    pub tool_name: String,
    pub sandbox_id: Option<String>,
    pub started_at: Timestamp,
    pub finished_at: Option<Timestamp>,
    pub exit_code: Option<i32>,
    pub stdout_summary: String,
    pub stderr_summary: String,
    /// The name of the status, in lower case.
    pub status: String,
    /// A JSON document.
    pub metadata: String,
}

/// An experience as the database holds it.
#[derive(Debug)]
pub struct ExperienceRow {
    pub id: String,
    pub trace_id: Option<String>,
    pub tool: String,
    pub sandbox_id: Option<String>,
    pub started_at: String,
    pub ended_at: Option<String>,
    pub exit_code: Option<i32>,
    pub stdout_summary: String,
    pub stderr_summary: String,
    pub status: String,
    pub metadata: String,
}

/// Why a row cannot be read, if so. The first fault counts: the status that is not
/// known, the start, the end.
pub open spec fn row_error(row: ExperienceRow, status: Result<(), String>) -> Option<Seq<char>> {
    match status {
        Err(e) => Some("Failed to parse status '"@ + row.status@ + "': "@ + e@),
        Ok(_) => match interop::rfc3339_value(row.started_at@) {
            Err(e) => Some("Failed to parse started_at: "@ + e),
            Ok(_) => match row.ended_at {
                None => None,
                Some(t) => match interop::rfc3339_value(t@) {
                    Err(e) => Some("Failed to parse ended_at: "@ + e),
                    Ok(_) => None,
                },
            },
        },
    }
}

/// The metadata of a row: an empty document where the column holds none.
pub open spec fn metadata_of(column: Seq<char>) -> Seq<char> {
    if interop::json_readable(column) {
        column
    } else {
        "{}"@
    }
}

/// Whether a record is the one that a row holds.
pub open spec fn is_record_of(record: ExperienceRecord, row: ExperienceRow) -> bool {
    &&& record.id@ == row.id@
    &&& record.trace_id == row.trace_id
    &&& record.tool_name@ == row.tool@
    &&& record.sandbox_id == row.sandbox_id
    &&& interop::reads_as_time(row.started_at@, record.started_at)
    &&& match (row.ended_at, record.finished_at) {
        (None, None) => true,
        (Some(text), Some(t)) => interop::reads_as_time(text@, t),
        _ => false,
    }
    &&& record.exit_code == row.exit_code
    &&& record.stdout_summary@ == row.stdout_summary@
    &&& record.stderr_summary@ == row.stderr_summary@
    &&& record.status@ == row.status@
    &&& record.metadata@ == metadata_of(row.metadata@)
}

/// What is read from the row of a record is the record: two records that one row holds, the
/// one that was kept and the one that comes back, are the same.
pub proof fn law_kept_experience_reads_back(
    kept: ExperienceRecord,
    row: ExperienceRow,
    read: ExperienceRecord,
)
    requires
        is_record_of(kept, row),
        is_record_of(read, row),
    ensures
        read.id@ == kept.id@,
        read.trace_id == kept.trace_id,
        read.tool_name@ == kept.tool_name@,
        read.sandbox_id == kept.sandbox_id,
        read.started_at == kept.started_at,
        read.finished_at == kept.finished_at,
        read.exit_code == kept.exit_code,
        read.stdout_summary@ == kept.stdout_summary@,
        read.stderr_summary@ == kept.stderr_summary@,
        read.status@ == kept.status@,
        read.metadata@ == kept.metadata@,
{
}

/// The record that a row holds. Whether its status is one that is known comes with it.
pub fn row_to_experience(row: ExperienceRow, status: Result<(), String>) -> (r: Result<
    ExperienceRecord,
    DomainError,
>)
    ensures
        match r {
            Ok(record) => row_error(row, status) is None && is_record_of(record, row),
            Err(DomainError::Internal(m)) => row_error(row, status) == Some(m@),
            Err(_) => false,
        },
        r is Ok <==> status is Ok && interop::rfc3339_value(row.started_at@) is Ok && (row.ended_at
            is Some ==> interop::rfc3339_value(row.ended_at->0@) is Ok),
        r matches Ok(record) ==> {
            &&& record.id@ == row.id@
            &&& record.trace_id == row.trace_id
            &&& record.tool_name@ == row.tool@
            &&& record.sandbox_id == row.sandbox_id
            &&& record.exit_code == row.exit_code
            &&& record.stdout_summary@ == row.stdout_summary@
            &&& record.stderr_summary@ == row.stderr_summary@
            &&& record.status@ == row.status@
            &&& interop::json_readable(row.metadata@) ==> record.metadata@ == row.metadata@
            &&& !interop::json_readable(row.metadata@) ==> record.metadata@ == "{}"@
            &&& interop::rfc3339_value(row.started_at@) == Ok::<(i64, u32), Seq<char>>(
                (record.started_at.secs, record.started_at.nanos),
            )
            &&& record.finished_at is Some <==> row.ended_at is Some
            &&& row.ended_at is Some ==> interop::rfc3339_value(row.ended_at->0@) == Ok::<
                (i64, u32),
                Seq<char>,
            >((record.finished_at->0.secs, record.finished_at->0.nanos))
        },
        r is Err ==> r->Err_0 is Internal && ({
            let said = r->Err_0->Internal_0@;
            let started = interop::rfc3339_value(row.started_at@);
            &&& status matches Err(e) ==> said == "Failed to parse status '"@ + row.status@
                + "': "@ + e@
            &&& status is Ok && started is Err ==> said == "Failed to parse started_at: "@
                + started->Err_0
            &&& status is Ok && started is Ok ==> said == "Failed to parse ended_at: "@
                + interop::rfc3339_value(row.ended_at->0@)->Err_0
        }),
{
    match status {
        Err(e) => {
            return Err(
                DomainError::Internal(
                    concat4("Failed to parse status '", row.status.as_str(), "': ", e.as_str()),
                ),
            );
        },
        Ok(_) => {},
    }
    let metadata = if is_json(row.metadata.as_str()) {
        row.metadata
    } else {
        "{}".to_owned()
    };
    let started_at = match parse_rfc3339(row.started_at.as_str()) {
        Ok(t) => t,
        Err(e) => {
            return Err(
                DomainError::Internal(concat2("Failed to parse started_at: ", e.as_str())),
            );
        },
    };
    let finished_at: Option<Timestamp> = match row.ended_at {
        None => None,
        Some(text) => match parse_rfc3339(text.as_str()) {
            Ok(t) => Some(t),
            Err(e) => {
                return Err(
                    DomainError::Internal(concat2("Failed to parse ended_at: ", e.as_str())),
                );
            },
        },
    };
    Ok(
        ExperienceRecord {
            id: row.id,
            trace_id: row.trace_id,
            tool_name: row.tool,
            sandbox_id: row.sandbox_id,
            started_at,
            finished_at,
            exit_code: row.exit_code,
            stdout_summary: row.stdout_summary,
            stderr_summary: row.stderr_summary,
            status: row.status,
            metadata,
        },
    )
}

/// A row as it was read, and whether its status is one that is known.
#[derive(Debug)]
pub struct ReadRow {
    pub row: ExperienceRow,
    pub status: Result<(), String>,
}

/// The place of the first row that cannot be read, or the number of rows.
pub open spec fn first_bad(rows: Seq<ReadRow>) -> int
    decreases rows.len(),
{
    if rows.len() == 0 || row_error(rows[0].row, rows[0].status) is Some {
        0
    } else {
        1 + first_bad(rows.drop_first())
    }
}

proof fn lemma_first_bad(rows: Seq<ReadRow>, i: int)
    requires
        0 <= i <= rows.len(),
        forall|j: int| 0 <= j < i ==> row_error((#[trigger] rows[j]).row, rows[j].status) is None,
        i < rows.len() ==> row_error(rows[i].row, rows[i].status) is Some,
    ensures
        first_bad(rows) == i,
    decreases rows.len(),
{
    if i > 0 {
        assert(row_error(rows[0].row, rows[0].status) is None);
        let t = rows.drop_first();
        assert forall|j: int| 0 <= j < i - 1 implies row_error(
            (#[trigger] t[j]).row,
            t[j].status,
        ) is None by {
            assert(t[j] == rows[j + 1]);
        }
        lemma_first_bad(t, i - 1);
    }
}

/// Rows are refused because of the first that cannot be read: all before it can be.
pub proof fn law_first_fault_counts(rows: Seq<ReadRow>)
    ensures
        0 <= first_bad(rows) <= rows.len(),
        forall|j: int|
            0 <= j < first_bad(rows) ==> row_error((#[trigger] rows[j]).row, rows[j].status)
                is None,
        first_bad(rows) < rows.len() ==> row_error(
            rows[first_bad(rows)].row,
            rows[first_bad(rows)].status,
        ) is Some,
    decreases rows.len(),
{
    if rows.len() > 0 && row_error(rows[0].row, rows[0].status) is None {
        let t = rows.drop_first();
        law_first_fault_counts(t);
        assert forall|j: int| 0 <= j < first_bad(rows) implies row_error(
            (#[trigger] rows[j]).row,
            rows[j].status,
        ) is None by {
            if j > 0 {
                assert(t[j - 1] == rows[j]);
            }
        }
        if first_bad(rows) < rows.len() {
            assert(t[first_bad(t)] == rows[first_bad(rows)]);
        }
    }
}

/// The records of the rows in their order, or the error of the first row that cannot
/// be read.
pub fn rows_to_experiences(rows: Vec<ReadRow>) -> (r: Result<Vec<ExperienceRecord>, DomainError>)
    ensures
        match r {
            Ok(records) => {
                &&& first_bad(rows@) == rows@.len()
                &&& records@.len() == rows@.len()
                &&& forall|i: int|
                    0 <= i < rows@.len() ==> is_record_of(#[trigger] records@[i], rows@[i].row)
            },
            Err(DomainError::Internal(m)) => {
                &&& first_bad(rows@) < rows@.len()
                &&& row_error(rows@[first_bad(rows@)].row, rows@[first_bad(rows@)].status) == Some(
                    m@,
                )
            },
            Err(_) => false,
        },
{
    let ghost all = rows@;
    let mut records: Vec<ExperienceRecord> = Vec::new();
    for entry in it: rows
        invariant
            it.seq() == all,
            records@.len() == it.index(),
            forall|j: int|
                0 <= j < it.index() ==> row_error((#[trigger] all[j]).row, all[j].status) is None,
            forall|j: int|
                0 <= j < it.index() ==> is_record_of(#[trigger] records@[j], all[j].row),
    {
        let ghost i = it.index() as int;
        match row_to_experience(entry.row, entry.status) {
            Ok(record) => {
                records.push(record);
            },
            Err(e) => {
                proof {
                    lemma_first_bad(all, i);
                }
                return Err(e);
            },
        }
    }
    proof {
        lemma_first_bad(all, all.len() as int);
    }
    Ok(records)
}

/// Whether a row holds what a record says.
pub open spec fn is_row_of(row: ExperienceRow, record: ExperienceRecord) -> bool {
    &&& row.id@ == record.id@
    &&& row.trace_id == record.trace_id
    &&& row.tool@ == record.tool_name@
    &&& row.sandbox_id == record.sandbox_id
    &&& interop::rfc3339_text(record.started_at.secs, record.started_at.nanos) == Some(row.started_at@)
    &&& match (record.finished_at, row.ended_at) {
        (None, None) => true,
        (Some(t), Some(text)) => interop::rfc3339_text(t.secs, t.nanos) == Some(text@),
        _ => false,
    }
    &&& row.exit_code == record.exit_code
    &&& row.stdout_summary@ == record.stdout_summary@
    &&& row.stderr_summary@ == record.stderr_summary@
    &&& row.status@ == record.status@
    &&& row.metadata@ == record.metadata@
}

/// Whether the points in time of a record can be written.
pub open spec fn times_writable(record: ExperienceRecord) -> bool {
    &&& interop::rfc3339_text(record.started_at.secs, record.started_at.nanos) is Some
    &&& match record.finished_at {
        None => true,
        Some(t) => interop::rfc3339_text(t.secs, t.nanos) is Some,
    }
}

/// Whether the points in time of a record lie in years of four digits.
pub open spec fn times_ordinary(record: ExperienceRecord) -> bool {
    &&& interop::four_digit_year(record.started_at)
    &&& match record.finished_at {
        None => true,
        Some(t) => interop::four_digit_year(t),
    }
}

/// The row in which a record is kept; none where one of its points in time cannot be
/// written. Where they lie in years of four digits and the metadata is a document,
/// reading the row gives the record back.
pub fn experience_to_row(record: &ExperienceRecord) -> (r: Option<ExperienceRow>)
    ensures
        match r {
            Some(row) => times_writable(*record) && is_row_of(row, *record),
            None => !times_writable(*record),
        },
        times_ordinary(*record) && interop::json_readable(record.metadata@) ==> match r {
            Some(row) => row_error(row, Ok(())) is None && is_record_of(*record, row),
            None => false,
        },
        r matches Some(row) ==> {
            &&& row.id@ == record.id@
            &&& row.trace_id == record.trace_id
            &&& row.tool@ == record.tool_name@
            &&& row.sandbox_id == record.sandbox_id
            &&& row.exit_code == record.exit_code
            &&& row.stdout_summary@ == record.stdout_summary@
            &&& row.stderr_summary@ == record.stderr_summary@
            &&& row.status@ == record.status@
            &&& row.metadata@ == record.metadata@
            &&& row.ended_at is Some <==> record.finished_at is Some
        },
{
    let started_at = match write_rfc3339(record.started_at) {
        Some(s) => s,
        None => {
            return None;
        },
    };
    let ended_at: Option<String> = match record.finished_at {
        None => None,
        Some(t) => match write_rfc3339(t) {
            Some(s) => Some(s),
            None => {
                return None;
            },
        },
    };
    let trace_id: Option<String> = match &record.trace_id {
        Some(s) => Some(s.clone()),
        None => None,
    };
    let sandbox_id: Option<String> = match &record.sandbox_id {
        Some(s) => Some(s.clone()),
        None => None,
    };
    Some(
        ExperienceRow {
            id: record.id.clone(),
            trace_id,
            tool: record.tool_name.clone(),
            sandbox_id,
            started_at,
            ended_at,
            exit_code: record.exit_code,
            stdout_summary: record.stdout_summary.clone(),
            stderr_summary: record.stderr_summary.clone(),
            status: record.status.clone(),
            metadata: record.metadata.clone(),
        },
    )
}

} // verus!
