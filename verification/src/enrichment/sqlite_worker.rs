//! What the thread that owns the database of enrichment runs does with a command.
use vstd::prelude::*;

use crate::domain::Timestamp;
use crate::enrichment::adapter::{EnrichmentRunRecord, RunRecorderStats};
use crate::enrichment::config::RetentionConfig;

verus! {

/// A command for the thread.
#[derive(Debug)]
pub enum WorkerCommand {
    /// Keep a record.
    Record { run: EnrichmentRunRecord, sanitize: bool },
    /// Drop records that need not be kept.
    Cleanup { retention: RetentionConfig },
    /// Tell how many records there are.
    Stats,
    /// Read the records from a time on, or all.
    ReadRecords { after: Option<String> },
    /// Read the records of an enricher.
    ReadRecordsByEnricher { enricher_id: String },
    /// End.
    Shutdown,
}

/// Whether the thread goes on after a command.
pub fn goes_on(command: &WorkerCommand) -> (r: bool)
    ensures
        r == !(*command is Shutdown),
{
    !matches!(command, WorkerCommand::Shutdown)
}

/// The command line that is kept with a record: with its secrets taken out, where that
/// is asked for.
pub fn kept_command(run: &EnrichmentRunRecord, sanitize: bool, sanitized: String) -> (r: String)
    ensures
        r@ == (if sanitize {
            sanitized@
        } else {
            run.command@
        }),
{
    if sanitize {
        sanitized
    } else {
        run.command.clone()
    }
}

/// The numbers of a record as the database holds them.
#[derive(Debug, Clone, Copy, PartialEq, Eq, Structural)]
pub struct RunNumbers {
    pub duration_ms: i64,
    pub facts_count: i32,
    pub derived_facts_count: i32,
    pub rule_hits_count: i32,
    pub diagnostics_count: i32,
    pub artifact_count: i32,
    pub recommendation_count: i32,
}

/// An unsigned number in the column of a signed one: one that is too large wraps
/// around.
pub open spec fn as_column(n: u32) -> int {
    if n > i32::MAX {
        n - 0x1_0000_0000
    } else {
        n as int
    }
}

/// An unsigned number of 64 bits in the column of a signed one.
pub open spec fn as_long_column(n: u64) -> int {
    if n > i64::MAX {
        n - 0x1_0000_0000_0000_0000
    } else {
        n as int
    }
}

fn to_column(n: u32) -> (r: i32)
    ensures
        r == as_column(n),
{
    let r: i32 = #[verifier::truncate]
    (n as i32);
    assert(n <= 0x7fff_ffff ==> (n as i32) == n) by (bit_vector);
    assert(n > 0x7fff_ffff ==> (n as i32) == n - 0x1_0000_0000) by (bit_vector);
    r
}

fn to_long_column(n: u64) -> (r: i64)
    ensures
        r == as_long_column(n),
{
    let r: i64 = #[verifier::truncate]
    (n as i64);
    assert(n <= 0x7fff_ffff_ffff_ffff ==> (n as i64) == n) by (bit_vector);
    assert(n > 0x7fff_ffff_ffff_ffff ==> (n as i64) == n - 0x1_0000_0000_0000_0000)
        by (bit_vector);
    r
}

fn from_column(c: i32) -> (r: u32)
    ensures
        as_column(r) == c,
{
    let r: u32 = #[verifier::truncate]
    (c as u32);
    assert(c >= 0 ==> (c as u32) == c) by (bit_vector);
    assert(c < 0 ==> (c as u32) == c + 0x1_0000_0000) by (bit_vector);
    r
}

fn from_long_column(c: i64) -> (r: u64)
    ensures
        as_long_column(r) == c,
{
    let r: u64 = #[verifier::truncate]
    (c as u64);
    assert(c >= 0 ==> (c as u64) == c) by (bit_vector);
    assert(c < 0 ==> (c as u64) == c + 0x1_0000_0000_0000_0000) by (bit_vector);
    r
}

/// Whether the numbers are those of a record.
pub open spec fn are_numbers_of(n: RunNumbers, run: EnrichmentRunRecord) -> bool {
    &&& n.duration_ms == as_long_column(run.duration_ms)
    &&& n.facts_count == as_column(run.facts_count)
    &&& n.derived_facts_count == as_column(run.derived_facts_count)
    &&& n.rule_hits_count == as_column(run.rule_hits_count)
    &&& n.diagnostics_count == as_column(run.diagnostics_count)
    &&& n.artifact_count == as_column(run.artifact_count)
    &&& n.recommendation_count == as_column(run.recommendation_count)
}

/// The numbers of a record as the database holds them.
pub fn run_numbers(run: &EnrichmentRunRecord) -> (r: RunNumbers)
    ensures
        are_numbers_of(r, *run),
        run.duration_ms <= i64::MAX ==> r.duration_ms == run.duration_ms,
        run.duration_ms > i64::MAX ==> r.duration_ms == run.duration_ms - 0x1_0000_0000_0000_0000,
        run.facts_count <= i32::MAX ==> r.facts_count == run.facts_count,
        run.derived_facts_count <= i32::MAX ==> r.derived_facts_count == run.derived_facts_count,
        run.rule_hits_count <= i32::MAX ==> r.rule_hits_count == run.rule_hits_count,
        run.diagnostics_count <= i32::MAX ==> r.diagnostics_count == run.diagnostics_count,
        run.artifact_count <= i32::MAX ==> r.artifact_count == run.artifact_count,
        run.recommendation_count <= i32::MAX ==> r.recommendation_count
            == run.recommendation_count,
        run.facts_count > i32::MAX ==> r.facts_count == run.facts_count - 0x1_0000_0000,
{
    RunNumbers {
        duration_ms: to_long_column(run.duration_ms),
        facts_count: to_column(run.facts_count),
        derived_facts_count: to_column(run.derived_facts_count),
        rule_hits_count: to_column(run.rule_hits_count),
        diagnostics_count: to_column(run.diagnostics_count),
        artifact_count: to_column(run.artifact_count),
        recommendation_count: to_column(run.recommendation_count),
    }
}

/// The texts of a record as the database holds them, and its other columns.
#[derive(Debug)]
pub struct RunTexts {
    pub id: String,
    pub timestamp: String,
    pub command: String,
    pub enricher_id: String,
    pub exit_code: i32,
    pub output_summary_stdout: Option<String>,
    pub output_summary_stderr: Option<String>,
    pub confidence_avg_bits: u64,
    pub verdict: Option<String>,
    pub error: Option<String>,
}

/// The record of a row.
pub fn row_to_record(texts: RunTexts, numbers: RunNumbers) -> (r: EnrichmentRunRecord)
    ensures
        are_numbers_of(numbers, r),
        numbers.duration_ms >= 0 ==> r.duration_ms == numbers.duration_ms,
        numbers.facts_count >= 0 ==> r.facts_count == numbers.facts_count,
        numbers.derived_facts_count >= 0 ==> r.derived_facts_count == numbers.derived_facts_count,
        numbers.rule_hits_count >= 0 ==> r.rule_hits_count == numbers.rule_hits_count,
        numbers.diagnostics_count >= 0 ==> r.diagnostics_count == numbers.diagnostics_count,
        numbers.artifact_count >= 0 ==> r.artifact_count == numbers.artifact_count,
        numbers.recommendation_count >= 0 ==> r.recommendation_count
            == numbers.recommendation_count,
        r.id == texts.id,
        r.timestamp == texts.timestamp,
        r.command == texts.command,
        r.enricher_id == texts.enricher_id,
        r.exit_code == texts.exit_code,
        r.output_summary_stdout == texts.output_summary_stdout,
        r.output_summary_stderr == texts.output_summary_stderr,
        r.confidence_avg_bits == texts.confidence_avg_bits,
        r.verdict == texts.verdict,
        r.error == texts.error,
{
    EnrichmentRunRecord {
        id: texts.id,
        timestamp: texts.timestamp,
        command: texts.command,
        enricher_id: texts.enricher_id,
        exit_code: texts.exit_code,
        duration_ms: from_long_column(numbers.duration_ms),
        output_summary_stdout: texts.output_summary_stdout,
        output_summary_stderr: texts.output_summary_stderr,
        facts_count: from_column(numbers.facts_count),
        derived_facts_count: from_column(numbers.derived_facts_count),
        rule_hits_count: from_column(numbers.rule_hits_count),
        diagnostics_count: from_column(numbers.diagnostics_count),
        artifact_count: from_column(numbers.artifact_count),
        confidence_avg_bits: texts.confidence_avg_bits,
        verdict: texts.verdict,
        recommendation_count: from_column(numbers.recommendation_count),
        error: texts.error,
    }
}

/// The numbers of a record are read as they were written, also where they wrap around
/// in their columns.
pub proof fn law_numbers_read_back(
    n: RunNumbers,
    written: EnrichmentRunRecord,
    read: EnrichmentRunRecord,
)
    requires
        are_numbers_of(n, written),
        are_numbers_of(n, read),
    ensures
        read.duration_ms == written.duration_ms,
        read.facts_count == written.facts_count,
        read.derived_facts_count == written.derived_facts_count,
        read.rule_hits_count == written.rule_hits_count,
        read.diagnostics_count == written.diagnostics_count,
        read.artifact_count == written.artifact_count,
        read.recommendation_count == written.recommendation_count,
{
}

/// The time before which records are dropped; none where records are not dropped.
pub fn cleanup_cutoff(retention: &RetentionConfig, now: Timestamp) -> (r: Option<Timestamp>)
    requires
        now.secs - retention.max_age_days * 86_400 >= i64::MIN,
    ensures
        match r {
            Some(t) => {
                &&& retention.enabled
                &&& t.secs == now.secs - retention.max_age_days * 86_400
                &&& t.nanos == now.nanos
            },
            None => !retention.enabled,
        },
{
    if !retention.enabled {
        return None;
    }
    let age: i64 = retention.max_age_days as i64 * 86_400;
    Some(Timestamp { secs: now.secs - age, nanos: now.nanos })
}

/// How many records there are beyond the most that are kept: so many of the oldest are
/// dropped.
pub fn rows_over_limit(row_count: u64, max_rows: u64) -> (r: u64)
    ensures
        r == (if row_count > max_rows {
            row_count - max_rows
        } else {
            0
        }),
        row_count - r <= max_rows,
{
    row_count.saturating_sub(max_rows)
}

/// How many records there are, and the times of the oldest and the newest: none, where
/// there are no records.
pub fn stats(row_count: u64, oldest: Option<String>, newest: Option<String>) -> (r:
    RunRecorderStats)
    ensures
        r.current_row_count == row_count,
        r.oldest_record_ts == (if row_count == 0 {
            None
        } else {
            oldest
        }),
        r.newest_record_ts == (if row_count == 0 {
            None
        } else {
            newest
        }),
{
    if row_count == 0 {
        return RunRecorderStats::empty();
    }
    RunRecorderStats {
        current_row_count: row_count,
        oldest_record_ts: oldest,
        newest_record_ts: newest,
    }
}

} // verus!
