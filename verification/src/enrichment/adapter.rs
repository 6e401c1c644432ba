//! What an enrichment makes of a command's output, and the record that it leaves.
use vstd::prelude::*;

use crate::domain::{clone_pairs, CommandResult, CommandSpec, Pair, Timestamp};
use crate::enrichment::config::{EnrichmentConfig, RetentionConfig};
use crate::enrichment::models::Fact;
use crate::evaluation::legacy_cel_shim::OperationResult;
use crate::interop;
use crate::interop::{new_uuid, write_rfc3339};
use crate::text;
use crate::text::{chars_of, clone_option, clone_strings, from_utf8_lossy, slice_string, str_eq};

verus! {

/// A command as the enrichers see it.
#[derive(Debug)]
pub struct OperationInvocation {
    pub command: String,
    pub args: Vec<String>,
    pub working_dir: Option<String>,
    pub env_vars: Vec<Pair>,
}

/// What the enrichers found out.
#[derive(Debug)]
pub struct AgentContext {
    pub facts: Vec<Fact>,
    pub artifacts: Vec<String>,
    pub verdict: Option<String>,
    pub recommendations: Option<Vec<String>>,
    pub enricher_id: String,
}

/// The record of one enrichment.
#[derive(Debug)]
pub struct EnrichmentRunRecord {
    pub id: String,
    pub timestamp: String,
    pub command: String,
    pub enricher_id: String,
    pub exit_code: i32,
    pub duration_ms: u64,
    pub output_summary_stdout: Option<String>,
    pub output_summary_stderr: Option<String>,
    pub facts_count: u32,
    pub derived_facts_count: u32,
    pub rule_hits_count: u32,
    pub diagnostics_count: u32,
    pub artifact_count: u32,
    /// The bits of the average confidence, a number of double precision.
    pub confidence_avg_bits: u64,
    pub verdict: Option<String>,
    pub recommendation_count: u32,
    pub error: Option<String>,
}

impl Clone for EnrichmentRunRecord {
    fn clone(&self) -> (r: Self)
        ensures
            r == *self,
    {
        EnrichmentRunRecord {
            id: self.id.clone(),
            timestamp: self.timestamp.clone(),
            command: self.command.clone(),
            enricher_id: self.enricher_id.clone(),
            exit_code: self.exit_code,
            duration_ms: self.duration_ms,
            output_summary_stdout: clone_option(&self.output_summary_stdout),
            output_summary_stderr: clone_option(&self.output_summary_stderr),
            facts_count: self.facts_count,
            derived_facts_count: self.derived_facts_count,
            rule_hits_count: self.rule_hits_count,
            diagnostics_count: self.diagnostics_count,
            artifact_count: self.artifact_count,
            confidence_avg_bits: self.confidence_avg_bits,
            verdict: clone_option(&self.verdict),
            recommendation_count: self.recommendation_count,
            error: clone_option(&self.error),
        }
    }
}

/// How long the records are kept, and how many there are.
#[derive(Debug)]
pub struct RetentionStats {
    pub max_age_days: u32,
    pub max_rows: u64,
    pub enabled: bool,
    pub sanitize: bool,
    /// The number of records, where it is known.
    pub current_row_count: Option<u64>,
    /// The time of the oldest record, where there is one.
    pub oldest_record_ts: Option<String>,
    /// The time of the newest record, where there is one.
    pub newest_record_ts: Option<String>,
}

/// How many records there are, and the times of the oldest and the newest.
#[derive(Debug)]
pub struct RunRecorderStats {
    pub current_row_count: u64,
    pub oldest_record_ts: Option<String>,
    pub newest_record_ts: Option<String>,
}

impl RunRecorderStats {
    /// No records.
    pub fn empty() -> (r: Self)
        ensures
            r == (RunRecorderStats {
                current_row_count: 0,
                oldest_record_ts: None,
                newest_record_ts: None,
            }),
    {
        RunRecorderStats {
            current_row_count: 0,
            oldest_record_ts: None,
            newest_record_ts: None,
        }
    }
}

/// How long records are kept and how many there are. Where the numbers could not be
/// had, the rest is told without them.
pub fn retention_info(config: &RetentionConfig, stats: Result<RunRecorderStats, String>) -> (r:
    RetentionStats)
    ensures
        r.max_age_days == config.max_age_days,
        r.max_rows == config.max_rows,
        r.enabled == config.enabled,
        r.sanitize == config.sanitize,
        match stats {
            Ok(s) => {
                &&& r.current_row_count == Some(s.current_row_count)
                &&& r.oldest_record_ts == s.oldest_record_ts
                &&& r.newest_record_ts == s.newest_record_ts
            },
            Err(_) => {
                &&& r.current_row_count is None
                &&& r.oldest_record_ts is None
                &&& r.newest_record_ts is None
            },
        },
{
    match stats {
        Ok(s) => RetentionStats {
            max_age_days: config.max_age_days,
            max_rows: config.max_rows,
            enabled: config.enabled,
            sanitize: config.sanitize,
            current_row_count: Some(s.current_row_count),
            oldest_record_ts: s.oldest_record_ts,
            newest_record_ts: s.newest_record_ts,
        },
        Err(_) => RetentionStats {
            max_age_days: config.max_age_days,
            max_rows: config.max_rows,
            enabled: config.enabled,
            sanitize: config.sanitize,
            current_row_count: None,
            oldest_record_ts: None,
            newest_record_ts: None,
        },
    }
}

/// A text cut to a number of characters, with an ellipsis where something is cut off;
/// none for an empty text.
pub open spec fn cut(s: Seq<char>, max: nat) -> Option<Seq<char>> {
    if s.len() == 0 {
        None
    } else if s.len() <= max {
        Some(s)
    } else {
        Some(s.take(max as int).push('\u{2026}'))
    }
}

/// A text cut to a number of characters.
pub fn truncate_string(s: &str, max: usize) -> (r: Option<String>)
    ensures
        match r {
            Some(t) => cut(s@, max as nat) == Some(t@),
            None => cut(s@, max as nat) is None,
        },
        r is None <==> s@.len() == 0,
        0 < s@.len() <= max ==> r->0@ == s@,
        s@.len() > max && s@.len() > 0 ==> r->0@.len() == max + 1 && r->0@.drop_last() == s@.take(
            max as int,
        ) && r->0@.last() == '\u{2026}',
{
    let cs = chars_of(s);
    if cs.len() == 0 {
        None
    } else if cs.len() <= max {
        assert(cs@.subrange(0, cs@.len() as int) =~= s@);
        Some(slice_string(cs.as_slice(), 0, cs.len()))
    } else {
        let mut out = slice_string(cs.as_slice(), 0, max);
        out.push('\u{2026}');
        assert(out@ =~= s@.take(max as int).push('\u{2026}'));
        assert(out@.drop_last() =~= s@.take(max as int));
        Some(out)
    }
}

/// The number of facts that a rule derived.
pub open spec fn derived(facts: Seq<Fact>) -> nat
    decreases facts.len(),
{
    if facts.len() == 0 {
        0
    } else {
        derived(facts.drop_last()) + (if facts.last().source_extractor@ == "rule"@ {
            1nat
        } else {
            0nat
        })
    }
}

/// The number of facts with the tag of a diagnostic.
pub open spec fn diagnostics(facts: Seq<Fact>) -> nat
    decreases facts.len(),
{
    if facts.len() == 0 {
        0
    } else {
        diagnostics(facts.drop_last()) + (if text::texts(facts.last().tags@).contains("diagnostic"@) {
            1nat
        } else {
            0nat
        })
    }
}

fn has_tag(tags: &Vec<String>, tag: &str) -> (r: bool)
    ensures
        r == text::texts(tags@).contains(tag@),
{
    let ghost all = text::texts(tags@);
    let mut i: usize = 0;
    while i < tags.len()
        invariant
            i <= tags@.len(),
            all == text::texts(tags@),
            forall|j: int| 0 <= j < i ==> #[trigger] all[j] != tag@,
        decreases tags@.len() - i,
    {
        if str_eq(tags[i].as_str(), tag) {
            assert(all[i as int] == tag@);
            return true;
        }
        i = i + 1;
    }
    false
}

/// What a record counts in what the enrichers found out.
pub struct Counts {
    pub facts: u32,
    pub derived: u32,
    pub diagnostics: u32,
    pub artifacts: u32,
    pub recommendations: u32,
    pub rule_hits: u32,
}

/// What a record counts in what the enrichers found out, cut to 32 bits; nothing where
/// they failed. A rule is taken to have hit where a derived fact, a recommendation or
/// a verdict is counted.
pub open spec fn counts(ctx: Option<AgentContext>) -> Counts {
    match ctx {
        None => Counts {
            facts: 0,
            derived: 0,
            diagnostics: 0,
            artifacts: 0,
            recommendations: 0,
            rule_hits: 0,
        },
        Some(c) => {
            let recommendations = match c.recommendations {
                Some(v) => v@.len() as u32,
                None => 0u32,
            };
            let from_rules = derived(c.facts@) as u32;
            Counts {
                facts: c.facts@.len() as u32,
                derived: from_rules,
                diagnostics: diagnostics(c.facts@) as u32,
                artifacts: c.artifacts@.len() as u32,
                recommendations,
                rule_hits: if from_rules > 0 || recommendations > 0 || c.verdict is Some {
                    1u32
                } else {
                    0u32
                },
            }
        },
    }
}

/// Whether a record is that of an enrichment.
pub open spec fn is_record(
    r: EnrichmentRunRecord,
    command: Seq<char>,
    result: OperationResult,
    ctx: Option<AgentContext>,
    elapsed_ms: u64,
    confidence_avg_bits: u64,
    error: Option<String>,
    now: Timestamp,
) -> bool {
    let n = counts(ctx);
    &&& interop::uuid_form(r.id@)
    &&& interop::rfc3339_text(now.secs, now.nanos) == Some(r.timestamp@)
    &&& r.command@ == (match cut(command, 500) {
        Some(t) => t,
        None => command,
    })
    &&& r.enricher_id@ == (match ctx {
        Some(c) => c.enricher_id@,
        None => Seq::empty(),
    })
    &&& r.exit_code == result.exit_code
    &&& r.duration_ms == elapsed_ms
    &&& is_cut(r.output_summary_stdout, result.stdout@)
    &&& is_cut(r.output_summary_stderr, result.stderr@)
    &&& r.facts_count == n.facts
    &&& r.derived_facts_count == n.derived
    &&& r.rule_hits_count == n.rule_hits
    &&& r.diagnostics_count == n.diagnostics
    &&& r.artifact_count == n.artifacts
    &&& r.confidence_avg_bits == confidence_avg_bits
    &&& r.verdict == (match ctx {
        Some(c) => c.verdict,
        None => None,
    })
    &&& r.recommendation_count == n.recommendations
    &&& r.error == error
}

/// Whether a summary is that of an output: its first 500 characters.
pub open spec fn is_cut(summary: Option<String>, output: Seq<char>) -> bool {
    match summary {
        Some(t) => cut(output, 500) == Some(t@),
        None => cut(output, 500) is None,
    }
}

/// The record of an enrichment; none where its time cannot be written. The average
/// confidence of the facts comes with the call.
pub fn build_record(
    invocation: &OperationInvocation,
    result: &OperationResult,
    ctx: Option<&AgentContext>,
    elapsed_ms: u64,
    confidence_avg_bits: u64,
    error: Option<String>,
    now: Timestamp,
) -> (r: Option<EnrichmentRunRecord>)
    ensures
        match r {
            Some(record) => is_record(
                record,
                invocation.command@,
                *result,
                match ctx {
                    Some(c) => Some(*c),
                    None => None,
                },
                elapsed_ms,
                confidence_avg_bits,
                error,
                now,
            ),
            None => interop::rfc3339_text(now.secs, now.nanos) is None,
        },
        r matches Some(record) ==> {
            &&& 0 < invocation.command@.len() <= 500 ==> record.command@ == invocation.command@
            &&& invocation.command@.len() > 500 ==> record.command@.len() == 501
                && record.command@.drop_last() == invocation.command@.take(500)
            &&& record.exit_code == result.exit_code
            &&& record.duration_ms == elapsed_ms
            &&& record.error == error
            &&& record.confidence_avg_bits == confidence_avg_bits
            &&& result.stdout@.len() == 0 <==> record.output_summary_stdout is None
            &&& 0 < result.stdout@.len() <= 500 ==> record.output_summary_stdout->0@
                == result.stdout@
            &&& result.stderr@.len() == 0 <==> record.output_summary_stderr is None
            &&& 0 < result.stderr@.len() <= 500 ==> record.output_summary_stderr->0@
                == result.stderr@
            &&& ctx is None ==> {
                &&& record.enricher_id@.len() == 0
                &&& record.verdict is None
                &&& record.facts_count == 0 && record.derived_facts_count == 0
                &&& record.rule_hits_count == 0 && record.diagnostics_count == 0
                &&& record.artifact_count == 0 && record.recommendation_count == 0
            }
            &&& ctx matches Some(c) ==> {
                &&& record.enricher_id@ == c.enricher_id@
                &&& record.verdict == c.verdict
                &&& c.facts@.len() <= u32::MAX ==> {
                    &&& record.facts_count == c.facts@.len()
                    &&& record.derived_facts_count == c.facts@.filter(
                        |f: Fact| f.source_extractor@ == "rule"@,
                    ).len()
                    &&& record.diagnostics_count == c.facts@.filter(
                        |f: Fact| text::texts(f.tags@).contains("diagnostic"@),
                    ).len()
                }
                &&& c.artifacts@.len() <= u32::MAX ==> record.artifact_count == c.artifacts@.len()
                &&& c.recommendations is None ==> record.recommendation_count == 0
                &&& c.recommendations matches Some(v) ==> (v@.len() <= u32::MAX
                    ==> record.recommendation_count == v@.len())
                &&& record.rule_hits_count == 1 <==> record.derived_facts_count > 0
                    || record.recommendation_count > 0 || c.verdict is Some
                &&& record.rule_hits_count <= 1
            }
        },
{
    proof {
        match ctx {
            Some(c) => {
                law_facts_are_counted(c.facts@);
                lemma_parts_of_facts(c.facts@);
            },
            None => {},
        }
    }
    let timestamp = match write_rfc3339(now) {
        Some(t) => t,
        None => {
            return None;
        },
    };
    let mut enricher_id = String::new();
    let mut facts_count: u32 = 0;
    let mut from_rules: usize = 0;
    let mut tagged: usize = 0;
    let mut artifact_count: u32 = 0;
    let mut recommendation_count: u32 = 0;
    let mut verdict: Option<String> = None;
    match ctx {
        None => {},
        Some(c) => {
            enricher_id = c.enricher_id.clone();
            facts_count = #[verifier::truncate]
            (c.facts.len() as u32);
            artifact_count = #[verifier::truncate]
            (c.artifacts.len() as u32);
            verdict = clone_option(&c.verdict);
            match &c.recommendations {
                Some(v) => {
                    recommendation_count = #[verifier::truncate]
                    (v.len() as u32);
                },
                None => {},
            }
            let mut i: usize = 0;
            assert(c.facts@.take(0) =~= seq![]);
            while i < c.facts.len()
                invariant
                    i <= c.facts@.len(),
                    from_rules <= i,
                    tagged <= i,
                    from_rules == derived(c.facts@.take(i as int)),
                    tagged == diagnostics(c.facts@.take(i as int)),
                decreases c.facts@.len() - i,
            {
                proof {
                    assert(c.facts@.take(i + 1).drop_last() =~= c.facts@.take(i as int));
                    assert(c.facts@.take(i + 1).last() == c.facts@[i as int]);
                }
                if str_eq(c.facts[i].source_extractor.as_str(), "rule") {
                    from_rules = from_rules + 1;
                }
                if has_tag(&c.facts[i].tags, "diagnostic") {
                    tagged = tagged + 1;
                }
                i = i + 1;
            }
            assert(c.facts@.take(i as int) =~= c.facts@);
        },
    }
    let derived_facts_count: u32 = #[verifier::truncate]
    (from_rules as u32);
    let diagnostics_count: u32 = #[verifier::truncate]
    (tagged as u32);
    let rule_hits_count: u32 = if derived_facts_count > 0 || recommendation_count > 0
        || verdict.is_some() {
        1
    } else {
        0
    };
    let command = match truncate_string(invocation.command.as_str(), 500) {
        Some(t) => t,
        None => invocation.command.clone(),
    };
    Some(
        EnrichmentRunRecord {
            id: new_uuid(),
            timestamp,
            command,
            enricher_id,
            exit_code: result.exit_code,
            duration_ms: elapsed_ms,
            output_summary_stdout: truncate_string(result.stdout.as_str(), 500),
            output_summary_stderr: truncate_string(result.stderr.as_str(), 500),
            facts_count,
            derived_facts_count,
            rule_hits_count,
            diagnostics_count,
            artifact_count,
            confidence_avg_bits,
            verdict,
            recommendation_count,
            error,
        },
    )
}

/// A command as the enrichers see it.
pub fn map_command_spec(spec: &CommandSpec) -> (r: OperationInvocation)
    ensures
        r.command@ == spec.command@,
        text::texts(r.args@) == text::texts(spec.args@),
        r.working_dir == spec.working_dir,
        r.env_vars@ == spec.env_vars@,
{
    OperationInvocation {
        command: spec.command.clone(),
        args: clone_strings(&spec.args),
        working_dir: clone_option(&spec.working_dir),
        env_vars: clone_pairs(&spec.env_vars),
    }
}

/// The result of a command as the enrichers see it.
pub fn map_command_result(result: &CommandResult) -> (r: OperationResult)
    ensures
        r.exit_code == result.exit_code,
        r.stdout@ == text::utf8_lossy(result.stdout@),
        r.stderr@ == text::utf8_lossy(result.stderr@),
        r.duration_ms == result.duration_ms,
        r.timed_out == result.timed_out,
{
    OperationResult {
        exit_code: result.exit_code,
        stdout: from_utf8_lossy(result.stdout.as_slice()),
        stderr: from_utf8_lossy(result.stderr.as_slice()),
        duration_ms: result.duration_ms,
        timed_out: result.timed_out,
    }
}

/// What goes with the answer to a command: what the enrichers found out, if there is a
/// fact in it. There is nothing where enrichment is off or failed.
pub fn enrich(config: &EnrichmentConfig, outcome: Result<AgentContext, String>) -> (r: Option<
    AgentContext,
>)
    ensures
        match r {
            Some(ctx) => {
                &&& config.enabled
                &&& outcome == Ok::<AgentContext, String>(ctx)
                &&& ctx.facts@.len() > 0
            },
            None => {
                ||| !config.enabled
                ||| outcome is Err
                ||| outcome->Ok_0.facts@.len() == 0
            },
        },
{
    if !config.enabled {
        return None;
    }
    match outcome {
        Err(_) => None,
        Ok(ctx) => if ctx.facts.len() == 0 {
            None
        } else {
            Some(ctx)
        },
    }
}

/// The records that are on their way to the database.
#[derive(Debug)]
pub struct RecordSlots {
    in_flight: usize,
    max: usize,
}

impl RecordSlots {
    /// No more records are on their way than may be.
    pub closed spec fn wf(self) -> bool {
        self.in_flight <= self.max
    }

    /// How many records are on their way.
    pub closed spec fn used(self) -> usize {
        self.in_flight
    }

    /// How many records may be on their way.
    pub closed spec fn limit(self) -> usize {
        self.max
    }

    /// No record is on its way.
    pub fn new(max: usize) -> (r: Self)
        ensures
            r.wf(),
            r.used() == 0,
            r.limit() == max,
    {
        RecordSlots { in_flight: 0, max }
    }

    /// Takes a place for a record. Where none is free, the record is dropped.
    pub fn try_acquire(&mut self) -> (r: bool)
        requires
            old(self).wf(),
        ensures
            final(self).wf(),
            final(self).limit() == old(self).limit(),
            r == (old(self).used() < old(self).limit()),
            final(self).used() == (if r {
                old(self).used() + 1
            } else {
                old(self).used() as int
            }),
            final(self).used() <= final(self).limit(),
    {
        if self.in_flight >= self.max {
            return false;
        }
        self.in_flight = self.in_flight + 1;
        true
    }

    /// Gives a place back.
    pub fn release(&mut self)
        requires
            old(self).wf(),
            old(self).used() > 0,
        ensures
            final(self).wf(),
            final(self).limit() == old(self).limit(),
            final(self).used() == old(self).used() - 1,
    {
        self.in_flight = self.in_flight - 1;
    }

    /// How many records are on their way.
    pub fn in_flight(&self) -> (r: usize)
        ensures
            r == self.used(),
    {
        self.in_flight
    }
}

proof fn lemma_parts_of_facts(facts: Seq<Fact>)
    ensures
        derived(facts) <= facts.len(),
        diagnostics(facts) <= facts.len(),
    decreases facts.len(),
{
    if facts.len() > 0 {
        lemma_parts_of_facts(facts.drop_last());
    }
}

/// The derived facts and the diagnostics are among the facts, and a summary is never
/// longer than 500 characters and an ellipsis.
pub proof fn law_record_is_consistent(ctx: AgentContext, output: Seq<char>)
    requires
        ctx.facts@.len() <= u32::MAX,
    ensures
        counts(Some(ctx)).derived <= counts(Some(ctx)).facts,
        counts(Some(ctx)).diagnostics <= counts(Some(ctx)).facts,
        counts(Some(ctx)).derived > 0 ==> counts(Some(ctx)).rule_hits == 1,
        cut(output, 500) matches Some(t) ==> 0 < t.len() <= 501,
{
    lemma_parts_of_facts(ctx.facts@);
}

/// Whether a run is to be recorded: whenever output is enriched and there is a
/// recorder.
pub fn is_recorded(config: &EnrichmentConfig, has_recorder: bool) -> (r: bool)
    ensures
        r == (config.enabled && has_recorder),
{
    config.enabled && has_recorder
}

/// The derived facts are those whose source is a rule, and the diagnostics those with the tag
/// of one: each is counted once.
pub proof fn law_facts_are_counted(facts: Seq<Fact>)
    ensures
        derived(facts) == facts.filter(|f: Fact| f.source_extractor@ == "rule"@).len(),
        diagnostics(facts) == facts.filter(
            |f: Fact| text::texts(f.tags@).contains("diagnostic"@),
        ).len(),
    decreases facts.len(),
{
    reveal(Seq::filter);
    if facts.len() > 0 {
        law_facts_are_counted(facts.drop_last());
    }
}

} // verus!
