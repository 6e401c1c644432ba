//! Checks evaluated in two ways, by themselves and as a condition of the rules engine,
//! and how the two compare.
use vstd::prelude::*;

use crate::catalog::sqlite_experience_store::ExperienceRecord;
use crate::catalog::toml_advice_parser::TomlTrigger;
use crate::catalog::toml_assertion_parser::{AssertionRegistry, TomlCheck};
use crate::catalog::toml_doctor_parser::TomlDoctorCheck;
use crate::enrichment::adapter::OperationInvocation;
use crate::enrichment::models::{Fact, RuleConfig};
use crate::interop::new_uuid;
use crate::text;
use crate::text::{concat2, concat3, concat4, join, str_eq};

verus! {

/// What goes wrong with an evaluation.
#[derive(Debug)]
pub enum ShimError {
    CelParse(String),
    LegacyEval(String),
    ResultMismatch { legacy_result: bool, cel_result: bool },
    NoCelCondition,
}

/// A truth value in words.
pub open spec fn bool_text(b: bool) -> Seq<char> {
    if b {
        "true"@
    } else {
        "false"@
    }
}

fn bool_str(b: bool) -> (r: &'static str)
    ensures
        r@ == bool_text(b),
        b ==> r@ == "true"@,
        !b ==> r@ == "false"@,
{
    if b {
        "true"
    } else {
        "false"
    }
}

impl ShimError {
    /// The error in words.
    pub open spec fn text(self) -> Seq<char> {
        match self {
            ShimError::CelParse(e) => "CEL parse error: "@ + e@,
            ShimError::LegacyEval(e) => "Legacy evaluation failed: "@ + e@,
            ShimError::ResultMismatch { legacy_result, cel_result } => {
                "CEL/legacy mismatch: legacy="@ + bool_text(legacy_result) + ", cel="@ + bool_text(
                    cel_result,
                )
            },
            ShimError::NoCelCondition => "No CEL condition available for this check type"@,
        }
    }

    /// The error in words.
    pub fn message(&self) -> (r: String)
        ensures
            r@ == self.text(),
            *self matches ShimError::CelParse(e) ==> r@ == "CEL parse error: "@ + e@,
            *self matches ShimError::LegacyEval(e) ==> r@ == "Legacy evaluation failed: "@ + e@,
            *self matches ShimError::ResultMismatch { legacy_result, cel_result } ==> r@
                == "CEL/legacy mismatch: legacy="@ + (if legacy_result {
                "true"@
            } else {
                "false"@
            }) + ", cel="@ + (if cel_result {
                "true"@
            } else {
                "false"@
            }),
            *self is NoCelCondition ==> r@ == "No CEL condition available for this check type"@,
    {
        match self {
            ShimError::CelParse(e) => concat2("CEL parse error: ", e.as_str()),
            ShimError::LegacyEval(e) => concat2("Legacy evaluation failed: ", e.as_str()),
            ShimError::ResultMismatch { legacy_result, cel_result } => concat4(
                "CEL/legacy mismatch: legacy=",
                bool_str(*legacy_result),
                ", cel=",
                bool_str(*cel_result),
            ),
            ShimError::NoCelCondition => {
                "No CEL condition available for this check type".to_owned()
            },
        }
    }
}

/// How the two evaluations came out.
#[derive(Debug, PartialEq, Eq)]
pub struct ComparisonResult {
    /// Whether the check itself passed.
    pub legacy_passed: bool,
    /// Whether the condition held.
    pub cel_passed: bool,
    /// Why the check itself failed, where it says so.
    pub legacy_reason: Option<String>,
    /// Whether the two agree.
    pub matches: bool,
}

/// How a check by itself came out, and why it failed.
#[derive(Debug)]
pub struct LegacyOutcome {
    pub passed: bool,
    pub reason: Option<String>,
}

/// The result of a command as the rules engine sees it.
#[derive(Debug)]
pub struct OperationResult {
    pub exit_code: i32,
    pub stdout: String,
    pub stderr: String,
    pub duration_ms: u64,
    pub timed_out: bool,
}

/// The result of the recorded command as the rules engine sees it. A command without
/// an exit code counts as one that ended with 0. The duration is cut to 32 bits, and
/// one that is not known is the longest that there is, so that no limit on it holds.
pub fn operation_result(record: &ExperienceRecord, duration_ms: Option<i64>) -> (r: OperationResult)
    ensures
        r.exit_code == (match record.exit_code {
            Some(c) => c,
            None => 0i32,
        }),
        r.stdout@ == record.stdout_summary@,
        r.stderr@ == record.stderr_summary@,
        r.duration_ms == (match duration_ms {
            Some(d) => (d as i32) as u64,
            None => i32::MAX as u64,
        }),
        r.timed_out == (record.status@ == "timeout"@),
{
    let exit_code: i32 = match record.exit_code {
        Some(c) => c,
        None => 0,
    };
    let duration: i32 = match duration_ms {
        Some(d) => #[verifier::truncate]
        (d as i32),
        None => i32::MAX,
    };
    OperationResult {
        exit_code,
        stdout: record.stdout_summary.clone(),
        stderr: record.stderr_summary.clone(),
        duration_ms: #[verifier::truncate]
        (duration as u64),
        timed_out: str_eq(record.status.as_str(), "timeout"),
    }
}

/// The recorded command as the rules engine sees it: its tool, without arguments.
pub fn record_invocation(record: &ExperienceRecord) -> (r: OperationInvocation)
    ensures
        r.command@ == record.tool_name@,
        r.args@.len() == 0,
        r.working_dir is None,
        r.env_vars@.len() == 0,
{
    OperationInvocation {
        command: record.tool_name.clone(),
        args: Vec::new(),
        working_dir: None,
        env_vars: Vec::new(),
    }
}

/// The command that a trigger is evaluated with. A trigger belongs to no recorded command,
/// only to the facts that came together.
pub fn trigger_invocation() -> (r: OperationInvocation)
    ensures
        r.command@ == "trigger_evaluation"@,
        r.args@.len() == 0,
        r.working_dir is None,
        r.env_vars@.len() == 0,
{
    OperationInvocation {
        command: "trigger_evaluation".to_owned(),
        args: Vec::new(),
        working_dir: None,
        env_vars: Vec::new(),
    }
}

/// The result that a trigger is evaluated with: an end without output, at once.
pub fn trigger_result() -> (r: OperationResult)
    ensures
        r.exit_code == 0,
        r.stdout@ == ""@,
        r.stderr@ == ""@,
        r.duration_ms == 0,
        !r.timed_out,
{
    OperationResult {
        exit_code: 0,
        stdout: "".to_owned(),
        stderr: "".to_owned(),
        duration_ms: 0,
        timed_out: false,
    }
}

/// Whether a comparison tells how a check and its condition came out.
pub open spec fn compares(r: ComparisonResult, legacy: LegacyOutcome, cel: bool) -> bool {
    &&& r.legacy_passed == legacy.passed
    &&& r.cel_passed == cel
    &&& r.legacy_reason == legacy.reason
    &&& r.matches == (legacy.passed == cel)
}

/// Compares an assertion's check with its condition. How the check came out, and how
/// the rules engine evaluates the condition, come with it.
pub fn evaluate_toml_check(
    toml_check: &TomlCheck,
    legacy: LegacyOutcome,
    cel: Result<bool, String>,
) -> (r: Result<ComparisonResult, ShimError>)
    ensures
        match r {
            Ok(c) => {
                &&& toml_check.condition() is Some
                &&& cel matches Ok(b)
                &&& compares(c, legacy, b)
            },
            Err(ShimError::NoCelCondition) => toml_check.condition() is None,
            Err(ShimError::CelParse(e)) => {
                &&& toml_check.condition() is Some
                &&& cel matches Err(m)
                &&& e == m
            },
            Err(_) => false,
        },
        *toml_check is SandboxAlive <==> r is Err && r->Err_0 is NoCelCondition,
        !(*toml_check is SandboxAlive) ==> (r is Ok <==> cel is Ok),
        r is Ok ==> {
            &&& r->Ok_0.legacy_passed == legacy.passed
            &&& r->Ok_0.cel_passed == cel->Ok_0
            &&& r->Ok_0.legacy_reason == legacy.reason
            &&& r->Ok_0.matches <==> legacy.passed == cel->Ok_0
        },
{
    match toml_check.to_cel_condition() {
        None => Err(ShimError::NoCelCondition),
        Some(_) => evaluate_assertion_check_with_cel(legacy, Some(cel)),
    }
}

/// Compares a check with a condition, if there is one. Without one the check stands
/// alone, and agrees with itself.
pub fn evaluate_assertion_check_with_cel(
    legacy: LegacyOutcome,
    cel: Option<Result<bool, String>>,
) -> (r: Result<ComparisonResult, ShimError>)
    ensures
        match r {
            Ok(c) => match cel {
                None => compares(c, legacy, legacy.passed),
                Some(Ok(b)) => compares(c, legacy, b),
                Some(Err(_)) => false,
            },
            Err(ShimError::CelParse(e)) => cel == Some(Err::<bool, String>(e)),
            Err(_) => false,
        },
        r is Ok ==> {
            &&& r->Ok_0.legacy_passed == legacy.passed
            &&& r->Ok_0.legacy_reason == legacy.reason
            &&& r->Ok_0.matches <==> r->Ok_0.legacy_passed == r->Ok_0.cel_passed
            &&& cel is Some ==> r->Ok_0.cel_passed == cel->0->Ok_0
            &&& cel is None ==> r->Ok_0.cel_passed == legacy.passed
        },
{
    match cel {
        None => Ok(
            ComparisonResult {
                legacy_passed: legacy.passed,
                cel_passed: legacy.passed,
                legacy_reason: legacy.reason,
                matches: true,
            },
        ),
        Some(Err(e)) => Err(ShimError::CelParse(e)),
        Some(Ok(cel_passed)) => Ok(
            ComparisonResult {
                legacy_passed: legacy.passed,
                cel_passed,
                legacy_reason: legacy.reason,
                matches: legacy.passed == cel_passed,
            },
        ),
    }
}

/// Whether all of the outcomes passed.
pub open spec fn all_passed(outcomes: Seq<LegacyOutcome>) -> bool {
    forall|i: int| 0 <= i < outcomes.len() ==> (#[trigger] outcomes[i]).passed
}

/// The reasons of the outcomes that failed, in their order.
pub open spec fn reasons(outcomes: Seq<LegacyOutcome>) -> Seq<Seq<char>>
    decreases outcomes.len(),
{
    if outcomes.len() == 0 {
        Seq::empty()
    } else {
        let before = reasons(outcomes.drop_last());
        match outcomes.last().reason {
            Some(m) => if outcomes.last().passed {
                before
            } else {
                before.push(m@)
            },
            None => before,
        }
    }
}

proof fn lemma_reasons_of_passed(outcomes: Seq<LegacyOutcome>)
    requires
        all_passed(outcomes),
    ensures
        reasons(outcomes).len() == 0,
    decreases outcomes.len(),
{
    if outcomes.len() > 0 {
        assert(outcomes[outcomes.len() - 1].passed);
        assert forall|i: int| 0 <= i < outcomes.drop_last().len() implies (
        #[trigger] outcomes.drop_last()[i]).passed by {
            assert(outcomes[i].passed);
        }
        lemma_reasons_of_passed(outcomes.drop_last());
    }
}

/// How an assertion came out, from its checks: it passed if all of them did, and it
/// failed for their reasons.
pub fn evaluate_assertion_descriptor(outcomes: &Vec<LegacyOutcome>) -> (r: LegacyOutcome)
    ensures
        r.passed == all_passed(outcomes@),
        match r.reason {
            Some(m) => reasons(outcomes@).len() > 0 && m@ == text::joined(reasons(outcomes@), "; "@),
            None => reasons(outcomes@).len() == 0,
        },
        r.passed <==> forall|i: int| 0 <= i < outcomes@.len() ==> (#[trigger] outcomes@[i]).passed,
        r.reason is Some <==> exists|i: int|
            0 <= i < outcomes@.len() && !(#[trigger] outcomes@[i]).passed
                && outcomes@[i].reason is Some,
{
    proof {
        lemma_reasons_are_there(outcomes@);
    }
    let mut passed = true;
    let mut found: Vec<String> = Vec::new();
    let mut i: usize = 0;
    assert(outcomes@.take(0) =~= seq![]);
    assert(text::texts(found@) =~= seq![]);
    while i < outcomes.len()
        invariant
            i <= outcomes@.len(),
            passed == all_passed(outcomes@.take(i as int)),
            text::texts(found@) == reasons(outcomes@.take(i as int)),
        decreases outcomes@.len() - i,
    {
        let ghost t = outcomes@.take(i + 1);
        proof {
            assert(t.drop_last() =~= outcomes@.take(i as int));
            assert(t.last() == outcomes@[i as int]);
            assert(all_passed(t) == (all_passed(t.drop_last()) && t.last().passed)) by {
                if all_passed(t) {
                    assert(t[t.len() - 1].passed);
                    assert forall|j: int| 0 <= j < t.drop_last().len() implies (
                    #[trigger] t.drop_last()[j]).passed by {
                        assert(t[j].passed);
                    }
                }
                if all_passed(t.drop_last()) && t.last().passed {
                    assert forall|j: int| 0 <= j < t.len() implies (#[trigger] t[j]).passed by {
                        if j < t.len() - 1 {
                            assert(t.drop_last()[j].passed);
                        }
                    }
                }
            }
        }
        if !outcomes[i].passed {
            passed = false;
            match &outcomes[i].reason {
                Some(m) => {
                    let ghost before = found@;
                    found.push(m.clone());
                    assert(text::texts(found@) =~= text::texts(before).push(m@));
                },
                None => {},
            }
        }
        i = i + 1;
    }
    assert(outcomes@.take(i as int) =~= outcomes@);
    assert(text::texts(found@).len() == found@.len());
    if found.len() == 0 {
        LegacyOutcome { passed, reason: None }
    } else {
        proof {
            if all_passed(outcomes@) {
                lemma_reasons_of_passed(outcomes@);
            }
        }
        LegacyOutcome { passed: false, reason: Some(join(&found, "; ")) }
    }
}

proof fn lemma_reasons_are_there(outcomes: Seq<LegacyOutcome>)
    ensures
        reasons(outcomes).len() > 0 <==> exists|i: int|
            0 <= i < outcomes.len() && !(#[trigger] outcomes[i]).passed && outcomes[i].reason is Some,
    decreases outcomes.len(),
{
    if outcomes.len() > 0 {
        let front = outcomes.drop_last();
        let last = outcomes.len() - 1;
        lemma_reasons_are_there(front);
        assert(outcomes.last() == outcomes[last]);
        if reasons(front).len() > 0 {
            let i = choose|i: int|
                0 <= i < front.len() && !(#[trigger] front[i]).passed && front[i].reason is Some;
            assert(!outcomes[i].passed && outcomes[i].reason is Some);
        }
        if exists|i: int|
            0 <= i < outcomes.len() && !(#[trigger] outcomes[i]).passed
                && outcomes[i].reason is Some {
            let i = choose|i: int|
                0 <= i < outcomes.len() && !(#[trigger] outcomes[i]).passed
                    && outcomes[i].reason is Some;
            if i < last {
                assert(!front[i].passed && front[i].reason is Some);
            }
        }
    }
}

/// The reasons are those of the outcomes which failed and name one, in their order: one for
/// each of them.
pub proof fn law_failed_outcomes_give_the_reasons(outcomes: Seq<LegacyOutcome>)
    ensures
        ({
            let failed = outcomes.filter(|o: LegacyOutcome| !o.passed && o.reason is Some);
            &&& reasons(outcomes).len() == failed.len()
            &&& forall|k: int|
                0 <= k < failed.len() ==> #[trigger] reasons(outcomes)[k] == failed[k].reason->0@
        }),
    decreases outcomes.len(),
{
    reveal(Seq::filter);
    if outcomes.len() > 0 {
        law_failed_outcomes_give_the_reasons(outcomes.drop_last());
    }
}

/// Whether the outcome of an assertion is that of its checks.
pub open spec fn is_outcome_of(r: LegacyOutcome, outcomes: Seq<LegacyOutcome>) -> bool {
    &&& r.passed == all_passed(outcomes)
    &&& match r.reason {
        Some(m) => reasons(outcomes).len() > 0 && m@ == text::joined(reasons(outcomes), "; "@),
        None => reasons(outcomes).len() == 0,
    }
}

/// The fact from which the rules engine learns how an assertion came out.
pub fn assertion_fact(assertion_id: &str, passed: bool) -> (r: Fact)
    ensures
        r.key@ == "assertion:"@ + assertion_id@,
        r.value@ == (if passed {
            "passed"@
        } else {
            "failed"@
        }),
        r.tags@.len() == 0,
        r.source_extractor@ == "legacy_shim"@,
{
    let value: &str = if passed {
        "passed"
    } else {
        "failed"
    };
    Fact {
        key: concat2("assertion:", assertion_id),
        value: value.to_owned(),
        tags: Vec::new(),
        source_extractor: "legacy_shim".to_owned(),
    }
}

/// Compares a doctor's check with its condition. A check on an assertion goes by the
/// outcomes of that assertion's checks, one for each; the checks on the infrastructure are
/// left for later, and pass.
pub fn evaluate_doctor_check(
    toml_check: &TomlDoctorCheck,
    registry: &AssertionRegistry,
    outcomes: &Vec<LegacyOutcome>,
    cel: Result<bool, String>,
) -> (r: Result<ComparisonResult, ShimError>)
    requires
        registry.wf(),
        match *toml_check {
            TomlDoctorCheck::AssertionDriven { assertion_id } => registry@.contains_key(
                assertion_id@,
            ) ==> outcomes@.len() == registry@[assertion_id@].checks.len(),
            _ => true,
        },
    ensures
        match *toml_check {
            TomlDoctorCheck::AssertionDriven { assertion_id } => match r {
                Ok(c) => {
                    &&& registry@.contains_key(assertion_id@)
                    &&& cel matches Ok(b)
                    &&& c.cel_passed == b
                    &&& c.matches == (c.legacy_passed == b)
                    &&& is_outcome_of(
                        LegacyOutcome { passed: c.legacy_passed, reason: c.legacy_reason },
                        outcomes@,
                    )
                },
                Err(ShimError::LegacyEval(m)) => {
                    &&& !registry@.contains_key(assertion_id@)
                    &&& m@ == "Assertion '"@ + assertion_id@ + "' not found"@
                },
                Err(ShimError::CelParse(e)) => {
                    &&& registry@.contains_key(assertion_id@)
                    &&& cel matches Err(m)
                    &&& e == m
                },
                Err(_) => false,
            },
            _ => {
                &&& r matches Ok(c)
                &&& c.legacy_passed && c.cel_passed && c.matches
                &&& c.legacy_reason is None
            },
        },
        *toml_check is AssertionDriven && r is Ok ==> {
            &&& r->Ok_0.legacy_passed <==> forall|i: int|
                0 <= i < outcomes@.len() ==> (#[trigger] outcomes@[i]).passed
            &&& r->Ok_0.legacy_reason is Some <==> exists|i: int|
                0 <= i < outcomes@.len() && !(#[trigger] outcomes@[i]).passed
                    && outcomes@[i].reason is Some
        },
{
    match toml_check {
        TomlDoctorCheck::AssertionDriven { assertion_id } => {
            if registry.get(assertion_id.as_str()).is_none() {
                return Err(
                    ShimError::LegacyEval(
                        concat3("Assertion '", assertion_id.as_str(), "' not found"),
                    ),
                );
            }
            let legacy = evaluate_assertion_descriptor(outcomes);
            evaluate_assertion_check_with_cel(legacy, Some(cel))
        },
        _ => Ok(
            ComparisonResult {
                legacy_passed: true,
                cel_passed: true,
                legacy_reason: None,
                matches: true,
            },
        ),
    }
}

/// Evaluates a trigger of an advice by its condition, which every trigger has. It has
/// no other evaluation, so it agrees with itself.
pub fn evaluate_advice_trigger(toml_trigger: &TomlTrigger, cel: Result<bool, String>) -> (r: Result<
    ComparisonResult,
    ShimError,
>)
    ensures
        match r {
            Ok(c) => {
                &&& cel matches Ok(b)
                &&& c.legacy_passed == b && c.cel_passed == b && c.matches
                &&& c.legacy_reason is None
            },
            Err(ShimError::CelParse(e)) => cel matches Err(m) && e == m,
            Err(_) => false,
        },
{
    match toml_trigger.to_cel_condition() {
        None => Err(ShimError::NoCelCondition),
        Some(_) => match cel {
            Err(e) => Err(ShimError::CelParse(e)),
            Ok(passed) => Ok(
                ComparisonResult {
                    legacy_passed: passed,
                    cel_passed: passed,
                    legacy_reason: None,
                    matches: true,
                },
            ),
        },
    }
}

impl TomlCheck {
    /// A rule with the check's condition and no action; none for a check without a
    /// condition. Its identifier is a new one at each call.
    pub fn to_rule_config(&self, enricher_id: &str) -> (r: Option<RuleConfig>)
        ensures
            match r {
                Some(rule) => {
                    &&& self.condition() == Some(rule.condition@)
                    &&& rule.enricher_id@ == enricher_id@
                    &&& crate::text::has_prefix(rule.id@, "check_"@)
                    &&& crate::interop::uuid_form(rule.id@.skip("check_"@.len() as int))
                    &&& rule.priority == 0
                    &&& rule.enabled
                    &&& rule.actions@.len() == 0
                },
                None => self.condition() is None,
            },
    {
        match self.to_cel_condition() {
            None => None,
            Some(condition) => {
                let uuid = new_uuid();
                let id = concat2("check_", uuid.as_str());
                assert(id@.take("check_"@.len() as int) =~= "check_"@);
                assert(id@.skip("check_"@.len() as int) =~= uuid@);
                Some(
                    RuleConfig {
                        id,
                        enricher_id: enricher_id.to_owned(),
                        condition,
                        priority: 0,
                        enabled: true,
                        actions: Vec::new(),
                    },
                )
            },
        }
    }
}

} // verus!
