use bastion_infrastructure::catalog::sqlite_experience_store::ExperienceRecord;
use bastion_infrastructure::catalog::toml_advice_parser::TomlTrigger;
use bastion_infrastructure::catalog::toml_assertion_parser::{
    AssertionRegistry, TomlAssertion, TomlAssertionConfig, TomlCheck,
};
use bastion_infrastructure::catalog::toml_doctor_parser::TomlDoctorCheck;
use bastion_infrastructure::domain::Timestamp;
use bastion_infrastructure::evaluation::legacy_cel_shim::{
    assertion_fact, evaluate_advice_trigger, evaluate_assertion_check_with_cel,
    evaluate_assertion_descriptor, evaluate_doctor_check, evaluate_toml_check, operation_result,
    record_invocation, trigger_invocation, trigger_result, ComparisonResult, LegacyOutcome,
    OperationResult, ShimError,
};
use bastion_infrastructure::enrichment::models::Fact;

fn s(text: &str) -> String {
    text.to_string()
}

fn passed() -> LegacyOutcome {
    LegacyOutcome { passed: true, reason: None }
}

fn failed(reason: &str) -> LegacyOutcome {
    LegacyOutcome { passed: false, reason: Some(s(reason)) }
}

const START: Timestamp = Timestamp { secs: 1_704_110_400, nanos: 0 };

/// A record of a command that has not ended.
fn record(exit_code: Option<i32>, stdout: &str, stderr: &str) -> ExperienceRecord {
    ExperienceRecord {
        id: s("1"),
        trace_id: None,
        tool_name: s("sandbox_run"),
        sandbox_id: None,
        started_at: START,
        finished_at: None,
        exit_code,
        stdout_summary: s(stdout),
        stderr_summary: s(stderr),
        status: s("success"),
        metadata: s("{}"),
    }
}

/// A record of a command that has ended.
fn completed(exit_code: i32, stdout: &str, stderr: &str) -> ExperienceRecord {
    let status = if exit_code == 0 { s("success") } else { s("failure") };
    ExperienceRecord {
        finished_at: Some(START),
        status,
        ..record(Some(exit_code), stdout, stderr)
    }
}

fn make_pass_record() -> ExperienceRecord {
    ExperienceRecord { trace_id: Some(s("test-001")), ..completed(0, "BUILD SUCCESS", "") }
}

fn make_fail_record() -> ExperienceRecord {
    ExperienceRecord {
        trace_id: Some(s("test-002")),
        ..completed(1, "BUILD FAILURE", "ERROR: compilation failed")
    }
}

fn duration_ms(record: &ExperienceRecord) -> Option<i64> {
    record.finished_at.map(|end| {
        (end.secs - record.started_at.secs) * 1000
            + (end.nanos as i64 - record.started_at.nanos as i64) / 1_000_000
    })
}

/// Stands for the check of a record by itself.
fn legacy(check: &TomlCheck, record: &ExperienceRecord) -> LegacyOutcome {
    let holds = match check {
        TomlCheck::ExitCode { expected } => record.exit_code == Some(*expected),
        TomlCheck::StdoutContains { substring } => record.stdout_summary.contains(substring),
        TomlCheck::StderrContains { substring } => record.stderr_summary.contains(substring),
        TomlCheck::CommandDuration { max_ms } => match duration_ms(record) {
            Some(d) => d < *max_ms as i64,
            None => false,
        },
        _ => true,
    };
    if holds {
        passed()
    } else {
        failed("no")
    }
}

fn fact(key: &str, value: &str) -> Fact {
    Fact { key: s(key), value: s(value), tags: vec![], source_extractor: s("test") }
}

/// What stands between two texts.
fn between<'a>(text: &'a str, before: &str, after: &str) -> Option<&'a str> {
    text.strip_prefix(before)?.strip_suffix(after)
}

/// Stands for the rules engine, for the conditions that checks and triggers have.
fn holds(condition: &str, seen: &OperationResult, facts: &[Fact]) -> Result<bool, String> {
    if let Some(code) = between(condition, "exit_code == ", "") {
        return Ok(code == seen.exit_code.to_string());
    }
    if let Some(text) = between(condition, "stdout_contains('", "')") {
        return Ok(seen.stdout.contains(text));
    }
    if let Some(text) = between(condition, "stderr_contains('", "')") {
        return Ok(seen.stderr.contains(text));
    }
    if let Some(limit) = between(condition, "duration_lt(", ")") {
        return Ok(seen.duration_ms < limit.parse::<u64>().unwrap());
    }
    if let Some(rest) = between(condition, "fact('", "'") {
        let (key, value) = rest.split_once("') == '").unwrap();
        return Ok(facts.iter().any(|f| f.key == key && f.value == value));
    }
    if let Some(rest) = between(condition, "count_fact('", ")") {
        let (key, least) = rest.split_once("', '>=', ").unwrap();
        let count = facts.iter().filter(|f| f.key == key).count();
        return Ok(count >= least.parse::<usize>().unwrap());
    }
    Err(format!("unknown condition {}", condition))
}

/// Evaluates a condition on a record.
fn eval_cel_on_record(record: &ExperienceRecord, condition: &str) -> Result<bool, String> {
    holds(condition, &operation_result(record, duration_ms(record)), &[])
}

/// Evaluates a check on a record in both ways.
fn evaluate(
    check: &TomlCheck,
    record: &ExperienceRecord,
) -> Result<ComparisonResult, ShimError> {
    let cel = match check.to_cel_condition() {
        Some(condition) => eval_cel_on_record(record, &condition),
        None => Err(s("no condition")),
    };
    evaluate_toml_check(check, legacy(check, record), cel)
}

/// Evaluates a trigger on facts.
fn trigger_on(trigger: &TomlTrigger, facts: &[Fact]) -> ComparisonResult {
    let condition = trigger.to_cel_condition().unwrap();
    evaluate_advice_trigger(trigger, holds(&condition, &trigger_result(), facts)).unwrap()
}

fn assert_passes(check: TomlCheck, record: &ExperienceRecord) {
    let result = evaluate(&check, record).unwrap();
    assert!(result.matches);
    assert!(result.legacy_passed);
    assert!(result.cel_passed);
}

fn assert_fails(check: TomlCheck, record: &ExperienceRecord) {
    let result = evaluate(&check, record).unwrap();
    assert!(result.matches);
    assert!(!result.legacy_passed);
    assert!(!result.cel_passed);
    assert_eq!(result.legacy_reason.as_deref(), Some("no"));
}

#[test]
fn test_toml_check_exit_code_parity_pass() {
    assert_passes(TomlCheck::ExitCode { expected: 0 }, &make_pass_record());
}

#[test]
fn test_toml_check_exit_code_parity_fail() {
    assert_fails(TomlCheck::ExitCode { expected: 0 }, &make_fail_record());
}

#[test]
fn test_toml_check_stdout_contains_parity_pass() {
    let check = TomlCheck::StdoutContains { substring: s("BUILD SUCCESS") };
    assert_passes(check, &make_pass_record());
}

#[test]
fn test_toml_check_stdout_contains_parity_fail() {
    let check = TomlCheck::StdoutContains { substring: s("BUILD SUCCESS") };
    assert_fails(check, &make_fail_record());
}

#[test]
fn test_toml_check_stderr_contains_parity_pass() {
    let check = TomlCheck::StderrContains { substring: s("ERROR") };
    assert_passes(check, &completed(1, "", "ERROR: fail"));
}

#[test]
fn test_toml_check_stderr_contains_parity_fail() {
    let check = TomlCheck::StderrContains { substring: s("ERROR") };
    assert_fails(check, &completed(1, "", "BUILD OK"));
}

#[test]
fn test_toml_check_duration_lt_parity_pass() {
    let mut record = record(Some(0), "done", "");
    record.finished_at = Some(record.started_at);
    assert_passes(TomlCheck::CommandDuration { max_ms: 1000 }, &record);
}

#[test]
fn test_toml_check_duration_lt_parity_fail() {
    // A duration that is not known is no shorter than any limit.
    let record = record(None, "", "");
    assert_eq!(operation_result(&record, None).duration_ms, i32::MAX as u64);
    assert_fails(TomlCheck::CommandDuration { max_ms: 1000 }, &record);
}

#[test]
fn a_disagreement_is_told() {
    let check = TomlCheck::ExitCode { expected: 0 };
    let result = evaluate_toml_check(&check, passed(), Ok(false)).unwrap();
    assert!(!result.matches);
    assert!(result.legacy_passed);
    assert!(!result.cel_passed);
    let error = evaluate_toml_check(&check, passed(), Err(s("bad"))).unwrap_err();
    assert_eq!(error.message(), "CEL parse error: bad");
}

#[test]
fn test_evaluate_toml_check_no_cel_condition_sandbox_alive() {
    // SandboxAlive has no CEL equivalent
    let result = evaluate(&TomlCheck::SandboxAlive, &make_pass_record());
    assert!(matches!(result, Err(ShimError::NoCelCondition)));
}

#[test]
fn a_check_without_a_condition_agrees_with_itself() {
    assert_eq!(
        evaluate_assertion_check_with_cel(failed("no"), None).unwrap(),
        ComparisonResult {
            legacy_passed: false,
            cel_passed: false,
            legacy_reason: Some(s("no")),
            matches: true,
        }
    );
}

#[test]
fn errors_of_the_comparison_in_words() {
    assert_eq!(ShimError::LegacyEval(s("x")).message(), "Legacy evaluation failed: x");
    assert_eq!(
        ShimError::ResultMismatch { legacy_result: true, cel_result: false }.message(),
        "CEL/legacy mismatch: legacy=true, cel=false"
    );
    assert_eq!(
        ShimError::NoCelCondition.message(),
        "No CEL condition available for this check type"
    );
}

#[test]
fn test_eval_cel_on_record() {
    let mut record = completed(0, "BUILD SUCCESS", "");
    record.tool_name = s("cargo build");
    record.trace_id = Some(s("test"));
    let result = eval_cel_on_record(&record, "exit_code == 0").unwrap();
    assert!(result);
    let seen = operation_result(&record, duration_ms(&record));
    assert_eq!(seen.exit_code, 0);
    assert_eq!(seen.stdout, "BUILD SUCCESS");
    assert!(!seen.timed_out);
}

#[test]
fn test_eval_cel_on_record_stderr_contains() {
    let record = completed(1, "", "ERROR: compilation failed");
    let result = eval_cel_on_record(&record, r#"stderr_contains('ERROR')"#).unwrap();
    assert!(result);
    let seen = operation_result(&record, duration_ms(&record));
    assert_eq!(seen.exit_code, 1);
    assert_eq!(seen.stderr, "ERROR: compilation failed");
}

#[test]
fn test_eval_cel_on_record_duration() {
    let mut record = record(Some(0), "done", "");
    record.finished_at = Some(record.started_at);
    let result = eval_cel_on_record(&record, "duration_lt(1000)").unwrap();
    assert!(result);
    assert_eq!(operation_result(&record, duration_ms(&record)).duration_ms, 0);
}

#[test]
fn long_and_late_commands_as_the_rules_see_them() {
    // The duration is cut to 32 bits.
    let long = operation_result(&record(Some(0), "", ""), Some(0x1_0000_0005));
    assert_eq!(long.duration_ms, 5);
    let mut late = record(None, "", "");
    late.status = s("timeout");
    assert!(operation_result(&late, None).timed_out);
    assert_eq!(operation_result(&late, None).exit_code, 0);
}

#[test]
fn test_advice_trigger_assertion_failed_matched() {
    let trigger = TomlTrigger::AssertionFailed { assertion_id: s("maven.build.success") };
    let facts = vec![fact("assertion:maven.build.success", "failed")];
    let result = trigger_on(&trigger, &facts);
    assert!(result.legacy_passed);
    assert!(result.cel_passed);
    assert!(result.matches);
}

#[test]
fn test_advice_trigger_assertion_failed_not_matched() {
    let trigger = TomlTrigger::AssertionFailed { assertion_id: s("maven.build.success") };
    let facts = vec![fact("assertion:maven.build.success", "passed")];
    let result = trigger_on(&trigger, &facts);
    assert!(!result.legacy_passed);
    assert!(!result.cel_passed);
    assert!(result.matches);
}

#[test]
fn test_advice_trigger_experience_pattern_matched() {
    let trigger = TomlTrigger::ExperiencePattern {
        tool_name: s("cargo"),
        status: s("failure"),
        threshold: 3,
    };
    let facts = vec![
        fact("experience:cargo:failure", "1"),
        fact("experience:cargo:failure", "2"),
        fact("experience:cargo:failure", "3"),
    ];
    let result = trigger_on(&trigger, &facts);
    assert!(result.cel_passed);
    assert!(result.matches);
    assert!(!trigger_on(&trigger, &facts[..2]).cel_passed);
}

#[test]
fn test_advice_trigger_doctor_failed() {
    let trigger = TomlTrigger::DoctorFailed { doctor_id: s("sandbox.alive") };
    let facts = vec![fact("doctor:sandbox.alive", "failed")];
    let result = trigger_on(&trigger, &facts);
    assert!(result.cel_passed);
    assert!(result.matches);
}

fn assertion(id: &str, check: TomlCheck) -> Option<TomlAssertionConfig> {
    Some(TomlAssertionConfig {
        assertion: TomlAssertion {
            id: s(id),
            name: s("Test Assertion"),
            description: s("Test"),
            category: s("test"),
            check: Some(check),
            checks: vec![],
        },
    })
}

#[test]
fn test_doctor_check_assertion_driven_parity() {
    let mut registry = AssertionRegistry::new();
    registry.load_from_dir(vec![assertion(
        "test.assertion",
        TomlCheck::ExitCode { expected: 0 },
    )]);
    let check = TomlDoctorCheck::AssertionDriven { assertion_id: s("test.assertion") };
    let record = make_pass_record();
    let descriptor = registry.get("test.assertion").unwrap();
    let mut outcomes = vec![];
    for assertion_check in &descriptor.checks {
        let toml_check: TomlCheck = assertion_check.clone().into();
        outcomes.push(legacy(&toml_check, &record));
    }
    let told = assertion_fact(
        "test.assertion",
        outcomes.iter().all(|o| o.passed),
    );
    let condition = check.to_cel_condition().unwrap();
    let seen = operation_result(&record, duration_ms(&record));
    let cel = holds(&condition, &seen, &[told]);
    let result = evaluate_doctor_check(&check, &registry, &outcomes, cel).unwrap();
    assert!(result.matches);
    assert!(result.legacy_passed);
    assert!(result.cel_passed);
    let unknown = TomlDoctorCheck::AssertionDriven { assertion_id: s("other") };
    let error = evaluate_doctor_check(&unknown, &registry, &vec![], Ok(true)).unwrap_err();
    assert_eq!(error.message(), "Legacy evaluation failed: Assertion 'other' not found");
}

#[test]
fn test_doctor_check_aliveness_deferred() {
    let check = TomlDoctorCheck::Aliveness { sandbox_id: None };
    let result =
        evaluate_doctor_check(&check, &AssertionRegistry::new(), &vec![], Ok(false)).unwrap();
    assert!(result.matches);
    assert!(result.legacy_passed);
}

#[test]
fn test_load_and_evaluate_all_assertion_types() {
    let mut registry = AssertionRegistry::new();
    let loaded = registry.load_from_dir(vec![
        assertion("exit_code.zero", TomlCheck::ExitCode { expected: 0 }),
        assertion("stdout.contains", TomlCheck::StdoutContains { substring: s("BUILD") }),
        assertion("stderr.contains", TomlCheck::StderrContains { substring: s("ERROR") }),
        assertion("command.duration", TomlCheck::CommandDuration { max_ms: 5000 }),
    ]);
    assert_eq!(loaded, 4);
    let record = make_pass_record();
    for descriptor in registry.list() {
        for check in &descriptor.checks {
            let toml_check: TomlCheck = check.clone().into();
            let result = evaluate(&toml_check, &record).unwrap();
            assert!(result.matches, "Mismatch for {:?}", toml_check);
        }
    }
}

#[test]
fn an_assertion_fails_for_the_reasons_of_its_checks() {
    let all = evaluate_assertion_descriptor(&vec![passed(), passed()]);
    assert!(all.passed);
    assert_eq!(all.reason, None);
    let some = evaluate_assertion_descriptor(&vec![failed("one"), passed(), failed("two")]);
    assert!(!some.passed);
    assert_eq!(some.reason.as_deref(), Some("one; two"));
    let silent =
        evaluate_assertion_descriptor(&vec![LegacyOutcome { passed: false, reason: None }]);
    assert!(!silent.passed);
    assert_eq!(silent.reason, None);
}

#[test]
fn rules_learn_of_assertions_by_facts() {
    let fact = assertion_fact("maven.build", false);
    assert_eq!(fact.key, "assertion:maven.build");
    assert_eq!(fact.value, "failed");
    assert_eq!(fact.source_extractor, "legacy_shim");
    let rule = TomlCheck::ExitCode { expected: 2 }.to_rule_config("maven").unwrap();
    assert_eq!(rule.condition, "exit_code == 2");
    assert_eq!(rule.enricher_id, "maven");
    let uuid: Vec<char> = rule.id["check_".len()..].chars().collect();
    assert_eq!(uuid.len(), 36);
    for (i, c) in uuid.iter().enumerate() {
        match i {
            8 | 13 | 18 | 23 => assert_eq!(*c, '-'),
            14 => assert_eq!(*c, '4'),
            19 => assert!(matches!(*c, '8' | '9' | 'a' | 'b')),
            _ => assert!(matches!(*c, '0'..='9' | 'a'..='f')),
        }
    }
    assert!(TomlCheck::SandboxAlive.to_rule_config("maven").is_none());
}

#[test]
fn triggers_are_evaluated_without_a_command() {
    assert_eq!(trigger_invocation().command, "trigger_evaluation");
    assert!(trigger_invocation().args.is_empty());
    assert_eq!(record_invocation(&record(None, "", "")).command, "sandbox_run");
    let result = trigger_result();
    assert_eq!((result.exit_code, result.duration_ms, result.timed_out), (0, 0, false));
    assert_eq!(result.stdout, "");
}
