//! Advice, assertions, doctors and experiences.
use bastion_infrastructure::catalog::collection::{extension, is_catalog_file};
use bastion_infrastructure::catalog::sqlite_experience_store::{
    experience_to_row, row_to_experience, rows_to_experiences, ExperienceRecord, ExperienceRow,
    ReadRow,
};
use bastion_infrastructure::catalog::toml_advice_parser as advice;
use bastion_infrastructure::catalog::toml_advice_parser::{
    AdviceConfig, AdviceConfigStore, AdviceFile, AdviceParserError, AdviceRegistry, AdviceSeverity,
    AdviceTrigger, TomlAdvice, TomlAdviceConfig, TomlAdviceSettings, TomlTrigger,
};
use bastion_infrastructure::catalog::toml_assertion_parser as assertion;
use bastion_infrastructure::catalog::toml_assertion_parser::{
    AssertionCheck, AssertionParserError, AssertionRegistry, TomlAssertion, TomlAssertionConfig,
    TomlCheck,
};
use bastion_infrastructure::catalog::toml_doctor_parser as doctor;
use bastion_infrastructure::catalog::toml_doctor_parser::{
    DoctorCheck, DoctorFile, DoctorParserError, DoctorRegistry, Severity, TomlDoctor,
    TomlDoctorCheck, TomlDoctorConfig,
};
use bastion_infrastructure::domain::{DomainError, Timestamp};

fn advice_file(
    id: &str,
    name: &str,
    description: &str,
    category: &str,
    severity: AdviceSeverity,
    trigger: TomlTrigger,
    message: &str,
    source: &str,
) -> Option<AdviceFile> {
    Some(AdviceFile {
        config: TomlAdviceConfig {
            advice: TomlAdvice {
                id: id.to_string(),
                name: name.to_string(),
                description: description.to_string(),
                category: category.to_string(),
                severity,
                triggers: vec![trigger],
                message: message.to_string(),
                suggested_actions: vec![],
                hint: None,
            },
        },
        source: source.to_string(),
    })
}

fn assertion_failed(id: &str) -> TomlTrigger {
    TomlTrigger::AssertionFailed { assertion_id: id.to_string() }
}

fn doctor_failed(id: &str) -> TomlTrigger {
    TomlTrigger::DoctorFailed { doctor_id: id.to_string() }
}

#[test]
fn test_load_single_advice() {
    let mut registry = AdviceRegistry::new();
    let count = registry.load_from_dir(vec![advice_file(
        "maven.build.failure",
        "Maven Build Failure",
        "Triggered when a Maven build assertion fails",
        "maven",
        AdviceSeverity::Warning,
        assertion_failed("maven.build.success"),
        "Build failed. Check the output for compilation errors.",
        "",
    )]);
    assert_eq!(count, 1);

    let advice = registry.get("maven.build.failure").unwrap();
    assert_eq!(advice.id, "maven.build.failure");
    assert_eq!(advice.name, "Maven Build Failure");
    assert_eq!(advice.severity, AdviceSeverity::Warning);
    assert_eq!(advice.triggers.len(), 1);
    assert_eq!(advice.suggested_actions.len(), 0);
}

#[test]
fn test_load_multiple_advice() {
    let mut registry = AdviceRegistry::new();
    let count = registry.load_from_dir(vec![
        advice_file(
            "advice1",
            "Advice 1",
            "First advice",
            "test",
            AdviceSeverity::Critical,
            assertion_failed("a1"),
            "Message 1",
            "",
        ),
        advice_file(
            "advice2",
            "Advice 2",
            "Second advice",
            "test",
            AdviceSeverity::Hint,
            doctor_failed("d1"),
            "Message 2",
            "",
        ),
    ]);
    assert_eq!(count, 2);

    let list = registry.list();
    assert_eq!(list.len(), 2);
}

#[test]
fn test_experience_pattern_trigger() {
    let mut registry = AdviceRegistry::new();
    let count = registry.load_from_dir(vec![advice_file(
        "exp.pattern",
        "Experience Pattern",
        "Experience pattern advice",
        "test",
        AdviceSeverity::Warning,
        TomlTrigger::ExperiencePattern {
            tool_name: "sandbox_run".to_string(),
            status: "failure".to_string(),
            threshold: 3,
        },
        "Multiple failures detected",
        "",
    )]);
    assert_eq!(count, 1);

    let advice = registry.get("exp.pattern").unwrap();
    assert_eq!(advice.triggers.len(), 1);
    match &advice.triggers[0] {
        AdviceTrigger::ExperiencePattern { tool_name, status, threshold } => {
            assert_eq!(tool_name, "sandbox_run");
            assert_eq!(status, "failure");
            assert_eq!(*threshold, 3);
        }
        other => panic!("Expected ExperiencePattern, got {:?}", other),
    }
}

#[test]
fn test_duplicate_id_last_wins() {
    let mut registry = AdviceRegistry::new();
    let count = registry.load_from_dir(vec![
        advice_file(
            "dup.id",
            "First",
            "First one",
            "test",
            AdviceSeverity::Hint,
            assertion_failed("a"),
            "First message",
            "one",
        ),
        advice_file(
            "dup.id",
            "Second",
            "Second one",
            "test",
            AdviceSeverity::Critical,
            doctor_failed("d"),
            "Second message",
            "two",
        ),
    ]);
    assert_eq!(count, 2);

    let advice = registry.get("dup.id").unwrap();
    assert_eq!(advice.name, "Second");
    assert_eq!(advice.severity, AdviceSeverity::Critical);
    assert_eq!(registry.get_source("dup.id"), Some("two".to_string()));
    assert_eq!(registry.len(), 1);
}

#[test]
fn toml_advice_parser_test_not_found() {
    let registry = AdviceRegistry::new();
    assert!(registry.get("nonexistent").is_none());
}

#[test]
fn toml_advice_parser_test_get_source() {
    let content = r#"
[advice]
id = "source.test"
name = "Source Test"
description = "Testing source retention"
category = "test"
severity = "warning"

[[advice.triggers]]
type = "assertion_failed"
assertion_id = "a"

message = "Message"
"#;
    let mut registry = AdviceRegistry::new();
    registry.load_from_dir(vec![advice_file(
        "source.test",
        "Source Test",
        "Testing source retention",
        "test",
        AdviceSeverity::Warning,
        assertion_failed("a"),
        "Message",
        content,
    )]);

    let source = registry.get_source("source.test").unwrap();
    assert!(source.contains("source.test"));
    assert!(source.contains("Source Test"));
}

#[test]
fn toml_advice_parser_test_list() {
    let mut registry = AdviceRegistry::new();
    let mut files = vec![];
    for i in 0..3 {
        files.push(advice_file(
            &format!("advice{}", i),
            &format!("Advice {}", i),
            &format!("Advice number {}", i),
            "test",
            AdviceSeverity::Warning,
            assertion_failed(&format!("a{}", i)),
            &format!("Message {}", i),
            "",
        ));
    }
    registry.load_from_dir(files);

    let list = registry.list();
    assert_eq!(list.len(), 3);
}

#[test]
fn test_empty_dir() {
    let mut registry = AdviceRegistry::new();
    let count = registry.load_from_dir(vec![]);
    assert_eq!(count, 0);
    assert!(registry.is_empty());
}

#[test]
fn unreadable_advice_is_passed_over() {
    let mut registry = AdviceRegistry::default();
    let count = registry.load_from_dir(vec![
        None,
        advice_file(
            "a",
            "A",
            "",
            "test",
            AdviceSeverity::Hint,
            assertion_failed("x"),
            "",
            "src",
        ),
        None,
    ]);
    assert_eq!(count, 1);
    assert_eq!(registry.len(), 1);
    assert!(!registry.is_empty());
}

#[test]
fn test_config_store_default() {
    let store = AdviceConfigStore::new("advice.toml".to_string(), None);
    let cfg = store.get_config();
    assert!(cfg.enabled);
    assert!(cfg.disabled.is_empty());
    assert_eq!(store.config_path(), "advice.toml");
}

#[test]
fn test_config_store_save_and_load() {
    let mut store = AdviceConfigStore::new("advice.toml".to_string(), None);
    store.disable_advice("advice1");
    store.disable_advice("advice2");

    let store2 = AdviceConfigStore::new("advice.toml".to_string(), Some(store.settings()));
    let cfg = store2.get_config();
    assert!(cfg.enabled);
    assert_eq!(cfg.disabled, vec!["advice1", "advice2"]);
}

#[test]
fn test_config_clear_disabled() {
    let mut store = AdviceConfigStore::new("advice.toml".to_string(), None);
    store.disable_advice("a");
    store.disable_advice("b");
    store.clear_disabled();

    let store2 = AdviceConfigStore::new("advice.toml".to_string(), Some(store.settings()));
    let cfg = store2.get_config();
    assert!(cfg.disabled.is_empty());
}

#[test]
fn switching_advice_off_and_on_leaves_the_others() {
    let mut store = AdviceConfigStore::new("p".to_string(), Some(TomlAdviceSettings::default()));
    store.disable_advice("a");
    let cfg = store.disable_advice("a");
    assert_eq!(cfg.disabled, vec!["a"]);
    assert!(cfg.is_disabled("a"));
    assert!(!cfg.is_disabled("b"));
    store.disable_advice("b");
    let cfg = store.enable_advice("b");
    assert_eq!(cfg.disabled, vec!["a"]);
    let cfg = store.set_global_enabled(false);
    assert!(!cfg.enabled);
    assert_eq!(cfg.disabled, vec!["a"]);
}

#[test]
fn advice_defaults() {
    assert!(!AdviceConfig::default().enabled);
    assert!(AdviceConfig::default_enabled().enabled);
    assert!(advice::default_enabled());
    assert_eq!(advice::default_category(), "general");
    assert_eq!(advice::default_severity(), AdviceSeverity::Warning);
    assert_eq!(assertion::default_category(), "general");
    assert_eq!(doctor::default_category(), "sandbox");
    assert_eq!(doctor::default_severity(), Severity::Warning);
}

#[test]
fn parser_errors_in_words() {
    let io = "gone".to_string();
    assert_eq!(AdviceParserError::ReadDir(io.clone()).message(), "Failed to read directory: gone");
    assert_eq!(AdviceParserError::TomlParse(io.clone()).message(), "Failed to parse TOML: gone");
    assert_eq!(
        AdviceParserError::TomlSerialize(io.clone()).message(),
        "Failed to serialize TOML: gone"
    );
    assert_eq!(AdviceParserError::NotFound("x".to_string()).message(), "Advice 'x' not found");
    assert_eq!(
        AssertionParserError::ReadDir(io.clone()).message(),
        "Failed to read directory: gone"
    );
    assert_eq!(AssertionParserError::TomlParse(io.clone()).message(), "Failed to parse TOML: gone");
    assert_eq!(
        AssertionParserError::NotFound("x".to_string()).message(),
        "Assertion 'x' not found"
    );
    assert_eq!(DoctorParserError::ReadDir(io.clone()).message(), "Failed to read directory: gone");
    assert_eq!(DoctorParserError::TomlParse(io).message(), "Failed to parse TOML: gone");
    assert_eq!(DoctorParserError::NotFound("x".to_string()).message(), "Doctor 'x' not found");
}

#[test]
fn test_toml_trigger_to_cel_assertion_failed() {
    let trigger = TomlTrigger::AssertionFailed {
        assertion_id: "maven.build.success".to_string(),
    };
    assert_eq!(
        trigger.to_cel_condition(),
        Some("fact('assertion:maven.build.success') == 'failed'".to_string())
    );
}

#[test]
fn test_toml_trigger_to_cel_doctor_failed() {
    let trigger = TomlTrigger::DoctorFailed {
        doctor_id: "sandbox.alive".to_string(),
    };
    assert_eq!(
        trigger.to_cel_condition(),
        Some("fact('doctor:sandbox.alive') == 'failed'".to_string())
    );
}

#[test]
fn test_toml_trigger_to_cel_experience_pattern() {
    let trigger = TomlTrigger::ExperiencePattern {
        tool_name: "cargo".to_string(),
        status: "FAIL".to_string(),
        threshold: 3,
    };
    assert_eq!(
        trigger.to_cel_condition(),
        Some("count_fact('experience:cargo:FAIL', '>=', 3)".to_string())
    );
}

fn assertion_config(
    id: &str,
    name: &str,
    description: &str,
    category: &str,
    check: Option<TomlCheck>,
    checks: Vec<TomlCheck>,
) -> Option<TomlAssertionConfig> {
    Some(TomlAssertionConfig {
        assertion: TomlAssertion {
            id: id.to_string(),
            name: name.to_string(),
            description: description.to_string(),
            category: category.to_string(),
            check,
            checks,
        },
    })
}

#[test]
fn toml_assertion_parser_test_load_from_dir() {
    let mut registry = AssertionRegistry::new();
    let count = registry.load_from_dir(vec![assertion_config(
        "command.exit_code.zero",
        "Exit Code Zero",
        "Fails if command exit code is non-zero",
        "command",
        Some(TomlCheck::ExitCode { expected: 0 }),
        vec![],
    )]);
    assert_eq!(count, 1);

    let assertion = registry.get("command.exit_code.zero").unwrap();
    assert_eq!(assertion.id, "command.exit_code.zero");
    assert!(matches!(assertion.checks[0], AssertionCheck::ExitCode { expected: 0 }));
}

#[test]
fn test_load_multi_check_assertion() {
    let mut registry = AssertionRegistry::new();
    let count = registry.load_from_dir(vec![assertion_config(
        "maven.build.success",
        "Maven Build Success",
        "Maven build must exit with code 0 and stdout must contain BUILD SUCCESS",
        "maven",
        None,
        vec![
            TomlCheck::ExitCode { expected: 0 },
            TomlCheck::StdoutContains { substring: "BUILD SUCCESS".to_string() },
        ],
    )]);
    assert_eq!(count, 1);

    let assertion = registry.get("maven.build.success").unwrap();
    assert_eq!(assertion.checks.len(), 2);
    assert!(matches!(assertion.checks[0], AssertionCheck::ExitCode { expected: 0 }));
    assert!(matches!(
        &assertion.checks[1],
        AssertionCheck::StdoutContains { substring } if substring == "BUILD SUCCESS"
    ));
}

#[test]
fn test_load_legacy_single_check() {
    let mut registry = AssertionRegistry::new();
    let count = registry.load_from_dir(vec![assertion_config(
        "command.exit_code.zero",
        "Exit Code Zero",
        "Fails if command exit code is non-zero",
        "command",
        Some(TomlCheck::ExitCode { expected: 0 }),
        vec![],
    )]);
    assert_eq!(count, 1);

    let assertion = registry.get("command.exit_code.zero").unwrap();
    assert_eq!(assertion.checks.len(), 1);
    assert!(matches!(assertion.checks[0], AssertionCheck::ExitCode { expected: 0 }));
}

#[test]
fn test_load_combined_checks() {
    let mut registry = AssertionRegistry::new();
    let count = registry.load_from_dir(vec![assertion_config(
        "combined.checks",
        "Combined Checks",
        "Has both legacy check and additional checks",
        "test",
        Some(TomlCheck::ExitCode { expected: 0 }),
        vec![TomlCheck::StdoutContains { substring: "done".to_string() }],
    )]);
    assert_eq!(count, 1);

    let assertion = registry.get("combined.checks").unwrap();
    assert_eq!(assertion.checks.len(), 2);
    assert!(matches!(assertion.checks[0], AssertionCheck::ExitCode { expected: 0 }));
    assert!(matches!(
        &assertion.checks[1],
        AssertionCheck::StdoutContains { substring } if substring == "done"
    ));
}

#[test]
fn assertion_without_checks_asks_for_exit_code_zero() {
    let mut registry = AssertionRegistry::default();
    assert!(registry.is_empty());
    registry.load_from_dir(vec![assertion_config("a", "A", "", "c", None, vec![]), None]);
    assert_eq!(registry.len(), 1);
    let list = registry.list();
    assert_eq!(list[0].checks.len(), 1);
    assert!(matches!(list[0].checks[0], AssertionCheck::ExitCode { expected: 0 }));
}

#[test]
fn toml_assertion_parser_test_not_found() {
    let registry = AssertionRegistry::new();
    assert!(registry.get("nonexistent").is_none());
}

#[test]
fn test_toml_check_to_cel_exit_code() {
    let check = TomlCheck::ExitCode { expected: 0 };
    assert_eq!(check.to_cel_condition(), Some("exit_code == 0".to_string()));
}

#[test]
fn test_toml_check_to_cel_exit_code_nonzero() {
    let check = TomlCheck::ExitCode { expected: 127 };
    assert_eq!(check.to_cel_condition(), Some("exit_code == 127".to_string()));
}

#[test]
fn check_to_cel_negative_exit_code() {
    let check = TomlCheck::ExitCode { expected: i32::MIN };
    assert_eq!(check.to_cel_condition(), Some("exit_code == -2147483648".to_string()));
}

#[test]
fn test_toml_check_to_cel_stdout_contains() {
    let check = TomlCheck::StdoutContains {
        substring: "BUILD SUCCESS".to_string(),
    };
    assert_eq!(
        check.to_cel_condition(),
        Some("stdout_contains('BUILD SUCCESS')".to_string())
    );
}

#[test]
fn test_toml_check_to_cel_stderr_contains() {
    let check = TomlCheck::StderrContains {
        substring: "ERROR".to_string(),
    };
    assert_eq!(
        check.to_cel_condition(),
        Some("stderr_contains('ERROR')".to_string())
    );
}

#[test]
fn test_toml_check_to_cel_stdout_matches() {
    let check = TomlCheck::StdoutMatches {
        regex: "line \\d+".to_string(),
    };
    assert_eq!(
        check.to_cel_condition(),
        Some("stdout_matches('line \\\\d+')".to_string())
    );
}

#[test]
fn test_toml_check_to_cel_command_duration() {
    let check = TomlCheck::CommandDuration { max_ms: 5000 };
    assert_eq!(check.to_cel_condition(), Some("duration_lt(5000)".to_string()));
}

#[test]
fn test_toml_check_to_cel_sandbox_alive_skipped() {
    let check = TomlCheck::SandboxAlive;
    assert_eq!(check.to_cel_condition(), None);
}

#[test]
fn test_toml_check_to_cel_escapes_single_quotes() {
    let check = TomlCheck::StdoutContains {
        substring: "it's broken".to_string(),
    };
    assert_eq!(
        check.to_cel_condition(),
        Some(r"stdout_contains('it\'s broken')".to_string())
    );
}

#[test]
fn test_toml_check_to_cel_escapes_backslashes() {
    let check = TomlCheck::StdoutContains {
        substring: r"C:\path".to_string(),
    };
    assert_eq!(
        check.to_cel_condition(),
        Some(r"stdout_contains('C:\\path')".to_string())
    );
}

#[test]
fn escaped_text_with_both_special_characters() {
    assert_eq!(TomlCheck::escape_cel_string(r"\'"), r"\\\'");
    assert_eq!(TomlCheck::escape_cel_string(""), "");
}

#[test]
fn checks_convert_both_ways() {
    let check: AssertionCheck = TomlCheck::CommandDuration { max_ms: 7 }.into();
    let back: TomlCheck = check.into();
    assert!(matches!(back, TomlCheck::CommandDuration { max_ms: 7 }));
    let check: AssertionCheck =
        TomlCheck::StderrContains { substring: "x".to_string() }.into();
    assert!(matches!(check, AssertionCheck::StderrContains { substring } if substring == "x"));
    let check: AssertionCheck = TomlCheck::StdoutMatches { regex: "r".to_string() }.into();
    assert!(matches!(check, AssertionCheck::StdoutMatches { regex } if regex == "r"));
    let check: AssertionCheck = TomlCheck::SandboxAlive.into();
    assert!(matches!(check, AssertionCheck::SandboxAlive));
    let trigger: AdviceTrigger = doctor_failed("d").into();
    assert!(matches!(trigger, AdviceTrigger::DoctorFailed { doctor_id } if doctor_id == "d"));
}

fn doctor_file(
    id: &str,
    name: &str,
    description: &str,
    category: &str,
    severity: Severity,
    checks: Vec<TomlDoctorCheck>,
    source: &str,
) -> Option<DoctorFile> {
    Some(DoctorFile {
        config: TomlDoctorConfig {
            doctor: TomlDoctor {
                id: id.to_string(),
                name: name.to_string(),
                description: description.to_string(),
                category: category.to_string(),
                severity,
                checks,
            },
        },
        source: source.to_string(),
    })
}

fn aliveness() -> TomlDoctorCheck {
    TomlDoctorCheck::Aliveness { sandbox_id: None }
}

#[test]
fn toml_doctor_parser_test_load_from_dir() {
    let mut registry = DoctorRegistry::new();
    let count = registry.load_from_dir(vec![doctor_file(
        "sandbox.alive",
        "Sandbox Alive",
        "Checks that a sandbox is alive and responsive",
        "sandbox",
        Severity::Critical,
        vec![aliveness()],
        "",
    )]);
    assert_eq!(count, 1);

    let doctor = registry.get("sandbox.alive").unwrap();
    assert_eq!(doctor.id, "sandbox.alive");
    assert_eq!(doctor.name, "Sandbox Alive");
    assert_eq!(doctor.severity, Severity::Critical);
    assert!(matches!(doctor.checks[0], DoctorCheck::Aliveness { sandbox_id: None }));
}

#[test]
fn test_load_resources_check() {
    let mut registry = DoctorRegistry::new();
    let count = registry.load_from_dir(vec![doctor_file(
        "sandbox.resources",
        "Sandbox Resources",
        "Checks pool resource usage against thresholds",
        "sandbox",
        Severity::Warning,
        vec![TomlDoctorCheck::Resources {
            max_total: Some(200),
            max_idle_per_template: Some(20),
        }],
        "",
    )]);
    assert_eq!(count, 1);

    let doctor = registry.get("sandbox.resources").unwrap();
    assert!(matches!(
        doctor.checks[0],
        DoctorCheck::Resources { max_total: Some(200), max_idle_per_template: Some(20) }
    ));
}

#[test]
fn test_load_assertion_driven_check() {
    let mut registry = DoctorRegistry::new();
    let count = registry.load_from_dir(vec![doctor_file(
        "docker.daemon",
        "Docker Daemon",
        "Checks Docker daemon health via assertion replay",
        "provider",
        Severity::Critical,
        vec![TomlDoctorCheck::AssertionDriven {
            assertion_id: "command.exit_code.zero".to_string(),
        }],
        "",
    )]);
    assert_eq!(count, 1);

    let doctor = registry.get("docker.daemon").unwrap();
    match &doctor.checks[0] {
        DoctorCheck::AssertionDriven { assertion_id } => {
            assert_eq!(assertion_id, "command.exit_code.zero");
        }
        other => panic!("Expected AssertionDriven, got {:?}", other),
    }
}

#[test]
fn test_load_multiple_checks() {
    let mut registry = DoctorRegistry::new();
    let count = registry.load_from_dir(vec![doctor_file(
        "multi.check",
        "Multi Check",
        "Multiple checks",
        "test",
        Severity::Warning,
        vec![
            aliveness(),
            TomlDoctorCheck::Resources { max_total: Some(100), max_idle_per_template: None },
        ],
        "",
    )]);
    assert_eq!(count, 1);

    let doctor = registry.get("multi.check").unwrap();
    assert_eq!(doctor.checks.len(), 2);
}

#[test]
fn toml_doctor_parser_test_not_found() {
    let registry = DoctorRegistry::new();
    assert!(registry.get("nonexistent").is_none());
}

#[test]
fn toml_doctor_parser_test_get_source() {
    let content = r#"
[doctor]
id = "sandbox.alive"
name = "Sandbox Alive"
description = "Checks that a sandbox is alive"
category = "sandbox"
severity = "critical"

[[doctor.checks]]
type = "aliveness"
"#;
    let mut registry = DoctorRegistry::new();
    registry.load_from_dir(vec![doctor_file(
        "sandbox.alive",
        "Sandbox Alive",
        "Checks that a sandbox is alive",
        "sandbox",
        Severity::Critical,
        vec![aliveness()],
        content,
    )]);

    let source = registry.get_source("sandbox.alive").unwrap();
    assert!(source.contains("sandbox.alive"));
}

#[test]
fn test_round_trip() {
    let mut registry = DoctorRegistry::default();
    registry.load_from_dir(vec![doctor_file(
        "roundtrip.test",
        "Roundtrip Test",
        "Testing roundtrip serialization",
        "test",
        Severity::Info,
        vec![TomlDoctorCheck::Aliveness { sandbox_id: Some("sb-123".to_string()) }],
        "",
    )]);

    let doctor = registry.get("roundtrip.test").unwrap();
    assert_eq!(doctor.id, "roundtrip.test");
    assert_eq!(doctor.name, "Roundtrip Test");
}

#[test]
fn toml_doctor_parser_test_list() {
    let mut registry = DoctorRegistry::new();
    registry.load_from_dir(vec![
        doctor_file(
            "doctor1",
            "Doctor 1",
            "First doctor",
            "test",
            Severity::Warning,
            vec![aliveness()],
            "",
        ),
        doctor_file(
            "doctor2",
            "Doctor 2",
            "Second doctor",
            "test",
            Severity::Info,
            vec![TomlDoctorCheck::Resources { max_total: Some(50), max_idle_per_template: None }],
            "",
        ),
    ]);

    let doctors = registry.list();
    assert_eq!(doctors.len(), 2);
    assert_eq!(registry.len(), 2);
    assert!(!registry.is_empty());
}

#[test]
fn test_toml_doctor_check_to_cel_assertion_driven() {
    let check = TomlDoctorCheck::AssertionDriven {
        assertion_id: "maven.build.success".to_string(),
    };
    assert_eq!(
        check.to_cel_condition(),
        Some("fact('assertion:maven.build.success') == 'passed'".to_string())
    );
}

#[test]
fn test_toml_doctor_check_to_cel_aliveness_skipped() {
    let check = TomlDoctorCheck::Aliveness { sandbox_id: None };
    assert_eq!(check.to_cel_condition(), None);
}

#[test]
fn test_toml_doctor_check_to_cel_resources_skipped() {
    let check = TomlDoctorCheck::Resources {
        max_total: Some(10),
        max_idle_per_template: None,
    };
    assert_eq!(check.to_cel_condition(), None);
}

#[test]
fn extensions_of_file_names() {
    assert_eq!(extension("a.toml"), Some("toml".to_string()));
    assert_eq!(extension("a.b.yaml"), Some("yaml".to_string()));
    assert_eq!(extension("..x"), Some("x".to_string()));
    assert_eq!(extension("a."), Some("".to_string()));
    assert_eq!(extension(".toml"), None);
    assert_eq!(extension(".."), None);
    assert_eq!(extension("toml"), None);
    assert_eq!(extension(""), None);
    assert!(is_catalog_file("x.toml"));
    assert!(!is_catalog_file("x.yaml"));
    assert!(!is_catalog_file(".toml"));
}

fn experience() -> ExperienceRecord {
    ExperienceRecord {
        id: "e1".to_string(),
        trace_id: Some("trace-1".to_string()),
        tool_name: "sandbox_run".to_string(),
        sandbox_id: None,
        started_at: Timestamp { secs: 1_700_000_000, nanos: 123_456_789 },
        finished_at: Some(Timestamp { secs: 1_700_000_001, nanos: 0 }),
        exit_code: Some(0),
        stdout_summary: "hello".to_string(),
        stderr_summary: "".to_string(),
        status: "success".to_string(),
        metadata: "{\"a\":1}".to_string(),
    }
}

#[test]
fn experience_reads_back_from_its_row() {
    let record = experience();
    let row = experience_to_row(&record).unwrap();
    assert_eq!(row.started_at, "2023-11-14T22:13:20.123456789+00:00");
    assert_eq!(row.ended_at, Some("2023-11-14T22:13:21+00:00".to_string()));
    let back = row_to_experience(row, Ok(())).unwrap();
    assert_eq!(back.id, record.id);
    assert_eq!(back.trace_id, record.trace_id);
    assert_eq!(back.started_at, record.started_at);
    assert_eq!(back.finished_at, record.finished_at);
    assert_eq!(back.exit_code, Some(0));
    assert_eq!(back.metadata, "{\"a\":1}");
}

fn row() -> ExperienceRow {
    experience_to_row(&experience()).unwrap()
}

#[test]
fn experience_rows_that_cannot_be_read() {
    let e = row_to_experience(row(), Err("unknown".to_string())).unwrap_err();
    assert_eq!(
        e,
        DomainError::Internal("Failed to parse status 'success': unknown".to_string())
    );
    let mut r = row();
    r.started_at = "yesterday".to_string();
    match row_to_experience(r, Ok(())).unwrap_err() {
        DomainError::Internal(m) => {
            let inner = chrono::DateTime::parse_from_rfc3339("yesterday").unwrap_err();
            assert_eq!(m, format!("Failed to parse started_at: {}", inner));
        }
        other => panic!("{:?}", other),
    }
    let mut r = row();
    r.ended_at = Some("later".to_string());
    match row_to_experience(r, Ok(())).unwrap_err() {
        DomainError::Internal(m) => assert!(m.starts_with("Failed to parse ended_at: ")),
        other => panic!("{:?}", other),
    }
}

#[test]
fn experience_metadata_that_is_no_document_becomes_empty() {
    let mut r = row();
    r.metadata = "{not json".to_string();
    assert_eq!(row_to_experience(r, Ok(())).unwrap().metadata, "{}");
}

#[test]
fn experience_rows_stop_at_the_first_bad_one() {
    let good = ReadRow { row: row(), status: Ok(()) };
    let bad = ReadRow { row: row(), status: Err("x".to_string()) };
    assert_eq!(
        rows_to_experiences(vec![good, bad]).unwrap_err(),
        DomainError::Internal("Failed to parse status 'success': x".to_string())
    );
    let two = vec![
        ReadRow { row: row(), status: Ok(()) },
        ReadRow { row: row(), status: Ok(()) },
    ];
    assert_eq!(rows_to_experiences(two).unwrap().len(), 2);
}

#[test]
fn experience_outside_of_the_calendar_has_no_row() {
    let mut record = experience();
    record.started_at = Timestamp { secs: i64::MAX, nanos: 0 };
    assert!(experience_to_row(&record).is_none());
}
