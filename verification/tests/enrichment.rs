use bastion_infrastructure::domain::{CommandResult, CommandSpec, DomainError, Pair, Timestamp};
use bastion_infrastructure::enrichment::adapter::{
    build_record, enrich, is_recorded, map_command_result, map_command_spec, retention_info,
    truncate_string, AgentContext, OperationInvocation, RecordSlots, RunRecorderStats,
};
use bastion_infrastructure::enrichment::config::{
    EnrichmentConfig, RetentionConfig, SemaphoreConfig,
};
use bastion_infrastructure::enrichment::fs::{EnrichmentError, SandboxFileSystem};
use bastion_infrastructure::enrichment::models::Fact;
use bastion_infrastructure::enrichment::schema_migration::{
    MigrationStep, SchemaMigration, CURRENT_VERSION,
};
use bastion_infrastructure::evaluation::legacy_cel_shim::OperationResult;
use rusqlite::Connection;

fn s(text: &str) -> String {
    text.to_string()
}

fn invocation(command: &str) -> OperationInvocation {
    OperationInvocation { command: s(command), args: vec![], working_dir: None, env_vars: vec![] }
}

fn output(stdout: &str, stderr: &str, duration_ms: u64) -> OperationResult {
    OperationResult {
        exit_code: 0,
        stdout: s(stdout),
        stderr: s(stderr),
        duration_ms,
        timed_out: false,
    }
}

fn fact(source: &str, tags: Vec<String>) -> Fact {
    Fact { key: s("status"), value: s("BUILD SUCCESS"), tags, source_extractor: s(source) }
}

fn context(facts: Vec<Fact>) -> AgentContext {
    AgentContext {
        facts,
        artifacts: vec![],
        verdict: Some(s("PASSED")),
        recommendations: None,
        enricher_id: s("maven"),
    }
}

fn noon() -> Timestamp {
    // 2024-01-01T12:00:00Z
    Timestamp { secs: 1_704_110_400, nanos: 0 }
}

// Settings.

#[test]
fn retention_config_defaults() {
    let config = RetentionConfig::default();
    assert_eq!(config.max_age_days, 90);
    assert_eq!(config.max_rows, 100_000);
    assert!(config.enabled);
    assert!(config.sanitize);
}

#[test]
fn enrichment_config_defaults() {
    let config = EnrichmentConfig::default();
    assert!(config.enabled);
    assert!(config.retention.enabled);
    assert!(config.retention.sanitize);
    assert_eq!(config.catalog_dir, ".bastion/catalog/enrichers");
    assert_eq!(SemaphoreConfig::default().max_concurrent_records, 64);
}

// Commands and their records.

#[test]
fn test_command_spec_mapping() {
    let spec = CommandSpec {
        command: s("mvn package"),
        args: vec![],
        working_dir: Some(s("/workspace")),
        env_vars: vec![Pair { key: s("MAVEN_OPTS"), value: s("-Xmx512m") }],
        timeout_ms: None,
    };
    let invocation = map_command_spec(&spec);
    assert_eq!(invocation.command, "mvn package");
    assert_eq!(invocation.working_dir.as_deref(), Some("/workspace"));
    assert_eq!(invocation.env_vars[0].key, "MAVEN_OPTS");
    assert_eq!(invocation.env_vars[0].value, "-Xmx512m");
}

#[test]
fn test_command_result_mapping() {
    let result = CommandResult {
        exit_code: 0,
        stdout: b"BUILD SUCCESS".to_vec(),
        stderr: b"".to_vec(),
        duration_ms: 5000,
        timed_out: false,
    };
    let op_result = map_command_result(&result);
    assert_eq!(op_result.exit_code, 0);
    assert_eq!(op_result.stdout, "BUILD SUCCESS");
    assert_eq!(op_result.stderr, "");
    assert_eq!(op_result.duration_ms, 5000);
    assert!(!op_result.timed_out);
}

#[test]
fn bytes_that_are_no_text_are_replaced() {
    let result = CommandResult {
        exit_code: 1,
        stdout: vec![b'a', 0xff, b'b'],
        stderr: vec![],
        duration_ms: 1,
        timed_out: true,
    };
    assert_eq!(map_command_result(&result).stdout, "a\u{fffd}b");
}

#[test]
fn test_build_record_truncates_long_output() {
    let long_stdout = "x".repeat(1000);
    let ctx = context(vec![fact("test", vec![])]);
    let record = build_record(
        &invocation("mvn package"),
        &output(&long_stdout, "", 5000),
        Some(&ctx),
        5000,
        0.9f64.to_bits(),
        None,
        noon(),
    )
    .unwrap();
    // stdout should be truncated to 500 chars + ellipsis
    assert!(record.output_summary_stdout.is_some());
    let stdout = record.output_summary_stdout.unwrap();
    assert!(stdout.ends_with('…'));
    assert!(stdout.chars().count() <= 501);
    // stderr is empty, should be None
    assert!(record.output_summary_stderr.is_none());
    assert_eq!(record.timestamp, "2024-01-01T12:00:00+00:00");
    assert_eq!(record.id.len(), 36);
    assert_eq!(record.confidence_avg_bits, 0.9f64.to_bits());
}

#[test]
fn test_build_record_empty_stderr_returns_none() {
    let record = build_record(
        &invocation("echo hello"),
        &output("hello", "", 100),
        None,
        100,
        0,
        None,
        noon(),
    )
    .unwrap();
    // Empty stderr should be stored as None
    assert!(record.output_summary_stderr.is_none());
    assert_eq!(record.output_summary_stdout.as_deref(), Some("hello"));
    assert_eq!(record.enricher_id, "");
    assert_eq!(record.rule_hits_count, 0);
}

#[test]
fn a_record_counts_what_the_context_holds() {
    let mut ctx = context(vec![
        fact("rule", vec![]),
        fact("regex", vec![s("diagnostic")]),
        fact("rule", vec![s("other"), s("diagnostic")]),
    ]);
    ctx.artifacts = vec![s("app.jar")];
    ctx.recommendations = Some(vec![s("clean"), s("retry")]);
    let record = build_record(
        &invocation("mvn test"),
        &output("out", "err", 1),
        Some(&ctx),
        7,
        1,
        Some(s("boom")),
        noon(),
    )
    .unwrap();
    assert_eq!(record.facts_count, 3);
    assert_eq!(record.derived_facts_count, 2);
    assert_eq!(record.diagnostics_count, 2);
    assert_eq!(record.artifact_count, 1);
    assert_eq!(record.recommendation_count, 2);
    assert_eq!(record.rule_hits_count, 1);
    assert_eq!(record.duration_ms, 7);
    assert_eq!(record.verdict.as_deref(), Some("PASSED"));
    assert_eq!(record.error.as_deref(), Some("boom"));
    assert_eq!(record.enricher_id, "maven");
}

#[test]
fn a_time_beyond_the_calendar_gives_no_record() {
    let far = Timestamp { secs: i64::MAX, nanos: 0 };
    let record =
        build_record(&invocation("x"), &output("", "", 0), None, 0, 0, None, far);
    assert!(record.is_none());
}

#[test]
fn texts_are_cut_by_characters() {
    assert_eq!(truncate_string("", 3), None);
    assert_eq!(truncate_string("äöü", 3), Some(s("äöü")));
    assert_eq!(truncate_string("äöüß", 3), Some(s("äöü…")));
}

#[test]
fn test_record_run_not_called_when_no_recorder() {
    assert!(!is_recorded(&EnrichmentConfig::default(), false));
    assert!(is_recorded(&EnrichmentConfig::default(), true));
}

#[test]
fn only_contexts_with_facts_are_handed_on() {
    let config = EnrichmentConfig::default();
    assert!(enrich(&config, Ok(context(vec![]))).is_none());
    assert!(enrich(&config, Err(s("failed"))).is_none());
    assert!(enrich(&config, Ok(context(vec![fact("regex", vec![])]))).is_some());
    let mut off = EnrichmentConfig::default();
    off.enabled = false;
    assert!(enrich(&off, Ok(context(vec![fact("regex", vec![])]))).is_none());
}

#[test]
fn records_on_their_way_are_bounded() {
    let mut slots = RecordSlots::new(2);
    assert!(slots.try_acquire());
    assert!(slots.try_acquire());
    assert!(!slots.try_acquire());
    assert_eq!(slots.in_flight(), 2);
    slots.release();
    assert_eq!(slots.in_flight(), 1);
    assert!(slots.try_acquire());
}

#[test]
fn retention_tells_rows_only_where_they_are_known() {
    let config = RetentionConfig::default();
    let known = retention_info(
        &config,
        Ok(RunRecorderStats {
            current_row_count: 3,
            oldest_record_ts: Some(s("a")),
            newest_record_ts: Some(s("b")),
        }),
    );
    assert_eq!(known.current_row_count, Some(3));
    assert_eq!(known.oldest_record_ts.as_deref(), Some("a"));
    let unknown = retention_info(&config, Err(s("gone")));
    assert_eq!(unknown.current_row_count, None);
    assert_eq!(unknown.max_rows, 100_000);
}

// Files of the sandbox.

#[test]
fn test_dangerous_path_rejected() {
    // These paths should be rejected
    assert!(SandboxFileSystem::is_dangerous_path("/etc/passwd; rm -rf /"));
    assert!(SandboxFileSystem::is_dangerous_path("file.txt | cat"));
    assert!(SandboxFileSystem::is_dangerous_path("$HOME/.ssh/id_rsa"));
    assert!(SandboxFileSystem::is_dangerous_path("`whoami`"));
    assert!(SandboxFileSystem::is_dangerous_path("multi\nline"));
    // Safe paths should pass
    assert!(!SandboxFileSystem::is_dangerous_path("target/classes/app.jar"));
    assert!(!SandboxFileSystem::is_dangerous_path("simple/path/file.txt"));
}

#[test]
fn test_glob_pattern_validation() {
    // Valid patterns
    assert!(SandboxFileSystem::is_valid_glob_pattern("target/*.jar"));
    assert!(SandboxFileSystem::is_valid_glob_pattern("src/**/*.rs"));
    assert!(SandboxFileSystem::is_valid_glob_pattern("**/*.txt"));
    // Invalid patterns
    assert!(!SandboxFileSystem::is_valid_glob_pattern(""));
    assert!(!SandboxFileSystem::is_valid_glob_pattern("; rm -rf /"));
    assert!(!SandboxFileSystem::is_valid_glob_pattern("file | cat"));
    assert!(!SandboxFileSystem::is_valid_glob_pattern("$(whoami)"));
}

#[test]
fn letters_of_any_script_may_stand_in_a_pattern() {
    assert!(SandboxFileSystem::is_valid_glob_pattern("größe/数.txt"));
    assert!(!SandboxFileSystem::is_valid_glob_pattern("…"));
}

fn find_command(pattern: &str) -> String {
    SandboxFileSystem::glob_to_find_command(pattern).unwrap().command
}

fn refused(pattern: &str) -> String {
    match SandboxFileSystem::glob_to_find_command(pattern) {
        Err(EnrichmentError::FileSystem(message)) => message,
        other => panic!("{:?}", other),
    }
}

#[test]
fn test_glob_to_find_command_simple() {
    // target/*.jar -> find target -name '*.jar'
    let command = find_command("target/*.jar");
    assert!(command.contains("find target -name '*.jar'"), "got: {}", command);
}

#[test]
fn test_glob_to_find_command_recursive() {
    // **/*.java -> find . -name '*.java'
    let command = find_command("**/*.java");
    assert!(command.contains("find . -name '*.java'"), "got: {}", command);
}

#[test]
fn test_glob_to_find_command_nested() {
    // src/main/java/**/*.kt -> find src/main/java -name '*.kt'
    let command = find_command("src/main/java/**/*.kt");
    assert!(command.contains("find src/main/java -name '*.kt'"), "got: {}", command);
}

#[test]
fn test_glob_to_find_command_rejects_path_traversal() {
    // Absolute path should be rejected
    assert!(refused("/etc/passwd").contains("path traversal"));
    // Parent directory traversal should be rejected
    assert!(refused("../target/*.jar").contains("path traversal"));
    // Deep parent traversal
    assert!(SandboxFileSystem::glob_to_find_command("target/../../etc/passwd").is_err());
}

#[test]
fn test_glob_to_find_command_single_level() {
    // *.jar -> find . -name '*.jar'
    let command = find_command("*.jar");
    assert!(command.contains("find . -name '*.jar'"), "got: {}", command);
}

#[test]
fn a_search_never_leaves_the_directory() {
    assert!(refused("/passwd").contains("path traversal"));
    assert_eq!(find_command("it's/*.jar"), "find it'\\''s -name '*.jar' 2>/dev/null");
}

#[test]
fn files_are_read_through_a_quoted_command() {
    assert_eq!(SandboxFileSystem::read_command("a/b's").unwrap().command, "cat 'a/b'\\''s'");
    assert!(matches!(
        SandboxFileSystem::read_command("a;b"),
        Err(EnrichmentError::FileSystem(m)) if m == "unsafe path"
    ));
    let ran = |exit_code: i32| CommandResult {
        exit_code,
        stdout: b"text\n\nmore\n".to_vec(),
        stderr: b"no such file".to_vec(),
        duration_ms: 0,
        timed_out: false,
    };
    assert_eq!(SandboxFileSystem::read_to_string("f", Ok(ran(0))).unwrap(), "text\n\nmore\n");
    assert!(matches!(
        SandboxFileSystem::read_to_string("f", Ok(ran(1))),
        Err(EnrichmentError::FileSystem(m)) if m == "cat f failed: no such file"
    ));
    assert_eq!(SandboxFileSystem::glob(Ok(ran(0))).unwrap(), vec![s("text"), s("more")]);
    assert!(SandboxFileSystem::glob(Ok(ran(1))).unwrap().is_empty());
    assert!(SandboxFileSystem::glob(Err(s("gone"))).is_err());
    assert!(matches!(
        SandboxFileSystem::glob_command("a;b"),
        Err(EnrichmentError::FileSystem(m)) if m == "invalid glob pattern"
    ));
}

// The schema of the database of runs.

const RUNS_COLUMNS: &str = "id TEXT PRIMARY KEY, timestamp TEXT NOT NULL, command TEXT NOT NULL, \
     enricher_id TEXT NOT NULL, exit_code INTEGER NOT NULL, duration_ms INTEGER NOT NULL, \
     output_summary_stdout TEXT, output_summary_stderr TEXT, facts_count INTEGER DEFAULT 0, \
     derived_facts_count INTEGER DEFAULT 0, rule_hits_count INTEGER DEFAULT 0, \
     diagnostics_count INTEGER DEFAULT 0, artifact_count INTEGER DEFAULT 0, \
     confidence_avg REAL DEFAULT 0.0, verdict TEXT, recommendation_count INTEGER DEFAULT 0, \
     error TEXT";

const VERSION_TABLE: &str = "CREATE TABLE IF NOT EXISTS schema_version (\
     version INTEGER PRIMARY KEY, applied_at TEXT NOT NULL, description TEXT);";

fn runs_table(more: &str) -> String {
    format!("CREATE TABLE IF NOT EXISTS enrichment_runs ({}{});", RUNS_COLUMNS, more)
}

fn create_fresh_db() -> Connection {
    let conn = Connection::open_in_memory().unwrap();
    conn.execute_batch(&runs_table("")).unwrap();
    conn.execute_batch(VERSION_TABLE).unwrap();
    conn.execute_batch(
        "INSERT INTO schema_version (version, applied_at, description) \
         VALUES (1, '2024-01-01T00:00:00Z', 'initial schema');",
    )
    .unwrap();
    conn
}

fn create_v2_db() -> Connection {
    let conn = Connection::open_in_memory().unwrap();
    conn.execute_batch(&runs_table(", sandbox_id TEXT")).unwrap();
    conn.execute_batch(VERSION_TABLE).unwrap();
    conn.execute_batch(
        "INSERT INTO schema_version (version, applied_at, description) \
         VALUES (2, '2024-01-01T00:00:00Z', 'add sandbox_id');",
    )
    .unwrap();
    conn
}

fn highest_version(conn: &Connection) -> Result<Option<i32>, String> {
    conn.query_row("SELECT MAX(version) FROM schema_version", [], |row| row.get(0))
        .map_err(|e| e.to_string())
}

fn version(conn: &Connection) -> i32 {
    conn.execute_batch(VERSION_TABLE).unwrap();
    SchemaMigration::get_version(highest_version(conn).unwrap())
}

fn execute(conn: &Connection, sql: &str) -> Result<Option<i32>, String> {
    conn.execute_batch(sql).map(|_| None).map_err(|e| e.to_string())
}

fn migrate(conn: &Connection) -> Result<(), DomainError> {
    let mut migration = SchemaMigration::start();
    while migration.step() != MigrationStep::Done {
        let outcome = match migration.step() {
            MigrationStep::EnsureTable => execute(conn, VERSION_TABLE),
            MigrationStep::QueryVersion => highest_version(conn),
            MigrationStep::Begin => execute(conn, "BEGIN IMMEDIATE"),
            MigrationStep::Recheck => highest_version(conn),
            MigrationStep::AddColumn => {
                execute(conn, "ALTER TABLE enrichment_runs ADD COLUMN sandbox_id TEXT")
            }
            MigrationStep::RecordVersion => execute(
                conn,
                "INSERT INTO schema_version (version, applied_at, description) \
                 VALUES (2, '2024-01-02T00:00:00Z', 'add sandbox_id')",
            ),
            MigrationStep::Commit => execute(conn, "COMMIT"),
            MigrationStep::Rollback => execute(conn, "ROLLBACK"),
            MigrationStep::Done => unreachable!(),
        };
        migration.advance(outcome);
    }
    migration.finish()
}

fn sandbox_columns(conn: &Connection) -> i32 {
    conn.query_row(
        "SELECT COUNT(*) FROM pragma_table_info('enrichment_runs') WHERE name = 'sandbox_id'",
        [],
        |row| row.get(0),
    )
    .unwrap()
}

#[test]
fn test_get_version_fresh_db() {
    let conn = Connection::open_in_memory().unwrap();
    assert_eq!(version(&conn), 0);
}

#[test]
fn test_get_version_v1() {
    assert_eq!(version(&create_fresh_db()), 1);
}

#[test]
fn test_get_version_v2() {
    assert_eq!(version(&create_v2_db()), 2);
}

#[test]
fn test_run_no_op_when_current() {
    let conn = create_v2_db();
    migrate(&conn).unwrap();
    assert_eq!(version(&conn), 2);
    assert_eq!(sandbox_columns(&conn), 1);
}

#[test]
fn test_migrate_v1_to_v2() {
    let conn = create_fresh_db();
    assert_eq!(sandbox_columns(&conn), 0);
    migrate(&conn).unwrap();
    assert_eq!(sandbox_columns(&conn), 1);
    assert_eq!(version(&conn), 2);
    assert_eq!(CURRENT_VERSION, 2);
}

#[test]
fn test_migration_idempotent() {
    let conn = create_fresh_db();
    migrate(&conn).unwrap();
    migrate(&conn).unwrap();
    assert_eq!(version(&conn), 2);
    assert_eq!(sandbox_columns(&conn), 1);
}

#[test]
fn test_migration_preserves_existing_data() {
    let conn = create_fresh_db();
    conn.execute(
        "INSERT INTO enrichment_runs (id, timestamp, command, enricher_id, exit_code, duration_ms) \
         VALUES ('test-1', '2024-01-01T00:00:00Z', 'mvn package', 'maven', 0, 5000)",
        [],
    )
    .unwrap();
    migrate(&conn).unwrap();
    let (id, sandbox_id): (String, Option<String>) = conn
        .query_row(
            "SELECT id, sandbox_id FROM enrichment_runs WHERE id = 'test-1'",
            [],
            |row| Ok((row.get(0)?, row.get(1)?)),
        )
        .unwrap();
    assert_eq!(id, "test-1");
    assert_eq!(sandbox_id, None);
}

#[test]
fn test_run_creates_schema_version_if_missing() {
    let conn = Connection::open_in_memory().unwrap();
    conn.execute_batch(&runs_table("")).unwrap();
    migrate(&conn).unwrap();
    assert_eq!(version(&conn), 2);
    assert_eq!(sandbox_columns(&conn), 1);
}

#[test]
fn a_migration_that_fails_changes_nothing() {
    // Without the table of runs the column cannot be added.
    let conn = Connection::open_in_memory().unwrap();
    match migrate(&conn) {
        Err(DomainError::Internal(message)) => {
            assert!(message.starts_with("Failed to add sandbox_id column: "), "{}", message)
        }
        other => panic!("{:?}", other),
    }
    assert_eq!(version(&conn), 0);
    assert!(conn.is_autocommit());
}

#[test]
fn each_failed_step_of_a_migration_is_told() {
    let steps = [
        "Failed to ensure schema_version table: no",
        "Failed to query schema version: no",
        "Failed to begin migration transaction: no",
        "Failed to re-check version: no",
        "Failed to add sandbox_id column: no",
        "Failed to record v2 migration: no",
        "Failed to commit migration: no",
    ];
    for (failing, text) in steps.iter().enumerate() {
        let mut migration = SchemaMigration::start();
        for _ in 0..failing {
            migration.advance(Ok(Some(1)));
        }
        migration.advance(Err(s("no")));
        // From the check inside the transaction on, what was begun is taken back.
        assert_eq!(migration.step() == MigrationStep::Rollback, failing >= 3);
        if failing >= 3 {
            migration.advance(Err(s("passed over")));
        }
        assert_eq!(migration.step(), MigrationStep::Done);
        assert_eq!(migration.finish(), Err(DomainError::Internal(text.to_string())));
    }
}
