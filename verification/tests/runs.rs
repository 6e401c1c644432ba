//! The database of enrichment runs.
use bastion_infrastructure::domain::Timestamp;
use bastion_infrastructure::enrichment::adapter::{EnrichmentRunRecord, RunRecorderStats};
use bastion_infrastructure::enrichment::cleanup::{Cleanup, CleanupStep};
use bastion_infrastructure::enrichment::config::RetentionConfig;
use bastion_infrastructure::enrichment::fs::EnrichmentError;
use bastion_infrastructure::enrichment::sqlite_optimizer_repo::group_by_enricher;
use bastion_infrastructure::enrichment::sqlite_worker::{
    cleanup_cutoff, goes_on, kept_command, row_to_record, rows_over_limit, run_numbers, stats,
    RunNumbers, RunTexts, WorkerCommand,
};
use rusqlite::{Connection, ToSql};

fn s(text: &str) -> String {
    text.to_string()
}

const COLUMNS: &str = "id, timestamp, command, enricher_id, exit_code, duration_ms, \
     output_summary_stdout, output_summary_stderr, facts_count, derived_facts_count, \
     rule_hits_count, diagnostics_count, artifact_count, confidence_avg, verdict, \
     recommendation_count, error";

const RUNS_TABLE: &str = "CREATE TABLE IF NOT EXISTS enrichment_runs (
    id TEXT PRIMARY KEY,
    timestamp TEXT NOT NULL,
    command TEXT NOT NULL,
    enricher_id TEXT NOT NULL,
    exit_code INTEGER NOT NULL,
    duration_ms INTEGER NOT NULL,
    output_summary_stdout TEXT,
    output_summary_stderr TEXT,
    facts_count INTEGER DEFAULT 0,
    derived_facts_count INTEGER DEFAULT 0,
    rule_hits_count INTEGER DEFAULT 0,
    diagnostics_count INTEGER DEFAULT 0,
    artifact_count INTEGER DEFAULT 0,
    confidence_avg REAL DEFAULT 0.0,
    verdict TEXT,
    recommendation_count INTEGER DEFAULT 0,
    error TEXT
);";

fn now() -> Timestamp {
    let now = chrono::Utc::now();
    Timestamp { secs: now.timestamp(), nanos: now.timestamp_subsec_nanos() }
}

/// Records of runs in a database in memory.
struct Recorder {
    conn: Connection,
    retention: RetentionConfig,
}

impl Recorder {
    fn in_memory() -> Self {
        Recorder::with_retention_in_memory(RetentionConfig::default())
    }

    fn with_retention_in_memory(retention: RetentionConfig) -> Self {
        let conn = Connection::open_in_memory().unwrap();
        conn.execute_batch(RUNS_TABLE).unwrap();
        Recorder { conn, retention }
    }

    fn record(&self, run: &EnrichmentRunRecord) {
        let command = kept_command(run, self.retention.sanitize, run.command.clone());
        let n = run_numbers(run);
        let values: [&dyn ToSql; 17] = [
            &run.id,
            &run.timestamp,
            &command,
            &run.enricher_id,
            &run.exit_code,
            &n.duration_ms,
            &run.output_summary_stdout,
            &run.output_summary_stderr,
            &n.facts_count,
            &n.derived_facts_count,
            &n.rule_hits_count,
            &n.diagnostics_count,
            &n.artifact_count,
            &f64::from_bits(run.confidence_avg_bits),
            &run.verdict,
            &n.recommendation_count,
            &run.error,
        ];
        let sql = format!(
            "INSERT OR REPLACE INTO enrichment_runs ({}) VALUES (?1, ?2, ?3, ?4, ?5, ?6, ?7, ?8, \
             ?9, ?10, ?11, ?12, ?13, ?14, ?15, ?16, ?17)",
            COLUMNS
        );
        self.conn.execute(&sql, &values[..]).unwrap();
    }

    fn count(&self) -> u64 {
        self.conn
            .query_row("SELECT COUNT(*) FROM enrichment_runs", [], |row| row.get(0))
            .unwrap()
    }

    fn cleanup_at(&self, now: Timestamp) -> Result<u64, EnrichmentError> {
        let mut cleanup = Cleanup::start(&self.retention, now);
        loop {
            let outcome = match cleanup.step() {
                CleanupStep::DeleteBefore(cutoff) => self
                    .conn
                    .execute("DELETE FROM enrichment_runs WHERE timestamp < ?1", [cutoff])
                    .map(|n| n as u64),
                CleanupStep::Count => self
                    .conn
                    .query_row("SELECT COUNT(*) FROM enrichment_runs", [], |row| row.get(0)),
                CleanupStep::DeleteOldest(n) => self
                    .conn
                    .execute(
                        "DELETE FROM enrichment_runs WHERE id IN (SELECT id FROM \
                         enrichment_runs ORDER BY timestamp ASC LIMIT ?1)",
                        [n],
                    )
                    .map(|n| n as u64),
                CleanupStep::Done => return cleanup.finish(),
            };
            cleanup.advance(outcome.map_err(|e| e.to_string()));
        }
    }

    fn cleanup(&self) -> u64 {
        match self.cleanup_at(now()) {
            Ok(deleted) => deleted,
            Err(e) => panic!("{:?}", e),
        }
    }

    fn stats(&self) -> RunRecorderStats {
        let time = |sql: &str| -> Option<String> {
            self.conn.query_row(sql, [], |row| row.get(0)).unwrap()
        };
        stats(
            self.count(),
            time("SELECT MIN(timestamp) FROM enrichment_runs"),
            time("SELECT MAX(timestamp) FROM enrichment_runs"),
        )
    }

    fn read(&self, condition: &str, values: &[&dyn ToSql]) -> Vec<EnrichmentRunRecord> {
        let sql = format!(
            "SELECT {} FROM enrichment_runs {} ORDER BY timestamp ASC",
            COLUMNS, condition
        );
        let mut statement = self.conn.prepare(&sql).unwrap();
        let rows = statement
            .query_map(values, |row| {
                let texts = RunTexts {
                    id: row.get(0)?,
                    timestamp: row.get(1)?,
                    command: row.get(2)?,
                    enricher_id: row.get(3)?,
                    exit_code: row.get(4)?,
                    output_summary_stdout: row.get(6)?,
                    output_summary_stderr: row.get(7)?,
                    confidence_avg_bits: row.get::<_, f64>(13)?.to_bits(),
                    verdict: row.get(14)?,
                    error: row.get(16)?,
                };
                let numbers = RunNumbers {
                    duration_ms: row.get(5)?,
                    facts_count: row.get(8)?,
                    derived_facts_count: row.get(9)?,
                    rule_hits_count: row.get(10)?,
                    diagnostics_count: row.get(11)?,
                    artifact_count: row.get(12)?,
                    recommendation_count: row.get(15)?,
                };
                Ok(row_to_record(texts, numbers))
            })
            .unwrap();
        rows.map(|row| row.unwrap()).collect()
    }

    fn read_records(&self, after: Option<&str>) -> Vec<EnrichmentRunRecord> {
        match after {
            Some(after) => self.read("WHERE timestamp >= ?1", &[&after]),
            None => self.read("", &[]),
        }
    }

    fn read_records_by_enricher(&self, enricher_id: &str) -> Vec<EnrichmentRunRecord> {
        self.read("WHERE enricher_id = ?1", &[&enricher_id])
    }
}

/// A run without output, facts or verdict.
fn plain_run(id: &str, timestamp: &str, command: &str) -> EnrichmentRunRecord {
    EnrichmentRunRecord {
        id: s(id),
        timestamp: s(timestamp),
        command: s(command),
        enricher_id: s("test"),
        exit_code: 0,
        duration_ms: 100,
        output_summary_stdout: None,
        output_summary_stderr: None,
        facts_count: 0,
        derived_facts_count: 0,
        rule_hits_count: 0,
        diagnostics_count: 0,
        artifact_count: 0,
        confidence_avg_bits: 0.0f64.to_bits(),
        verdict: None,
        recommendation_count: 0,
        error: None,
    }
}

/// A run of Maven that passed.
fn maven_run(id: &str, timestamp: &str, command: &str) -> EnrichmentRunRecord {
    EnrichmentRunRecord {
        enricher_id: s("maven"),
        duration_ms: 5000,
        output_summary_stdout: Some(s("BUILD SUCCESS")),
        facts_count: 5,
        derived_facts_count: 2,
        rule_hits_count: 3,
        diagnostics_count: 1,
        artifact_count: 2,
        confidence_avg_bits: 0.85f64.to_bits(),
        verdict: Some(s("PASSED")),
        recommendation_count: 1,
        ..plain_run(id, timestamp, command)
    }
}

// Records that are kept.

#[test]
fn test_record_persists_and_can_be_queried() {
    let recorder = Recorder::in_memory();
    let record =
        maven_run("550e8400-e29b-41d4-a716-446655440000", "2024-01-01T00:00:00Z", "mvn package");
    recorder.record(&record);

    let stats = recorder.stats();
    assert_eq!(stats.current_row_count, 1);
}

#[test]
fn test_record_with_error() {
    let recorder = Recorder::in_memory();
    let record = EnrichmentRunRecord {
        enricher_id: s("maven"),
        exit_code: 1,
        duration_ms: 1000,
        output_summary_stderr: Some(s("COMPILATION ERROR")),
        error: Some(s("extraction failed: pattern not found")),
        ..plain_run("550e8400-e29b-41d4-a716-446655440001", "2024-01-01T00:00:00Z", "mvn package")
    };
    recorder.record(&record);

    let stats = recorder.stats();
    assert_eq!(stats.current_row_count, 1);
    let read = recorder.read_records(None);
    assert_eq!(read[0].error.as_deref(), Some("extraction failed: pattern not found"));
}

#[test]
fn test_multiple_records() {
    let recorder = Recorder::in_memory();
    for i in 0..5u32 {
        let record = EnrichmentRunRecord {
            duration_ms: 5000 + (i as u64 * 100),
            facts_count: 5 + i,
            ..maven_run(
                &format!("550e8400-e29b-41d4-a716-44665544000{}", i),
                "2024-01-01T00:00:00Z",
                &format!("mvn package {}", i),
            )
        };
        recorder.record(&record);
    }

    let stats = recorder.stats();
    assert_eq!(stats.current_row_count, 5);
}

#[test]
fn test_replace_existing_record() {
    let recorder = Recorder::in_memory();
    let id = "550e8400-e29b-41d4-a716-446655440010";
    recorder.record(&maven_run(id, "2024-01-01T00:00:00Z", "mvn package"));
    let record2 = EnrichmentRunRecord {
        duration_ms: 6000,
        facts_count: 10,
        confidence_avg_bits: 0.90f64.to_bits(),
        ..maven_run(id, "2024-01-01T00:00:01Z", "mvn package")
    };
    recorder.record(&record2);

    let stats = recorder.stats();
    assert_eq!(stats.current_row_count, 1);
    let read = recorder.read_records(None);
    assert_eq!(read[0].facts_count, 10);
    assert_eq!(f64::from_bits(read[0].confidence_avg_bits), 0.90);
}

#[test]
fn test_auto_create_table_on_fresh_db() {
    let recorder = Recorder::in_memory();
    let record = EnrichmentRunRecord {
        enricher_id: s(""),
        output_summary_stdout: Some(s("hello")),
        ..plain_run("test-id", "2024-01-01T00:00:00Z", "echo hello")
    };
    recorder.record(&record);
    assert_eq!(recorder.count(), 1);
}

#[test]
fn the_thread_ends_with_a_shutdown() {
    assert!(!goes_on(&WorkerCommand::Shutdown));
    assert!(goes_on(&WorkerCommand::Stats));
    assert!(goes_on(&WorkerCommand::ReadRecords { after: None }));
}

#[test]
fn secrets_are_taken_out_where_asked_for() {
    let run = plain_run("r", "2024-01-01T00:00:00Z", "login --password secret");
    assert_eq!(kept_command(&run, true, s("login ***")), "login ***");
    assert_eq!(kept_command(&run, false, s("login ***")), "login --password secret");
}

#[test]
fn numbers_read_back_as_written() {
    let written = EnrichmentRunRecord {
        duration_ms: u64::MAX,
        facts_count: u32::MAX,
        ..maven_run("r", "2024-01-01T00:00:00Z", "mvn")
    };
    let numbers = run_numbers(&written);
    assert_eq!(numbers.duration_ms, -1);
    assert_eq!(numbers.facts_count, -1);
    assert_eq!(numbers.derived_facts_count, 2);
    let recorder = Recorder::in_memory();
    recorder.record(&written);
    let read = recorder.read_records(None);
    assert_eq!(read.len(), 1);
    assert_eq!(read[0].duration_ms, u64::MAX);
    assert_eq!(read[0].facts_count, u32::MAX);
    assert_eq!(read[0].exit_code, 0);
    assert_eq!(read[0].output_summary_stdout.as_deref(), Some("BUILD SUCCESS"));
    assert_eq!(f64::from_bits(read[0].confidence_avg_bits), 0.85);
}

// Records that are dropped.

#[test]
fn test_cleanup_disabled_returns_zero() {
    let mut retention = RetentionConfig::default();
    retention.enabled = false;
    let recorder = Recorder::with_retention_in_memory(retention);

    let deleted = recorder.cleanup();
    assert_eq!(deleted, 0);
    assert_eq!(cleanup_cutoff(&retention, now()), None);
}

#[test]
fn test_cleanup_age_based() {
    let mut retention = RetentionConfig::default();
    retention.max_age_days = 30;
    retention.enabled = true;
    let recorder = Recorder::with_retention_in_memory(retention);

    let old_record = plain_run("old-record", "2024-01-01T00:00:00Z", "old command");
    let new_record = plain_run("new-record", &chrono::Utc::now().to_rfc3339(), "new command");
    recorder.record(&old_record);
    recorder.record(&new_record);

    let deleted = recorder.cleanup();
    assert_eq!(deleted, 1);

    let stats = recorder.stats();
    assert_eq!(stats.current_row_count, 1);
    assert_eq!(recorder.read_records(None)[0].id, "new-record");
}

#[test]
fn test_cleanup_row_count_cap() {
    let mut retention = RetentionConfig::default();
    retention.max_rows = 5;
    retention.enabled = true;
    let recorder = Recorder::with_retention_in_memory(retention);

    for i in 0..10 {
        recorder.record(&plain_run(
            &format!("row-cap-{}", i),
            &chrono::Utc::now().to_rfc3339(),
            &format!("command {}", i),
        ));
    }

    let deleted = recorder.cleanup();
    assert_eq!(deleted, 5);

    let stats = recorder.stats();
    assert_eq!(stats.current_row_count, 5);
    assert_eq!(rows_over_limit(10, 5), 5);
}

#[test]
fn test_cleanup_under_cap_no_op() {
    let mut retention = RetentionConfig::default();
    retention.max_rows = 100;
    retention.enabled = true;
    let recorder = Recorder::with_retention_in_memory(retention);

    for i in 0..5 {
        recorder.record(&plain_run(
            &format!("under-cap-{}", i),
            &chrono::Utc::now().to_rfc3339(),
            &format!("command {}", i),
        ));
    }

    let deleted = recorder.cleanup();
    assert_eq!(deleted, 0);

    let stats = recorder.stats();
    assert_eq!(stats.current_row_count, 5);
    assert_eq!(rows_over_limit(5, 100), 0);
    assert_eq!(rows_over_limit(5, u64::MAX), 0);
}

#[test]
fn a_cleanup_keeps_the_newest_of_those_not_too_old() {
    let mut retention = RetentionConfig::default();
    retention.max_age_days = 30;
    retention.max_rows = 2;
    let recorder = Recorder::with_retention_in_memory(retention);
    for (id, day) in [("c", "03"), ("a", "01"), ("e", "05"), ("b", "02"), ("d", "04")] {
        let time = format!("2024-05-{}T00:00:00+00:00", day);
        recorder.record(&plain_run(id, &time, "command"));
    }
    // 2024-06-01T00:00:00Z: thirty days before is the second of May.
    let june = Timestamp { secs: 1_717_200_000, nanos: 0 };
    assert_eq!(
        cleanup_cutoff(&retention, june),
        Some(Timestamp { secs: 1_717_200_000 - 30 * 86_400, nanos: 0 })
    );
    assert!(matches!(recorder.cleanup_at(june), Ok(3)));
    let kept: Vec<String> = recorder.read_records(None).into_iter().map(|r| r.id).collect();
    assert_eq!(kept, vec!["d", "e"]);
    // Run again, it finds nothing to drop.
    assert!(matches!(recorder.cleanup_at(june), Ok(0)));
}

#[test]
fn a_cleanup_that_fails_tells_where() {
    let texts = [
        "cleanup age-based delete failed: no",
        "count query failed: no",
        "cleanup row-count delete failed: no",
    ];
    for (failing, text) in texts.iter().enumerate() {
        let mut retention = RetentionConfig::default();
        retention.max_rows = 1;
        let mut cleanup = Cleanup::start(&retention, now());
        for _ in 0..failing {
            cleanup.advance(Ok(3));
        }
        cleanup.advance(Err(s("no")));
        assert!(matches!(cleanup.step(), CleanupStep::Done));
        match cleanup.finish() {
            Err(EnrichmentError::Recorder(e)) => assert_eq!(&e, text),
            other => panic!("{:?}", other),
        }
    }
    // A time that no text can be written for.
    let cleanup =
        Cleanup::start(&RetentionConfig::default(), Timestamp { secs: i64::MAX, nanos: 0 });
    assert!(matches!(cleanup.step(), CleanupStep::Done));
    assert!(cleanup.finish().is_err());
}

// What is told of the records.

#[test]
fn test_stats_empty_database() {
    let recorder = Recorder::in_memory();

    let stats = recorder.stats();
    assert_eq!(stats.current_row_count, 0);
    assert!(stats.oldest_record_ts.is_none());
    assert!(stats.newest_record_ts.is_none());
}

#[test]
fn test_stats_single_record() {
    let recorder = Recorder::in_memory();
    recorder.record(&maven_run("stats-test-1", "2024-06-01T12:00:00Z", "mvn test"));

    let stats = recorder.stats();
    assert_eq!(stats.current_row_count, 1);
    assert_eq!(stats.oldest_record_ts, Some("2024-06-01T12:00:00Z".to_string()));
    assert_eq!(stats.newest_record_ts, Some("2024-06-01T12:00:00Z".to_string()));
}

#[test]
fn test_stats_multiple_records() {
    let recorder = Recorder::in_memory();
    let old_record = EnrichmentRunRecord {
        duration_ms: 3000,
        facts_count: 3,
        derived_facts_count: 1,
        rule_hits_count: 2,
        diagnostics_count: 0,
        artifact_count: 1,
        confidence_avg_bits: 0.80f64.to_bits(),
        recommendation_count: 0,
        ..maven_run("stats-old", "2024-05-01T12:00:00Z", "mvn compile")
    };
    recorder.record(&old_record);
    recorder.record(&maven_run("stats-new", "2024-06-01T12:00:00Z", "mvn test"));

    let stats = recorder.stats();
    assert_eq!(stats.current_row_count, 2);
    assert_eq!(stats.oldest_record_ts, Some("2024-05-01T12:00:00Z".to_string()));
    assert_eq!(stats.newest_record_ts, Some("2024-06-01T12:00:00Z".to_string()));
}

// What the optimizer reads.

fn make_record(id: &str, enricher_id: &str, timestamp: &str) -> EnrichmentRunRecord {
    EnrichmentRunRecord {
        enricher_id: s(enricher_id),
        duration_ms: 1000,
        output_summary_stdout: None,
        verdict: None,
        recommendation_count: 0,
        ..maven_run(id, timestamp, "test command")
    }
}

#[test]
fn test_read_records_empty() {
    let recorder = Recorder::in_memory();
    let records = recorder.read_records(None);
    assert!(records.is_empty());
}

#[test]
fn test_read_records_all() {
    let recorder = Recorder::in_memory();
    recorder.record(&make_record("rec-1", "maven", "2024-01-01T00:00:00Z"));

    let records = recorder.read_records(None);
    assert_eq!(records.len(), 1);
    assert_eq!(records[0].id, "rec-1");
    assert!(recorder.read_records(Some("2024-01-01T00:00:01Z")).is_empty());
}

#[test]
fn test_read_records_by_enricher() {
    let recorder = Recorder::in_memory();
    recorder.record(&make_record("rec-1", "maven", "2024-01-01T00:00:00Z"));
    recorder.record(&make_record("rec-2", "gradle", "2024-01-01T01:00:00Z"));
    recorder.record(&make_record("rec-3", "maven", "2024-01-01T02:00:00Z"));

    let maven_records = recorder.read_records_by_enricher("maven");
    assert_eq!(maven_records.len(), 2);
    let gradle_records = recorder.read_records_by_enricher("gradle");
    assert_eq!(gradle_records.len(), 1);

    let groups = group_by_enricher(&recorder.read_records(None));
    assert_eq!(groups.len(), 2);
    let maven = groups.iter().find(|g| g.enricher_id == "maven").unwrap();
    let ids: Vec<&str> = maven.runs.iter().map(|r| r.id.as_str()).collect();
    assert_eq!(ids, vec!["rec-1", "rec-3"]);
}

#[test]
fn test_compute_statistics() {
    let recorder = Recorder::in_memory();
    for i in 0..5 {
        recorder.record(&make_record(&format!("rec-{}", i), "maven", "2024-01-01T00:00:00Z"));
    }

    let stats = group_by_enricher(&recorder.read_records(None));
    assert_eq!(stats.len(), 1);
    assert_eq!(stats[0].enricher_id, "maven");
    assert_eq!(stats[0].runs.len(), 5);
}
