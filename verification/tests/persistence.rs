use bastion_infrastructure::domain::{
    DomainError, NetworkSpec, Pair, ResourcesSpec, Sandbox, SandboxStatus, Timestamp,
};
use bastion_infrastructure::persistence::in_memory::InMemorySandboxRepository;
use bastion_infrastructure::persistence::sqlite_repository::{
    check_changed, check_new, parse_status, row_to_sandbox, rows_to_sandboxes, sandbox_to_row,
    sync_from_provider, Documents, ReadRow, SandboxRow,
};

fn s(text: &str) -> String {
    text.to_string()
}

fn sandbox(id: &str) -> Sandbox {
    let mut sandbox = Sandbox::new(
        s(id),
        s("maven"),
        s("podman"),
        ResourcesSpec { cpu_count: 2, memory_mb: 1024 },
        NetworkSpec { document: s("{\"mode\":\"none\"}") },
        Timestamp { secs: 1_704_067_200, nanos: 500_000_000 },
    );
    sandbox.mark_running().unwrap();
    sandbox
}

fn documents() -> Documents {
    Documents {
        unknown_status: s("unknown variant"),
        resources: Ok(ResourcesSpec { cpu_count: 2, memory_mb: 1024 }),
        network: Ok(()),
    }
}

#[test]
fn a_sandbox_reads_back_from_its_row() {
    let mut written = sandbox("a");
    written.expires_at = Some(Timestamp { secs: 1_704_067_260, nanos: 0 });
    written.metadata = vec![Pair { key: s("owner"), value: s("\"me\"\n") }];
    let row = sandbox_to_row(&written, Ok(s("{}"))).unwrap();
    assert_eq!(row.status, "running");
    assert_eq!(row.created_at, "2024-01-01T00:00:00.500+00:00");
    assert_eq!(row.expires_at.as_deref(), Some("2024-01-01T00:01:00+00:00"));
    assert_eq!(row.metadata, "{\"owner\":\"\\\"me\\\"\\n\"}");
    assert_eq!(row.resources, "{}");
    let read = row_to_sandbox(row, documents()).unwrap();
    assert_eq!(read, written);
}

#[test]
fn a_sandbox_that_has_no_row_is_told() {
    assert_eq!(
        sandbox_to_row(&sandbox("a"), Err(s("no"))).err(),
        Some(DomainError::Internal(s("Failed to serialize resources: no")))
    );
    let mut late = sandbox("a");
    late.expires_at = Some(Timestamp { secs: i64::MAX, nanos: 0 });
    assert_eq!(
        sandbox_to_row(&late, Ok(s("{}"))).err(),
        Some(DomainError::Internal(s("Timestamp out of range")))
    );
}

fn row() -> SandboxRow {
    sandbox_to_row(&sandbox("a"), Ok(s("{}"))).unwrap()
}

fn error_of(row: SandboxRow, documents: Documents) -> String {
    match row_to_sandbox(row, documents) {
        Err(DomainError::Internal(m)) => m,
        other => panic!("{:?}", other),
    }
}

#[test]
fn each_fault_of_a_row_is_told() {
    let mut bad = row();
    bad.status = s("odd");
    assert_eq!(error_of(bad, documents()), "Failed to parse status 'odd': unknown variant");
    let mut docs = documents();
    docs.resources = Err(s("r"));
    assert_eq!(error_of(row(), docs), "Failed to deserialize resources: r");
    let mut docs = documents();
    docs.network = Err(s("n"));
    assert_eq!(error_of(row(), docs), "Failed to deserialize network: n");
    let mut bad = row();
    bad.metadata = s("[]");
    assert!(error_of(bad, documents()).starts_with("Failed to deserialize metadata: invalid type"));
    let mut bad = row();
    bad.created_at = s("yesterday");
    assert!(error_of(bad, documents()).starts_with("Failed to parse created_at: "));
    let mut bad = row();
    bad.expires_at = Some(s("tomorrow"));
    assert!(error_of(bad, documents()).starts_with("Failed to parse expires_at: "));
}

#[test]
fn times_of_other_zones_are_read() {
    let mut other = row();
    other.created_at = s("2024-01-01T02:30:00+02:30");
    let read = row_to_sandbox(other, documents()).unwrap();
    assert_eq!(read.created_at, Timestamp { secs: 1_704_067_200, nanos: 0 });
}

#[test]
fn the_first_row_that_cannot_be_read_ends_the_list() {
    let good = || ReadRow { row: row(), documents: documents() };
    assert_eq!(rows_to_sandboxes(vec![good(), good()]).unwrap().len(), 2);
    let mut bad = good();
    bad.row.status = s("odd");
    assert!(rows_to_sandboxes(vec![good(), bad, good()]).is_err());
}

#[test]
fn status_names_read_back() {
    for status in [
        SandboxStatus::Pending,
        SandboxStatus::Running,
        SandboxStatus::Paused,
        SandboxStatus::Stopped,
        SandboxStatus::Failed,
    ] {
        assert_eq!(parse_status(status.column()), Some(status));
    }
    assert_eq!(parse_status("Running"), None);
}

#[test]
fn rows_are_new_or_there() {
    assert!(check_new("a", false).is_ok());
    assert_eq!(check_new("a", true), Err(DomainError::AlreadyExists(s("a"))));
    assert!(check_changed("a", 1).is_ok());
    assert_eq!(check_changed("a", 0), Err(DomainError::NotFound(s("a"))));
}

#[test]
fn the_database_is_brought_in_line_with_the_provider() {
    let kept = vec![s("gone"), s("both")];
    let plan = sync_from_provider(&kept, Ok(vec![sandbox("both"), sandbox("new")])).unwrap();
    assert_eq!(plan.stopped, vec![s("gone")]);
    assert_eq!(plan.inserted.len(), 1);
    assert_eq!(plan.inserted[0].id, "new");
    assert_eq!(plan.inserted[0].status, SandboxStatus::Running);
    assert!(matches!(
        sync_from_provider(&kept, Err(s("down"))).err(),
        Some(DomainError::Internal(_))
    ));
}

#[test]
fn sandboxes_in_memory() {
    let mut repo = InMemorySandboxRepository::new();
    assert!(repo.save(&sandbox("a")).is_ok());
    assert!(repo.save(&sandbox("b")).is_ok());
    assert_eq!(repo.find_by_id("a").unwrap(), Some(sandbox("a")));
    assert!(repo.find_by_id("c").unwrap().is_none());
    let mut stopped = sandbox("a");
    stopped.terminate().unwrap();
    assert!(repo.update(&stopped).is_ok());
    assert_eq!(repo.find_by_id("a").unwrap().unwrap().status, SandboxStatus::Stopped);
    // Each sandbox is listed once.
    let mut ids: Vec<String> = repo.find_active().unwrap().into_iter().map(|s| s.id).collect();
    ids.sort();
    assert_eq!(ids, vec![s("a"), s("b")]);
    assert!(repo.delete("a").is_ok());
    assert!(repo.find_by_id("a").unwrap().is_none());
    assert_eq!(repo.delete("a"), Err(DomainError::NotFound(s("a"))));
}
