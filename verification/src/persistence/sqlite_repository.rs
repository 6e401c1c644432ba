//! The rows in which sandboxes are kept, and how they are brought in line with what a
//! provider runs.
use vstd::prelude::*;

use crate::domain;
use crate::domain::{
    DomainError, DomainErrorView, ResourcesSpec, NetworkSpec, Sandbox, SandboxStatus, Timestamp,
};
use crate::interop;
use crate::interop::{parse_rfc3339, parse_text_map, write_rfc3339, write_text_map};
use crate::text;
use crate::text::{concat2, concat4, str_eq};

verus! {

/// A sandbox as the database holds it.
#[derive(Debug)]
pub struct SandboxRow {
    pub id: String,
    pub template_id: String,
    pub provider_id: String,
    pub status: String,
    pub created_at: String,
    pub expires_at: Option<String>,
    pub resources: String,
    pub network: String,
    pub metadata: String,
}

/// What the documents of a row were read as: the message for a status that is not
/// known, the resources, and whether the network's document is one.
#[derive(Debug)]
pub struct Documents {
    pub unknown_status: String,
    pub resources: Result<ResourcesSpec, String>,
    pub network: Result<(), String>,
}

/// The status of a name in the database.
pub open spec fn status_of(column: Seq<char>) -> Option<SandboxStatus> {
    if column == "pending"@ {
        Some(SandboxStatus::Pending)
    } else if column == "running"@ {
        Some(SandboxStatus::Running)
    } else if column == "paused"@ {
        Some(SandboxStatus::Paused)
    } else if column == "stopped"@ {
        Some(SandboxStatus::Stopped)
    } else if column == "failed"@ {
        Some(SandboxStatus::Failed)
    } else {
        None
    }
}

/// The status of a name in the database.
pub fn parse_status(column: &str) -> (r: Option<SandboxStatus>)
    ensures
        r == status_of(column@),
        r == Some(SandboxStatus::Pending) <==> column@ == "pending"@,
        r == Some(SandboxStatus::Running) <==> column@ == "running"@,
        r == Some(SandboxStatus::Paused) <==> column@ == "paused"@,
        r == Some(SandboxStatus::Stopped) <==> column@ == "stopped"@,
        r == Some(SandboxStatus::Failed) <==> column@ == "failed"@,
{
    proof {
        lemma_status_names();
    }
    if str_eq(column, "pending") {
        Some(SandboxStatus::Pending)
    } else if str_eq(column, "running") {
        Some(SandboxStatus::Running)
    } else if str_eq(column, "paused") {
        Some(SandboxStatus::Paused)
    } else if str_eq(column, "stopped") {
        Some(SandboxStatus::Stopped)
    } else if str_eq(column, "failed") {
        Some(SandboxStatus::Failed)
    } else {
        None
    }
}

proof fn lemma_status_names()
    ensures
        "pending"@ != "running"@,
        "pending"@ != "paused"@,
        "pending"@ != "stopped"@,
        "pending"@ != "failed"@,
        "running"@ != "paused"@,
        "running"@ != "stopped"@,
        "running"@ != "failed"@,
        "paused"@ != "stopped"@,
        "paused"@ != "failed"@,
        "stopped"@ != "failed"@,
{
    reveal_strlit("pending");
    reveal_strlit("running");
    reveal_strlit("paused");
    reveal_strlit("stopped");
    reveal_strlit("failed");
    assert("pending"@.len() == 7 && "running"@.len() == 7 && "stopped"@.len() == 7);
    assert("paused"@.len() == 6 && "failed"@.len() == 6);
    assert("pending"@[0] == 'p' && "running"@[0] == 'r' && "stopped"@[0] == 's');
    assert("paused"@[0] == 'p' && "failed"@[0] == 'f');
}

/// Each status is read from the name that it is written under.
pub proof fn law_status_names_read_back(status: SandboxStatus)
    ensures
        status_of(domain::status_column(status)) == Some(status),
{
    reveal_strlit("pending");
    reveal_strlit("running");
    reveal_strlit("paused");
    reveal_strlit("stopped");
    reveal_strlit("failed");
    assert("pending"@[0] != "running"@[0]);
    assert("stopped"@[0] != "pending"@[0]);
    assert("stopped"@[0] != "running"@[0]);
    assert("paused"@.len() != "pending"@.len());
    assert("failed"@[0] != "paused"@[0]);
}

/// Why a row cannot be read, if so. The first fault counts.
pub open spec fn row_error(row: SandboxRow, documents: Documents) -> Option<Seq<char>> {
    if status_of(row.status@) is None {
        Some(
            "Failed to parse status '"@ + row.status@ + "': "@ + documents.unknown_status@,
        )
    } else if let Err(e) = documents.resources {
        Some("Failed to deserialize resources: "@ + e@)
    } else if let Err(e) = documents.network {
        Some("Failed to deserialize network: "@ + e@)
    } else if let Err(e) = interop::json_text_map(row.metadata@) {
        Some("Failed to deserialize metadata: "@ + e)
    } else if let Err(e) = interop::rfc3339_value(row.created_at@) {
        Some("Failed to parse created_at: "@ + e)
    } else {
        match row.expires_at {
            None => None,
            Some(t) => match interop::rfc3339_value(t@) {
                Err(e) => Some("Failed to parse expires_at: "@ + e),
                Ok(_) => None,
            },
        }
    }
}

/// Whether a row is read as a sandbox.
pub open spec fn reads_as(row: SandboxRow, documents: Documents, sandbox: Sandbox) -> bool {
    &&& sandbox.id@ == row.id@
    &&& sandbox.template_id@ == row.template_id@
    &&& sandbox.provider_id@ == row.provider_id@
    &&& status_of(row.status@) == Some(sandbox.status)
    &&& interop::reads_as_time(row.created_at@, sandbox.created_at)
    &&& match (row.expires_at, sandbox.expires_at) {
        (None, None) => true,
        (Some(text), Some(t)) => interop::reads_as_time(text@, t),
        _ => false,
    }
    &&& documents.resources matches Ok(resources)
    &&& sandbox.resources == resources
    &&& sandbox.network.document@ == row.network@
    &&& interop::reads_as_pairs(row.metadata@, sandbox.metadata@)
}

/// The sandbox that a row holds.
pub fn row_to_sandbox(row: SandboxRow, documents: Documents) -> (r: Result<Sandbox, DomainError>)
    ensures
        match r {
            Ok(sandbox) => row_error(row, documents) is None && reads_as(row, documents, sandbox),
            Err(DomainError::Internal(m)) => row_error(row, documents) == Some(m@),
            Err(_) => false,
        },
        r is Ok <==> {
            &&& row.status@ == "pending"@ || row.status@ == "running"@ || row.status@ == "paused"@
                || row.status@ == "stopped"@ || row.status@ == "failed"@
            &&& documents.resources is Ok
            &&& documents.network is Ok
            &&& interop::json_text_map(row.metadata@) is Ok
            &&& interop::rfc3339_value(row.created_at@) is Ok
            &&& row.expires_at is Some ==> interop::rfc3339_value(row.expires_at->0@) is Ok
        },
        r matches Ok(s) ==> {
            &&& s.id@ == row.id@
            &&& s.template_id@ == row.template_id@
            &&& s.provider_id@ == row.provider_id@
            &&& row.status@ == domain::status_column(s.status)
            &&& interop::rfc3339_value(row.created_at@) == Ok::<(i64, u32), Seq<char>>(
                (s.created_at.secs, s.created_at.nanos),
            )
            &&& s.expires_at is Some <==> row.expires_at is Some
            &&& row.expires_at is Some ==> interop::rfc3339_value(row.expires_at->0@) == Ok::<
                (i64, u32),
                Seq<char>,
            >((s.expires_at->0.secs, s.expires_at->0.nanos))
            &&& documents.resources == Ok::<ResourcesSpec, String>(s.resources)
            &&& s.network.document@ == row.network@
            &&& interop::json_text_map(row.metadata@) == Ok::<
                Map<Seq<char>, Seq<char>>,
                Seq<char>,
            >(interop::pairs_map(s.metadata@))
        },
        r is Err ==> r->Err_0 is Internal && ({
            let said = r->Err_0->Internal_0@;
            let known = row.status@ == "pending"@ || row.status@ == "running"@ || row.status@
                == "paused"@ || row.status@ == "stopped"@ || row.status@ == "failed"@;
            let metadata = interop::json_text_map(row.metadata@);
            let created = interop::rfc3339_value(row.created_at@);
            &&& !known ==> said == "Failed to parse status '"@ + row.status@ + "': "@
                + documents.unknown_status@
            &&& known && documents.resources is Err ==> said == "Failed to deserialize resources: "@
                + documents.resources->Err_0@
            &&& known && documents.resources is Ok && documents.network is Err ==> said
                == "Failed to deserialize network: "@ + documents.network->Err_0@
            &&& known && documents.resources is Ok && documents.network is Ok ==> {
                &&& metadata is Err ==> said == "Failed to deserialize metadata: "@
                    + metadata->Err_0
                &&& metadata is Ok && created is Err ==> said == "Failed to parse created_at: "@
                    + created->Err_0
                &&& metadata is Ok && created is Ok ==> said == "Failed to parse expires_at: "@
                    + interop::rfc3339_value(row.expires_at->0@)->Err_0
            }
        }),
{
    let status = match parse_status(row.status.as_str()) {
        Some(s) => s,
        None => {
            return Err(
                DomainError::Internal(
                    concat4(
                        "Failed to parse status '",
                        row.status.as_str(),
                        "': ",
                        documents.unknown_status.as_str(),
                    ),
                ),
            );
        },
    };
    let resources = match documents.resources {
        Ok(v) => v,
        Err(e) => {
            return Err(
                DomainError::Internal(concat2("Failed to deserialize resources: ", e.as_str())),
            );
        },
    };
    match documents.network {
        Ok(_) => {},
        Err(e) => {
            return Err(
                DomainError::Internal(concat2("Failed to deserialize network: ", e.as_str())),
            );
        },
    }
    let metadata = match parse_text_map(row.metadata.as_str()) {
        Ok(v) => v,
        Err(e) => {
            return Err(
                DomainError::Internal(concat2("Failed to deserialize metadata: ", e.as_str())),
            );
        },
    };
    let created_at = match parse_rfc3339(row.created_at.as_str()) {
        Ok(t) => t,
        Err(e) => {
            return Err(
                DomainError::Internal(concat2("Failed to parse created_at: ", e.as_str())),
            );
        },
    };
    let expires_at: Option<Timestamp> = match row.expires_at {
        None => None,
        Some(text) => match parse_rfc3339(text.as_str()) {
            Ok(t) => Some(t),
            Err(e) => {
                return Err(
                    DomainError::Internal(concat2("Failed to parse expires_at: ", e.as_str())),
                );
            },
        },
    };
    Ok(
        Sandbox {
            id: row.id,
            template_id: row.template_id,
            provider_id: row.provider_id,
            status,
            created_at,
            expires_at,
            resources,
            network: NetworkSpec { document: row.network },
            metadata,
        },
    )
}

/// What is read from the row of a sandbox is the sandbox: two sandboxes as which one row is
/// read, the one that was kept and the one that comes back, are the same. The metadata are
/// the same texts under the same names.
pub proof fn law_kept_sandbox_reads_back(
    kept: Sandbox,
    row: SandboxRow,
    documents: Documents,
    read: Sandbox,
)
    requires
        reads_as(row, documents, kept),
        reads_as(row, documents, read),
    ensures
        read.id@ == kept.id@,
        read.template_id@ == kept.template_id@,
        read.provider_id@ == kept.provider_id@,
        read.status == kept.status,
        read.created_at == kept.created_at,
        read.expires_at == kept.expires_at,
        read.resources == kept.resources,
        read.network.document@ == kept.network.document@,
        interop::pairs_map(read.metadata@) == interop::pairs_map(kept.metadata@),
{
}

/// Whether the points in time of a sandbox can be written.
pub open spec fn times_writable(sandbox: Sandbox) -> bool {
    &&& interop::rfc3339_text(sandbox.created_at.secs, sandbox.created_at.nanos) is Some
    &&& match sandbox.expires_at {
        None => true,
        Some(t) => interop::rfc3339_text(t.secs, t.nanos) is Some,
    }
}

/// Whether the points in time of a sandbox lie in years of four digits.
pub open spec fn times_ordinary(sandbox: Sandbox) -> bool {
    &&& interop::four_digit_year(sandbox.created_at)
    &&& match sandbox.expires_at {
        None => true,
        Some(t) => interop::four_digit_year(t),
    }
}

/// Whether a row holds what a sandbox says, its resources as the given document.
pub open spec fn is_row_of(row: SandboxRow, sandbox: Sandbox, resources: Seq<char>) -> bool {
    &&& row.id@ == sandbox.id@
    &&& row.template_id@ == sandbox.template_id@
    &&& row.provider_id@ == sandbox.provider_id@
    &&& row.status@ == domain::status_column(sandbox.status)
    &&& interop::rfc3339_text(sandbox.created_at.secs, sandbox.created_at.nanos) == Some(row.created_at@)
    &&& match (sandbox.expires_at, row.expires_at) {
        (None, None) => true,
        (Some(t), Some(text)) => interop::rfc3339_text(t.secs, t.nanos) == Some(text@),
        _ => false,
    }
    &&& row.resources@ == resources
    &&& row.network@ == sandbox.network.document@
    &&& interop::reads_as_pairs(row.metadata@, sandbox.metadata@)
}

/// Why a sandbox cannot be written, if so: its resources have no document, or a point
/// in time has no text.
pub open spec fn write_error(sandbox: Sandbox, resources: Result<String, String>) -> Option<
    Seq<char>,
> {
    match resources {
        Err(e) => Some("Failed to serialize resources: "@ + e@),
        Ok(_) => if times_writable(sandbox) {
            None
        } else {
            Some("Timestamp out of range"@)
        },
    }
}

/// The row in which a sandbox is kept, with the document of its resources. Where the
/// points in time lie in years of four digits, the row is read as the sandbox again.
pub fn sandbox_to_row(sandbox: &Sandbox, resources: Result<String, String>) -> (r: Result<
    SandboxRow,
    DomainError,
>)
    ensures
        match r {
            Ok(row) => {
                &&& resources matches Ok(document)
                &&& times_writable(*sandbox)
                &&& is_row_of(row, *sandbox, document@)
            },
            Err(DomainError::Internal(m)) => write_error(*sandbox, resources) == Some(m@),
            Err(_) => false,
        },
        times_ordinary(*sandbox) && resources is Ok ==> match r {
            Ok(row) => forall|documents: Documents|
                documents.resources == Ok::<ResourcesSpec, String>(sandbox.resources)
                    && documents.network is Ok ==> row_error(row, documents) is None
                    && #[trigger] reads_as(row, documents, *sandbox),
            Err(_) => false,
        },
        r matches Ok(row) ==> {
            &&& row.id@ == sandbox.id@
            &&& row.template_id@ == sandbox.template_id@
            &&& row.provider_id@ == sandbox.provider_id@
            &&& row.network@ == sandbox.network.document@
            &&& resources == Ok::<String, String>(row.resources)
            &&& row.expires_at is Some <==> sandbox.expires_at is Some
            &&& sandbox.status is Pending <==> row.status@ == "pending"@
            &&& sandbox.status is Running <==> row.status@ == "running"@
            &&& sandbox.status is Paused <==> row.status@ == "paused"@
            &&& sandbox.status is Stopped <==> row.status@ == "stopped"@
            &&& sandbox.status is Failed <==> row.status@ == "failed"@
        },
        r is Err ==> r->Err_0 is Internal && ({
            let said = r->Err_0->Internal_0@;
            &&& resources matches Err(e) ==> said == "Failed to serialize resources: "@ + e@
            &&& resources is Ok ==> said == "Timestamp out of range"@
        }),
        resources is Err ==> r is Err,
{
    let document = match resources {
        Ok(d) => d,
        Err(e) => {
            return Err(
                DomainError::Internal(concat2("Failed to serialize resources: ", e.as_str())),
            );
        },
    };
    let created_at = match write_rfc3339(sandbox.created_at) {
        Some(s) => s,
        None => {
            return Err(DomainError::Internal("Timestamp out of range".to_owned()));
        },
    };
    let expires_at: Option<String> = match sandbox.expires_at {
        None => None,
        Some(t) => match write_rfc3339(t) {
            Some(s) => Some(s),
            None => {
                return Err(DomainError::Internal("Timestamp out of range".to_owned()));
            },
        },
    };
    proof {
        law_status_names_read_back(sandbox.status);
        lemma_status_names();
    }
    Ok(
        SandboxRow {
            id: sandbox.id.clone(),
            template_id: sandbox.template_id.clone(),
            provider_id: sandbox.provider_id.clone(),
            status: sandbox.status.column().to_owned(),
            created_at,
            expires_at,
            resources: document,
            network: sandbox.network.document.clone(),
            metadata: write_text_map(&sandbox.metadata),
        },
    )
}

/// A row as it was read, and its documents.
#[derive(Debug)]
pub struct ReadRow {
    pub row: SandboxRow,
    pub documents: Documents,
}

/// The place of the first row that cannot be read, or the number of rows.
pub open spec fn first_bad(rows: Seq<ReadRow>) -> int
    decreases rows.len(),
{
    if rows.len() == 0 || row_error(rows[0].row, rows[0].documents) is Some {
        0
    } else {
        1 + first_bad(rows.drop_first())
    }
}

proof fn lemma_first_bad(rows: Seq<ReadRow>, i: int)
    requires
        0 <= i <= rows.len(),
        forall|j: int|
            0 <= j < i ==> row_error((#[trigger] rows[j]).row, rows[j].documents) is None,
        i < rows.len() ==> row_error(rows[i].row, rows[i].documents) is Some,
    ensures
        first_bad(rows) == i,
    decreases rows.len(),
{
    if i > 0 {
        assert(row_error(rows[0].row, rows[0].documents) is None);
        let t = rows.drop_first();
        assert forall|j: int| 0 <= j < i - 1 implies row_error(
            (#[trigger] t[j]).row,
            t[j].documents,
        ) is None by {
            assert(t[j] == rows[j + 1]);
        }
        lemma_first_bad(t, i - 1);
    }
}

/// Rows are refused because of the first that cannot be read: all before it can be.
pub proof fn law_first_fault_counts(rows: Seq<ReadRow>)
    ensures
        0 <= first_bad(rows) <= rows.len(),
        forall|j: int|
            0 <= j < first_bad(rows) ==> row_error((#[trigger] rows[j]).row, rows[j].documents)
                is None,
        first_bad(rows) < rows.len() ==> row_error(
            rows[first_bad(rows)].row,
            rows[first_bad(rows)].documents,
        ) is Some,
    decreases rows.len(),
{
    if rows.len() > 0 && row_error(rows[0].row, rows[0].documents) is None {
        let t = rows.drop_first();
        law_first_fault_counts(t);
        assert forall|j: int| 0 <= j < first_bad(rows) implies row_error(
            (#[trigger] rows[j]).row,
            rows[j].documents,
        ) is None by {
            if j > 0 {
                assert(t[j - 1] == rows[j]);
            }
        }
        if first_bad(rows) < rows.len() {
            assert(t[first_bad(t)] == rows[first_bad(rows)]);
        }
    }
}

/// The sandboxes of the rows in their order, or the error of the first row that cannot
/// be read.
pub fn rows_to_sandboxes(rows: Vec<ReadRow>) -> (r: Result<Vec<Sandbox>, DomainError>)
    ensures
        match r {
            Ok(sandboxes) => {
                &&& first_bad(rows@) == rows@.len()
                &&& sandboxes@.len() == rows@.len()
                &&& forall|i: int|
                    0 <= i < rows@.len() ==> reads_as(
                        rows@[i].row,
                        rows@[i].documents,
                        #[trigger] sandboxes@[i],
                    )
            },
            Err(DomainError::Internal(m)) => {
                &&& first_bad(rows@) < rows@.len()
                &&& row_error(rows@[first_bad(rows@)].row, rows@[first_bad(rows@)].documents)
                    == Some(m@)
            },
            Err(_) => false,
        },
{
    let ghost all = rows@;
    let mut sandboxes: Vec<Sandbox> = Vec::new();
    for entry in it: rows
        invariant
            it.seq() == all,
            sandboxes@.len() == it.index(),
            forall|j: int|
                0 <= j < it.index() ==> row_error((#[trigger] all[j]).row, all[j].documents)
                    is None,
            forall|j: int|
                0 <= j < it.index() ==> reads_as(
                    all[j].row,
                    all[j].documents,
                    #[trigger] sandboxes@[j],
                ),
    {
        let ghost i = it.index() as int;
        match row_to_sandbox(entry.row, entry.documents) {
            Ok(sandbox) => {
                sandboxes.push(sandbox);
            },
            Err(e) => {
                proof {
                    lemma_first_bad(all, i);
                }
                return Err(e);
            },
        }
    }
    proof {
        lemma_first_bad(all, all.len() as int);
    }
    Ok(sandboxes)
}

/// Whether a sandbox may be saved as a new one.
pub fn check_new(id: &str, exists: bool) -> (r: Result<(), DomainError>)
    ensures
        match r {
            Ok(_) => !exists,
            Err(e) => exists && e@ == DomainErrorView::AlreadyExists(id@),
        },
{
    if exists {
        Err(DomainError::AlreadyExists(id.to_owned()))
    } else {
        Ok(())
    }
}

/// Whether a change reached a row of the given identifier.
pub fn check_changed(id: &str, rows_affected: usize) -> (r: Result<(), DomainError>)
    ensures
        match r {
            Ok(_) => rows_affected != 0,
            Err(e) => rows_affected == 0 && e@ == DomainErrorView::NotFound(id@),
        },
{
    if rows_affected == 0 {
        Err(DomainError::NotFound(id.to_owned()))
    } else {
        Ok(())
    }
}

/// Whether one of the sandboxes has the identifier.
pub open spec fn lists(sandboxes: Seq<Sandbox>, id: Seq<char>) -> bool {
    exists|i: int| 0 <= i < sandboxes.len() && (#[trigger] sandboxes[i]).id@ == id
}

fn find_sandbox(sandboxes: &Vec<Sandbox>, upto: usize, id: &str) -> (r: bool)
    requires
        upto <= sandboxes@.len(),
    ensures
        r == lists(sandboxes@.take(upto as int), id@),
{
    let ghost front = sandboxes@.take(upto as int);
    let mut i: usize = 0;
    while i < upto
        invariant
            i <= upto <= sandboxes@.len(),
            front == sandboxes@.take(upto as int),
            forall|j: int| 0 <= j < i ==> (#[trigger] front[j]).id@ != id@,
        decreases upto - i,
    {
        if str_eq(sandboxes[i].id.as_str(), id) {
            assert(front[i as int].id@ == id@);
            return true;
        }
        i = i + 1;
    }
    false
}

fn find_text(ids: &Vec<String>, id: &str) -> (r: bool)
    ensures
        r == text::texts(ids@).contains(id@),
{
    let ghost all = text::texts(ids@);
    let mut i: usize = 0;
    while i < ids.len()
        invariant
            i <= ids@.len(),
            all == text::texts(ids@),
            forall|j: int| 0 <= j < i ==> #[trigger] all[j] != id@,
        decreases ids@.len() - i,
    {
        if str_eq(ids[i].as_str(), id) {
            assert(all[i as int] == id@);
            return true;
        }
        i = i + 1;
    }
    false
}

/// The kept identifiers that the provider does not list, in their order.
pub open spec fn gone(kept: Seq<Seq<char>>, provider: Seq<Sandbox>) -> Seq<Seq<char>>
    decreases kept.len(),
{
    if kept.len() == 0 {
        Seq::empty()
    } else if lists(provider, kept.last()) {
        gone(kept.drop_last(), provider)
    } else {
        gone(kept.drop_last(), provider).push(kept.last())
    }
}

/// The places of the provider's sandboxes that are not kept; of several with one
/// identifier, that of the first.
pub open spec fn fresh_places(kept: Seq<Seq<char>>, provider: Seq<Sandbox>) -> Seq<int>
    decreases provider.len(),
{
    if provider.len() == 0 {
        Seq::empty()
    } else {
        let before = fresh_places(kept, provider.drop_last());
        let id = provider.last().id@;
        if kept.contains(id) || lists(provider.drop_last(), id) {
            before
        } else {
            before.push(provider.len() - 1)
        }
    }
}

/// What brings the kept sandboxes in line with a provider.
#[derive(Debug)]
pub struct SyncPlan {
    /// The sandboxes to mark as stopped.
    pub stopped: Vec<String>,
    /// The sandboxes to keep from now on.
    pub inserted: Vec<Sandbox>,
}

/// Whether the sandboxes are those at the given places, each running.
pub open spec fn runs_copies(
    inserted: Seq<Sandbox>,
    provider: Seq<Sandbox>,
    places: Seq<int>,
) -> bool {
    &&& inserted.len() == places.len()
    &&& forall|i: int|
        0 <= i < inserted.len() ==> (#[trigger] inserted[i]).same_as(
            provider[places[i]].with_status(SandboxStatus::Running),
        )
}

proof fn lemma_fresh_places(kept: Seq<Seq<char>>, provider: Seq<Sandbox>)
    ensures
        forall|i: int|
            0 <= i < fresh_places(kept, provider).len() ==> 0 <= #[trigger] fresh_places(
                kept,
                provider,
            )[i] < provider.len(),
    decreases provider.len(),
{
    if provider.len() > 0 {
        let before = fresh_places(kept, provider.drop_last());
        lemma_fresh_places(kept, provider.drop_last());
        assert forall|i: int| 0 <= i < fresh_places(kept, provider).len() implies 0
            <= #[trigger] fresh_places(kept, provider)[i] < provider.len() by {
            if i < before.len() {
                assert(fresh_places(kept, provider)[i] == before[i]);
            }
        }
    }
}

/// Brings the kept sandboxes in line with those that a provider lists: what it runs
/// and is not kept is to be kept as running, and what is kept and it does not run is
/// to be marked as stopped.
pub fn sync_from_provider(
    kept: &Vec<String>,
    listed: Result<Vec<Sandbox>, String>,
) -> (r: Result<SyncPlan, DomainError>)
    ensures
        match r {
            Ok(plan) => {
                &&& listed matches Ok(provider)
                &&& text::texts(plan.stopped@) == gone(text::texts(kept@), provider@)
                &&& runs_copies(
                    plan.inserted@,
                    provider@,
                    fresh_places(text::texts(kept@), provider@),
                )
            },
            Err(e) => {
                &&& listed matches Err(m)
                &&& e@ == DomainErrorView::Internal("Provider list_sandboxes failed: "@ + m@)
            },
        },
{
    let provider = match listed {
        Ok(v) => v,
        Err(e) => {
            return Err(
                DomainError::Internal(concat2("Provider list_sandboxes failed: ", e.as_str())),
            );
        },
    };
    let ghost ids = text::texts(kept@);
    let mut stopped: Vec<String> = Vec::new();
    let mut i: usize = 0;
    assert(ids.take(0) =~= seq![]);
    assert(text::texts(stopped@) =~= seq![]);
    assert(provider@.take(provider@.len() as int) =~= provider@);
    while i < kept.len()
        invariant
            i <= kept@.len(),
            ids == text::texts(kept@),
            provider@.take(provider@.len() as int) == provider@,
            text::texts(stopped@) == gone(ids.take(i as int), provider@),
        decreases kept@.len() - i,
    {
        proof {
            assert(ids.take(i + 1).drop_last() =~= ids.take(i as int));
            assert(ids.take(i + 1).last() == ids[i as int]);
        }
        if !find_sandbox(&provider, provider.len(), kept[i].as_str()) {
            let ghost before = stopped@;
            stopped.push(kept[i].clone());
            assert(text::texts(stopped@) =~= text::texts(before).push(ids[i as int]));
        }
        i = i + 1;
    }
    assert(ids.take(i as int) =~= ids);
    let mut inserted: Vec<Sandbox> = Vec::new();
    let mut k: usize = 0;
    assert(provider@.take(0) =~= seq![]);
    while k < provider.len()
        invariant
            k <= provider@.len(),
            ids == text::texts(kept@),
            runs_copies(inserted@, provider@, fresh_places(ids, provider@.take(k as int))),
        decreases provider@.len() - k,
    {
        proof {
            assert(provider@.take(k + 1).drop_last() =~= provider@.take(k as int));
            assert(provider@.take(k + 1).last() == provider@[k as int]);
        }
        let id = provider[k].id.as_str();
        if !find_text(kept, id) && !find_sandbox(&provider, k, id) {
            let mut copy = provider[k].duplicate();
            copy.status = SandboxStatus::Running;
            inserted.push(copy);
        }
        k = k + 1;
    }
    assert(provider@.take(k as int) =~= provider@);
    Ok(SyncPlan { stopped, inserted })
}

proof fn lemma_gone(kept: Seq<Seq<char>>, provider: Seq<Sandbox>, id: Seq<char>)
    ensures
        gone(kept, provider).contains(id) <==> kept.contains(id) && !lists(provider, id),
    decreases kept.len(),
{
    if kept.len() > 0 {
        let front = kept.drop_last();
        lemma_gone(front, provider, id);
        assert(kept.contains(id) <==> front.contains(id) || kept.last() == id) by {
            if front.contains(id) {
                let i = choose|i: int| 0 <= i < front.len() && front[i] == id;
                assert(kept[i] == id);
            }
            if kept.last() == id {
                assert(kept[kept.len() - 1] == id);
            }
            if kept.contains(id) && kept.last() != id {
                let i = choose|i: int| 0 <= i < kept.len() && kept[i] == id;
                assert(front[i] == id);
            }
        }
        let before = gone(front, provider);
        if !lists(provider, kept.last()) {
            let after = before.push(kept.last());
            assert(after.contains(id) <==> before.contains(id) || kept.last() == id) by {
                if before.contains(id) {
                    let i = choose|i: int| 0 <= i < before.len() && before[i] == id;
                    assert(after[i] == id);
                }
                if kept.last() == id {
                    assert(after[after.len() - 1] == id);
                }
                if after.contains(id) && kept.last() != id {
                    let i = choose|i: int| 0 <= i < after.len() && after[i] == id;
                    assert(before[i] == id);
                }
            }
        }
    }
}

proof fn lemma_fresh(kept: Seq<Seq<char>>, provider: Seq<Sandbox>, id: Seq<char>)
    ensures
        lists(provider, id) && !kept.contains(id) ==> exists|i: int|
            0 <= i < fresh_places(kept, provider).len() && provider[#[trigger] fresh_places(
                kept,
                provider,
            )[i]].id@ == id,
        forall|i: int|
            0 <= i < fresh_places(kept, provider).len() ==> !kept.contains(
                provider[#[trigger] fresh_places(kept, provider)[i]].id@,
            ),
        forall|i: int, j: int|
            0 <= i < j < fresh_places(kept, provider).len() ==> provider[#[trigger] fresh_places(
                kept,
                provider,
            )[i]].id@ != provider[#[trigger] fresh_places(kept, provider)[j]].id@,
    decreases provider.len(),
{
    lemma_fresh_places(kept, provider);
    if provider.len() > 0 {
        let front = provider.drop_last();
        lemma_fresh(kept, front, id);
        lemma_fresh_places(kept, front);
        let before = fresh_places(kept, front);
        let all = fresh_places(kept, provider);
        let last = provider.last();
        assert forall|i: int| 0 <= i < before.len() implies provider[#[trigger] before[i]]
            == front[before[i]] by {}
        assert(forall|i: int| 0 <= i < before.len() ==> #[trigger] all[i] == before[i]);
        if lists(provider, id) && !kept.contains(id) {
            if lists(front, id) {
                let i = choose|i: int|
                    0 <= i < before.len() && front[#[trigger] before[i]].id@ == id;
                assert(provider[all[i]].id@ == id);
            } else {
                let k = choose|k: int| 0 <= k < provider.len() && (#[trigger] provider[k]).id@ == id;
                if k < front.len() {
                    assert(front[k].id@ == id);
                }
                assert(last.id@ == id);
                assert(all[all.len() - 1] == provider.len() - 1);
            }
        }
        assert forall|i: int, j: int| 0 <= i < j < all.len() implies provider[#[trigger] all[i]].id@
            != provider[#[trigger] all[j]].id@ by {
            if j < before.len() {
                assert(provider[before[i]].id@ != provider[before[j]].id@);
            } else {
                assert(front[before[i]].id@ != last.id@) by {
                    assert(!lists(front, last.id@));
                }
            }
        }
        assert forall|i: int| 0 <= i < all.len() implies !kept.contains(
            provider[#[trigger] all[i]].id@,
        ) by {
            if i < before.len() {
                assert(!kept.contains(front[before[i]].id@));
            }
        }
    }
}

/// After the kept sandboxes are brought in line with a provider, each sandbox that it
/// lists is kept; the ones to be marked as stopped are exactly those that it does not
/// list; and no sandbox is kept twice.
pub proof fn law_sync_brings_in_line(
    kept: Seq<Seq<char>>,
    provider: Seq<Sandbox>,
    inserted: Seq<Sandbox>,
    id: Seq<char>,
)
    requires
        runs_copies(inserted, provider, fresh_places(kept, provider)),
    ensures
        lists(provider, id) ==> kept.contains(id) || lists(inserted, id),
        gone(kept, provider).contains(id) <==> kept.contains(id) && !lists(provider, id),
        kept.contains(id) ==> !lists(inserted, id),
        forall|i: int, j: int|
            0 <= i < j < inserted.len() ==> (#[trigger] inserted[i]).id@ != (
            #[trigger] inserted[j]).id@,
        forall|i: int| 0 <= i < inserted.len() ==> (#[trigger] inserted[i]).status is Running,
{
    lemma_gone(kept, provider, id);
    lemma_fresh(kept, provider, id);
    let places = fresh_places(kept, provider);
    if lists(provider, id) && !kept.contains(id) {
        let i = choose|i: int| 0 <= i < places.len() && provider[#[trigger] places[i]].id@ == id;
        assert(inserted[i].id@ == id);
    }
    if kept.contains(id) && lists(inserted, id) {
        let i = choose|i: int| 0 <= i < inserted.len() && (#[trigger] inserted[i]).id@ == id;
        assert(provider[places[i]].id@ == id);
    }
    assert forall|i: int, j: int| 0 <= i < j < inserted.len() implies (
    #[trigger] inserted[i]).id@ != (#[trigger] inserted[j]).id@ by {
        assert(provider[places[i]].id@ != provider[places[j]].id@);
    }
}

/// The sandboxes to be marked as stopped are the kept ones that the provider does not list, in
/// their order, each as often as it is kept.
pub proof fn law_stopped_are_the_kept_that_are_gone(kept: Seq<Seq<char>>, provider: Seq<Sandbox>)
    ensures
        gone(kept, provider) == kept.filter(
            |id: Seq<char>|
                !exists|i: int| 0 <= i < provider.len() && (#[trigger] provider[i]).id@ == id,
        ),
    decreases kept.len(),
{
    reveal(Seq::filter);
    if kept.len() > 0 {
        law_stopped_are_the_kept_that_are_gone(kept.drop_last(), provider);
    }
}

/// What the provider lists is taken from the places where an identifier that is not kept
/// stands for the first time: from all of these, and in their order.
pub proof fn law_first_of_several_is_kept(kept: Seq<Seq<char>>, provider: Seq<Sandbox>)
    ensures
        ({
            let places = fresh_places(kept, provider);
            &&& forall|k: int, l: int|
                0 <= k < l < places.len() ==> #[trigger] places[k] < #[trigger] places[l]
            &&& forall|k: int|
                0 <= k < places.len() ==> 0 <= #[trigger] places[k] < provider.len()
            &&& forall|p: int|
                0 <= p < provider.len() ==> (#[trigger] places.contains(p) <==> !kept.contains(
                    provider[p].id@,
                ) && forall|q: int|
                    0 <= q < p ==> (#[trigger] provider[q]).id@ != provider[p].id@)
        }),
    decreases provider.len(),
{
    if provider.len() > 0 {
        let front = provider.drop_last();
        let n = provider.len() - 1;
        law_first_of_several_is_kept(kept, front);
        let before = fresh_places(kept, front);
        let places = fresh_places(kept, provider);
        assert(provider.last() == provider[n]);
        assert forall|p: int| 0 <= p < provider.len() implies (#[trigger] places.contains(p) <==> (
        !kept.contains(provider[p].id@) && forall|q: int|
            0 <= q < p ==> (#[trigger] provider[q]).id@ != provider[p].id@)) by {
            assert forall|q: int| 0 <= q < front.len() implies #[trigger] front[q]
                == provider[q] by {}
            if p < n {
                assert(front[p] == provider[p]);
                if before.contains(p) {
                    let k = choose|k: int| 0 <= k < before.len() && before[k] == p;
                    assert(places[k] == p);
                    assert forall|q: int| 0 <= q < p implies (#[trigger] provider[q]).id@
                        != provider[p].id@ by {
                        assert(front[q].id@ != front[p].id@);
                    }
                }
                if places.contains(p) {
                    let k = choose|k: int| 0 <= k < places.len() && places[k] == p;
                    assert(before[k] == p);
                    assert(before.contains(p));
                }
                if !kept.contains(provider[p].id@) && (forall|q: int|
                    0 <= q < p ==> (#[trigger] provider[q]).id@ != provider[p].id@) {
                    assert forall|q: int| 0 <= q < p implies (#[trigger] front[q]).id@
                        != front[p].id@ by {
                        assert(provider[q].id@ != provider[p].id@);
                    }
                    assert(before.contains(p));
                    let k = choose|k: int| 0 <= k < before.len() && before[k] == p;
                    assert(places[k] == p);
                }
            } else {
                let id = provider[n].id@;
                if lists(front, id) {
                    let q = choose|q: int| 0 <= q < front.len() && (#[trigger] front[q]).id@ == id;
                    assert(provider[q].id@ == id);
                } else {
                    assert forall|q: int| 0 <= q < n implies (#[trigger] provider[q]).id@ != id by {
                        assert(front[q].id@ != id);
                    }
                }
                if kept.contains(id) || lists(front, id) {
                    if places.contains(n) {
                        let k = choose|k: int| 0 <= k < places.len() && places[k] == n;
                        assert(before[k] < front.len());
                    }
                } else {
                    assert(places[before.len() as int] == n);
                }
            }
        }
    }
}

} // verus!
