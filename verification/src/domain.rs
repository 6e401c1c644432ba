//! The entities and errors that the adapters share.
use vstd::prelude::*;

use crate::interop;
use crate::interop::write_rfc3339;
use crate::text::concat5;

verus! {

/// What went wrong, with a message or the name of what it is about.
#[derive(Debug, PartialEq, Eq)]
pub enum DomainError {
    AlreadyExists(String),
    Config(String),
    Internal(String),
    NotFound(String),
    PermissionDenied(String),
    ProviderUnavailable(String),
    ResourceExhausted(String),
    Timeout(String),
    UnsupportedOperation(String),
    Validation(String),
    WorkerNotConnected(String),
}

/// An error as its kind and its text.
#[verifier::ext_equal]
pub enum DomainErrorView {
    AlreadyExists(Seq<char>),
    Config(Seq<char>),
    Internal(Seq<char>),
    NotFound(Seq<char>),
    PermissionDenied(Seq<char>),
    ProviderUnavailable(Seq<char>),
    ResourceExhausted(Seq<char>),
    Timeout(Seq<char>),
    UnsupportedOperation(Seq<char>),
    Validation(Seq<char>),
    WorkerNotConnected(Seq<char>),
}

impl DomainError {
    pub open spec fn view(self) -> DomainErrorView {
        match self {
            DomainError::AlreadyExists(m) => DomainErrorView::AlreadyExists(m@),
            DomainError::Config(m) => DomainErrorView::Config(m@),
            DomainError::Internal(m) => DomainErrorView::Internal(m@),
            DomainError::NotFound(m) => DomainErrorView::NotFound(m@),
            DomainError::PermissionDenied(m) => DomainErrorView::PermissionDenied(m@),
            DomainError::ProviderUnavailable(m) => DomainErrorView::ProviderUnavailable(m@),
            DomainError::ResourceExhausted(m) => DomainErrorView::ResourceExhausted(m@),
            DomainError::Timeout(m) => DomainErrorView::Timeout(m@),
            DomainError::UnsupportedOperation(m) => DomainErrorView::UnsupportedOperation(m@),
            DomainError::Validation(m) => DomainErrorView::Validation(m@),
            DomainError::WorkerNotConnected(m) => DomainErrorView::WorkerNotConnected(m@),
        }
    }
}

/// Where a sandbox stands in its life.
#[derive(Debug, Clone, Copy, PartialEq, Eq, Hash, Structural)]
pub enum SandboxStatus {
    Pending,
    Running,
    Paused,
    Stopped,
    Failed,
}

/// The status changes that a sandbox may make.
pub open spec fn may_become(from: SandboxStatus, to: SandboxStatus) -> bool {
    match from {
        SandboxStatus::Pending => to is Running || to is Stopped || to is Failed,
        SandboxStatus::Running => to is Paused || to is Stopped || to is Failed,
        SandboxStatus::Paused => to is Running || to is Stopped,
        SandboxStatus::Stopped => false,
        SandboxStatus::Failed => false,
    }
}

/// Whether a sandbox may change from one status to the other.
pub fn is_valid_transition(from: SandboxStatus, to: SandboxStatus) -> (r: bool)
    ensures
        r == may_become(from, to),
        to is Pending ==> !r,
        to is Running ==> r == (from is Pending || from is Paused),
        to is Paused ==> r == (from is Running),
        to is Stopped ==> r == (from is Pending || from is Running || from is Paused),
        to is Failed ==> r == (from is Pending || from is Running),
{
    matches!(
        (from, to),
        (SandboxStatus::Pending, SandboxStatus::Running)
            | (SandboxStatus::Pending, SandboxStatus::Stopped)
            | (SandboxStatus::Pending, SandboxStatus::Failed)
            | (SandboxStatus::Running, SandboxStatus::Paused)
            | (SandboxStatus::Running, SandboxStatus::Stopped)
            | (SandboxStatus::Running, SandboxStatus::Failed)
            | (SandboxStatus::Paused, SandboxStatus::Running)
            | (SandboxStatus::Paused, SandboxStatus::Stopped)
    )
}

/// The name of a status as messages give it.
pub open spec fn status_label(s: SandboxStatus) -> Seq<char> {
    match s {
        SandboxStatus::Pending => "Pending"@,
        SandboxStatus::Running => "Running"@,
        SandboxStatus::Paused => "Paused"@,
        SandboxStatus::Stopped => "Stopped"@,
        SandboxStatus::Failed => "Failed"@,
    }
}

/// The name of a status as the database holds it.
pub open spec fn status_column(s: SandboxStatus) -> Seq<char> {
    match s {
        SandboxStatus::Pending => "pending"@,
        SandboxStatus::Running => "running"@,
        SandboxStatus::Paused => "paused"@,
        SandboxStatus::Stopped => "stopped"@,
        SandboxStatus::Failed => "failed"@,
    }
}

impl SandboxStatus {
    /// The name in messages.
    pub fn label(self) -> (r: &'static str)
        ensures
            r@ == status_label(self),
            self is Pending ==> r@ == "Pending"@,
            self is Running ==> r@ == "Running"@,
            self is Paused ==> r@ == "Paused"@,
            self is Stopped ==> r@ == "Stopped"@,
            self is Failed ==> r@ == "Failed"@,
    {
        match self {
            SandboxStatus::Pending => "Pending",
            SandboxStatus::Running => "Running",
            SandboxStatus::Paused => "Paused",
            SandboxStatus::Stopped => "Stopped",
            SandboxStatus::Failed => "Failed",
        }
    }

    /// The name in the database.
    pub fn column(self) -> (r: &'static str)
        ensures
            r@ == status_column(self),
            self is Pending ==> r@ == "pending"@,
            self is Running ==> r@ == "running"@,
            self is Paused ==> r@ == "paused"@,
            self is Stopped ==> r@ == "stopped"@,
            self is Failed ==> r@ == "failed"@,
    {
        match self {
            SandboxStatus::Pending => "pending",
            SandboxStatus::Running => "running",
            SandboxStatus::Paused => "paused",
            SandboxStatus::Stopped => "stopped",
            SandboxStatus::Failed => "failed",
        }
    }
}

/// The message about a status change that is not allowed.
pub open spec fn transition_message(from: SandboxStatus, to: SandboxStatus) -> Seq<char> {
    "Invalid transition from "@ + status_label(from) + " to "@ + status_label(to)
}

/// The error about a status change that is not allowed.
pub fn transition_error(from: SandboxStatus, to: SandboxStatus) -> (r: DomainError)
    ensures
        r@ == DomainErrorView::Validation(transition_message(from, to)),
        r@ == DomainErrorView::Validation(
            "Invalid transition from "@ + status_label(from) + " to "@ + status_label(to),
        ),
{
    let message = concat5("Invalid transition from ", from.label(), " to ", to.label(), "");
    proof {
        reveal_strlit("");
        assert(message@ =~= transition_message(from, to));
    }
    DomainError::Validation(message)
}

/// A point in time: seconds since the start of 1970 in UTC, and the nanoseconds
/// behind the second.
#[derive(Debug, Clone, Copy, PartialEq, Eq, Structural)]
pub struct Timestamp {
    pub secs: i64,
    pub nanos: u32,
}

impl Timestamp {
    /// The text of the point in time, as columns of the database hold it; none where it lies
    /// too far away. In years of four digits, reading the text gives the point back.
    pub fn to_rfc3339(self) -> (r: Option<String>)
        ensures
            match r {
                Some(s) => interop::rfc3339_text(self.secs, self.nanos) == Some(s@),
                None => interop::rfc3339_text(self.secs, self.nanos) is None,
            },
            interop::four_digit_year(self) ==> match r {
                Some(s) => interop::reads_as_time(s@, self) && interop::reads_leniently(s@, self),
                None => false,
            },
    {
        write_rfc3339(self)
    }
}

/// What a sandbox may use.
#[derive(Debug, Clone, Copy, PartialEq, Eq, Structural)]
pub struct ResourcesSpec {
    pub cpu_count: u32,
    pub memory_mb: u64,
}

/// How a sandbox is connected, as the document that describes it.
#[derive(Debug, PartialEq, Eq)]
pub struct NetworkSpec {
    pub document: String,
}

impl Clone for NetworkSpec {
    fn clone(&self) -> (r: Self)
        ensures
            r == *self,
    {
        NetworkSpec { document: self.document.clone() }
    }
}

/// A name and the text under it.
#[derive(Debug, PartialEq, Eq)]
pub struct Pair {
    pub key: String,
    pub value: String,
}

impl Clone for Pair {
    fn clone(&self) -> (r: Self)
        ensures
            r == *self,
    {
        Pair { key: self.key.clone(), value: self.value.clone() }
    }
}

/// A sandbox: an isolated place that a provider runs commands in.
#[derive(Debug, PartialEq, Eq)]
pub struct Sandbox {
    pub id: String,
    pub template_id: String,
    pub provider_id: String,
    pub status: SandboxStatus,
    pub created_at: Timestamp,
    pub expires_at: Option<Timestamp>,
    pub resources: ResourcesSpec,
    pub network: NetworkSpec,
    pub metadata: Vec<Pair>,
}

/// The deadline that lies `timeout_ms` behind a point in time, as far as seconds go.
pub open spec fn deadline(from: Timestamp, timeout_ms: u64) -> Timestamp {
    let total = from.nanos as int + (timeout_ms % 1000) * 1_000_000;
    let secs = from.secs + timeout_ms / 1000 + total / 1_000_000_000;
    Timestamp {
        secs: (if secs > i64::MAX {
            i64::MAX as int
        } else {
            secs
        }) as i64,
        nanos: (total % 1_000_000_000) as u32,
    }
}

impl Sandbox {
    /// A sandbox that waits to be started.
    pub fn new(
        id: String,
        template_id: String,
        provider_id: String,
        resources: ResourcesSpec,
        network: NetworkSpec,
        now: Timestamp,
    ) -> (r: Sandbox)
        ensures
            r.id == id,
            r.template_id == template_id,
            r.provider_id == provider_id,
            r.status is Pending,
            r.created_at == now,
            r.expires_at is None,
            r.resources == resources,
            r.network == network,
            r.metadata@.len() == 0,
    {
        Sandbox {
            id,
            template_id,
            provider_id,
            status: SandboxStatus::Pending,
            created_at: now,
            expires_at: None,
            resources,
            network,
            metadata: Vec::new(),
        }
    }

    /// Whether two sandboxes agree in everything.
    pub open spec fn same_as(self, other: Sandbox) -> bool {
        &&& self.id == other.id
        &&& self.template_id == other.template_id
        &&& self.provider_id == other.provider_id
        &&& self.status == other.status
        &&& self.created_at == other.created_at
        &&& self.expires_at == other.expires_at
        &&& self.resources == other.resources
        &&& self.network == other.network
        &&& self.metadata@ == other.metadata@
    }

    /// A copy of the sandbox.
    pub fn duplicate(&self) -> (r: Sandbox)
        ensures
            r.same_as(*self),
            r.id == self.id,
            r.template_id == self.template_id,
            r.provider_id == self.provider_id,
            r.status == self.status,
            r.created_at == self.created_at,
            r.expires_at == self.expires_at,
            r.resources == self.resources,
            r.network == self.network,
            r.metadata@ == self.metadata@,
    {
        Sandbox {
            id: self.id.clone(),
            template_id: self.template_id.clone(),
            provider_id: self.provider_id.clone(),
            status: self.status,
            created_at: self.created_at,
            expires_at: self.expires_at,
            resources: self.resources,
            network: self.network.clone(),
            metadata: clone_pairs(&self.metadata),
        }
    }

    /// The sandbox with another status, and nothing else changed.
    pub open spec fn with_status(self, status: SandboxStatus) -> Sandbox {
        Sandbox { status, ..self }
    }

    fn become_status(&mut self, to: SandboxStatus) -> (r: Result<(), DomainError>)
        ensures
            match r {
                Ok(_) => may_become(old(self).status, to) && *final(self) == old(self).with_status(to),
                Err(e) => !may_become(old(self).status, to) && *final(self) == *old(self) && e@
                    == DomainErrorView::Validation(transition_message(old(self).status, to)),
            },
    {
        if is_valid_transition(self.status, to) {
            self.status = to;
            Ok(())
        } else {
            Err(transition_error(self.status, to))
        }
    }

    /// Marks a waiting or paused sandbox as running.
    pub fn mark_running(&mut self) -> (r: Result<(), DomainError>)
        ensures
            match r {
                Ok(_) => may_become(old(self).status, SandboxStatus::Running) && *final(self)
                    == old(self).with_status(SandboxStatus::Running),
                Err(e) => !may_become(old(self).status, SandboxStatus::Running) && *final(self)
                    == *old(self) && e@ == DomainErrorView::Validation(
                    transition_message(old(self).status, SandboxStatus::Running),
                ),
            },
            r is Ok <==> old(self).status is Pending || old(self).status is Paused,
            r is Ok ==> final(self).status is Running,
            r is Err ==> final(self).status == old(self).status,
            final(self).id == old(self).id,
            final(self).expires_at == old(self).expires_at,
    {
        self.become_status(SandboxStatus::Running)
    }

    /// Marks a sandbox that has not ended as stopped.
    pub fn terminate(&mut self) -> (r: Result<(), DomainError>)
        ensures
            match r {
                Ok(_) => may_become(old(self).status, SandboxStatus::Stopped) && *final(self)
                    == old(self).with_status(SandboxStatus::Stopped),
                Err(e) => !may_become(old(self).status, SandboxStatus::Stopped) && *final(self)
                    == *old(self) && e@ == DomainErrorView::Validation(
                    transition_message(old(self).status, SandboxStatus::Stopped),
                ),
            },
            r is Ok <==> !(old(self).status is Stopped) && !(old(self).status is Failed),
            r is Ok ==> final(self).status is Stopped,
            r is Err ==> final(self).status == old(self).status,
            final(self).id == old(self).id,
            final(self).expires_at == old(self).expires_at,
    {
        self.become_status(SandboxStatus::Stopped)
    }

    /// Marks the sandbox as failed, wherever it stands.
    pub fn mark_failed(&mut self)
        ensures
            *final(self) == old(self).with_status(SandboxStatus::Failed),
            final(self).status is Failed,
            final(self).id == old(self).id,
    {
        self.status = SandboxStatus::Failed;
    }

    /// Lets the sandbox expire `timeout_ms` after it was created.
    pub fn set_timeout(&mut self, timeout_ms: u64)
        ensures
            *final(self) == (Sandbox {
                expires_at: Some(deadline(old(self).created_at, timeout_ms)),
                ..*old(self)
            }),
            final(self).status == old(self).status,
            final(self).created_at == old(self).created_at,
    {
        let total: u64 = self.created_at.nanos as u64 + (timeout_ms % 1000) * 1_000_000;
        let secs: i128 = self.created_at.secs as i128 + (timeout_ms / 1000) as i128 + (total
            / 1_000_000_000) as i128;
        let capped: i64 = if secs > i64::MAX as i128 {
            i64::MAX
        } else {
            secs as i64
        };
        self.expires_at = Some(Timestamp { secs: capped, nanos: (total % 1_000_000_000) as u32 });
    }
}

/// A sandbox that has not ended can be stopped, one that waits or is paused can be started,
/// only one that runs can be paused, one that waits or runs can fail, and none can wait again.
pub proof fn law_allowed_changes(from: SandboxStatus)
    ensures
        may_become(from, SandboxStatus::Running) <==> from is Pending || from is Paused,
        may_become(from, SandboxStatus::Paused) <==> from is Running,
        may_become(from, SandboxStatus::Stopped) <==> from is Pending || from is Running
            || from is Paused,
        may_become(from, SandboxStatus::Failed) <==> from is Pending || from is Running,
        !may_become(from, SandboxStatus::Pending),
{
}

/// A change of the status changes nothing else of a sandbox.
pub proof fn law_status_change_keeps_the_rest(s: Sandbox, status: SandboxStatus)
    ensures
        s.with_status(status).status == status,
        s.with_status(status).id == s.id,
        s.with_status(status).template_id == s.template_id,
        s.with_status(status).provider_id == s.provider_id,
        s.with_status(status).created_at == s.created_at,
        s.with_status(status).expires_at == s.expires_at,
        s.with_status(status).resources == s.resources,
        s.with_status(status).network == s.network,
        s.with_status(status).metadata == s.metadata,
{
}

/// Between a point in time and its deadline lies the timeout, to the nanosecond, unless the
/// deadline lies beyond the last second that there is.
pub proof fn law_deadline_lies_the_timeout_behind(from: Timestamp, timeout_ms: u64)
    requires
        from.nanos < 1_000_000_000,
        from.secs + timeout_ms / 1000 + 1 <= i64::MAX,
    ensures
        (deadline(from, timeout_ms).secs - from.secs) * 1_000_000_000 + deadline(
            from,
            timeout_ms,
        ).nanos - from.nanos == timeout_ms * 1_000_000,
        deadline(from, timeout_ms).nanos < 1_000_000_000,
{
}

/// What a listing of sandboxes is narrowed to.
#[derive(Debug, Clone, Copy, PartialEq, Eq, Structural)]
pub struct SandboxFilter {
    pub status: Option<SandboxStatus>,
    pub limit: Option<u32>,
}

/// What a provider can do.
#[derive(Debug, Clone, Copy, PartialEq, Eq, Structural)]
pub struct ProviderCapabilities {
    pub supports_snapshots: bool,
    pub supports_streaming: bool,
    pub supports_pause_resume: bool,
    pub max_timeout_ms: u64,
    pub max_memory_mb: u64,
    pub max_cpu_count: u32,
    pub supports_networking: bool,
    pub requires_kvm: bool,
    pub avg_startup_ms: u32,
}

/// A command for a sandbox.
#[derive(Debug)]
pub struct CommandSpec {
    pub command: String,
    pub args: Vec<String>,
    pub working_dir: Option<String>,
    pub env_vars: Vec<Pair>,
    pub timeout_ms: Option<u64>,
}

/// What came of a command.
#[derive(Debug)]
pub struct CommandResult {
    pub exit_code: i32,
    pub stdout: Vec<u8>,
    pub stderr: Vec<u8>,
    pub duration_ms: u64,
    pub timed_out: bool,
}

/// A file or a directory in a sandbox.
#[derive(Debug)]
pub struct FileEntry {
    pub path: String,
    pub is_directory: bool,
    pub size_bytes: u64,
    pub modified_at: Option<Timestamp>,
    pub permissions: String,
}

/// Copies of pairs, one for one.
pub fn clone_pairs(v: &Vec<Pair>) -> (r: Vec<Pair>)
    ensures
        r@ == v@,
{
    let mut out: Vec<Pair> = Vec::new();
    let mut i: usize = 0;
    while i < v.len()
        invariant
            i <= v@.len(),
            out@ == v@.take(i as int),
        decreases v@.len() - i,
    {
        out.push(v[i].clone());
        i = i + 1;
        assert(out@ =~= v@.take(i as int));
    }
    assert(v@.take(i as int) =~= v@);
    out
}

} // verus!
