//! Sandboxes in containers of a Docker daemon: what is asked of the daemon, and what
//! its answers mean.
use vstd::prelude::*;

use crate::domain;
use crate::domain::{
    DomainError, DomainErrorView, NetworkSpec, Pair, ProviderCapabilities, ResourcesSpec, Sandbox,
    SandboxFilter, SandboxStatus, Timestamp,
};
use crate::interop;
use crate::provider::process_view;
use crate::provider::process_view::{limit_of, minimal_sandbox, SandboxDefaults};
use crate::provider::rootfs_manager;
use crate::provider::routing;
use crate::provider::routing::new_worker_secret;
use crate::text;
use crate::text::{chars_of, concat2, concat3, contains, join_path, str_eq, string_of};

verus! {

/// The settings of the provider.
#[derive(Debug)]
pub struct DockerProvider {
    pub default_image: String,
    pub worker_binary: String,
    /// A directory with source code to show to the containers.
    pub source_mount: Option<String>,
}

/// A container that the daemon is asked for.
#[derive(Debug)]
pub struct ContainerSpec {
    pub name: String,
    pub image: String,
    pub cmd: Vec<String>,
    pub env: Vec<String>,
    pub binds: Vec<String>,
    pub extra_hosts: Vec<String>,
}

/// A container as the daemon lists it.
#[derive(Debug)]
pub struct ContainerSummary {
    pub id: Option<String>,
    pub names: Option<Vec<String>>,
    pub image: Option<String>,
    pub state: Option<String>,
}

/// A container as the daemon describes it.
#[derive(Debug)]
pub struct ContainerInfo {
    /// The state, with its name where it has one; none where there is no state at all.
    pub state: Option<Option<String>>,
    pub image: Option<String>,
}

/// The image of a container: the template, or the default one where that is empty.
pub open spec fn chosen_image(template: Seq<char>, default_image: Seq<char>) -> Seq<char> {
    if template.len() == 0 {
        default_image
    } else {
        template
    }
}

/// The image of a container.
pub fn choose_image(template: &str, default_image: &str) -> (r: String)
    ensures
        r@ == chosen_image(template@, default_image@),
        template@.len() > 0 ==> r@ == template@,
        template@.len() == 0 ==> r@ == default_image@,
{
    if template.is_empty() {
        default_image.to_owned()
    } else {
        template.to_owned()
    }
}

/// The variables as the daemon takes them.
pub open spec fn env_texts(vars: Seq<Pair>) -> Seq<Seq<char>> {
    vars.map_values(|p: Pair| rootfs_manager::env_entry(p))
}

/// The variables as the daemon takes them.
pub fn env_strings(vars: &Vec<Pair>) -> (r: Vec<String>)
    ensures
        text::texts(r@) == env_texts(vars@),
        r@.len() == vars@.len(),
        forall|i: int|
            0 <= i < r@.len() ==> (#[trigger] r@[i])@ == vars@[i].key@ + "="@ + vars@[i].value@,
{
    let mut out: Vec<String> = Vec::new();
    let mut i: usize = 0;
    while i < vars.len()
        invariant
            i <= vars@.len(),
            out@.len() == i,
            forall|j: int| 0 <= j < i ==> (#[trigger] out@[j])@ == rootfs_manager::env_entry(vars@[j]),
        decreases vars@.len() - i,
    {
        out.push(concat3(vars[i].key.as_str(), "=", vars[i].value.as_str()));
        i = i + 1;
    }
    assert(text::texts(out@) =~= env_texts(vars@));
    out
}

/// The absolute form of a path: the canonical one where it is known, else the path
/// behind the current directory where it is relative.
pub open spec fn absolute(canonical: Option<Seq<char>>, path: Seq<char>, cwd: Option<Seq<char>>) -> Seq<
    char,
> {
    match canonical {
        Some(c) => c,
        None => if path.len() > 0 && path[0] == '/' {
            path
        } else {
            text::joined_path(
                match cwd {
                    Some(d) => d,
                    None => "/tmp"@,
                },
                path,
            )
        },
    }
}

/// The text in an option.
pub open spec fn option_text(o: Option<String>) -> Option<Seq<char>> {
    match o {
        Some(s) => Some(s@),
        None => None,
    }
}

/// The absolute form of a path. The daemon would take a relative one for the name of a
/// volume.
pub fn absolute_path(canonical: Option<String>, path: &str, cwd: Option<String>) -> (r: String)
    ensures
        r@ == absolute(option_text(canonical), path@, option_text(cwd)),
        canonical matches Some(c) ==> r@ == c@,
        canonical is None && path@.len() > 0 && path@[0] == '/' ==> r@ == path@,
        canonical is None && (path@.len() == 0 || path@[0] != '/') ==> match cwd {
            Some(d) => r@ == text::joined_path(d@, path@),
            None => r@ == text::joined_path("/tmp"@, path@),
        },
{
    match canonical {
        Some(c) => c,
        None => {
            let cs = chars_of(path);
            if cs.len() > 0 && cs[0] == '/' {
                return path.to_owned();
            }
            match cwd {
                Some(d) => join_path(d.as_str(), path),
                None => join_path("/tmp", path),
            }
        },
    }
}

/// Whether an error of the daemon says that there is no such container.
pub open spec fn says_missing(error: Seq<char>) -> bool {
    text::contains_text(error, "404"@) || text::contains_text(error, "No such container"@)
}

/// Whether an error of the daemon says that there is no such container.
pub fn is_missing(error: &str) -> (r: bool)
    ensures
        r == says_missing(error@),
        r <==> text::contains_text(error@, "404"@) || text::contains_text(
            error@,
            "No such container"@,
        ),
{
    contains(error, "404") || contains(error, "No such container")
}

/// The error about a container that cannot be inspected.
pub open spec fn inspect_error_view(id: Seq<char>, error: Seq<char>) -> DomainErrorView {
    if says_missing(error) {
        DomainErrorView::NotFound(id)
    } else {
        DomainErrorView::Internal("Failed to inspect container: "@ + error)
    }
}

/// The error about a container that cannot be inspected: not found, or a failure.
pub fn inspect_error(id: &str, error: &str) -> (r: DomainError)
    ensures
        r@ == inspect_error_view(id@, error@),
        text::contains_text(error@, "404"@) || text::contains_text(error@, "No such container"@)
            ==> r@ == DomainErrorView::NotFound(id@),
        !text::contains_text(error@, "404"@) && !text::contains_text(error@, "No such container"@)
            ==> r@ == DomainErrorView::Internal("Failed to inspect container: "@ + error@),
{
    if is_missing(error) {
        DomainError::NotFound(id.to_owned())
    } else {
        DomainError::Internal(concat2("Failed to inspect container: ", error))
    }
}

/// Whether a container is alive, given what an inspection said: whether it runs, or an
/// error. One that is not there is not alive.
pub fn container_alive(inspected: Result<Option<bool>, String>) -> (r: Result<bool, DomainError>)
    ensures
        match inspected {
            Ok(running) => r == Ok::<bool, DomainError>(running == Some(true)),
            Err(e) => if says_missing(e@) {
                r == Ok::<bool, DomainError>(false)
            } else {
                r matches Err(x) && x@ == DomainErrorView::Internal(
                    "Failed to inspect container: "@ + e@,
                )
            },
        },
{
    match inspected {
        Ok(Some(running)) => Ok(running),
        Ok(None) => Ok(false),
        Err(e) => {
            if is_missing(e.as_str()) {
                Ok(false)
            } else {
                Err(DomainError::Internal(concat2("Failed to inspect container: ", e.as_str())))
            }
        },
    }
}

/// The status that the name of a container state stands for in a listing; none where
/// the container is left out.
pub open spec fn listed_status(state: Option<Seq<char>>) -> Option<SandboxStatus> {
    match state {
        None => None,
        Some(s) => if s == "running"@ {
            Some(SandboxStatus::Running)
        } else if s == "exited"@ || s == "dead"@ {
            Some(SandboxStatus::Stopped)
        } else if s == "paused"@ {
            Some(SandboxStatus::Paused)
        } else if s == "created"@ {
            Some(SandboxStatus::Pending)
        } else {
            None
        },
    }
}

fn list_status(state: &str) -> (r: Option<SandboxStatus>)
    ensures
        r == listed_status(Some(state@)),
        r == Some(SandboxStatus::Running) <==> state@ == "running"@,
        r == Some(SandboxStatus::Stopped) <==> state@ == "exited"@ || state@ == "dead"@,
        r == Some(SandboxStatus::Paused) <==> state@ == "paused"@,
        r == Some(SandboxStatus::Pending) <==> state@ == "created"@,
        r != Some(SandboxStatus::Failed),
{
    proof {
        lemma_state_names();
    }
    if str_eq(state, "running") {
        Some(SandboxStatus::Running)
    } else if str_eq(state, "exited") || str_eq(state, "dead") {
        Some(SandboxStatus::Stopped)
    } else if str_eq(state, "paused") {
        Some(SandboxStatus::Paused)
    } else if str_eq(state, "created") {
        Some(SandboxStatus::Pending)
    } else {
        None
    }
}

/// The status that the name of a container state stands for in a description: one that
/// is being restarted waits, and one in an unknown state has failed.
pub open spec fn described_status(state: Option<Seq<char>>) -> SandboxStatus {
    match listed_status(state) {
        Some(s) => s,
        None => if state == Some("restarting"@) {
            SandboxStatus::Pending
        } else {
            SandboxStatus::Failed
        },
    }
}

/// The status that a description of a sandbox ends up with: a paused container is
/// described as one that waits.
pub open spec fn shown_status(s: SandboxStatus) -> SandboxStatus {
    if s is Paused {
        SandboxStatus::Pending
    } else {
        s
    }
}

/// The id of the sandbox of a container: its first name without the slash in front, or
/// its own id where there is no such name.
pub open spec fn summary_id(c: ContainerSummary) -> Seq<char> {
    match c.names {
        Some(names) if names@.len() > 0 && names@[0]@.len() > 0 && names@[0]@[0] == '/' =>
            names@[0]@.drop_first(),
        _ => match c.id {
            Some(id) => id@,
            None => ""@,
        },
    }
}

fn sandbox_id_of(c: &ContainerSummary) -> (r: String)
    ensures
        r@ == summary_id(*c),
        forall|name: Seq<char>|
            c.names matches Some(names) && names@.len() > 0 && names@[0]@ == #[trigger] (seq!['/']
                + name) ==> r@ == name,
        c.names is None && c.id is Some ==> r@ == c.id->0@,
        c.names is Some && c.id is Some && (c.names->0@.len() == 0 || c.names->0@[0]@.len() == 0
            || c.names->0@[0]@[0] != '/') ==> r@ == c.id->0@,
        c.names is None && c.id is None ==> r@ == ""@,
{
    match &c.names {
        Some(names) => {
            if names.len() > 0 {
                let cs = chars_of(names[0].as_str());
                if cs.len() > 0 && cs[0] == '/' {
                    let mut rest = cs;
                    let _ = rest.remove(0);
                    assert(rest@ =~= names@[0]@.drop_first());
                    assert forall|name: Seq<char>|
                        names@[0]@ == #[trigger] (seq!['/'] + name) implies rest@ == name by {
                        assert((seq!['/'] + name).drop_first() =~= name);
                    }
                    return string_of(rest.as_slice());
                }
            }
        },
        None => {},
    }
    match &c.id {
        Some(id) => id.clone(),
        None => "".to_owned(),
    }
}

/// Whether a listing shows a container.
pub open spec fn summary_shown(filter: SandboxFilter, c: ContainerSummary) -> bool {
    match listed_status(option_text(c.state)) {
        None => false,
        Some(s) => match filter.status {
            None => true,
            Some(wanted) => s == wanted,
        },
    }
}

/// The positions of the containers that a listing shows.
pub open spec fn summary_positions(filter: SandboxFilter, cs: Seq<ContainerSummary>) -> Seq<int>
    decreases cs.len(),
{
    if cs.len() == 0 {
        seq![]
    } else {
        let before = summary_positions(filter, cs.drop_last());
        if summary_shown(filter, cs.last()) {
            before.push(cs.len() - 1)
        } else {
            before
        }
    }
}

/// The containers that are looked at: no more than the limit.
pub open spec fn summaries_looked_at(filter: SandboxFilter, cs: Seq<ContainerSummary>) -> Seq<
    ContainerSummary,
> {
    cs.take(
        if cs.len() <= process_view::filter_limit(filter) {
            cs.len() as int
        } else {
            process_view::filter_limit(filter) as int
        },
    )
}

/// What the provider can do.
pub open spec fn docker_capabilities() -> ProviderCapabilities {
    ProviderCapabilities {
        supports_snapshots: true,
        supports_streaming: true,
        supports_pause_resume: false,
        max_timeout_ms: 86_400_000,
        max_memory_mb: 16_384,
        max_cpu_count: 16,
        supports_networking: true,
        requires_kvm: false,
        avg_startup_ms: 1500,
    }
}

/// The arguments that start the worker in a container.
pub open spec fn worker_argv(sandbox_id: Seq<char>, secret: Seq<char>) -> Seq<Seq<char>> {
    seq![
        "/usr/local/bin/bastion-worker"@,
        "--gateway-addr"@,
        "http://host.containers.internal:50052"@,
        "--sandbox-id"@,
        sandbox_id,
        "--secret"@,
        secret,
        "--workdir"@,
        "/workspace"@,
    ]
}

/// The binds of a container: the worker, and the source code where there is one, both
/// read-only.
pub open spec fn bind_texts(worker: Seq<char>, source: Option<Seq<char>>) -> Seq<Seq<char>> {
    let first = seq![worker + ":/usr/local/bin/bastion-worker:ro"@];
    match source {
        Some(s) => first.push(s + ":/workspace/code:ro"@),
        None => first,
    }
}

/// A step of making a container.
#[derive(Debug, Clone, Copy, PartialEq, Eq, Structural)]
pub enum DockerStep {
    CreateContainer,
    StartContainer,
    CreateExec,
    StartExec,
    Finished,
}

/// The step behind a step.
pub open spec fn docker_after(step: DockerStep) -> DockerStep {
    match step {
        DockerStep::CreateContainer => DockerStep::StartContainer,
        DockerStep::StartContainer => DockerStep::CreateExec,
        DockerStep::CreateExec => DockerStep::StartExec,
        DockerStep::StartExec => DockerStep::Finished,
        DockerStep::Finished => DockerStep::Finished,
    }
}

/// The words in front of the message of the daemon, by the step that failed.
pub open spec fn docker_failure_prefix(step: DockerStep) -> Seq<char> {
    match step {
        DockerStep::CreateContainer => "Failed to create container: "@,
        DockerStep::StartContainer => "Failed to start container: "@,
        DockerStep::CreateExec => "Failed to create exec for worker: "@,
        DockerStep::StartExec => "Failed to start worker: "@,
        DockerStep::Finished => ""@,
    }
}

impl DockerStep {
    /// The next step.
    pub fn next(self) -> (r: DockerStep)
        ensures
            r == docker_after(self),
            self is CreateContainer ==> r is StartContainer,
            self is StartContainer ==> r is CreateExec,
            self is CreateExec ==> r is StartExec,
            self is StartExec || self is Finished ==> r is Finished,
    {
        match self {
            DockerStep::CreateContainer => DockerStep::StartContainer,
            DockerStep::StartContainer => DockerStep::CreateExec,
            DockerStep::CreateExec => DockerStep::StartExec,
            DockerStep::StartExec => DockerStep::Finished,
            DockerStep::Finished => DockerStep::Finished,
        }
    }

    /// The error where the daemon refuses the step.
    pub fn failed(self, message: &str) -> (r: DomainError)
        ensures
            r@ == DomainErrorView::Internal(docker_failure_prefix(self) + message@),
            self is CreateContainer ==> r@ == DomainErrorView::Internal(
                "Failed to create container: "@ + message@,
            ),
            self is StartContainer ==> r@ == DomainErrorView::Internal(
                "Failed to start container: "@ + message@,
            ),
            self is CreateExec ==> r@ == DomainErrorView::Internal(
                "Failed to create exec for worker: "@ + message@,
            ),
            self is StartExec ==> r@ == DomainErrorView::Internal(
                "Failed to start worker: "@ + message@,
            ),
    {
        let prefix: &str = match self {
            DockerStep::CreateContainer => "Failed to create container: ",
            DockerStep::StartContainer => "Failed to start container: ",
            DockerStep::CreateExec => "Failed to create exec for worker: ",
            DockerStep::StartExec => "Failed to start worker: ",
            DockerStep::Finished => "",
        };
        DomainError::Internal(concat2(prefix, message))
    }
}

/// What the daemon is asked for to make a sandbox.
#[derive(Debug)]
pub struct DockerCreate {
    pub container: ContainerSpec,
    /// The command that starts the worker.
    pub worker: Vec<String>,
}

/// Describes a sandbox that was just made as running.
pub fn new_running_sandbox(
    id: &str,
    template: &str,
    provider: &str,
    resources: ResourcesSpec,
    network: NetworkSpec,
    timeout_ms: u64,
    now: Timestamp,
) -> (r: Result<Sandbox, DomainError>)
    ensures
        r matches Ok(s) && {
            &&& s.id@ == id@
            &&& s.template_id@ == template@
            &&& s.provider_id@ == provider@
            &&& s.status is Running
            &&& s.created_at == now
            &&& s.expires_at == Some(domain::deadline(now, timeout_ms))
            &&& s.resources == resources
            &&& s.network == network
            &&& s.metadata@.len() == 0
        },
{
    let mut sandbox = Sandbox::new(
        id.to_owned(),
        template.to_owned(),
        provider.to_owned(),
        resources,
        network,
        now,
    );
    sandbox.set_timeout(timeout_ms);
    match sandbox.mark_running() {
        Ok(_) => {},
        Err(e) => return Err(e),
    }
    Ok(sandbox)
}

impl DockerProvider {
    /// A provider without a source mount.
    pub fn new(default_image: &str, worker_binary: String) -> (r: DockerProvider)
        ensures
            r.default_image@ == default_image@,
            r.worker_binary == worker_binary,
            r.source_mount is None,
    {
        DockerProvider { default_image: default_image.to_owned(), worker_binary, source_mount: None }
    }

    /// Shows a directory with source code to the containers that are made from now on.
    pub fn with_source_mount(&mut self, path: String)
        ensures
            *final(self) == (DockerProvider { source_mount: Some(path), ..*old(self) }),
    {
        self.source_mount = Some(path);
    }

    /// The command that starts the worker in a container.
    pub fn start_worker_in_container(sandbox_id: &str, secret: &str) -> (r: Vec<String>)
        ensures
            text::texts(r@) == worker_argv(sandbox_id@, secret@),
            r@.len() == 9,
            r@[0]@ == "/usr/local/bin/bastion-worker"@,
            r@[1]@ == "--gateway-addr"@ && r@[2]@ == "http://host.containers.internal:50052"@,
            r@[3]@ == "--sandbox-id"@ && r@[4]@ == sandbox_id@,
            r@[5]@ == "--secret"@ && r@[6]@ == secret@,
            r@[7]@ == "--workdir"@ && r@[8]@ == "/workspace"@,
    {
        let argv = vec![
            "/usr/local/bin/bastion-worker".to_owned(),
            "--gateway-addr".to_owned(),
            "http://host.containers.internal:50052".to_owned(),
            "--sandbox-id".to_owned(),
            sandbox_id.to_owned(),
            "--secret".to_owned(),
            secret.to_owned(),
            "--workdir".to_owned(),
            "/workspace".to_owned(),
        ];
        assert(text::texts(argv@) =~= worker_argv(sandbox_id@, secret@));
        argv
    }

    /// What the daemon is asked for, given the secret of the worker and the absolute
    /// paths of the worker and of the source code.
    pub fn create_with(
        &self,
        id: &str,
        template: &str,
        env_vars: &Vec<Pair>,
        worker_path: &str,
        source_path: Option<String>,
        secret: &str,
    ) -> (r: DockerCreate)
        ensures
            r.container.name@ == id@,
            r.container.image@ == chosen_image(template@, self.default_image@),
            text::texts(r.container.cmd@) == seq!["sleep"@, "infinity"@],
            text::texts(r.container.env@) == env_texts(env_vars@),
            text::texts(r.container.binds@) == bind_texts(worker_path@, option_text(source_path)),
            text::texts(r.container.extra_hosts@) == seq!["host.containers.internal:host-gateway"@],
            text::texts(r.worker@) == worker_argv(id@, secret@),
            r.container.image@ == if template@.len() == 0 {
                self.default_image@
            } else {
                template@
            },
            r.container.binds@.len() == if source_path is Some {
                2int
            } else {
                1
            },
            r.container.binds@[0]@ == worker_path@ + ":/usr/local/bin/bastion-worker:ro"@,
            source_path matches Some(s) ==> r.container.binds@[1]@ == s@ + ":/workspace/code:ro"@,
            r.container.env@.len() == env_vars@.len(),
            forall|i: int|
                0 <= i < env_vars@.len() ==> (#[trigger] r.container.env@[i])@ == env_vars@[i].key@
                    + "="@ + env_vars@[i].value@,
    {
        let mut binds: Vec<String> = Vec::new();
        binds.push(concat2(worker_path, ":/usr/local/bin/bastion-worker:ro"));
        match &source_path {
            Some(s) => {
                binds.push(concat2(s.as_str(), ":/workspace/code:ro"));
            },
            None => {},
        }
        assert(text::texts(binds@) =~= bind_texts(worker_path@, option_text(source_path)));
        let cmd = vec!["sleep".to_owned(), "infinity".to_owned()];
        assert(text::texts(cmd@) =~= seq!["sleep"@, "infinity"@]);
        let extra_hosts = vec!["host.containers.internal:host-gateway".to_owned()];
        assert(text::texts(extra_hosts@) =~= seq!["host.containers.internal:host-gateway"@]);
        DockerCreate {
            container: ContainerSpec {
                name: id.to_owned(),
                image: choose_image(template, self.default_image.as_str()),
                cmd,
                env: env_strings(env_vars),
                binds,
                extra_hosts,
            },
            worker: Self::start_worker_in_container(id, secret),
        }
    }

    /// What the daemon is asked for. The worker gets a secret of its own.
    pub fn create(
        &self,
        id: &str,
        template: &str,
        env_vars: &Vec<Pair>,
        worker_path: &str,
        source_path: Option<String>,
    ) -> (r: DockerCreate)
        ensures
            r.container.name@ == id@,
            r.container.image@ == chosen_image(template@, self.default_image@),
            text::texts(r.container.cmd@) == seq!["sleep"@, "infinity"@],
            text::texts(r.container.env@) == env_texts(env_vars@),
            text::texts(r.container.binds@) == bind_texts(worker_path@, option_text(source_path)),
            text::texts(r.container.extra_hosts@) == seq!["host.containers.internal:host-gateway"@],
            exists|uuid: Seq<char>|
                interop::uuid_form(uuid) && text::texts(r.worker@) == worker_argv(
                    id@,
                    #[trigger] routing::secret_of(uuid),
                ),
    {
        let secret = new_worker_secret();
        self.create_with(id, template, env_vars, worker_path, source_path, secret.as_str())
    }

    /// What the provider can do.
    pub fn capabilities() -> (r: ProviderCapabilities)
        ensures
            r == docker_capabilities(),
            r.supports_snapshots && r.supports_streaming && r.supports_networking,
            !r.supports_pause_resume && !r.requires_kvm,
            r.max_timeout_ms == 86_400_000,
            r.max_memory_mb == 16_384,
            r.max_cpu_count == 16,
            r.avg_startup_ms == 1500,
    {
        ProviderCapabilities {
            supports_snapshots: true,
            supports_streaming: true,
            supports_pause_resume: false,
            max_timeout_ms: 86_400_000,
            max_memory_mb: 16_384,
            max_cpu_count: 16,
            supports_networking: true,
            requires_kvm: false,
            avg_startup_ms: 1500,
        }
    }

    /// The name of the provider.
    pub fn name() -> (r: &'static str)
        ensures
            r@ == "podman"@,
    {
        "podman"
    }

    /// The sandboxes that the containers of a listing stand for. The limit counts the
    /// containers that are looked at.
    pub fn list_sandboxes(
        containers: &Vec<ContainerSummary>,
        filter: &SandboxFilter,
        defaults: &SandboxDefaults,
        now: Timestamp,
    ) -> (r: Vec<Sandbox>)
        ensures
            ({
                let positions = summary_positions(
                    *filter,
                    summaries_looked_at(*filter, containers@),
                );
                &&& r@.len() == positions.len()
                &&& forall|k: int|
                    0 <= k < r@.len() ==> process_view::is_minimal(
                        #[trigger] r@[k],
                        summary_id(containers@[positions[k]]),
                        match containers@[positions[k]].image {
                            Some(i) => i@,
                            None => ""@,
                        },
                        "podman"@,
                        SandboxStatus::Pending,
                        *defaults,
                        now,
                    )
            }),
    {
        let mut out: Vec<Sandbox> = Vec::new();
        let limit: u64 = limit_of(filter) as u64;
        let ghost looked = summaries_looked_at(*filter, containers@);
        let mut i: usize = 0;
        assert(looked.take(0) =~= seq![]);
        while i < containers.len() && (i as u64) < limit
            invariant
                i <= looked.len(),
                limit == process_view::filter_limit(*filter),
                looked == summaries_looked_at(*filter, containers@),
                out@.len() == summary_positions(*filter, looked.take(i as int)).len(),
                forall|k: int|
                    0 <= k < out@.len() ==> process_view::is_minimal(
                        #[trigger] out@[k],
                        summary_id(
                            containers@[summary_positions(*filter, looked.take(i as int))[k]],
                        ),
                        match containers@[summary_positions(
                            *filter,
                            looked.take(i as int),
                        )[k]].image {
                            Some(i) => i@,
                            None => ""@,
                        },
                        "podman"@,
                        SandboxStatus::Pending,
                        *defaults,
                        now,
                    ),
            decreases containers@.len() - i,
        {
            proof {
                assert(looked.take(i + 1).drop_last() =~= looked.take(i as int));
                assert(looked.take(i + 1).last() == containers@[i as int]);
            }
            let container = &containers[i];
            let status = match &container.state {
                Some(s) => list_status(s.as_str()),
                None => None,
            };
            let wanted = match (status, filter.status) {
                (None, _) => false,
                (Some(_), None) => true,
                (Some(s), Some(w)) => s == w,
            };
            if wanted {
                let id = sandbox_id_of(container);
                let image: &str = match &container.image {
                    Some(i) => i.as_str(),
                    None => "",
                };
                out.push(minimal_sandbox(id.as_str(), image, "podman", defaults, now));
            }
            i = i + 1;
        }
        assert(looked.take(i as int) =~= looked);
        out
    }

    /// The description of a sandbox, given what an inspection of its container said.
    pub fn get_info(
        id: &str,
        inspected: Result<ContainerInfo, String>,
        defaults: &SandboxDefaults,
        now: Timestamp,
    ) -> (r: Result<Sandbox, DomainError>)
        ensures
            match inspected {
                Err(e) => r matches Err(x) && x@ == inspect_error_view(id@, e@),
                Ok(info) => match info.state {
                    None => r matches Err(x) && x@ == DomainErrorView::Internal(
                        "Container has no state"@,
                    ),
                    Some(state) => r matches Ok(s) && process_view::is_minimal(
                        s,
                        id@,
                        match info.image {
                            Some(i) => i@,
                            None => ""@,
                        },
                        "podman"@,
                        shown_status(described_status(option_text(state))),
                        *defaults,
                        now,
                    ),
                },
            },
            inspected is Ok && inspected->Ok_0.state is Some ==> r is Ok,
            inspected is Ok && r is Ok ==> match (inspected->Ok_0.state, r->Ok_0) {
                (None, _) => false,
                (Some(None), s) => s.status is Failed,
                (Some(Some(name)), s) => {
                    &&& name@ == "running"@ ==> s.status is Running
                    &&& name@ == "exited"@ || name@ == "dead"@ ==> s.status is Stopped
                    &&& name@ == "paused"@ || name@ == "created"@ || name@ == "restarting"@
                        ==> s.status is Pending
                    &&& name@ != "running"@ && name@ != "exited"@ && name@ != "dead"@ && name@
                        != "paused"@ && name@ != "created"@ && name@ != "restarting"@
                        ==> s.status is Failed
                },
            },
    {
        proof {
            lemma_state_names();
        }
        let info = match inspected {
            Err(e) => return Err(inspect_error(id, e.as_str())),
            Ok(info) => info,
        };
        let state = match info.state {
            None => return Err(DomainError::Internal("Container has no state".to_owned())),
            Some(state) => state,
        };
        let status = match &state {
            None => SandboxStatus::Failed,
            Some(s) => match list_status(s.as_str()) {
                Some(status) => status,
                None => if str_eq(s.as_str(), "restarting") {
                    SandboxStatus::Pending
                } else {
                    SandboxStatus::Failed
                },
            },
        };
        let image: String = match info.image {
            Some(i) => i,
            None => "".to_owned(),
        };
        let mut sandbox = minimal_sandbox(id, image.as_str(), "podman", defaults, now);
        if status == SandboxStatus::Running {
            match sandbox.mark_running() {
                Ok(_) => {},
                Err(e) => return Err(e),
            }
        } else if status == SandboxStatus::Stopped {
            let _ = sandbox.terminate();
        } else if status == SandboxStatus::Failed {
            sandbox.mark_failed();
        }
        Ok(sandbox)
    }

    /// Checks that the container of a sandbox is there, given an error of the inspection
    /// where it failed. The timeout itself is kept elsewhere.
    pub fn set_timeout(id: &str, error: Option<String>) -> (r: Result<(), DomainError>)
        ensures
            match error {
                None => r is Ok,
                Some(e) => r matches Err(x) && x@ == inspect_error_view(id@, e@),
            },
    {
        match error {
            None => Ok(()),
            Some(e) => Err(inspect_error(id, e.as_str())),
        }
    }
}

proof fn lemma_state_names()
    ensures
        "running"@ != "exited"@,
        "running"@ != "dead"@,
        "running"@ != "paused"@,
        "running"@ != "created"@,
        "running"@ != "restarting"@,
        "exited"@ != "dead"@,
        "exited"@ != "paused"@,
        "exited"@ != "created"@,
        "exited"@ != "restarting"@,
        "dead"@ != "paused"@,
        "dead"@ != "created"@,
        "dead"@ != "restarting"@,
        "paused"@ != "created"@,
        "paused"@ != "restarting"@,
        "created"@ != "restarting"@,
{
    reveal_strlit("running");
    reveal_strlit("exited");
    reveal_strlit("dead");
    reveal_strlit("paused");
    reveal_strlit("created");
    reveal_strlit("restarting");
    assert("running"@.len() == 7 && "created"@.len() == 7 && "restarting"@.len() == 10);
    assert("exited"@.len() == 6 && "paused"@.len() == 6 && "dead"@.len() == 4);
    assert("exited"@[0] == 'e' && "paused"@[0] == 'p');
    assert("running"@[0] == 'r' && "created"@[0] == 'c');
}

/// A sandbox is described by the state of its container: one that runs as running, one that
/// has exited or is dead as stopped, one that is paused, created or restarting as waiting, and
/// any other as failed.
pub proof fn law_described_by_its_state(
    state: Option<Seq<char>>,
    s: Sandbox,
    id: Seq<char>,
    image: Seq<char>,
    defaults: SandboxDefaults,
    now: Timestamp,
)
    requires
        process_view::is_minimal(
            s,
            id,
            image,
            "podman"@,
            shown_status(described_status(state)),
            defaults,
            now,
        ),
    ensures
        s.status is Running <==> state == Some("running"@),
        s.status is Stopped <==> state == Some("exited"@) || state == Some("dead"@),
        s.status is Pending <==> state == Some("paused"@) || state == Some("created"@) || state
            == Some("restarting"@),
        !(s.status is Paused),
        s.id@ == id,
        s.template_id@ == image,
{
    lemma_state_names();
}

/// A listing shows a container, once and in its order, exactly where it is among the first
/// ones that the limit of the filter allows, is in a state that listings know, and that state
/// is the one that the filter names, if it names one.
pub proof fn law_listed_by_its_state(filter: SandboxFilter, cs: Seq<ContainerSummary>, j: int)
    requires
        0 <= j < cs.len(),
    ensures
        ({
            let positions = summary_positions(filter, summaries_looked_at(filter, cs));
            let state = cs[j].state;
            let within = filter.limit matches Some(n) ==> j < n;
            &&& cs.len() <= u32::MAX ==> (positions.contains(j) <==> within && match filter.status {
                None => state is Some && (state->0@ == "running"@ || state->0@ == "exited"@
                    || state->0@ == "dead"@ || state->0@ == "paused"@ || state->0@ == "created"@),
                Some(SandboxStatus::Running) => state is Some && state->0@ == "running"@,
                Some(SandboxStatus::Stopped) => state is Some && (state->0@ == "exited"@
                    || state->0@ == "dead"@),
                Some(SandboxStatus::Paused) => state is Some && state->0@ == "paused"@,
                Some(SandboxStatus::Pending) => state is Some && state->0@ == "created"@,
                Some(SandboxStatus::Failed) => false,
            })
            &&& forall|k: int, l: int|
                0 <= k < l < positions.len() ==> #[trigger] positions[k] < #[trigger] positions[l]
            &&& forall|k: int|
                0 <= k < positions.len() ==> 0 <= #[trigger] positions[k] < cs.len()
        }),
{
    lemma_state_names();
    let looked = summaries_looked_at(filter, cs);
    lemma_summary_positions(filter, looked);
    if j < looked.len() {
        assert(looked[j] == cs[j]);
    }
}

proof fn lemma_summary_positions(filter: SandboxFilter, cs: Seq<ContainerSummary>)
    ensures
        ({
            let positions = summary_positions(filter, cs);
            &&& forall|k: int, l: int|
                0 <= k < l < positions.len() ==> #[trigger] positions[k] < #[trigger] positions[l]
            &&& forall|k: int|
                0 <= k < positions.len() ==> 0 <= #[trigger] positions[k] < cs.len()
                    && summary_shown(filter, cs[positions[k]])
            &&& forall|j: int|
                0 <= j < cs.len() && summary_shown(filter, #[trigger] cs[j]) ==> positions.contains(
                    j,
                )
        }),
    decreases cs.len(),
{
    if cs.len() > 0 {
        let front = cs.drop_last();
        let n = cs.len() - 1;
        lemma_summary_positions(filter, front);
        let before = summary_positions(filter, front);
        let after = summary_positions(filter, cs);
        assert forall|k: int| 0 <= k < after.len() implies 0 <= #[trigger] after[k] < cs.len()
            && summary_shown(filter, cs[after[k]]) by {
            if k < before.len() {
                assert(front[before[k]] == cs[before[k]]);
            }
        }
        assert forall|j: int|
            0 <= j < cs.len() && summary_shown(filter, #[trigger] cs[j]) implies after.contains(
            j,
        ) by {
            if j < n {
                assert(front[j] == cs[j]);
                let k = choose|k: int| 0 <= k < before.len() && before[k] == j;
                assert(after[k] == j);
            } else {
                assert(after[after.len() - 1] == n);
            }
        }
    }
}

} // verus!
