//! Sandboxes in gVisor containers: how `runsc` is called, how its listing is read, and
//! the steps by which a container is made.
use vstd::prelude::*;

use crate::domain;
use crate::domain::{
    DomainError, DomainErrorView, NetworkSpec, ProviderCapabilities, ResourcesSpec, Sandbox,
    SandboxStatus, Timestamp,
};
use crate::interop;
use crate::provider::process_view::has_ended;
use crate::provider::routing;
use crate::provider::routing::new_worker_secret;
use crate::provider::state_machine::{DashMapSandboxStateMachine, StateEntry};
use crate::text;
use crate::text::{concat2, concat3, join_path, lines, split_on, str_eq, words};

verus! {

/// The settings of the provider.
#[derive(Debug)]
pub struct GVisorProvider {
    pub runsc_binary: String,
    pub default_image: String,
    pub rootfs_dir: String,
    pub worker_binary: String,
    pub gateway_addr: String,
}

/// How often a container that does not run yet is looked at.
pub const START_ATTEMPTS: u32 = 10;

/// The image that a template stands for: the part in front of its tag, or the default
/// one where the template is empty.
pub open spec fn image_of(template: Seq<char>, default_image: Seq<char>) -> Seq<char> {
    if template.len() == 0 {
        default_image
    } else {
        text::pieces(template, ':')[0]
    }
}

/// The message about an image that is not there.
pub open spec fn image_missing(path: Seq<char>, rootfs_dir: Seq<char>) -> Seq<char> {
    "Rootfs image not found: "@ + path
        + ". Place a rootfs directory (e.g. debian:bookworm-slim) at this path, or set 'default_image' in your gvisor provider config to an existing image under '"@
        + rootfs_dir + "'."@
}

/// Whether a line of the listing says that the container runs: its first word is the
/// id and its third word is the status.
pub open spec fn line_shows_running(line: Seq<char>, id: Seq<char>) -> bool {
    let w = text::words_of(line);
    w.len() >= 3 && w[0] == id && w[2] == "running"@
}

/// Whether the listing says that the container runs.
pub open spec fn listing_shows_running(listing: Seq<char>, id: Seq<char>) -> bool {
    exists|i: int|
        0 <= i < text::lines_of(listing).len() && line_shows_running(#[trigger] text::lines_of(listing)[i], id)
}

/// The arguments that every call of `runsc` starts with. Without root there is no
/// network of the sandbox, so the container uses that of the host.
pub open spec fn runsc_prefix() -> Seq<Seq<char>> {
    seq!["-rootless"@, "-network=host"@]
}

/// What keeps the provider from being set up, if anything.
pub open spec fn gvisor_setup_error(
    p: GVisorProvider,
    binary_exists: bool,
    rootfs_dir_exists: bool,
    dir_error: Option<String>,
) -> Option<DomainErrorView> {
    if !binary_exists {
        Some(DomainErrorView::Config("runsc binary not found: "@ + p.runsc_binary@))
    } else if !rootfs_dir_exists {
        Some(DomainErrorView::Config("Rootfs directory not found: "@ + p.rootfs_dir@))
    } else {
        match dir_error {
            Some(e) => Some(DomainErrorView::Config("Cannot create rootfs directory: "@ + e@)),
            None => None,
        }
    }
}

/// What the provider can do.
pub open spec fn gvisor_capabilities() -> ProviderCapabilities {
    ProviderCapabilities {
        supports_snapshots: false,
        supports_streaming: true,
        supports_pause_resume: false,
        max_timeout_ms: 600_000,
        max_memory_mb: 4096,
        max_cpu_count: 4,
        supports_networking: true,
        requires_kvm: false,
        avg_startup_ms: 2000,
    }
}

/// What to do while waiting for a container or its worker.
#[derive(Debug)]
pub enum PollStep {
    Ready,
    Sleep(u64),
    Failed(DomainError),
}

fn with_prefix(rest: Vec<String>) -> (r: Vec<String>)
    ensures
        text::texts(r@) == runsc_prefix() + text::texts(rest@),
        r@.len() == 2 + rest@.len(),
        r@[0]@ == "-rootless"@ && r@[1]@ == "-network=host"@,
        forall|i: int| 0 <= i < rest@.len() ==> r@[2 + i] == #[trigger] rest@[i],
{
    let mut out: Vec<String> = Vec::new();
    out.push("-rootless".to_owned());
    out.push("-network=host".to_owned());
    let ghost given = rest@;
    let mut rest = rest;
    out.append(&mut rest);
    assert(text::texts(out@) =~= runsc_prefix() + text::texts(given));
    out
}

proof fn lemma_first_piece(s: Seq<char>, d: char)
    ensures
        ({
            let first = text::pieces(s, d)[0];
            &&& !first.contains(d)
            &&& text::has_prefix(s, first)
            &&& s == first || s[first.len() as int] == d
        }),
{
    text::law_pieces_join_to_the_text(s, d);
    let i = text::lemma_first_is_first(s, d);
    let first = text::pieces(s, d)[0];
    if i >= s.len() {
        assert(s.take(s.len() as int) =~= s);
    } else {
        assert(first == s.take(i));
    }
    assert(s.take(first.len() as int) =~= first);
}

proof fn lemma_pieces_nonempty(s: Seq<char>, d: char)
    ensures
        text::pieces(s, d).len() > 0,
{
}

impl GVisorProvider {
    /// Checks what the provider needs and sets it up.
    pub fn new(
        settings: GVisorProvider,
        binary_exists: bool,
        rootfs_dir_exists: bool,
        dir_error: Option<String>,
    ) -> (r: Result<GVisorProvider, DomainError>)
        ensures
            match r {
                Ok(p) => gvisor_setup_error(
                    settings,
                    binary_exists,
                    rootfs_dir_exists,
                    dir_error,
                ) is None && p == settings,
                Err(e) => gvisor_setup_error(settings, binary_exists, rootfs_dir_exists, dir_error)
                    == Some(e@),
            },
            r is Ok <==> binary_exists && rootfs_dir_exists && dir_error is None,
            !binary_exists ==> r->Err_0@ == DomainErrorView::Config(
                "runsc binary not found: "@ + settings.runsc_binary@,
            ),
            binary_exists && !rootfs_dir_exists ==> r->Err_0@ == DomainErrorView::Config(
                "Rootfs directory not found: "@ + settings.rootfs_dir@,
            ),
            binary_exists && rootfs_dir_exists && dir_error is Some ==> r->Err_0@
                == DomainErrorView::Config("Cannot create rootfs directory: "@ + dir_error->0@),
    {
        if !binary_exists {
            return Err(
                DomainError::Config(
                    concat2("runsc binary not found: ", settings.runsc_binary.as_str()),
                ),
            );
        }
        if !rootfs_dir_exists {
            return Err(
                DomainError::Config(
                    concat2("Rootfs directory not found: ", settings.rootfs_dir.as_str()),
                ),
            );
        }
        match dir_error {
            Some(e) => Err(
                DomainError::Config(concat2("Cannot create rootfs directory: ", e.as_str())),
            ),
            None => Ok(settings),
        }
    }

    /// The image that a template stands for.
    pub fn image(&self, template: &str) -> (r: String)
        ensures
            r@ == image_of(template@, self.default_image@),
            template@.len() == 0 ==> r@ == self.default_image@,
            template@.len() > 0 ==> !r@.contains(':') && text::has_prefix(template@, r@) && (
            template@ == r@ || template@[r@.len() as int] == ':'),
    {
        if template.is_empty() {
            return self.default_image.clone();
        }
        let parts = split_on(template, ':');
        proof {
            lemma_pieces_nonempty(template@, ':');
            assert(text::texts(parts@)[0] == parts@[0]@);
            lemma_first_piece(template@, ':');
        }
        parts[0].clone()
    }

    /// Where the image of a template lies, where it is there.
    pub fn image_path(&self, template: &str) -> (r: String)
        ensures
            r@ == text::joined_path(self.rootfs_dir@, image_of(template@, self.default_image@)),
    {
        join_path(self.rootfs_dir.as_str(), self.image(template).as_str())
    }

    /// The directory of the bundle of a sandbox.
    pub fn bundle_dir(&self, id: &str) -> (r: String)
        ensures
            r@ == text::joined_path(self.rootfs_dir@, id@),
    {
        join_path(self.rootfs_dir.as_str(), id)
    }

    /// Requires that the image of a template is there.
    pub fn require_image(&self, template: &str, exists: bool) -> (r: Result<(), DomainError>)
        ensures
            match r {
                Ok(_) => exists,
                Err(e) => !exists && e@ == DomainErrorView::Config(
                    image_missing(
                        text::joined_path(self.rootfs_dir@, image_of(template@, self.default_image@)),
                        self.rootfs_dir@,
                    ),
                ),
            },
            r is Ok <==> exists,
            !exists ==> r->Err_0@ == DomainErrorView::Config(
                "Rootfs image not found: "@ + text::joined_path(
                    self.rootfs_dir@,
                    image_of(template@, self.default_image@),
                )
                    + ". Place a rootfs directory (e.g. debian:bookworm-slim) at this path, or set 'default_image' in your gvisor provider config to an existing image under '"@
                    + self.rootfs_dir@ + "'."@,
            ),
    {
        if exists {
            return Ok(());
        }
        let path = self.image_path(template);
        let mut message = concat3(
            "Rootfs image not found: ",
            path.as_str(),
            ". Place a rootfs directory (e.g. debian:bookworm-slim) at this path, or set 'default_image' in your gvisor provider config to an existing image under '",
        );
        message.append(self.rootfs_dir.as_str());
        message.append("'.");
        Err(DomainError::Config(message))
    }

    /// The arguments that start a container from its bundle.
    pub fn run_args(bundle_dir: &str, id: &str) -> (r: Vec<String>)
        ensures
            text::texts(r@) == runsc_prefix() + seq!["run"@, "-bundle"@, bundle_dir@, id@],
            r@.len() == 6,
            r@[0]@ == "-rootless"@ && r@[1]@ == "-network=host"@,
            r@[2]@ == "run"@ && r@[3]@ == "-bundle"@ && r@[4]@ == bundle_dir@ && r@[5]@ == id@,
    {
        let rest = vec![
            "run".to_owned(),
            "-bundle".to_owned(),
            bundle_dir.to_owned(),
            id.to_owned(),
        ];
        assert(text::texts(rest@) =~= seq!["run"@, "-bundle"@, bundle_dir@, id@]);
        with_prefix(rest)
    }

    /// The arguments that list the containers.
    pub fn list_args() -> (r: Vec<String>)
        ensures
            text::texts(r@) == runsc_prefix() + seq!["list"@],
            r@.len() == 3,
            r@[0]@ == "-rootless"@ && r@[1]@ == "-network=host"@ && r@[2]@ == "list"@,
    {
        let rest = vec!["list".to_owned()];
        assert(text::texts(rest@) =~= seq!["list"@]);
        with_prefix(rest)
    }

    /// The arguments that delete a container.
    pub fn delete_args(id: &str) -> (r: Vec<String>)
        ensures
            text::texts(r@) == runsc_prefix() + seq!["delete"@, "-force"@, id@],
            r@.len() == 5,
            r@[0]@ == "-rootless"@ && r@[1]@ == "-network=host"@,
            r@[2]@ == "delete"@ && r@[3]@ == "-force"@ && r@[4]@ == id@,
    {
        let rest = vec!["delete".to_owned(), "-force".to_owned(), id.to_owned()];
        assert(text::texts(rest@) =~= seq!["delete"@, "-force"@, id@]);
        with_prefix(rest)
    }

    /// The arguments that start the worker in a container.
    pub fn start_worker_in_container(&self, container_id: &str, sandbox_id: &str, secret: &str) -> (r:
        Vec<String>)
        ensures
            text::texts(r@) == runsc_prefix() + seq![
                "exec"@,
                container_id@,
                "/usr/local/bin/bastion-worker"@,
                "--gateway-addr"@,
                "http://"@ + self.gateway_addr@,
                "--sandbox-id"@,
                sandbox_id@,
                "--secret"@,
                secret@,
                "--workdir"@,
                "/workspace"@,
            ],
            r@.len() == 13,
            r@[0]@ == "-rootless"@ && r@[1]@ == "-network=host"@ && r@[2]@ == "exec"@,
            r@[3]@ == container_id@,
            r@[6]@ == "http://"@ + self.gateway_addr@,
            r@[8]@ == sandbox_id@ && r@[10]@ == secret@,
    {
        let rest = vec![
            "exec".to_owned(),
            container_id.to_owned(),
            "/usr/local/bin/bastion-worker".to_owned(),
            "--gateway-addr".to_owned(),
            concat2("http://", self.gateway_addr.as_str()),
            "--sandbox-id".to_owned(),
            sandbox_id.to_owned(),
            "--secret".to_owned(),
            secret.to_owned(),
            "--workdir".to_owned(),
            "/workspace".to_owned(),
        ];
        assert(text::texts(rest@) =~= seq![
            "exec"@,
            container_id@,
            "/usr/local/bin/bastion-worker"@,
            "--gateway-addr"@,
            "http://"@ + self.gateway_addr@,
            "--sandbox-id"@,
            sandbox_id@,
            "--secret"@,
            secret@,
            "--workdir"@,
            "/workspace"@,
        ]);
        with_prefix(rest)
    }

    /// Whether the listing of `runsc` says that the container runs.
    pub fn container_is_running(listing: &str, container_id: &str) -> (r: bool)
        ensures
            r == listing_shows_running(listing@, container_id@),
    {
        let ls = lines(listing);
        let ghost all = text::lines_of(listing@);
        let mut i: usize = 0;
        while i < ls.len()
            invariant
                i <= ls@.len(),
                all == text::texts(ls@),
                all == text::lines_of(listing@),
                forall|j: int| 0 <= j < i ==> !line_shows_running(#[trigger] all[j], container_id@),
            decreases ls@.len() - i,
        {
            let w = words(ls[i].as_str());
            assert(all[i as int] == ls@[i as int]@);
            if w.len() >= 3 {
                assert(text::words_of(all[i as int])[0] == w@[0]@);
                assert(text::words_of(all[i as int])[2] == w@[2]@);
                if str_eq(w[0].as_str(), container_id) && str_eq(w[2].as_str(), "running") {
                    assert(line_shows_running(text::lines_of(listing@)[i as int], container_id@));
                    return true;
                }
            }
            i = i + 1;
        }
        false
    }

    /// What to do after a look at a container that was just started: it may be looked
    /// at ten times. `attempts` counts the looks that found it not running.
    pub fn poll_start(id: &str, running: bool, attempts: u32) -> (r: (PollStep, u32))
        requires
            attempts < START_ATTEMPTS,
        ensures
            if running {
                r == (PollStep::Ready, attempts)
            } else if attempts + 1 >= START_ATTEMPTS {
                &&& r.1 == attempts + 1
                &&& r.0 matches PollStep::Failed(e) && e@ == DomainErrorView::Timeout(
                    "Container "@ + id@ + " did not start within timeout"@,
                )
            } else {
                r == (PollStep::Sleep(200), (attempts + 1) as u32)
            },
            r.0 is Failed <==> !running && attempts == 9,
    {
        if running {
            return (PollStep::Ready, attempts);
        }
        let attempts: u32 = attempts + 1;
        if attempts >= START_ATTEMPTS {
            return (
                PollStep::Failed(
                    DomainError::Timeout(concat3("Container ", id, " did not start within timeout")),
                ),
                attempts,
            );
        }
        (PollStep::Sleep(200), attempts)
    }

    /// What to do while waiting for the worker of a sandbox. Without a router there is
    /// nothing to wait for.
    pub fn wait_for_worker_connection(
        sandbox_id: &str,
        has_router: bool,
        connected: bool,
        now_ms: u64,
        deadline_ms: u64,
    ) -> (r: PollStep)
        ensures
            if !has_router {
                r is Ready
            } else if now_ms > deadline_ms {
                r matches PollStep::Failed(e) && e@ == DomainErrorView::Timeout(
                    "Worker in sandbox "@ + sandbox_id@ + " did not connect within timeout"@,
                )
            } else if connected {
                r is Ready
            } else {
                r == PollStep::Sleep(200)
            },
    {
        if !has_router {
            return PollStep::Ready;
        }
        if now_ms > deadline_ms {
            return PollStep::Failed(
                DomainError::Timeout(
                    concat3("Worker in sandbox ", sandbox_id, " did not connect within timeout"),
                ),
            );
        }
        if connected {
            PollStep::Ready
        } else {
            PollStep::Sleep(200)
        }
    }

    /// What the provider can do.
    pub fn capabilities() -> (r: ProviderCapabilities)
        ensures
            r == gvisor_capabilities(),
            r.supports_streaming && r.supports_networking,
            !r.supports_snapshots && !r.supports_pause_resume && !r.requires_kvm,
            r.max_timeout_ms == 600_000,
            r.max_memory_mb == 4096,
            r.max_cpu_count == 4,
            r.avg_startup_ms == 2000,
    {
        ProviderCapabilities {
            supports_snapshots: false,
            supports_streaming: true,
            supports_pause_resume: false,
            max_timeout_ms: 600_000,
            max_memory_mb: 4096,
            max_cpu_count: 4,
            supports_networking: true,
            requires_kvm: false,
            avg_startup_ms: 2000,
        }
    }

    /// The name of the provider.
    pub fn name() -> (r: &'static str)
        ensures
            r@ == "gvisor"@,
    {
        "gvisor"
    }

    /// Whether a container is alive: not where its state says that it has ended, and
    /// else by its process; one without a process is looked up in the listing.
    pub fn is_alive(
        id: &str,
        state: Option<SandboxStatus>,
        process: Option<bool>,
        listing: &str,
    ) -> (r: bool)
        ensures
            r == (state != Some(SandboxStatus::Stopped) && state != Some(SandboxStatus::Failed) && (
            match process {
                Some(running) => running,
                None => listing_shows_running(listing@, id@),
            })),
    {
        if has_ended(state) {
            return false;
        }
        match process {
            Some(running) => running,
            None => Self::container_is_running(listing, id),
        }
    }

    /// Starts to make a container whose worker gets a secret of its own.
    pub fn create(id: &str, template: &str, resources: ResourcesSpec, has_router: bool) -> (r:
        GVisorCreate)
        ensures
            r.id@ == id@,
            r.template@ == template@,
            r.resources == resources,
            exists|uuid: Seq<char>| interop::uuid_form(uuid) && r.secret@ == #[trigger] routing::secret_of(uuid),
            r.has_router == has_router,
            r.step == GVisorStep::CheckImage,
    {
        GVisorCreate::start(id, template, resources, new_worker_secret(), has_router)
    }
}

/// A step of making a container.
#[derive(Debug, Clone, Copy, PartialEq, Eq, Structural)]
pub enum GVisorStep {
    CheckImage,
    ValidateImage,
    PrepareBundle,
    Spawn,
    /// Track the sandbox as running.
    Track,
    Settle,
    WaitRunning,
    StartWorker,
    RegisterSecret,
    WaitWorker,
    Finished,
}

/// The steps in their order. The secret is registered where there is a router.
pub open spec fn gvisor_order(has_router: bool) -> Seq<GVisorStep> {
    seq![
        GVisorStep::CheckImage,
        GVisorStep::ValidateImage,
        GVisorStep::PrepareBundle,
        GVisorStep::Spawn,
        GVisorStep::Track,
        GVisorStep::Settle,
        GVisorStep::WaitRunning,
        GVisorStep::StartWorker,
    ] + (if has_router {
        seq![GVisorStep::RegisterSecret]
    } else {
        seq![]
    }) + seq![GVisorStep::WaitWorker, GVisorStep::Finished]
}

/// The step behind a step.
pub open spec fn gvisor_after(step: GVisorStep, has_router: bool) -> GVisorStep {
    match step {
        GVisorStep::CheckImage => GVisorStep::ValidateImage,
        GVisorStep::ValidateImage => GVisorStep::PrepareBundle,
        GVisorStep::PrepareBundle => GVisorStep::Spawn,
        GVisorStep::Spawn => GVisorStep::Track,
        GVisorStep::Track => GVisorStep::Settle,
        GVisorStep::Settle => GVisorStep::WaitRunning,
        GVisorStep::WaitRunning => GVisorStep::StartWorker,
        GVisorStep::StartWorker => if has_router {
            GVisorStep::RegisterSecret
        } else {
            GVisorStep::WaitWorker
        },
        GVisorStep::RegisterSecret => GVisorStep::WaitWorker,
        GVisorStep::WaitWorker => GVisorStep::Finished,
        GVisorStep::Finished => GVisorStep::Finished,
    }
}

/// Following the steps one after the other goes through the whole order.
pub proof fn law_gvisor_steps_follow_order(has_router: bool, i: int)
    requires
        0 <= i < gvisor_order(has_router).len() - 1,
    ensures
        gvisor_order(has_router)[0] == GVisorStep::CheckImage,
        gvisor_order(has_router).last() == GVisorStep::Finished,
        gvisor_after(gvisor_order(has_router)[i], has_router) == gvisor_order(has_router)[i + 1],
{
}

/// What is done in a step.
#[derive(Debug)]
pub enum GVisorAction {
    /// See whether the image is there.
    CheckImage(String),
    ValidateImage(String),
    /// Prepare a bundle in a directory from an image, with an entry point.
    PrepareBundle(String, String, Vec<String>),
    /// Call `runsc` with the arguments and keep the process.
    Spawn(Vec<String>),
    Track,
    Sleep(u64),
    WaitRunning(String),
    /// Call `runsc` with the arguments in the background.
    StartWorker(Vec<String>),
    RegisterSecret(String, String),
    WaitWorker(String, u64),
    Done,
}

/// An action with its texts as characters.
#[verifier::ext_equal]
pub enum GVisorActionView {
    CheckImage(Seq<char>),
    ValidateImage(Seq<char>),
    PrepareBundle(Seq<char>, Seq<char>, Seq<Seq<char>>),
    Spawn(Seq<Seq<char>>),
    Track,
    Sleep(u64),
    WaitRunning(Seq<char>),
    StartWorker(Seq<Seq<char>>),
    RegisterSecret(Seq<char>, Seq<char>),
    WaitWorker(Seq<char>, u64),
    Done,
}

impl GVisorAction {
    pub open spec fn view(self) -> GVisorActionView {
        match self {
            GVisorAction::CheckImage(a) => GVisorActionView::CheckImage(a@),
            GVisorAction::ValidateImage(a) => GVisorActionView::ValidateImage(a@),
            GVisorAction::PrepareBundle(a, b, v) => GVisorActionView::PrepareBundle(
                a@,
                b@,
                text::texts(v@),
            ),
            GVisorAction::Spawn(v) => GVisorActionView::Spawn(text::texts(v@)),
            GVisorAction::Track => GVisorActionView::Track,
            GVisorAction::Sleep(t) => GVisorActionView::Sleep(t),
            GVisorAction::WaitRunning(a) => GVisorActionView::WaitRunning(a@),
            GVisorAction::StartWorker(v) => GVisorActionView::StartWorker(text::texts(v@)),
            GVisorAction::RegisterSecret(a, b) => GVisorActionView::RegisterSecret(a@, b@),
            GVisorAction::WaitWorker(a, t) => GVisorActionView::WaitWorker(a@, t),
            GVisorAction::Done => GVisorActionView::Done,
        }
    }
}

/// What is made.
#[derive(Debug)]
pub struct GVisorCreate {
    pub id: String,
    pub template: String,
    pub resources: ResourcesSpec,
    pub secret: String,
    pub has_router: bool,
    pub step: GVisorStep,
}

/// What is done in a step.
pub open spec fn gvisor_action_in(
    step: GVisorStep,
    p: GVisorProvider,
    c: GVisorCreate,
) -> GVisorActionView {
    let image = text::joined_path(p.rootfs_dir@, image_of(c.template@, p.default_image@));
    let bundle = text::joined_path(p.rootfs_dir@, c.id@);
    match step {
        GVisorStep::CheckImage => GVisorActionView::CheckImage(image),
        GVisorStep::ValidateImage => GVisorActionView::ValidateImage(image),
        GVisorStep::PrepareBundle => GVisorActionView::PrepareBundle(
            bundle,
            image,
            seq!["/bin/sleep"@, "infinity"@],
        ),
        GVisorStep::Spawn => GVisorActionView::Spawn(
            runsc_prefix() + seq!["run"@, "-bundle"@, bundle, c.id@],
        ),
        GVisorStep::Track => GVisorActionView::Track,
        GVisorStep::Settle => GVisorActionView::Sleep(500),
        GVisorStep::WaitRunning => GVisorActionView::WaitRunning(c.id@),
        GVisorStep::StartWorker => GVisorActionView::StartWorker(
            runsc_prefix() + seq![
                "exec"@,
                c.id@,
                "/usr/local/bin/bastion-worker"@,
                "--gateway-addr"@,
                "http://"@ + p.gateway_addr@,
                "--sandbox-id"@,
                c.id@,
                "--secret"@,
                c.secret@,
                "--workdir"@,
                "/workspace"@,
            ],
        ),
        GVisorStep::RegisterSecret => GVisorActionView::RegisterSecret(c.id@, c.secret@),
        GVisorStep::WaitWorker => GVisorActionView::WaitWorker(c.id@, 30_000),
        GVisorStep::Finished => GVisorActionView::Done,
    }
}

impl GVisorCreate {
    /// Starts to make a container whose worker gets the given secret.
    pub fn start(
        id: &str,
        template: &str,
        resources: ResourcesSpec,
        secret: String,
        has_router: bool,
    ) -> (r: GVisorCreate)
        ensures
            r.id@ == id@,
            r.template@ == template@,
            r.resources == resources,
            r.secret == secret,
            r.has_router == has_router,
            r.step == GVisorStep::CheckImage,
    {
        GVisorCreate {
            id: id.to_owned(),
            template: template.to_owned(),
            resources,
            secret,
            has_router,
            step: GVisorStep::CheckImage,
        }
    }

    /// What is done in the step at which the making stands.
    pub fn action(&self, p: &GVisorProvider) -> (r: GVisorAction)
        ensures
            r@ == gvisor_action_in(self.step, *p, *self),
            ({
                let image = text::joined_path(
                    p.rootfs_dir@,
                    image_of(self.template@, p.default_image@),
                );
                let bundle = text::joined_path(p.rootfs_dir@, self.id@);
                &&& self.step is CheckImage ==> (r matches GVisorAction::CheckImage(i) && i@ == image)
                &&& self.step is ValidateImage ==> (r matches GVisorAction::ValidateImage(i) && i@
                    == image)
                &&& self.step is PrepareBundle ==> (r matches GVisorAction::PrepareBundle(b, i, e)
                    && b@ == bundle && i@ == image && e@.len() == 2 && e@[0]@ == "/bin/sleep"@
                    && e@[1]@ == "infinity"@)
                &&& self.step is Spawn ==> (r matches GVisorAction::Spawn(a) && text::texts(a@) == seq![
                    "-rootless"@,
                    "-network=host"@,
                    "run"@,
                    "-bundle"@,
                    bundle,
                    self.id@,
                ])
                &&& self.step is Track ==> r is Track
                &&& self.step is Settle ==> r == GVisorAction::Sleep(500)
                &&& self.step is WaitRunning ==> r == GVisorAction::WaitRunning(self.id)
                &&& self.step is StartWorker ==> (r matches GVisorAction::StartWorker(a)
                    && text::texts(a@).len() == 13 && text::texts(a@)[3] == self.id@
                    && text::texts(a@)[8] == self.id@ && text::texts(a@)[10] == self.secret@)
                &&& self.step is RegisterSecret ==> r == GVisorAction::RegisterSecret(
                    self.id,
                    self.secret,
                )
                &&& self.step is WaitWorker ==> r == GVisorAction::WaitWorker(self.id, 30_000)
                &&& self.step is Finished ==> r is Done
            }),
    {
        let id = self.id.as_str();
        match self.step {
            GVisorStep::CheckImage => GVisorAction::CheckImage(
                p.image_path(self.template.as_str()),
            ),
            GVisorStep::ValidateImage => GVisorAction::ValidateImage(
                p.image_path(self.template.as_str()),
            ),
            GVisorStep::PrepareBundle => {
                let entrypoint = vec!["/bin/sleep".to_owned(), "infinity".to_owned()];
                assert(text::texts(entrypoint@) =~= seq!["/bin/sleep"@, "infinity"@]);
                GVisorAction::PrepareBundle(
                    p.bundle_dir(id),
                    p.image_path(self.template.as_str()),
                    entrypoint,
                )
            },
            GVisorStep::Spawn => GVisorAction::Spawn(
                GVisorProvider::run_args(p.bundle_dir(id).as_str(), id),
            ),
            GVisorStep::Track => GVisorAction::Track,
            GVisorStep::Settle => GVisorAction::Sleep(500),
            GVisorStep::WaitRunning => GVisorAction::WaitRunning(self.id.clone()),
            GVisorStep::StartWorker => GVisorAction::StartWorker(
                p.start_worker_in_container(id, id, self.secret.as_str()),
            ),
            GVisorStep::RegisterSecret => GVisorAction::RegisterSecret(
                self.id.clone(),
                self.secret.clone(),
            ),
            GVisorStep::WaitWorker => GVisorAction::WaitWorker(self.id.clone(), 30_000),
            GVisorStep::Finished => GVisorAction::Done,
        }
    }

    /// Goes on to the next step after the one at hand is done.
    pub fn done(&mut self)
        ensures
            *final(self) == (GVisorCreate {
                step: gvisor_after(old(self).step, old(self).has_router),
                ..*old(self)
            }),
            old(self).step is CheckImage ==> final(self).step is ValidateImage,
            old(self).step is ValidateImage ==> final(self).step is PrepareBundle,
            old(self).step is PrepareBundle ==> final(self).step is Spawn,
            old(self).step is Spawn ==> final(self).step is Track,
            old(self).step is Track ==> final(self).step is Settle,
            old(self).step is Settle ==> final(self).step is WaitRunning,
            old(self).step is WaitRunning ==> final(self).step is StartWorker,
            old(self).step is StartWorker && old(self).has_router ==> (final(self).step
                is RegisterSecret),
            old(self).step is StartWorker && !old(self).has_router ==> final(self).step is WaitWorker,
            old(self).step is RegisterSecret ==> final(self).step is WaitWorker,
            old(self).step is WaitWorker || old(self).step is Finished ==> (final(self).step
                is Finished),
    {
        self.step = match self.step {
            GVisorStep::CheckImage => GVisorStep::ValidateImage,
            GVisorStep::ValidateImage => GVisorStep::PrepareBundle,
            GVisorStep::PrepareBundle => GVisorStep::Spawn,
            GVisorStep::Spawn => GVisorStep::Track,
            GVisorStep::Track => GVisorStep::Settle,
            GVisorStep::Settle => GVisorStep::WaitRunning,
            GVisorStep::WaitRunning => GVisorStep::StartWorker,
            GVisorStep::StartWorker => if self.has_router {
                GVisorStep::RegisterSecret
            } else {
                GVisorStep::WaitWorker
            },
            GVisorStep::RegisterSecret => GVisorStep::WaitWorker,
            GVisorStep::WaitWorker => GVisorStep::Finished,
            GVisorStep::Finished => GVisorStep::Finished,
        };
    }

    /// The error where the container process cannot be started.
    pub fn spawn_error(message: &str) -> (r: DomainError)
        ensures
            r@ == DomainErrorView::Internal("Failed to spawn runsc: "@ + message@),
    {
        DomainError::Internal(concat2("Failed to spawn runsc: ", message))
    }

    /// Tracks the sandbox as running. One that was tracked already is refused, and is
    /// tracked as pending from then on.
    pub fn track<P>(&self, machine: &mut DashMapSandboxStateMachine<P>, registered_at: u64) -> (r:
        Result<(), DomainError>)
        requires
            old(machine).wf(),
        ensures
            final(machine).wf(),
            match r {
                Ok(_) => {
                    &&& !old(machine)@.contains_key(self.id@)
                    &&& final(machine)@ == old(machine)@.insert(
                        self.id@,
                        StateEntry { status: SandboxStatus::Running, payload: None, registered_at },
                    )
                },
                Err(e) => {
                    &&& old(machine)@.contains_key(self.id@)
                    &&& e@ == DomainErrorView::AlreadyExists("Sandbox already registered"@)
                    &&& final(machine)@ == old(machine)@.insert(
                        self.id@,
                        StateEntry { status: SandboxStatus::Pending, payload: None, registered_at },
                    )
                },
            },
    {
        match machine.register(self.id.clone(), registered_at) {
            Ok(_) => {},
            Err(e) => return Err(e),
        }
        match machine.transition(self.id.as_str(), SandboxStatus::Running) {
            Ok(_) => {},
            Err(e) => return Err(e),
        }
        assert(machine@ =~= old(machine)@.insert(
            self.id@,
            StateEntry { status: SandboxStatus::Running, payload: None, registered_at },
        ));
        Ok(())
    }

    /// Describes the new sandbox as running.
    pub fn finish(self, network: NetworkSpec, timeout_ms: u64, now: Timestamp) -> (r: Result<
        Sandbox,
        DomainError,
    >)
        ensures
            r matches Ok(s) && {
                &&& s.id == self.id
                &&& s.template_id == self.template
                &&& s.provider_id@ == "gvisor"@
                &&& s.status is Running
                &&& s.created_at == now
                &&& s.expires_at == Some(domain::deadline(now, timeout_ms))
                &&& s.resources == self.resources
                &&& s.network == network
                &&& s.metadata@.len() == 0
            },
    {
        let mut sandbox = Sandbox::new(
            self.id,
            self.template,
            "gvisor".to_owned(),
            self.resources,
            network,
            now,
        );
        sandbox.set_timeout(timeout_ms);
        match sandbox.mark_running() {
            Ok(_) => {},
            Err(e) => return Err(e),
        }
        Ok(sandbox)
    }
}

/// The image of a template is what stands before its tag.
pub proof fn law_image_stands_before_its_tag(
    name: Seq<char>,
    tag: Seq<char>,
    default_image: Seq<char>,
)
    requires
        name.len() > 0,
        !name.contains(':'),
    ensures
        image_of(name + seq![':'] + tag, default_image) == name,
        image_of(name, default_image) == name,
        image_of(Seq::empty(), default_image) == default_image,
{
    let tagged = name + seq![':'] + tag;
    assert forall|j: int| 0 <= j < name.len() implies name[j] != ':' by {
        assert(name.contains(name[j]));
    }
    text::lemma_first_position(tagged, ':', name.len() as int);
    text::lemma_first_position(name, ':', name.len() as int);
    assert(tagged.take(name.len() as int) =~= name);
}

/// A line of the listing says that a container runs where its first word is the id of the
/// container and its third word is `running`, whatever stands between and behind them.
pub proof fn law_running_is_the_third_word(
    id: Seq<char>,
    pid: Seq<char>,
    status: Seq<char>,
    rest: Seq<char>,
    gap: char,
    asked: Seq<char>,
)
    requires
        text::whitespace(gap),
        id.len() > 0 && pid.len() > 0 && status.len() > 0,
        forall|i: int| 0 <= i < id.len() ==> !text::whitespace(#[trigger] id[i]),
        forall|i: int| 0 <= i < pid.len() ==> !text::whitespace(#[trigger] pid[i]),
        forall|i: int| 0 <= i < status.len() ==> !text::whitespace(#[trigger] status[i]),
        rest.len() == 0 || text::whitespace(rest[0]),
    ensures
        line_shows_running(id + (seq![gap] + pid + (seq![gap] + status + rest)), asked) <==> id
            == asked && status == "running"@,
{
    let third = seq![gap] + status + rest;
    let second = seq![gap] + pid + third;
    let line = id + second;
    assert(third[0] == gap && second[0] == gap);
    text::law_words_stand_between_white_space(gap, id, second);
    text::law_words_stand_between_white_space(gap, pid, third);
    text::law_words_stand_between_white_space(gap, status, rest);
    let w = text::words_of(line);
    assert(w =~= seq![id] + (seq![pid] + (seq![status] + text::words_of(rest))));
    assert(w[0] == id && w[2] == status);
}

/// A container runs by the listing where one of its lines says so, be it the first or one
/// behind it; by an empty listing none does.
pub proof fn law_listing_is_read_line_by_line(line: Seq<char>, rest: Seq<char>, id: Seq<char>)
    requires
        !line.contains('\n'),
        line.len() == 0 || line.last() != '\r',
    ensures
        listing_shows_running(line + seq!['\n'] + rest, id) <==> line_shows_running(line, id)
            || listing_shows_running(rest, id),
        !listing_shows_running(Seq::empty(), id),
{
    text::law_lines_end_at_line_feeds(line, rest);
    text::law_lines_end_at_line_feeds(Seq::empty(), rest);
    let whole = line + seq!['\n'] + rest;
    let all = text::lines_of(whole);
    let tail = text::lines_of(rest);
    assert(all == seq![line] + tail);
    if line_shows_running(line, id) {
        assert(line_shows_running(text::lines_of(whole)[0], id));
    }
    if listing_shows_running(rest, id) {
        let i = choose|i: int|
            0 <= i < text::lines_of(rest).len() && line_shows_running(
                #[trigger] text::lines_of(rest)[i],
                id,
            );
        assert(text::lines_of(whole)[i + 1] == tail[i]);
    }
    if listing_shows_running(whole, id) {
        let i = choose|i: int|
            0 <= i < text::lines_of(whole).len() && line_shows_running(
                #[trigger] text::lines_of(whole)[i],
                id,
            );
        if i > 0 {
            assert(text::lines_of(rest)[i - 1] == all[i]);
        }
    }
}

} // verus!
