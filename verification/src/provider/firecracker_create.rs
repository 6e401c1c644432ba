//! The steps by which a microVM is made, given its worker, snapshotted and ended.
use vstd::prelude::*;

use crate::domain::{
    DomainError, DomainErrorView, NetworkSpec, ResourcesSpec, Sandbox, SandboxStatus, Timestamp,
};
use crate::interop;
use crate::json;
use crate::json::{member, object, text, Json, JsonView};
use crate::provider::firecracker;
use crate::provider::firecracker::FirecrackerProvider;
use crate::provider::routing;
use crate::provider::routing::new_worker_secret;
use crate::provider::state_machine::{DashMapSandboxStateMachine, StateEntry};
use crate::text;
use crate::text::{concat2, concat3, join_path};

verus! {

/// A step of making a microVM.
#[derive(Debug, Clone, Copy, PartialEq, Eq, Structural)]
pub enum CreateStep {
    MakeDir,
    InspectWorker,
    ValidateImage,
    CopyRootfs,
    InjectWorker,
    SetupNetwork,
    Spawn,
    WaitSocket,
    BootSource,
    RootDrive,
    MachineConfig,
    NetworkInterface,
    StartInstance,
    WaitBoot,
    Settle,
    StartWorker,
    RegisterSecret,
    Finished,
}

/// The steps in their order. The worker is put into a root file system that can be
/// written only; the secret is registered where there is a router.
pub open spec fn create_order(readonly: bool, has_router: bool) -> Seq<CreateStep> {
    seq![
        CreateStep::MakeDir,
        CreateStep::InspectWorker,
        CreateStep::ValidateImage,
        CreateStep::CopyRootfs,
    ] + (if readonly {
        seq![]
    } else {
        seq![CreateStep::InjectWorker]
    }) + seq![
        CreateStep::SetupNetwork,
        CreateStep::Spawn,
        CreateStep::WaitSocket,
        CreateStep::BootSource,
        CreateStep::RootDrive,
        CreateStep::MachineConfig,
        CreateStep::NetworkInterface,
        CreateStep::StartInstance,
        CreateStep::WaitBoot,
        CreateStep::Settle,
        CreateStep::StartWorker,
    ] + (if has_router {
        seq![CreateStep::RegisterSecret]
    } else {
        seq![]
    }) + seq![CreateStep::Finished]
}

/// The step behind a step.
pub open spec fn step_after(step: CreateStep, readonly: bool, has_router: bool) -> CreateStep {
    match step {
        CreateStep::MakeDir => CreateStep::InspectWorker,
        CreateStep::InspectWorker => CreateStep::ValidateImage,
        CreateStep::ValidateImage => CreateStep::CopyRootfs,
        CreateStep::CopyRootfs => if readonly {
            CreateStep::SetupNetwork
        } else {
            CreateStep::InjectWorker
        },
        CreateStep::InjectWorker => CreateStep::SetupNetwork,
        CreateStep::SetupNetwork => CreateStep::Spawn,
        CreateStep::Spawn => CreateStep::WaitSocket,
        CreateStep::WaitSocket => CreateStep::BootSource,
        CreateStep::BootSource => CreateStep::RootDrive,
        CreateStep::RootDrive => CreateStep::MachineConfig,
        CreateStep::MachineConfig => CreateStep::NetworkInterface,
        CreateStep::NetworkInterface => CreateStep::StartInstance,
        CreateStep::StartInstance => CreateStep::WaitBoot,
        CreateStep::WaitBoot => CreateStep::Settle,
        CreateStep::Settle => CreateStep::StartWorker,
        CreateStep::StartWorker => if has_router {
            CreateStep::RegisterSecret
        } else {
            CreateStep::Finished
        },
        CreateStep::RegisterSecret => CreateStep::Finished,
        CreateStep::Finished => CreateStep::Finished,
    }
}

/// Following the steps one after the other goes through the whole order, each step
/// once, from the directory to the end.
pub proof fn law_steps_follow_order(readonly: bool, has_router: bool, i: int)
    requires
        0 <= i < create_order(readonly, has_router).len() - 1,
    ensures
        create_order(readonly, has_router)[0] == CreateStep::MakeDir,
        create_order(readonly, has_router).last() == CreateStep::Finished,
        step_after(create_order(readonly, has_router)[i], readonly, has_router) == create_order(
            readonly,
            has_router,
        )[i + 1],
{
}

/// What is done in a step.
#[derive(Debug)]
pub enum CreateAction {
    MakeDir(String),
    /// Describe the worker with `file`. What it says is only reported.
    InspectWorker(String),
    ValidateImage(String),
    CopyRootfs(String, String),
    InjectWorker(String),
    SetupNetwork,
    /// Start the program with its socket.
    Spawn(String, String),
    WaitSocket(String, u64),
    /// Put a document to a path of the socket.
    Put(String, Json),
    WaitBoot(u64),
    Sleep(u64),
    /// Type a command into the console.
    Console(String),
    RegisterSecret(String, String),
    Done,
}

/// An action with its texts as characters.
#[verifier::ext_equal]
pub enum CreateActionView {
    MakeDir(Seq<char>),
    InspectWorker(Seq<char>),
    ValidateImage(Seq<char>),
    CopyRootfs(Seq<char>, Seq<char>),
    InjectWorker(Seq<char>),
    SetupNetwork,
    Spawn(Seq<char>, Seq<char>),
    WaitSocket(Seq<char>, u64),
    Put(Seq<char>, JsonView),
    WaitBoot(u64),
    Sleep(u64),
    Console(Seq<char>),
    RegisterSecret(Seq<char>, Seq<char>),
    Done,
}

impl CreateAction {
    pub open spec fn view(self) -> CreateActionView {
        match self {
            CreateAction::MakeDir(a) => CreateActionView::MakeDir(a@),
            CreateAction::InspectWorker(a) => CreateActionView::InspectWorker(a@),
            CreateAction::ValidateImage(a) => CreateActionView::ValidateImage(a@),
            CreateAction::CopyRootfs(a, b) => CreateActionView::CopyRootfs(a@, b@),
            CreateAction::InjectWorker(a) => CreateActionView::InjectWorker(a@),
            CreateAction::SetupNetwork => CreateActionView::SetupNetwork,
            CreateAction::Spawn(a, b) => CreateActionView::Spawn(a@, b@),
            CreateAction::WaitSocket(a, t) => CreateActionView::WaitSocket(a@, t),
            CreateAction::Put(a, j) => CreateActionView::Put(a@, j@),
            CreateAction::WaitBoot(t) => CreateActionView::WaitBoot(t),
            CreateAction::Sleep(t) => CreateActionView::Sleep(t),
            CreateAction::Console(a) => CreateActionView::Console(a@),
            CreateAction::RegisterSecret(a, b) => CreateActionView::RegisterSecret(a@, b@),
            CreateAction::Done => CreateActionView::Done,
        }
    }
}

/// What is made: the sandbox that is asked for, and what came up on the way.
#[derive(Debug)]
pub struct FirecrackerCreate {
    pub id: String,
    pub resources: ResourcesSpec,
    pub secret: String,
    /// The network device of the host that the VM uses.
    pub interface: String,
    pub has_router: bool,
    pub step: CreateStep,
}

/// A value held between two bounds.
pub open spec fn clamped(x: int, low: int, high: int) -> int {
    if x < low {
        low
    } else if x > high {
        high
    } else {
        x
    }
}

/// The document that names the kernel.
pub open spec fn boot_source_view(kernel_path: Seq<char>) -> JsonView {
    JsonView::Object(
        seq![
            ("kernel_image_path"@, JsonView::Text(kernel_path)),
            (
                "boot_args"@,
                JsonView::Text(
                    "console=ttyS0 reboot=k panic=1 ip=10.0.2.2::10.0.2.1:255.255.255.0::eth0:off"@,
                ),
            ),
        ],
    )
}

/// The document that names the root file system.
pub open spec fn root_drive_view(rootfs: Seq<char>, readonly: bool) -> JsonView {
    JsonView::Object(
        seq![
            ("drive_id"@, JsonView::Text("rootfs"@)),
            ("path_on_host"@, JsonView::Text(rootfs)),
            ("is_root_device"@, JsonView::Bool(true)),
            ("is_read_only"@, JsonView::Bool(readonly)),
        ],
    )
}

/// The document on processors and memory: as asked for, within what the provider gives.
pub open spec fn machine_view(resources: ResourcesSpec) -> JsonView {
    JsonView::Object(
        seq![
            (
                "vcpu_count"@,
                JsonView::Number(
                    clamped(
                        resources.cpu_count as int,
                        1,
                        firecracker::firecracker_capabilities().max_cpu_count as int,
                    ) as u64,
                ),
            ),
            (
                "mem_size_mib"@,
                JsonView::Number(
                    clamped(
                        resources.memory_mb as int,
                        128,
                        firecracker::firecracker_capabilities().max_memory_mb as int,
                    ) as u64,
                ),
            ),
            ("smt"@, JsonView::Bool(false)),
        ],
    )
}

/// The document on the network device.
pub open spec fn interface_view(device: Seq<char>) -> JsonView {
    JsonView::Object(
        seq![
            ("iface_id"@, JsonView::Text("eth0"@)),
            ("host_dev_name"@, JsonView::Text(device)),
            ("guest_mac"@, JsonView::Text("AA:FC:00:00:00:01"@)),
        ],
    )
}

/// The document that asks the VM to do something.
pub open spec fn action_view(kind: Seq<char>) -> JsonView {
    JsonView::Object(seq![("action_type"@, JsonView::Text(kind))])
}

/// The copy of the root file system of a sandbox.
pub open spec fn rootfs_copy(p: FirecrackerProvider, id: Seq<char>) -> Seq<char> {
    text::joined_path(p.dir_of(id), "rootfs.img"@)
}

/// The socket of a sandbox.
pub open spec fn socket_of(p: FirecrackerProvider, id: Seq<char>) -> Seq<char> {
    text::joined_path(p.dir_of(id), "firecracker.sock"@)
}

/// What is done in a step.
pub open spec fn action_in(
    step: CreateStep,
    p: FirecrackerProvider,
    c: FirecrackerCreate,
) -> CreateActionView {
    match step {
        CreateStep::MakeDir => CreateActionView::MakeDir(p.dir_of(c.id@)),
        CreateStep::InspectWorker => CreateActionView::InspectWorker(p.worker_binary@),
        CreateStep::ValidateImage => CreateActionView::ValidateImage(p.rootfs_path@),
        CreateStep::CopyRootfs => CreateActionView::CopyRootfs(
            p.rootfs_path@,
            rootfs_copy(p, c.id@),
        ),
        CreateStep::InjectWorker => CreateActionView::InjectWorker(rootfs_copy(p, c.id@)),
        CreateStep::SetupNetwork => CreateActionView::SetupNetwork,
        CreateStep::Spawn => CreateActionView::Spawn(p.firecracker_binary@, socket_of(p, c.id@)),
        CreateStep::WaitSocket => CreateActionView::WaitSocket(socket_of(p, c.id@), 5_000),
        CreateStep::BootSource => CreateActionView::Put(
            "/boot-source"@,
            boot_source_view(p.kernel_path@),
        ),
        CreateStep::RootDrive => CreateActionView::Put(
            "/drives/rootfs"@,
            root_drive_view(rootfs_copy(p, c.id@), p.rootfs_readonly),
        ),
        CreateStep::MachineConfig => CreateActionView::Put(
            "/machine-config"@,
            machine_view(c.resources),
        ),
        CreateStep::NetworkInterface => CreateActionView::Put(
            "/network-interfaces/eth0"@,
            interface_view(c.interface@),
        ),
        CreateStep::StartInstance => CreateActionView::Put(
            "/actions"@,
            action_view("InstanceStart"@),
        ),
        CreateStep::WaitBoot => CreateActionView::WaitBoot(30_000),
        CreateStep::Settle => CreateActionView::Sleep(1_000),
        CreateStep::StartWorker => CreateActionView::Console(
            firecracker::worker_command(p.gateway_addr@, c.id@, c.secret@),
        ),
        CreateStep::RegisterSecret => CreateActionView::RegisterSecret(c.id@, c.secret@),
        CreateStep::Finished => CreateActionView::Done,
    }
}

/// Why a step failed: a message of the system, or an error that has its form already.
#[derive(Debug)]
pub enum StepFailure {
    Message(String),
    Error(DomainError),
}

/// The words in front of the message of the system, by the step that failed.
pub open spec fn failure_prefix(step: CreateStep) -> Seq<char> {
    match step {
        CreateStep::MakeDir => "Cannot create sandbox directory: "@,
        CreateStep::InspectWorker => "file command failed: "@,
        CreateStep::CopyRootfs => "Failed to copy rootfs: "@,
        CreateStep::InjectWorker => "Failed to copy rootfs: "@,
        CreateStep::Spawn => "Failed to spawn Firecracker: "@,
        _ => ""@,
    }
}

/// The error of a step that failed.
pub open spec fn failure_view(step: CreateStep, failure: StepFailure) -> DomainErrorView {
    match failure {
        StepFailure::Message(m) => DomainErrorView::Internal(failure_prefix(step) + m@),
        StepFailure::Error(e) => e@,
    }
}

fn action_document(kind: &str) -> (r: Json)
    ensures
        r@ == action_view(kind@),
        r@->Object_0 == seq![("action_type"@, JsonView::Text(kind@))],
{
    let members = vec![member("action_type", text(kind))];
    assert(json::member_views(members@) =~= action_view(kind@)->Object_0);
    object(members)
}

fn boot_source(kernel_path: &str) -> (r: Json)
    ensures
        r@ == boot_source_view(kernel_path@),
        r@ is Object && r@->Object_0.len() == 2,
        r@->Object_0[0] == ("kernel_image_path"@, JsonView::Text(kernel_path@)),
        r@->Object_0[1] == (
            "boot_args"@,
            JsonView::Text(
                "console=ttyS0 reboot=k panic=1 ip=10.0.2.2::10.0.2.1:255.255.255.0::eth0:off"@,
            ),
        ),
{
    let members = vec![
        member("kernel_image_path", text(kernel_path)),
        member(
            "boot_args",
            text("console=ttyS0 reboot=k panic=1 ip=10.0.2.2::10.0.2.1:255.255.255.0::eth0:off"),
        ),
    ];
    assert(json::member_views(members@) =~= boot_source_view(kernel_path@)->Object_0);
    object(members)
}

fn root_drive(rootfs: &str, readonly: bool) -> (r: Json)
    ensures
        r@ == root_drive_view(rootfs@, readonly),
        r@ is Object && r@->Object_0.len() == 4,
        r@->Object_0[0] == ("drive_id"@, JsonView::Text("rootfs"@)),
        r@->Object_0[1] == ("path_on_host"@, JsonView::Text(rootfs@)),
        r@->Object_0[2] == ("is_root_device"@, JsonView::Bool(true)),
        r@->Object_0[3] == ("is_read_only"@, JsonView::Bool(readonly)),
{
    let members = vec![
        member("drive_id", text("rootfs")),
        member("path_on_host", text(rootfs)),
        member("is_root_device", Json::Bool(true)),
        member("is_read_only", Json::Bool(readonly)),
    ];
    assert(json::member_views(members@) =~= root_drive_view(rootfs@, readonly)->Object_0);
    object(members)
}

/// A value held between two bounds.
pub fn clamp(x: u64, low: u64, high: u64) -> (r: u64)
    requires
        low <= high,
    ensures
        r == clamped(x as int, low as int, high as int),
        low <= r <= high,
        low <= x <= high ==> r == x,
        x < low ==> r == low,
        x > high ==> r == high,
{
    if x < low {
        low
    } else if x > high {
        high
    } else {
        x
    }
}

fn machine_config(resources: &ResourcesSpec) -> (r: Json)
    ensures
        r@ == machine_view(*resources),
        ({
            let members = r@->Object_0;
            &&& r@ is Object && members.len() == 3
            &&& members[0].0 == "vcpu_count"@ && members[0].1 is Number
            &&& 1 <= members[0].1->Number_0 <= 4
            &&& 1 <= resources.cpu_count <= 4 ==> members[0].1->Number_0 == resources.cpu_count
            &&& resources.cpu_count < 1 ==> members[0].1->Number_0 == 1
            &&& resources.cpu_count > 4 ==> members[0].1->Number_0 == 4
            &&& members[1].0 == "mem_size_mib"@ && members[1].1 is Number
            &&& 128 <= members[1].1->Number_0 <= 512
            &&& 128 <= resources.memory_mb <= 512 ==> members[1].1->Number_0 == resources.memory_mb
            &&& resources.memory_mb < 128 ==> members[1].1->Number_0 == 128
            &&& resources.memory_mb > 512 ==> members[1].1->Number_0 == 512
            &&& members[2] == ("smt"@, JsonView::Bool(false))
        }),
{
    let caps = FirecrackerProvider::capabilities();
    let vcpus = clamp(resources.cpu_count as u64, 1, caps.max_cpu_count as u64);
    let memory = clamp(resources.memory_mb, 128, caps.max_memory_mb);
    let members = vec![
        member("vcpu_count", Json::Number(vcpus)),
        member("mem_size_mib", Json::Number(memory)),
        member("smt", Json::Bool(false)),
    ];
    assert(json::member_views(members@) =~= machine_view(*resources)->Object_0);
    object(members)
}

fn network_interface(device: &str) -> (r: Json)
    ensures
        r@ == interface_view(device@),
        r@ is Object && r@->Object_0.len() == 3,
        r@->Object_0[0] == ("iface_id"@, JsonView::Text("eth0"@)),
        r@->Object_0[1] == ("host_dev_name"@, JsonView::Text(device@)),
        r@->Object_0[2] == ("guest_mac"@, JsonView::Text("AA:FC:00:00:00:01"@)),
{
    let members = vec![
        member("iface_id", text("eth0")),
        member("host_dev_name", text(device)),
        member("guest_mac", text("AA:FC:00:00:00:01")),
    ];
    assert(json::member_views(members@) =~= interface_view(device@)->Object_0);
    object(members)
}

impl FirecrackerCreate {
    /// Starts to make a microVM whose worker gets the given secret.
    pub fn start(id: &str, resources: ResourcesSpec, secret: String, has_router: bool) -> (r:
        FirecrackerCreate)
        ensures
            r.id@ == id@,
            r.resources == resources,
            r.secret == secret,
            r.interface@ == ""@,
            r.has_router == has_router,
            r.step == CreateStep::MakeDir,
    {
        FirecrackerCreate {
            id: id.to_owned(),
            resources,
            secret,
            interface: "".to_owned(),
            has_router,
            step: CreateStep::MakeDir,
        }
    }

    /// What is done in the step at which the making stands.
    pub fn action(&self, p: &FirecrackerProvider) -> (r: CreateAction)
        ensures
            r@ == action_in(self.step, *p, *self),
            ({
                let dir = text::joined_path(p.vm_dir@, self.id@);
                let rootfs = text::joined_path(dir, "rootfs.img"@);
                let socket = text::joined_path(dir, "firecracker.sock"@);
                &&& self.step is MakeDir ==> (r matches CreateAction::MakeDir(d) && d@ == dir)
                &&& self.step is InspectWorker ==> r == CreateAction::InspectWorker(p.worker_binary)
                &&& self.step is ValidateImage ==> r == CreateAction::ValidateImage(p.rootfs_path)
                &&& self.step is CopyRootfs ==> (r matches CreateAction::CopyRootfs(a, b) && a
                    == p.rootfs_path && b@ == rootfs)
                &&& self.step is InjectWorker ==> (r matches CreateAction::InjectWorker(a) && a@
                    == rootfs)
                &&& self.step is SetupNetwork ==> r is SetupNetwork
                &&& self.step is Spawn ==> (r matches CreateAction::Spawn(a, b) && a
                    == p.firecracker_binary && b@ == socket)
                &&& self.step is WaitSocket ==> (r matches CreateAction::WaitSocket(a, t) && a@
                    == socket && t == 5_000)
                &&& self.step is BootSource ==> (r matches CreateAction::Put(a, j) && a@
                    == "/boot-source"@)
                &&& self.step is RootDrive ==> (r matches CreateAction::Put(a, j) && a@
                    == "/drives/rootfs"@)
                &&& self.step is MachineConfig ==> (r matches CreateAction::Put(a, j) && a@
                    == "/machine-config"@)
                &&& self.step is NetworkInterface ==> (r matches CreateAction::Put(a, j) && a@
                    == "/network-interfaces/eth0"@)
                &&& self.step is StartInstance ==> (r matches CreateAction::Put(a, j) && a@
                    == "/actions"@ && j@->Object_0 == seq![
                    ("action_type"@, JsonView::Text("InstanceStart"@)),
                ])
                &&& self.step is BootSource ==> (r matches CreateAction::Put(a, j)
                    && j@->Object_0[0] == ("kernel_image_path"@, JsonView::Text(p.kernel_path@)))
                &&& self.step is RootDrive ==> (r matches CreateAction::Put(a, j)
                    && j@->Object_0[1] == ("path_on_host"@, JsonView::Text(rootfs))
                    && j@->Object_0[3] == ("is_read_only"@, JsonView::Bool(p.rootfs_readonly)))
                &&& self.step is MachineConfig && 1 <= self.resources.cpu_count <= 4 ==> (
                r matches CreateAction::Put(a, j) && j@->Object_0[0] == (
                    "vcpu_count"@,
                    JsonView::Number(self.resources.cpu_count as u64),
                ))
                &&& self.step is MachineConfig && 128 <= self.resources.memory_mb <= 512 ==> (
                r matches CreateAction::Put(a, j) && j@->Object_0[1] == (
                    "mem_size_mib"@,
                    JsonView::Number(self.resources.memory_mb as u64),
                ))
                &&& self.step is NetworkInterface ==> (r matches CreateAction::Put(a, j)
                    && j@->Object_0[1] == ("host_dev_name"@, JsonView::Text(self.interface@)))
                &&& self.step is WaitBoot ==> r == CreateAction::WaitBoot(30_000)
                &&& self.step is Settle ==> r == CreateAction::Sleep(1_000)
                &&& self.step is StartWorker ==> (r matches CreateAction::Console(c) && c@
                    == "nohup /usr/local/bin/bastion-worker --gateway-addr http://"@
                    + p.gateway_addr@ + " --sandbox-id "@ + self.id@ + " --secret "@ + self.secret@
                    + " --workdir /workspace > /tmp/worker.log 2>&1 &"@)
                &&& self.step is RegisterSecret ==> r == CreateAction::RegisterSecret(
                    self.id,
                    self.secret,
                )
                &&& self.step is Finished ==> r is Done
            }),
    {
        let id = self.id.as_str();
        match self.step {
            CreateStep::MakeDir => CreateAction::MakeDir(p.sandbox_dir(id)),
            CreateStep::InspectWorker => CreateAction::InspectWorker(p.worker_binary.clone()),
            CreateStep::ValidateImage => CreateAction::ValidateImage(p.rootfs_path.clone()),
            CreateStep::CopyRootfs => CreateAction::CopyRootfs(
                p.rootfs_path.clone(),
                join_path(p.sandbox_dir(id).as_str(), "rootfs.img"),
            ),
            CreateStep::InjectWorker => CreateAction::InjectWorker(
                join_path(p.sandbox_dir(id).as_str(), "rootfs.img"),
            ),
            CreateStep::SetupNetwork => CreateAction::SetupNetwork,
            CreateStep::Spawn => CreateAction::Spawn(
                p.firecracker_binary.clone(),
                p.socket_path(id),
            ),
            CreateStep::WaitSocket => CreateAction::WaitSocket(p.socket_path(id), 5_000),
            CreateStep::BootSource => CreateAction::Put(
                "/boot-source".to_owned(),
                boot_source(p.kernel_path.as_str()),
            ),
            CreateStep::RootDrive => CreateAction::Put(
                "/drives/rootfs".to_owned(),
                root_drive(
                    join_path(p.sandbox_dir(id).as_str(), "rootfs.img").as_str(),
                    p.rootfs_readonly,
                ),
            ),
            CreateStep::MachineConfig => CreateAction::Put(
                "/machine-config".to_owned(),
                machine_config(&self.resources),
            ),
            CreateStep::NetworkInterface => CreateAction::Put(
                "/network-interfaces/eth0".to_owned(),
                network_interface(self.interface.as_str()),
            ),
            CreateStep::StartInstance => CreateAction::Put(
                "/actions".to_owned(),
                action_document("InstanceStart"),
            ),
            CreateStep::WaitBoot => CreateAction::WaitBoot(30_000),
            CreateStep::Settle => CreateAction::Sleep(1_000),
            CreateStep::StartWorker => CreateAction::Console(
                p.start_command(id, self.secret.as_str()),
            ),
            CreateStep::RegisterSecret => CreateAction::RegisterSecret(
                self.id.clone(),
                self.secret.clone(),
            ),
            CreateStep::Finished => CreateAction::Done,
        }
    }

    /// Goes on to the next step after the one at hand is done.
    pub fn done(&mut self, readonly: bool)
        ensures
            *final(self) == (FirecrackerCreate {
                step: step_after(old(self).step, readonly, old(self).has_router),
                ..*old(self)
            }),
            ({
                let before = old(self).step;
                let after = final(self).step;
                &&& before is MakeDir ==> after is InspectWorker
                &&& before is InspectWorker ==> after is ValidateImage
                &&& before is ValidateImage ==> after is CopyRootfs
                &&& before is CopyRootfs && readonly ==> after is SetupNetwork
                &&& before is CopyRootfs && !readonly ==> after is InjectWorker
                &&& before is InjectWorker ==> after is SetupNetwork
                &&& before is SetupNetwork ==> after is Spawn
                &&& before is Spawn ==> after is WaitSocket
                &&& before is WaitSocket ==> after is BootSource
                &&& before is BootSource ==> after is RootDrive
                &&& before is RootDrive ==> after is MachineConfig
                &&& before is MachineConfig ==> after is NetworkInterface
                &&& before is NetworkInterface ==> after is StartInstance
                &&& before is StartInstance ==> after is WaitBoot
                &&& before is WaitBoot ==> after is Settle
                &&& before is Settle ==> after is StartWorker
                &&& before is StartWorker && old(self).has_router ==> after is RegisterSecret
                &&& before is StartWorker && !old(self).has_router ==> after is Finished
                &&& before is RegisterSecret || before is Finished ==> after is Finished
            }),
    {
        self.step = match self.step {
            CreateStep::MakeDir => CreateStep::InspectWorker,
            CreateStep::InspectWorker => CreateStep::ValidateImage,
            CreateStep::ValidateImage => CreateStep::CopyRootfs,
            CreateStep::CopyRootfs => if readonly {
                CreateStep::SetupNetwork
            } else {
                CreateStep::InjectWorker
            },
            CreateStep::InjectWorker => CreateStep::SetupNetwork,
            CreateStep::SetupNetwork => CreateStep::Spawn,
            CreateStep::Spawn => CreateStep::WaitSocket,
            CreateStep::WaitSocket => CreateStep::BootSource,
            CreateStep::BootSource => CreateStep::RootDrive,
            CreateStep::RootDrive => CreateStep::MachineConfig,
            CreateStep::MachineConfig => CreateStep::NetworkInterface,
            CreateStep::NetworkInterface => CreateStep::StartInstance,
            CreateStep::StartInstance => CreateStep::WaitBoot,
            CreateStep::WaitBoot => CreateStep::Settle,
            CreateStep::Settle => CreateStep::StartWorker,
            CreateStep::StartWorker => if self.has_router {
                CreateStep::RegisterSecret
            } else {
                CreateStep::Finished
            },
            CreateStep::RegisterSecret => CreateStep::Finished,
            CreateStep::Finished => CreateStep::Finished,
        };
    }

    /// The error of the step at which the making stands.
    pub fn failed(&self, failure: StepFailure) -> (r: DomainError)
        ensures
            r@ == failure_view(self.step, failure),
            failure matches StepFailure::Error(e) ==> r == e,
            failure matches StepFailure::Message(m) ==> {
                &&& self.step is MakeDir ==> r@ == DomainErrorView::Internal(
                    "Cannot create sandbox directory: "@ + m@,
                )
                &&& self.step is InspectWorker ==> r@ == DomainErrorView::Internal(
                    "file command failed: "@ + m@,
                )
                &&& self.step is CopyRootfs || self.step is InjectWorker ==> r@
                    == DomainErrorView::Internal("Failed to copy rootfs: "@ + m@)
                &&& self.step is Spawn ==> r@ == DomainErrorView::Internal(
                    "Failed to spawn Firecracker: "@ + m@,
                )
            },
    {
        match failure {
            StepFailure::Error(e) => e,
            StepFailure::Message(m) => {
                let prefix: &str = match self.step {
                    CreateStep::MakeDir => "Cannot create sandbox directory: ",
                    CreateStep::InspectWorker => "file command failed: ",
                    CreateStep::CopyRootfs => "Failed to copy rootfs: ",
                    CreateStep::InjectWorker => "Failed to copy rootfs: ",
                    CreateStep::Spawn => "Failed to spawn Firecracker: ",
                    _ => "",
                };
                DomainError::Internal(concat2(prefix, m.as_str()))
            },
        }
    }

    /// Describes the new sandbox as running and tracks it as such. A sandbox that was
    /// tracked already is refused, and is tracked as pending from then on.
    pub fn finish<P>(
        self,
        machine: &mut DashMapSandboxStateMachine<P>,
        network: NetworkSpec,
        timeout_ms: u64,
        now: Timestamp,
        registered_at: u64,
    ) -> (r: Result<Sandbox, DomainError>)
        requires
            old(machine).wf(),
        ensures
            final(machine).wf(),
            match r {
                Ok(s) => {
                    &&& !old(machine)@.contains_key(self.id@)
                    &&& final(machine)@ == old(machine)@.insert(
                        self.id@,
                        StateEntry { status: SandboxStatus::Running, payload: None, registered_at },
                    )
                    &&& s.id@ == self.id@
                    &&& s.template_id@ == "firecracker"@
                    &&& s.provider_id@ == "firecracker"@
                    &&& s.status is Running
                    &&& s.created_at == now
                    &&& s.expires_at == Some(crate::domain::deadline(now, timeout_ms))
                    &&& s.resources == self.resources
                    &&& s.network == network
                    &&& s.metadata@.len() == 0
                },
                Err(e) => {
                    &&& old(machine)@.contains_key(self.id@)
                    &&& e@ == DomainErrorView::AlreadyExists("Sandbox already registered"@)
                    &&& final(machine)@ == old(machine)@.insert(
                        self.id@,
                        StateEntry { status: SandboxStatus::Pending, payload: None, registered_at },
                    )
                },
            },
    {
        let mut sandbox = Sandbox::new(
            self.id.clone(),
            "firecracker".to_owned(),
            "firecracker".to_owned(),
            self.resources,
            network,
            now,
        );
        sandbox.set_timeout(timeout_ms);
        match sandbox.mark_running() {
            Ok(_) => {},
            Err(e) => return Err(e),
        }
        match machine.register(self.id.clone(), registered_at) {
            Ok(_) => {},
            Err(e) => return Err(e),
        }
        match machine.transition(self.id.as_str(), SandboxStatus::Running) {
            Ok(_) => {},
            Err(e) => return Err(e),
        }
        assert(machine@ =~= old(machine)@.insert(
            self.id@,
            StateEntry { status: SandboxStatus::Running, payload: None, registered_at },
        ));
        Ok(sandbox)
    }
}

/// A step of putting the worker into a root file system.
#[derive(Debug, Clone, Copy, PartialEq, Eq, Structural)]
pub enum InjectStep {
    /// Copy the root file system for the sandbox.
    Copy,
    /// Make the directory to mount it at.
    MakeMountPoint,
    /// Mount the copy.
    Mount,
    /// Copy the worker into it.
    CopyWorker,
    /// Make the workspace in it.
    MakeWorkspace,
    Unmount,
    RemoveMountPoint,
    /// The root file system is ready, with the worker or without it.
    Done,
    /// The copy failed, and with it the whole.
    Failed,
}

/// The step behind a step, given whether that one succeeded. Only the copy of the root
/// file system has to succeed: without a mount the worker is expected to be there.
pub open spec fn inject_after(step: InjectStep, succeeded: bool, readonly: bool) -> InjectStep {
    match step {
        InjectStep::Copy => if !succeeded {
            InjectStep::Failed
        } else if readonly {
            InjectStep::Done
        } else {
            InjectStep::MakeMountPoint
        },
        InjectStep::MakeMountPoint => if succeeded {
            InjectStep::Mount
        } else {
            InjectStep::Done
        },
        InjectStep::Mount => if succeeded {
            InjectStep::CopyWorker
        } else {
            InjectStep::RemoveMountPoint
        },
        InjectStep::CopyWorker => InjectStep::MakeWorkspace,
        InjectStep::MakeWorkspace => InjectStep::Unmount,
        InjectStep::Unmount => InjectStep::RemoveMountPoint,
        InjectStep::RemoveMountPoint => InjectStep::Done,
        InjectStep::Done => InjectStep::Done,
        InjectStep::Failed => InjectStep::Failed,
    }
}

/// The step behind a step of putting the worker into a root file system.
pub fn prepare_rootfs(step: InjectStep, succeeded: bool, readonly: bool) -> (r: InjectStep)
    ensures
        r == inject_after(step, succeeded, readonly),
        step is Copy ==> (r is Failed <==> !succeeded),
        step is Copy && succeeded ==> (r is Done <==> readonly) && (r is MakeMountPoint
            <==> !readonly),
        step is MakeMountPoint ==> if succeeded {
            r is Mount
        } else {
            r is Done
        },
        step is Mount ==> if succeeded {
            r is CopyWorker
        } else {
            r is RemoveMountPoint
        },
        step is CopyWorker ==> r is MakeWorkspace,
        step is MakeWorkspace ==> r is Unmount,
        step is Unmount ==> r is RemoveMountPoint,
        step is RemoveMountPoint || step is Done ==> r is Done,
        step is Failed ==> r is Failed,
{
    match step {
        InjectStep::Copy => if !succeeded {
            InjectStep::Failed
        } else if readonly {
            InjectStep::Done
        } else {
            InjectStep::MakeMountPoint
        },
        InjectStep::MakeMountPoint => if succeeded {
            InjectStep::Mount
        } else {
            InjectStep::Done
        },
        InjectStep::Mount => if succeeded {
            InjectStep::CopyWorker
        } else {
            InjectStep::RemoveMountPoint
        },
        InjectStep::CopyWorker => InjectStep::MakeWorkspace,
        InjectStep::MakeWorkspace => InjectStep::Unmount,
        InjectStep::Unmount => InjectStep::RemoveMountPoint,
        InjectStep::RemoveMountPoint => InjectStep::Done,
        InjectStep::Done => InjectStep::Done,
        InjectStep::Failed => InjectStep::Failed,
    }
}

/// What is mounted is unmounted, and then its directory removed, whatever fails on the
/// way: the steps behind a mount lead there and nowhere else.
pub proof fn law_mount_is_undone(a: bool, b: bool, c: bool, d: bool, e: bool)
    ensures
        ({
            let worker = inject_after(InjectStep::Mount, true, false);
            let workspace = inject_after(worker, a, false);
            let unmount = inject_after(workspace, b, false);
            let remove = inject_after(unmount, c, false);
            &&& unmount == InjectStep::Unmount
            &&& remove == InjectStep::RemoveMountPoint
            &&& inject_after(remove, d, false) == InjectStep::Done
            &&& inject_after(inject_after(InjectStep::Mount, false, false), e, false)
                == InjectStep::Done
        }),
{
}

/// A root file system that cannot be written is copied and left as it is.
pub proof fn law_readonly_is_left_alone()
    ensures
        inject_after(InjectStep::Copy, true, true) == InjectStep::Done,
{
}

impl FirecrackerProvider {
    /// Starts to make a microVM whose worker gets a secret of its own.
    pub fn create(id: &str, resources: ResourcesSpec, has_router: bool) -> (r: FirecrackerCreate)
        ensures
            r.id@ == id@,
            r.resources == resources,
            exists|uuid: Seq<char>| interop::uuid_form(uuid) && r.secret@ == #[trigger] routing::secret_of(uuid),
            r.interface@ == ""@,
            r.has_router == has_router,
            r.step == CreateStep::MakeDir,
    {
        FirecrackerCreate::start(id, resources, new_worker_secret(), has_router)
    }

    /// Where the copy of the root file system of a sandbox is mounted.
    pub fn mount_point(&self, id: &str) -> (r: String)
        ensures
            r@ == text::joined_path(self.dir_of(id@), "mnt"@),
    {
        join_path(self.sandbox_dir(id).as_str(), "mnt")
    }

    /// The directory of a snapshot.
    pub open spec fn snapshot_dir_of(self, id: Seq<char>, name: Seq<char>) -> Seq<char> {
        text::joined_path(text::joined_path(self.dir_of(id), "snapshots"@), name)
    }

    /// The directory of a snapshot.
    pub fn snapshot_dir(&self, id: &str, name: &str) -> (r: String)
        ensures
            r@ == self.snapshot_dir_of(id@, name@),
            r@ == text::joined_path(
                text::joined_path(text::joined_path(self.vm_dir@, id@), "snapshots"@),
                name@,
            ),
    {
        let snapshots = join_path(self.sandbox_dir(id).as_str(), "snapshots");
        join_path(snapshots.as_str(), name)
    }

    /// The requests that take a snapshot: pause, write, resume.
    pub fn create_snapshot(&self, id: &str, name: &str) -> (r: Vec<SnapshotRequest>)
        ensures
            r@.len() == 3,
            r@[0].path@ == "/actions"@,
            r@[0].body@ == action_view("Pause"@),
            r@[1].path@ == "/snapshot/create"@,
            r@[1].body@ == snapshot_view(self.snapshot_dir_of(id@, name@)),
            r@[2].path@ == "/actions"@,
            r@[2].body@ == action_view("Resume"@),
            r@[0].body@->Object_0 == seq![("action_type"@, JsonView::Text("Pause"@))],
            r@[2].body@->Object_0 == seq![("action_type"@, JsonView::Text("Resume"@))],
            ({
                let dir = self.snapshot_dir_of(id@, name@);
                let members = r@[1].body@->Object_0;
                &&& members.len() == 3
                &&& members[0] == ("snapshot_type"@, JsonView::Text("Full"@))
                &&& members[1] == (
                    "state_file_path"@,
                    JsonView::Text(text::joined_path(dir, "snapshot.state"@)),
                )
                &&& members[2] == (
                    "mem_file_path"@,
                    JsonView::Text(text::joined_path(dir, "snapshot.memory"@)),
                )
            }),
    {
        let dir = self.snapshot_dir(id, name);
        let state = join_path(dir.as_str(), "snapshot.state");
        let memory = join_path(dir.as_str(), "snapshot.memory");
        let members = vec![
            member("snapshot_type", text("Full")),
            member("state_file_path", text(state.as_str())),
            member("mem_file_path", text(memory.as_str())),
        ];
        assert(json::member_views(members@) =~= snapshot_view(self.snapshot_dir_of(id@, name@))->Object_0);
        vec![
            SnapshotRequest { path: "/actions".to_owned(), body: action_document("Pause") },
            SnapshotRequest { path: "/snapshot/create".to_owned(), body: object(members) },
            SnapshotRequest { path: "/actions".to_owned(), body: action_document("Resume") },
        ]
    }

    /// What is told of a snapshot that was taken.
    pub fn snapshot_info(
        id: &str,
        name: &str,
        state_bytes: u64,
        memory_bytes: u64,
        now: Timestamp,
    ) -> (r: SnapshotInfo)
        requires
            state_bytes + memory_bytes <= u64::MAX,
        ensures
            r.snapshot_id@ == id@ + "-"@ + name@,
            r.sandbox_id@ == id@,
            r.name@ == name@,
            r.created_at == now,
            r.size_bytes == state_bytes + memory_bytes,
    {
        SnapshotInfo {
            snapshot_id: concat3(id, "-", name),
            sandbox_id: id.to_owned(),
            name: name.to_owned(),
            created_at: now,
            size_bytes: state_bytes + memory_bytes,
        }
    }

    /// The steps that end a VM. It is asked to shut down where its socket is there;
    /// what follows is done in any case.
    pub fn terminate(socket_exists: bool) -> (r: Vec<EndStep>)
        ensures
            r@ == end_order(socket_exists),
            socket_exists ==> r@ == seq![
                EndStep::AskToShutDown,
                EndStep::Sleep(200),
                EndStep::Kill,
                EndStep::Forget,
                EndStep::TearDownNetwork,
                EndStep::RemoveDir,
            ],
            !socket_exists ==> r@ == seq![
                EndStep::Kill,
                EndStep::Forget,
                EndStep::TearDownNetwork,
                EndStep::RemoveDir,
            ],
    {
        let mut steps: Vec<EndStep> = Vec::new();
        if socket_exists {
            steps.push(EndStep::AskToShutDown);
            steps.push(EndStep::Sleep(200));
        }
        steps.push(EndStep::Kill);
        steps.push(EndStep::Forget);
        steps.push(EndStep::TearDownNetwork);
        steps.push(EndStep::RemoveDir);
        assert(steps@ =~= end_order(socket_exists));
        steps
    }

    /// The document that asks a VM to shut down.
    pub fn shutdown_request() -> (r: Json)
        ensures
            r@ == action_view("SendCtrlAltDel"@),
            r@->Object_0 == seq![("action_type"@, JsonView::Text("SendCtrlAltDel"@))],
    {
        action_document("SendCtrlAltDel")
    }
}

/// A document and the path that it is put to.
#[derive(Debug)]
pub struct SnapshotRequest {
    pub path: String,
    pub body: Json,
}

/// The document that asks for a snapshot.
pub open spec fn snapshot_view(dir: Seq<char>) -> JsonView {
    JsonView::Object(
        seq![
            ("snapshot_type"@, JsonView::Text("Full"@)),
            ("state_file_path"@, JsonView::Text(text::joined_path(dir, "snapshot.state"@))),
            ("mem_file_path"@, JsonView::Text(text::joined_path(dir, "snapshot.memory"@))),
        ],
    )
}

/// What is told of a snapshot.
#[derive(Debug)]
pub struct SnapshotInfo {
    pub snapshot_id: String,
    pub sandbox_id: String,
    pub name: String,
    pub created_at: Timestamp,
    pub size_bytes: u64,
}

/// A step of ending a VM.
#[derive(Debug, Clone, Copy, PartialEq, Eq, Structural)]
pub enum EndStep {
    AskToShutDown,
    Sleep(u64),
    Kill,
    /// Stop tracking the sandbox.
    Forget,
    TearDownNetwork,
    RemoveDir,
}

/// The steps of ending a VM in their order.
pub open spec fn end_order(socket_exists: bool) -> Seq<EndStep> {
    (if socket_exists {
        seq![EndStep::AskToShutDown, EndStep::Sleep(200)]
    } else {
        seq![]
    }) + seq![EndStep::Kill, EndStep::Forget, EndStep::TearDownNetwork, EndStep::RemoveDir]
}

} // verus!
