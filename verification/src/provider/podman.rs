//! Sandboxes in containers of a Podman daemon, whose worker is put into the container
//! and reached over a mapped port.
use vstd::prelude::*;

use crate::domain::{
    CommandResult, CommandSpec, DomainError, DomainErrorView, FileEntry, Pair,
    ProviderCapabilities,
};
use crate::interop;
use crate::interop::write_tar;
use crate::provider::docker;
use crate::provider::docker::{choose_image, env_strings};
use crate::text;
use crate::text::{clone_strings, concat2, decimal_string, parse_unsigned};

verus! {

/// The settings of the provider.
#[derive(Debug)]
pub struct PodmanProvider {
    pub default_image: String,
    pub worker_binary: String,
}

/// How long a worker may take for a command, in milliseconds.
pub const WORKER_TIMEOUT_MS: u64 = 30_000;

/// A worker is asked to run a command.
#[derive(Debug)]
pub struct RunCommandRequest {
    pub command: String,
    pub args: Vec<String>,
    pub timeout_ms: u64,
}

/// A worker is asked to list a directory.
#[derive(Debug)]
pub struct ListFilesRequest {
    pub directory: String,
    pub recursive: bool,
}

/// A container with a port of the worker.
#[derive(Debug)]
pub struct PortedContainer {
    pub name: String,
    pub image: String,
    pub cmd: Vec<String>,
    pub env: Vec<String>,
    pub container_port: String,
    pub host_ip: String,
    /// The port of the host; zero lets the daemon choose.
    pub host_port: String,
}

/// A step of making a container with a worker.
#[derive(Debug, Clone, Copy, PartialEq, Eq, Structural)]
pub enum PodmanStep {
    CreateContainer,
    StartContainer,
    FindPort,
    /// Read the worker from the disk.
    ReadWorker,
    UploadWorker,
    StartWorker,
    /// Give the worker two seconds.
    Settle,
    Connect,
    Finished,
}

/// The step behind a step.
pub open spec fn podman_after(step: PodmanStep) -> PodmanStep {
    match step {
        PodmanStep::CreateContainer => PodmanStep::StartContainer,
        PodmanStep::StartContainer => PodmanStep::FindPort,
        PodmanStep::FindPort => PodmanStep::ReadWorker,
        PodmanStep::ReadWorker => PodmanStep::UploadWorker,
        PodmanStep::UploadWorker => PodmanStep::StartWorker,
        PodmanStep::StartWorker => PodmanStep::Settle,
        PodmanStep::Settle => PodmanStep::Connect,
        PodmanStep::Connect => PodmanStep::Finished,
        PodmanStep::Finished => PodmanStep::Finished,
    }
}

/// The words in front of the message of a step that failed.
pub open spec fn podman_failure_prefix(step: PodmanStep, grpc_addr: Seq<char>) -> Seq<char> {
    match step {
        PodmanStep::CreateContainer => "Failed to create container: "@,
        PodmanStep::StartContainer => "Failed to start container: "@,
        PodmanStep::FindPort => "Failed to inspect container: "@,
        PodmanStep::ReadWorker => "Cannot read worker binary: "@,
        PodmanStep::UploadWorker => "Failed to copy files to container: "@,
        PodmanStep::StartWorker => "Failed to start worker: "@,
        PodmanStep::Settle => ""@,
        PodmanStep::Connect => "Cannot connect to worker at "@ + grpc_addr + ": "@,
        PodmanStep::Finished => ""@,
    }
}

/// A piece of what a command puts out, as the worker sends it.
#[derive(Debug)]
pub struct WorkerChunk {
    pub kind: i32,
    pub data: Vec<u8>,
}

/// A piece of what a command puts out.
#[derive(Debug)]
pub enum CommandChunk {
    Stdout(Vec<u8>),
    Stderr(Vec<u8>),
    ExitCode(i32),
    Error(String),
}

/// A signed number from four bytes, the least significant one first.
pub open spec fn le_i32(b: Seq<u8>) -> int {
    let v = b[0] + 256 * b[1] + 65536 * b[2] + 16777216 * b[3];
    if v < 0x8000_0000 {
        v
    } else {
        v - 0x1_0000_0000
    }
}

/// `i32::from_le_bytes` on the first four bytes.
pub fn read_le_i32(b: &Vec<u8>) -> (r: i32)
    requires
        b@.len() >= 4,
    ensures
        r == le_i32(b@),
        r >= 0 ==> r == b@[0] + 256 * b@[1] + 65536 * b@[2] + 16777216 * b@[3],
        r < 0 ==> r + 4_294_967_296 == b@[0] + 256 * b@[1] + 65536 * b@[2] + 16777216 * b@[3],
{
    let v: i64 = b[0] as i64 + 256 * b[1] as i64 + 65536 * b[2] as i64 + 16777216 * b[3] as i64;
    if v < 0x8000_0000 {
        v as i32
    } else {
        (v - 0x1_0000_0000) as i32
    }
}

/// All bytes of one kind, in their order.
pub open spec fn bytes_of_kind(chunks: Seq<WorkerChunk>, kind: i32) -> Seq<u8>
    decreases chunks.len(),
{
    if chunks.len() == 0 {
        seq![]
    } else {
        bytes_of_kind(chunks.drop_last(), kind) + (if chunks.last().kind == kind {
            chunks.last().data@
        } else {
            seq![]
        })
    }
}

/// The exit code: that of the last chunk that gives one in full, or minus one.
pub open spec fn exit_code_of(chunks: Seq<WorkerChunk>) -> int
    decreases chunks.len(),
{
    if chunks.len() == 0 {
        -1
    } else if chunks.last().kind == 2 && chunks.last().data@.len() >= 4 {
        le_i32(chunks.last().data@)
    } else {
        exit_code_of(chunks.drop_last())
    }
}

/// A piece of the log of a command in a container.
#[derive(Debug)]
pub enum LogPiece {
    Stdout(Vec<u8>),
    Stderr(Vec<u8>),
    Console(Vec<u8>),
    Other,
}

/// What the pieces put on the standard output, the console among it.
pub open spec fn log_stdout(v: Seq<LogPiece>) -> Seq<u8>
    decreases v.len(),
{
    if v.len() == 0 {
        seq![]
    } else {
        log_stdout(v.drop_last()) + (match v.last() {
            LogPiece::Stdout(d) => d@,
            LogPiece::Console(d) => d@,
            _ => seq![],
        })
    }
}

/// What the pieces put on the standard error output.
pub open spec fn log_stderr(v: Seq<LogPiece>) -> Seq<u8>
    decreases v.len(),
{
    if v.len() == 0 {
        seq![]
    } else {
        log_stderr(v.drop_last()) + (match v.last() {
            LogPiece::Stderr(d) => d@,
            _ => seq![],
        })
    }
}

/// What the provider can do.
pub open spec fn podman_capabilities() -> ProviderCapabilities {
    ProviderCapabilities {
        supports_snapshots: false,
        supports_streaming: true,
        supports_pause_resume: false,
        max_timeout_ms: 86_400_000,
        max_memory_mb: 16_384,
        max_cpu_count: 16,
        supports_networking: true,
        requires_kvm: false,
        avg_startup_ms: 1500,
    }
}

/// The port that the daemon mapped, or that of the worker where it names none.
pub open spec fn mapped_port(host_port: Option<Seq<char>>) -> nat {
    match host_port {
        None => 50051,
        Some(s) => match text::unsigned_value(s, u16::MAX as nat) {
            Some(n) => n,
            None => 50051,
        },
    }
}

impl PodmanStep {
    /// The next step.
    pub fn next(self) -> (r: PodmanStep)
        ensures
            r == podman_after(self),
            self is CreateContainer ==> r is StartContainer,
            self is StartContainer ==> r is FindPort,
            self is FindPort ==> r is ReadWorker,
            self is ReadWorker ==> r is UploadWorker,
            self is UploadWorker ==> r is StartWorker,
            self is StartWorker ==> r is Settle,
            self is Settle ==> r is Connect,
            self is Connect || self is Finished ==> r is Finished,
    {
        match self {
            PodmanStep::CreateContainer => PodmanStep::StartContainer,
            PodmanStep::StartContainer => PodmanStep::FindPort,
            PodmanStep::FindPort => PodmanStep::ReadWorker,
            PodmanStep::ReadWorker => PodmanStep::UploadWorker,
            PodmanStep::UploadWorker => PodmanStep::StartWorker,
            PodmanStep::StartWorker => PodmanStep::Settle,
            PodmanStep::Settle => PodmanStep::Connect,
            PodmanStep::Connect => PodmanStep::Finished,
            PodmanStep::Finished => PodmanStep::Finished,
        }
    }

    /// The error of a step that failed.
    pub fn failed(self, grpc_addr: &str, message: &str) -> (r: DomainError)
        ensures
            r@ == DomainErrorView::Internal(podman_failure_prefix(self, grpc_addr@) + message@),
            self is CreateContainer ==> r@ == DomainErrorView::Internal(
                "Failed to create container: "@ + message@,
            ),
            self is StartContainer ==> r@ == DomainErrorView::Internal(
                "Failed to start container: "@ + message@,
            ),
            self is FindPort ==> r@ == DomainErrorView::Internal(
                "Failed to inspect container: "@ + message@,
            ),
            self is ReadWorker ==> r@ == DomainErrorView::Internal(
                "Cannot read worker binary: "@ + message@,
            ),
            self is UploadWorker ==> r@ == DomainErrorView::Internal(
                "Failed to copy files to container: "@ + message@,
            ),
            self is StartWorker ==> r@ == DomainErrorView::Internal(
                "Failed to start worker: "@ + message@,
            ),
            self is Connect ==> r@ == DomainErrorView::Internal(
                "Cannot connect to worker at "@ + grpc_addr@ + ": "@ + message@,
            ),
    {
        let prefix: String = match self {
            PodmanStep::CreateContainer => "Failed to create container: ".to_owned(),
            PodmanStep::StartContainer => "Failed to start container: ".to_owned(),
            PodmanStep::FindPort => "Failed to inspect container: ".to_owned(),
            PodmanStep::ReadWorker => "Cannot read worker binary: ".to_owned(),
            PodmanStep::UploadWorker => "Failed to copy files to container: ".to_owned(),
            PodmanStep::StartWorker => "Failed to start worker: ".to_owned(),
            PodmanStep::Settle => "".to_owned(),
            PodmanStep::Connect => crate::text::concat3(
                "Cannot connect to worker at ",
                grpc_addr,
                ": ",
            ),
            PodmanStep::Finished => "".to_owned(),
        };
        DomainError::Internal(concat2(prefix.as_str(), message))
    }
}

impl PodmanProvider {
    /// A provider.
    pub fn new(default_image: &str, worker_binary: String) -> (r: PodmanProvider)
        ensures
            r.default_image@ == default_image@,
            r.worker_binary == worker_binary,
    {
        PodmanProvider { default_image: default_image.to_owned(), worker_binary }
    }

    /// The container that the daemon is asked for. The port of the worker is mapped to
    /// one of the host that the daemon chooses.
    pub fn create(&self, id: &str, template: &str, env_vars: &Vec<Pair>) -> (r: PortedContainer)
        ensures
            r.name@ == id@,
            r.image@ == docker::chosen_image(template@, self.default_image@),
            text::texts(r.cmd@) == seq!["sleep"@, "infinity"@],
            text::texts(r.env@) == docker::env_texts(env_vars@),
            r.container_port@ == "50051/tcp"@,
            r.host_ip@ == "127.0.0.1"@,
            r.host_port@ == "0"@,
            template@.len() > 0 ==> r.image@ == template@,
            template@.len() == 0 ==> r.image@ == self.default_image@,
            r.env@.len() == env_vars@.len(),
            forall|i: int|
                0 <= i < env_vars@.len() ==> (#[trigger] r.env@[i])@ == env_vars@[i].key@ + "="@
                    + env_vars@[i].value@,
    {
        let cmd = vec!["sleep".to_owned(), "infinity".to_owned()];
        assert(text::texts(cmd@) =~= seq!["sleep"@, "infinity"@]);
        PortedContainer {
            name: id.to_owned(),
            image: choose_image(template, self.default_image.as_str()),
            cmd,
            env: env_strings(env_vars),
            container_port: "50051/tcp".to_owned(),
            host_ip: "127.0.0.1".to_owned(),
            host_port: "0".to_owned(),
        }
    }

    /// The port of the host that the worker is reached at.
    pub fn get_mapped_port(host_port: Option<String>) -> (r: u16)
        ensures
            r == mapped_port(crate::provider::docker::option_text(host_port)),
            host_port is None ==> r == 50051,
            host_port matches Some(s) ==> match text::unsigned_value(s@, 65_535) {
                Some(n) => r == n,
                None => r == 50051,
            },
    {
        match host_port {
            None => 50051,
            Some(s) => match parse_unsigned(s.as_str(), u16::MAX as u64) {
                Some(n) => n as u16,
                None => 50051,
            },
        }
    }

    /// The address that the worker is reached at.
    pub fn grpc_addr(port: u16) -> (r: String)
        ensures
            r@ == "http://127.0.0.1:"@ + text::decimal(port as nat),
    {
        let p = decimal_string(port as u64);
        concat2("http://127.0.0.1:", p.as_str())
    }

    /// The archive that puts the worker into a container; none where it cannot be made.
    pub fn worker_archive(worker: &[u8]) -> (r: Option<Vec<u8>>)
        ensures
            match r {
                Some(v) => interop::tar_file("usr/local/bin/bastion-worker"@, 0o755, worker@) == Some(v@),
                None => interop::tar_file("usr/local/bin/bastion-worker"@, 0o755, worker@) is None,
            },
    {
        write_tar("usr/local/bin/bastion-worker", 0o755, worker)
    }

    /// Puts what a worker sent of a command together. Chunks of an unknown kind are
    /// dropped.
    pub fn run_command(chunks: &Vec<WorkerChunk>, duration_ms: u64) -> (r: CommandResult)
        ensures
            r.stdout@ == bytes_of_kind(chunks@, 0),
            r.stderr@ == bytes_of_kind(chunks@, 1),
            r.exit_code == exit_code_of(chunks@),
            r.duration_ms == duration_ms,
            !r.timed_out,
    {
        let mut stdout: Vec<u8> = Vec::new();
        let mut stderr: Vec<u8> = Vec::new();
        let mut exit_code: i32 = -1;
        let mut i: usize = 0;
        assert(chunks@.take(0) =~= seq![]);
        while i < chunks.len()
            invariant
                i <= chunks@.len(),
                stdout@ == bytes_of_kind(chunks@.take(i as int), 0),
                stderr@ == bytes_of_kind(chunks@.take(i as int), 1),
                exit_code == exit_code_of(chunks@.take(i as int)),
            decreases chunks@.len() - i,
        {
            proof {
                assert(chunks@.take(i + 1).drop_last() =~= chunks@.take(i as int));
                assert(chunks@.take(i + 1).last() == chunks@[i as int]);
            }
            let chunk = &chunks[i];
            if chunk.kind == 0 {
                append_bytes(&mut stdout, &chunk.data);
            } else if chunk.kind == 1 {
                append_bytes(&mut stderr, &chunk.data);
            } else if chunk.kind == 2 {
                if chunk.data.len() >= 4 {
                    exit_code = read_le_i32(&chunk.data);
                }
            }
            proof {
                let k = chunks@[i as int].kind;
                assert(k != 0 ==> bytes_of_kind(chunks@.take(i + 1), 0) =~= bytes_of_kind(
                    chunks@.take(i as int),
                    0,
                ));
                assert(k != 1 ==> bytes_of_kind(chunks@.take(i + 1), 1) =~= bytes_of_kind(
                    chunks@.take(i as int),
                    1,
                ));
            }
            i = i + 1;
        }
        assert(chunks@.take(i as int) =~= chunks@);
        CommandResult { exit_code, stdout, stderr, duration_ms, timed_out: false }
    }

    /// What a chunk of a streamed command stands for. One of an unknown kind is taken
    /// for output.
    pub fn run_command_stream(received: Result<WorkerChunk, String>) -> (r: CommandChunk)
        ensures
            match received {
                Err(e) => r == CommandChunk::Error(e),
                Ok(c) => if c.kind == 1 {
                    r == CommandChunk::Stderr(c.data)
                } else if c.kind == 2 {
                    r matches CommandChunk::ExitCode(code) && code == (if c.data@.len() >= 4 {
                        le_i32(c.data@)
                    } else {
                        -1
                    })
                } else {
                    r == CommandChunk::Stdout(c.data)
                },
            },
    {
        let chunk = match received {
            Err(e) => return CommandChunk::Error(e),
            Ok(c) => c,
        };
        if chunk.kind == 1 {
            CommandChunk::Stderr(chunk.data)
        } else if chunk.kind == 2 {
            let code: i32 = if chunk.data.len() >= 4 {
                read_le_i32(&chunk.data)
            } else {
                -1
            };
            CommandChunk::ExitCode(code)
        } else {
            CommandChunk::Stdout(chunk.data)
        }
    }

    /// Puts the log of a command in a container together: its standard output with the
    /// console, its standard error output, and its exit code or minus one.
    pub fn exec_in_container(pieces: &Vec<LogPiece>, exit_code: Option<i64>) -> (r: (
        Vec<u8>,
        Vec<u8>,
        i32,
    ))
        ensures
            r.0@ == log_stdout(pieces@),
            r.1@ == log_stderr(pieces@),
            r.2 == (match exit_code {
                Some(c) => c as i32 as int,
                None => -1,
            }),
    {
        let mut stdout: Vec<u8> = Vec::new();
        let mut stderr: Vec<u8> = Vec::new();
        let mut i: usize = 0;
        assert(pieces@.take(0) =~= seq![]);
        while i < pieces.len()
            invariant
                i <= pieces@.len(),
                stdout@ == log_stdout(pieces@.take(i as int)),
                stderr@ == log_stderr(pieces@.take(i as int)),
            decreases pieces@.len() - i,
        {
            let ghost before = pieces@.take(i as int);
            let ghost after = pieces@.take(i + 1);
            proof {
                assert(after.drop_last() =~= before);
                assert(after.last() == pieces@[i as int]);
            }
            match &pieces[i] {
                LogPiece::Stdout(d) => {
                    append_bytes(&mut stdout, d);
                    assert(log_stderr(after) =~= log_stderr(before));
                },
                LogPiece::Console(d) => {
                    append_bytes(&mut stdout, d);
                    assert(log_stderr(after) =~= log_stderr(before));
                },
                LogPiece::Stderr(d) => {
                    append_bytes(&mut stderr, d);
                    assert(log_stdout(after) =~= log_stdout(before));
                },
                LogPiece::Other => {
                    assert(log_stdout(after) =~= log_stdout(before));
                    assert(log_stderr(after) =~= log_stderr(before));
                },
            }
            i = i + 1;
        }
        assert(pieces@.take(i as int) =~= pieces@);
        let code: i32 = match exit_code {
            Some(c) => c as i32,
            None => -1,
        };
        (stdout, stderr, code)
    }

    /// Requires that the worker of a container was reached.
    pub fn require_client(container: &str, known: bool) -> (r: Result<(), DomainError>)
        ensures
            match r {
                Ok(_) => known,
                Err(e) => !known && e@ == DomainErrorView::NotFound(container@),
            },
    {
        crate::provider::process_view::set_timeout(container, known)
    }

    /// A file as a worker lists it. A negative size is taken for its bits.
    pub fn file_entry(path: String, is_directory: bool, size_bytes: i64, permissions: String) -> (r:
        FileEntry)
        ensures
            r == (FileEntry {
                path,
                is_directory,
                size_bytes: size_bytes as u64,
                modified_at: None,
                permissions,
            }),
    {
        FileEntry {
            path,
            is_directory,
            size_bytes: size_bytes as u64,
            modified_at: None,
            permissions,
        }
    }

    /// What a worker is asked in order to run a command: the command with its arguments, for
    /// no longer than half a minute.
    pub fn run_request(command: &CommandSpec) -> (r: RunCommandRequest)
        ensures
            r.command@ == command.command@,
            text::texts(r.args@) == text::texts(command.args@),
            r.timeout_ms == WORKER_TIMEOUT_MS,
            r.timeout_ms == 30_000,
    {
        RunCommandRequest {
            command: command.command.clone(),
            args: clone_strings(&command.args),
            timeout_ms: WORKER_TIMEOUT_MS,
        }
    }

    /// What a worker is asked in order to list a directory: what lies in it, not below that.
    pub fn list_request(dir: &str) -> (r: ListFilesRequest)
        ensures
            r.directory@ == dir@,
            !r.recursive,
    {
        ListFilesRequest { directory: dir.to_owned(), recursive: false }
    }

    /// The error where a worker cannot be asked.
    pub fn request_error(message: &str) -> (r: DomainError)
        ensures
            r@ == DomainErrorView::Internal("gRPC error: "@ + message@),
    {
        DomainError::Internal(concat2("gRPC error: ", message))
    }

    /// The error where the output of a command breaks off.
    pub fn stream_error(message: &str) -> (r: DomainError)
        ensures
            r@ == DomainErrorView::Internal("Stream error: "@ + message@),
    {
        DomainError::Internal(concat2("Stream error: ", message))
    }

    /// What the provider can do.
    pub fn capabilities() -> (r: ProviderCapabilities)
        ensures
            r == podman_capabilities(),
            r.supports_streaming && r.supports_networking,
            !r.supports_snapshots && !r.supports_pause_resume && !r.requires_kvm,
            r.max_timeout_ms == 86_400_000,
            r.max_memory_mb == 16_384,
            r.max_cpu_count == 16,
            r.avg_startup_ms == 1500,
    {
        ProviderCapabilities {
            supports_snapshots: false,
            supports_streaming: true,
            supports_pause_resume: false,
            max_timeout_ms: 86_400_000,
            max_memory_mb: 16_384,
            max_cpu_count: 16,
            supports_networking: true,
            requires_kvm: false,
            avg_startup_ms: 1500,
        }
    }

    /// The name of the provider.
    pub fn name() -> (r: &'static str)
        ensures
            r@ == "podman"@,
    {
        "podman"
    }
}

/// Appends bytes.
fn append_bytes(out: &mut Vec<u8>, data: &Vec<u8>)
    ensures
        final(out)@ == old(out)@ + data@,
{
    let mut i: usize = 0;
    while i < data.len()
        invariant
            i <= data@.len(),
            out@ == old(out)@ + data@.take(i as int),
        decreases data@.len() - i,
    {
        out.push(data[i]);
        i = i + 1;
        assert(out@ =~= old(out)@ + data@.take(i as int));
    }
    assert(data@.take(i as int) =~= data@);
}

/// The bytes of the two outputs of a command come in the order in which they were sent:
/// a chunk behind the others adds its bytes behind theirs and leaves the other output
/// as it is.
pub proof fn law_output_keeps_order(chunks: Seq<WorkerChunk>, chunk: WorkerChunk)
    ensures
        bytes_of_kind(chunks.push(chunk), chunk.kind) == bytes_of_kind(chunks, chunk.kind)
            + chunk.data@,
        forall|k: int|
            k != chunk.kind && i32::MIN <= k <= i32::MAX ==> #[trigger] bytes_of_kind(
                chunks.push(chunk),
                k as i32,
            ) == bytes_of_kind(chunks, k as i32),
{
    assert(chunks.push(chunk).drop_last() =~= chunks);
    assert forall|k: int| k != chunk.kind && i32::MIN <= k <= i32::MAX implies #[trigger]
        bytes_of_kind(chunks.push(chunk), k as i32) == bytes_of_kind(chunks, k as i32) by {
        assert(bytes_of_kind(chunks.push(chunk), k as i32) =~= bytes_of_kind(chunks, k as i32));
    }
}

/// Before anything was sent, both outputs are empty.
pub proof fn law_no_output_without_chunks(kind: i32)
    ensures
        bytes_of_kind(Seq::empty(), kind).len() == 0,
        log_stdout(Seq::empty()).len() == 0,
        log_stderr(Seq::empty()).len() == 0,
{
}

/// The exit code is that of the last chunk which gives one in four bytes or more, whatever
/// comes before it; without such a chunk it is minus one.
pub proof fn law_last_exit_code_counts(chunks: Seq<WorkerChunk>, i: int)
    requires
        -1 <= i < chunks.len(),
        forall|j: int|
            i < j < chunks.len() ==> (#[trigger] chunks[j]).kind != 2 || chunks[j].data@.len() < 4,
        i >= 0 ==> chunks[i].kind == 2 && chunks[i].data@.len() >= 4,
    ensures
        i >= 0 ==> exit_code_of(chunks) == le_i32(chunks[i].data@),
        i == -1 ==> exit_code_of(chunks) == -1,
    decreases chunks.len(),
{
    if chunks.len() > 0 && i < chunks.len() - 1 {
        let front = chunks.drop_last();
        assert(chunks.last() == chunks[chunks.len() - 1]);
        assert forall|j: int| i < j < front.len() implies (#[trigger] front[j]).kind != 2
            || front[j].data@.len() < 4 by {
            assert(front[j] == chunks[j]);
        }
        law_last_exit_code_counts(front, i);
    }
}

/// A piece of a log behind the others puts its bytes behind theirs: what went to the standard
/// output or to the console on the one side, what went to the standard error output on the
/// other, and nothing on the side that it was not meant for.
pub proof fn law_log_keeps_order(pieces: Seq<LogPiece>, piece: LogPiece)
    ensures
        piece matches LogPiece::Stdout(d) ==> log_stdout(pieces.push(piece)) == log_stdout(pieces)
            + d@,
        piece matches LogPiece::Console(d) ==> log_stdout(pieces.push(piece)) == log_stdout(pieces)
            + d@,
        piece matches LogPiece::Stderr(d) ==> log_stderr(pieces.push(piece)) == log_stderr(pieces)
            + d@,
        piece is Stderr || piece is Other ==> log_stdout(pieces.push(piece)) == log_stdout(pieces),
        !(piece is Stderr) ==> log_stderr(pieces.push(piece)) == log_stderr(pieces),
{
    assert(pieces.push(piece).drop_last() =~= pieces);
    if piece is Stderr || piece is Other {
        assert(log_stdout(pieces.push(piece)) =~= log_stdout(pieces));
    }
    if !(piece is Stderr) {
        assert(log_stderr(pieces.push(piece)) =~= log_stderr(pieces));
    }
}

} // verus!
