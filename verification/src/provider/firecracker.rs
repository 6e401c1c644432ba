//! Sandboxes in Firecracker microVMs: what is asked of the VM and when, how its
//! answers are read, and how the worker gets into it.
use vstd::prelude::*;

use crate::domain::{DomainError, DomainErrorView, ProviderCapabilities, SandboxStatus};
use crate::interop;
use crate::interop::{is_json, parse_text_member};
use crate::provider::process_view::has_ended;

use crate::text;
use crate::text::{
    concat2, concat3, concat5, contains, decimal_string, from_utf8_lossy, join_path, lines,
    parse_unsigned, split_on, starts_with, to_lowercase, trim, words,
};

verus! {

/// The settings of the provider.
#[derive(Debug)]
pub struct FirecrackerProvider {
    pub firecracker_binary: String,
    pub kernel_path: String,
    pub rootfs_path: String,
    pub vm_dir: String,
    /// Whether the root file system cannot be written.
    pub rootfs_readonly: bool,
    pub worker_binary: String,
    /// Where the worker reaches the gateway, as host and port.
    pub gateway_addr: String,
}

/// Whether an image starts with the magic number of squashfs.
pub open spec fn has_squashfs_magic(head: Seq<u8>) -> bool {
    head.len() >= 4 && head[0] == 0x68 && head[1] == 0x73 && head[2] == 0x71 && head[3] == 0x73
}

/// What a check of the files that the provider needs found.
#[derive(Debug)]
pub struct FirecrackerFiles {
    pub binary_exists: bool,
    pub kernel_exists: bool,
    pub rootfs_exists: bool,
    /// Why the directory for the VMs could not be made, if so.
    pub vm_dir_error: Option<String>,
    /// The first bytes of the root file system, as far as they could be read.
    pub rootfs_head: Vec<u8>,
}

/// What keeps the provider from being set up, if anything.
pub open spec fn setup_error(p: FirecrackerProvider, files: FirecrackerFiles) -> Option<
    DomainErrorView,
> {
    if !files.binary_exists {
        Some(DomainErrorView::Config("Firecracker binary not found: "@ + p.firecracker_binary@))
    } else if !files.kernel_exists {
        Some(DomainErrorView::Config("Kernel not found: "@ + p.kernel_path@))
    } else if !files.rootfs_exists {
        Some(DomainErrorView::Config("Rootfs not found: "@ + p.rootfs_path@))
    } else {
        match files.vm_dir_error {
            Some(e) => Some(DomainErrorView::Config("Cannot create VM directory: "@ + e@)),
            None => None,
        }
    }
}

/// The request that goes to the socket of a VM.
pub open spec fn request_text(method: Seq<char>, path: Seq<char>, body: Seq<char>) -> Seq<char> {
    method + " "@ + path + " HTTP/1.1\r\nHost: localhost\r\nContent-Type: application/json\r\nContent-Length: "@
        + text::decimal(vstd::utf8::encode_utf8(body).len()) + "\r\nConnection: close\r\n\r\n"@ + body
}

/// Whether the bytes end in the empty line that ends the headers.
pub open spec fn ends_headers(b: Seq<u8>) -> bool {
    b.len() >= 4 && b[b.len() - 4] == 13 && b[b.len() - 3] == 10 && b[b.len() - 2] == 13 && b[b.len()
        - 1] == 10
}

/// The status in a status line: its second word, or 500 where that is no status.
pub open spec fn status_of_line(line: Seq<char>) -> nat {
    let w = text::words_of(line);
    if w.len() < 2 {
        500
    } else {
        match text::unsigned_value(w[1], u16::MAX as nat) {
            Some(n) => n,
            None => 500,
        }
    }
}

/// The status of a response.
pub open spec fn response_status(head: Seq<char>) -> nat {
    let l = text::lines_of(head);
    if l.len() == 0 {
        500
    } else {
        status_of_line(l[0])
    }
}

/// Whether a header line gives the length of the body.
pub open spec fn is_length_line(line: Seq<char>) -> bool {
    text::has_prefix(text::lowercase(line), "content-length:"@)
}

/// The length that a header line gives: what stands behind its first colon, or zero
/// where that is no number.
pub open spec fn length_of_line(line: Seq<char>) -> nat {
    let p = text::pieces(line, ':');
    if p.len() < 2 {
        0
    } else {
        match text::unsigned_value(text::trimmed(p[1]), usize::MAX as nat) {
            Some(n) => n,
            None => 0,
        }
    }
}

/// The length of the body: that of the first header line that gives one, or zero.
pub open spec fn first_length(l: Seq<Seq<char>>) -> nat
    decreases l.len(),
{
    if l.len() == 0 {
        0
    } else if is_length_line(l[0]) {
        length_of_line(l[0])
    } else {
        first_length(l.drop_first())
    }
}

/// What the headers of a response say.
#[derive(Debug, Clone, Copy, PartialEq, Eq, Structural)]
pub struct ResponseHead {
    pub status: u16,
    pub content_length: usize,
}

/// The text of the body of a response: an empty document where there is no body.
pub open spec fn response_text(content: Seq<u8>) -> Seq<char> {
    if content.len() > 0 {
        text::utf8_lossy(content)
    } else {
        "{}"@
    }
}

/// The document of a response: the body where it is one, else an empty document.
pub open spec fn response_document(body: Seq<char>) -> Seq<char> {
    if interop::json_readable(body) {
        body
    } else {
        "{}"@
    }
}

/// The message about a request that the VM refuses.
pub open spec fn api_error_message(status: u16, body: Seq<char>) -> Seq<char> {
    "Firecracker API error "@ + text::decimal(status as nat) + ": "@ + (match interop::json_text_member(
        body,
        "fault_message"@,
    ) {
        Some(m) => m,
        None => "unknown error"@,
    })
}

/// Whether the console shows that the VM has booted.
pub open spec fn shows_prompt(console: Seq<char>) -> bool {
    text::contains_text(console, "root@"@) && (text::contains_text(console, ":~#"@) || text::contains_text(
        console,
        ":~$"@,
    ) || text::contains_text(console, "login:"@))
}

/// Whether the description of a file calls it a static binary.
pub open spec fn describes_static(output: Seq<char>) -> bool {
    text::contains_text(output, "statically linked"@) || (text::contains_text(output, "musl"@)
        && text::contains_text(output, "static"@))
}

/// The command that starts the worker in the VM.
pub open spec fn worker_command(gateway_addr: Seq<char>, id: Seq<char>, secret: Seq<char>) -> Seq<
    char,
> {
    "nohup /usr/local/bin/bastion-worker --gateway-addr http://"@ + gateway_addr
        + " --sandbox-id "@ + id + " --secret "@ + secret
        + " --workdir /workspace > /tmp/worker.log 2>&1 &"@
}

/// What to do while waiting for something.
#[derive(Debug)]
pub enum WaitStep {
    /// It is there.
    Ready,
    /// Look again after so many milliseconds.
    Sleep(u64),
    /// It took too long.
    Failed(DomainError),
}

impl FirecrackerProvider {
    /// Checks what the provider needs, in the order in which it is needed, and sets it
    /// up. A squashfs root file system cannot be written.
    pub fn new(settings: FirecrackerProvider, files: &FirecrackerFiles) -> (r: Result<
        FirecrackerProvider,
        DomainError,
    >)
        ensures
            match r {
                Ok(p) => setup_error(settings, *files) is None && p == (FirecrackerProvider {
                    rootfs_readonly: has_squashfs_magic(files.rootfs_head@),
                    ..settings
                }),
                Err(e) => setup_error(settings, *files) == Some(e@),
            },
            r is Ok <==> files.binary_exists && files.kernel_exists && files.rootfs_exists
                && files.vm_dir_error is None,
            !files.binary_exists ==> r->Err_0@ == DomainErrorView::Config(
                "Firecracker binary not found: "@ + settings.firecracker_binary@,
            ),
            files.binary_exists && !files.kernel_exists ==> r->Err_0@ == DomainErrorView::Config(
                "Kernel not found: "@ + settings.kernel_path@,
            ),
            files.binary_exists && files.kernel_exists && !files.rootfs_exists ==> r->Err_0@
                == DomainErrorView::Config("Rootfs not found: "@ + settings.rootfs_path@),
            files.binary_exists && files.kernel_exists && files.rootfs_exists
                && files.vm_dir_error is Some ==> r->Err_0@ == DomainErrorView::Config(
                "Cannot create VM directory: "@ + files.vm_dir_error->0@,
            ),
    {
        if !files.binary_exists {
            return Err(
                DomainError::Config(
                    concat2("Firecracker binary not found: ", settings.firecracker_binary.as_str()),
                ),
            );
        }
        if !files.kernel_exists {
            return Err(
                DomainError::Config(concat2("Kernel not found: ", settings.kernel_path.as_str())),
            );
        }
        if !files.rootfs_exists {
            return Err(
                DomainError::Config(concat2("Rootfs not found: ", settings.rootfs_path.as_str())),
            );
        }
        match &files.vm_dir_error {
            Some(e) => {
                return Err(
                    DomainError::Config(concat2("Cannot create VM directory: ", e.as_str())),
                );
            },
            None => {},
        }
        let mut provider = settings;
        provider.rootfs_readonly = Self::detect_readonly(files.rootfs_head.as_slice());
        Ok(provider)
    }

    /// Whether an image is read-only, by the first bytes of it.
    pub fn detect_readonly(head: &[u8]) -> (r: bool)
        ensures
            r == has_squashfs_magic(head@),
            r <==> head@.len() >= 4 && head@[0] == 0x68 && head@[1] == 0x73 && head@[2] == 0x71
                && head@[3] == 0x73,
    {
        head.len() >= 4 && head[0] == 0x68 && head[1] == 0x73 && head[2] == 0x71 && head[3] == 0x73
    }

    /// The directory of a sandbox.
    pub open spec fn dir_of(self, id: Seq<char>) -> Seq<char> {
        text::joined_path(self.vm_dir@, id)
    }

    /// The directory of a sandbox.
    pub fn sandbox_dir(&self, id: &str) -> (r: String)
        ensures
            r@ == self.dir_of(id@),
            r@ == text::joined_path(self.vm_dir@, id@),
    {
        join_path(self.vm_dir.as_str(), id)
    }

    /// The socket of a sandbox.
    pub fn socket_path(&self, id: &str) -> (r: String)
        ensures
            r@ == text::joined_path(self.dir_of(id@), "firecracker.sock"@),
            r@ == text::joined_path(text::joined_path(self.vm_dir@, id@), "firecracker.sock"@),
    {
        join_path(self.sandbox_dir(id).as_str(), "firecracker.sock")
    }

    /// The request that goes to the socket of a VM.
    pub fn api_request(method: &str, path: &str, body: &str) -> (r: String)
        ensures
            r@ == request_text(method@, path@, body@),
            r@ == method@ + " "@ + path@
                + " HTTP/1.1\r\nHost: localhost\r\nContent-Type: application/json\r\nContent-Length: "@
                + text::decimal(vstd::utf8::encode_utf8(body@).len())
                + "\r\nConnection: close\r\n\r\n"@ + body@,
    {
        let mut out = concat3(method, " ", path);
        out.append(
            " HTTP/1.1\r\nHost: localhost\r\nContent-Type: application/json\r\nContent-Length: ",
        );
        let length = decimal_string(body.as_bytes().len() as u64);
        out.append(length.as_str());
        out.append("\r\nConnection: close\r\n\r\n");
        out.append(body);
        out
    }

    /// Whether the headers of a response are complete.
    pub fn headers_complete(bytes: &Vec<u8>) -> (r: bool)
        ensures
            r == ends_headers(bytes@),
            r <==> bytes@.len() >= 4 && bytes@.skip(bytes@.len() - 4) == seq![13u8, 10, 13, 10],
    {
        proof {
            if bytes@.len() >= 4 {
                let tail = bytes@.skip(bytes@.len() - 4);
                assert(tail[0] == bytes@[bytes@.len() - 4]);
                assert(tail[1] == bytes@[bytes@.len() - 3]);
                assert(tail[2] == bytes@[bytes@.len() - 2]);
                assert(tail[3] == bytes@[bytes@.len() - 1]);
                if ends_headers(bytes@) {
                    assert(tail =~= seq![13u8, 10, 13, 10]);
                }
            }
        }
        let n: usize = bytes.len();
        n >= 4 && bytes[n - 4] == 13 && bytes[n - 3] == 10 && bytes[n - 2] == 13 && bytes[n - 1]
            == 10
    }

    /// Reads the headers of a response.
    pub fn read_head(bytes: &[u8]) -> (r: ResponseHead)
        ensures
            r.status == response_status(text::utf8_lossy(bytes@)),
            r.content_length == first_length(text::lines_of(text::utf8_lossy(bytes@))),
    {
        let head = from_utf8_lossy(bytes);
        let ls = lines(head.as_str());
        let status: u16 = if ls.len() == 0 {
            500
        } else {
            assert(text::lines_of(head@)[0] == ls@[0]@);
            Self::status_in_line(ls[0].as_str())
        };
        let ghost all = text::lines_of(head@);
        let mut content_length: usize = 0;
        let mut i: usize = 0;
        assert(all.skip(0) =~= all);
        while i < ls.len()
            invariant_except_break
                content_length == 0,
                first_length(all.skip(i as int)) == first_length(all),
            invariant
                i <= ls@.len(),
                all == crate::text::texts(ls@),
            ensures
                content_length == first_length(all),
            decreases ls@.len() - i,
        {
            let line = ls[i].as_str();
            proof {
                assert(all[i as int] == line@);
                assert(all.skip(i as int)[0] == line@);
                assert(all.skip(i as int).drop_first() =~= all.skip(i + 1));
            }
            if starts_with(to_lowercase(line).as_str(), "content-length:") {
                content_length = Self::length_in_line(line);
                break;
            }
            i = i + 1;
        }
        ResponseHead { status, content_length }
    }

    fn status_in_line(line: &str) -> (r: u16)
        ensures
            r == status_of_line(line@),
    {
        let w = words(line);
        if w.len() < 2 {
            return 500;
        }
        assert(text::words_of(line@)[1] == w@[1]@);
        match parse_unsigned(w[1].as_str(), u16::MAX as u64) {
            Some(n) => n as u16,
            None => 500,
        }
    }

    fn length_in_line(line: &str) -> (r: usize)
        ensures
            r == length_of_line(line@),
    {
        let p = split_on(line, ':');
        if p.len() < 2 {
            return 0;
        }
        assert(text::pieces(line@, ':')[1] == p@[1]@);
        let value = trim(p[1].as_str());
        match parse_unsigned(value.as_str(), usize::MAX as u64) {
            Some(n) => n as usize,
            None => 0,
        }
    }

    /// What a response says, from the bytes of its body: an error from 400 on, with the fault
    /// that the body names; below that its document.
    pub fn read_response(status: u16, content: &[u8]) -> (r: Result<String, DomainError>)
        ensures
            match r {
                Ok(document) => status < 400 && document@ == response_document(
                    response_text(content@),
                ),
                Err(e) => status >= 400 && e@ == DomainErrorView::Internal(
                    api_error_message(status, response_text(content@)),
                ),
            },
            r is Ok <==> status < 400,
            status < 400 && content@.len() == 0 ==> r->Ok_0@ == "{}"@,
            status < 400 && content@.len() > 0 ==> r->Ok_0@ == if interop::json_readable(
                text::utf8_lossy(content@),
            ) {
                text::utf8_lossy(content@)
            } else {
                "{}"@
            },
            status >= 400 && content@.len() > 0 ==> r->Err_0@ == DomainErrorView::Internal(
                "Firecracker API error "@ + text::decimal(status as nat) + ": "@ + (
                match interop::json_text_member(text::utf8_lossy(content@), "fault_message"@) {
                    Some(m) => m,
                    None => "unknown error"@,
                }),
            ),
    {
        let decoded: String = if content.len() > 0 {
            from_utf8_lossy(content)
        } else {
            "{}".to_owned()
        };
        let body: &str = decoded.as_str();
        if status < 400 {
            return Ok(
                if is_json(body) {
                    body.to_owned()
                } else {
                    "{}".to_owned()
                },
            );
        }
        let fault = match parse_text_member(body, "fault_message") {
            Some(m) => m,
            None => "unknown error".to_owned(),
        };
        let code = decimal_string(status as u64);
        let mut message = concat3("Firecracker API error ", code.as_str(), ": ");
        message.append(fault.as_str());
        Err(DomainError::Internal(message))
    }

    /// Whether to try to connect to the socket, given how long it has been waited for.
    pub fn socket_deadline(elapsed_ms: u64, timeout_ms: u64, socket: &str) -> (r: Result<
        (),
        DomainError,
    >)
        ensures
            match r {
                Ok(_) => elapsed_ms < timeout_ms,
                Err(e) => elapsed_ms >= timeout_ms && e@ == DomainErrorView::Internal(
                    "Firecracker socket did not appear within "@ + text::decimal(timeout_ms as nat)
                        + "ms: "@ + socket@,
                ),
            },
    {
        if elapsed_ms < timeout_ms {
            return Ok(());
        }
        let limit = decimal_string(timeout_ms);
        let mut message = concat3(
            "Firecracker socket did not appear within ",
            limit.as_str(),
            "ms: ",
        );
        message.append(socket);
        Err(DomainError::Internal(message))
    }

    /// What to do after an attempt to connect to the socket.
    pub fn wait_for_socket(connected: bool) -> (r: WaitStep)
        ensures
            r == (if connected {
                WaitStep::Ready
            } else {
                WaitStep::Sleep(50)
            }),
    {
        if connected {
            WaitStep::Ready
        } else {
            WaitStep::Sleep(50)
        }
    }

    /// What to do while the VM boots, given what its console shows.
    pub fn wait_for_boot(now_ms: u64, deadline_ms: u64, console: &[u8]) -> (r: WaitStep)
        ensures
            if now_ms > deadline_ms {
                r matches WaitStep::Failed(e) && e@ == DomainErrorView::Timeout(
                    "VM boot timed out"@,
                )
            } else if shows_prompt(text::utf8_lossy(console@)) {
                r is Ready
            } else {
                r == WaitStep::Sleep(100)
            },
            now_ms <= deadline_ms ==> {
                let shown = text::utf8_lossy(console@);
                r is Ready <==> text::contains_text(shown, "root@"@) && (text::contains_text(
                    shown,
                    ":~#"@,
                ) || text::contains_text(shown, ":~$"@) || text::contains_text(shown, "login:"@))
            },
    {
        if now_ms > deadline_ms {
            return WaitStep::Failed(DomainError::Timeout("VM boot timed out".to_owned()));
        }
        let shown = from_utf8_lossy(console);
        let t = shown.as_str();
        if contains(t, "root@") && (contains(t, ":~#") || contains(t, ":~$") || contains(
            t,
            "login:",
        )) {
            WaitStep::Ready
        } else {
            WaitStep::Sleep(100)
        }
    }

    /// Whether the description of the worker by `file` calls it a static binary.
    pub fn is_static_worker(file_output: &str) -> (r: bool)
        ensures
            r == describes_static(file_output@),
            r <==> text::contains_text(file_output@, "statically linked"@) || (text::contains_text(
                file_output@,
                "musl"@,
            ) && text::contains_text(file_output@, "static"@)),
    {
        contains(file_output, "statically linked") || (contains(file_output, "musl") && contains(
            file_output,
            "static",
        ))
    }

    /// The command that starts the worker in the VM.
    pub fn start_command(&self, id: &str, secret: &str) -> (r: String)
        ensures
            r@ == worker_command(self.gateway_addr@, id@, secret@),
            r@ == "nohup /usr/local/bin/bastion-worker --gateway-addr http://"@ + self.gateway_addr@
                + " --sandbox-id "@ + id@ + " --secret "@ + secret@
                + " --workdir /workspace > /tmp/worker.log 2>&1 &"@,
    {
        let mut out = concat5(
            "nohup /usr/local/bin/bastion-worker --gateway-addr http://",
            self.gateway_addr.as_str(),
            " --sandbox-id ",
            id,
            " --secret ",
        );
        out.append(secret);
        out.append(" --workdir /workspace > /tmp/worker.log 2>&1 &");
        out
    }

    /// What the provider can do.
    pub fn capabilities() -> (r: ProviderCapabilities)
        ensures
            r == firecracker_capabilities(),
            r.supports_snapshots && r.supports_networking && r.requires_kvm,
            !r.supports_streaming && !r.supports_pause_resume,
            r.max_timeout_ms == 600_000,
            r.max_memory_mb == 512,
            r.max_cpu_count == 4,
            r.avg_startup_ms == 300,
    {
        ProviderCapabilities {
            supports_snapshots: true,
            supports_streaming: false,
            supports_pause_resume: false,
            max_timeout_ms: 600_000,
            max_memory_mb: 512,
            max_cpu_count: 4,
            supports_networking: true,
            requires_kvm: true,
            avg_startup_ms: 300,
        }
    }

    /// The name of the provider.
    pub fn name() -> (r: &'static str)
        ensures
            r@ == "firecracker"@,
    {
        "firecracker"
    }

    /// Whether a VM is alive: not where its state says that it has ended, not without
    /// its socket, and else by its process.
    pub fn is_alive(
        state: Option<SandboxStatus>,
        socket_exists: bool,
        process: Option<bool>,
    ) -> (r: bool)
        ensures
            r == (state != Some(SandboxStatus::Stopped) && state != Some(SandboxStatus::Failed)
                && socket_exists && process == Some(true)),
    {
        if has_ended(state) || !socket_exists {
            return false;
        }
        match process {
            Some(running) => running,
            None => false,
        }
    }

    /// A snapshot alone does not tell which sandbox it was taken of, so none is restored.
    pub fn restore_snapshot() -> (r: DomainError)
        ensures
            r@ == DomainErrorView::UnsupportedOperation(
                "restore_snapshot requires additional context (original sandbox_id). This is complex without storing the mapping during create_snapshot."@,
            ),
    {
        DomainError::UnsupportedOperation(
            "restore_snapshot requires additional context (original sandbox_id). This is complex without storing the mapping during create_snapshot.".to_owned(),
        )
    }
}

/// What the provider can do.
pub open spec fn firecracker_capabilities() -> ProviderCapabilities {
    ProviderCapabilities {
        supports_snapshots: true,
        supports_streaming: false,
        supports_pause_resume: false,
        max_timeout_ms: 600_000,
        max_memory_mb: 512,
        max_cpu_count: 4,
        supports_networking: true,
        requires_kvm: true,
        avg_startup_ms: 300,
    }
}

proof fn lemma_decimal_is_a_word(n: nat)
    ensures
        decimal_word(text::decimal(n)),
    decreases n,
{
    if n >= 10 {
        lemma_decimal_is_a_word(n / 10);
    }
}

/// Whether a text is made of digits, at least one of them.
spec fn decimal_word(s: Seq<char>) -> bool {
    s.len() > 0 && forall|i: int| 0 <= i < s.len() ==> '0' <= #[trigger] s[i] <= '9'
}

/// The status of a response is the number that stands as the second word of its first line,
/// whatever follows in that line and in the others.
pub proof fn law_status_is_the_second_word(
    version: Seq<char>,
    gap: char,
    status: u16,
    reason: Seq<char>,
    others: Seq<char>,
)
    requires
        text::whitespace(gap),
        gap != '\n',
        version.len() > 0,
        forall|i: int| 0 <= i < version.len() ==> !text::whitespace(#[trigger] version[i]),
        reason.len() == 0 || text::whitespace(reason[0]),
        !reason.contains('\n'),
        reason.len() == 0 || reason.last() != '\r',
    ensures
        response_status(
            version + (seq![gap] + text::decimal(status as nat) + reason) + seq!['\n'] + others,
        ) == status,
        response_status(Seq::empty()) == 500,
{
    let code = text::decimal(status as nat);
    lemma_decimal_is_a_word(status as nat);
    text::law_decimal_reads_back(status as nat, 65_535);
    let second = seq![gap] + code + reason;
    let line = version + second;
    assert(second[0] == gap);
    assert forall|i: int| 0 <= i < code.len() implies !text::whitespace(#[trigger] code[i]) by {}
    text::law_words_stand_between_white_space(gap, version, second);
    text::law_words_stand_between_white_space(gap, code, reason);
    assert(text::words_of(line) =~= seq![version] + (seq![code] + text::words_of(reason)));
    assert(text::words_of(line)[1] == code);
    assert(!line.contains('\n')) by {
        if line.contains('\n') {
            let i = choose|i: int| 0 <= i < line.len() && line[i] == '\n';
            if i < version.len() {
                assert(version[i] == '\n');
            } else if i > version.len() && i < version.len() + 1 + code.len() {
                assert(code[i - version.len() - 1] == '\n');
            } else if i >= version.len() + 1 + code.len() {
                assert(reason[i - version.len() - 1 - code.len()] == '\n');
            }
        }
    }
    if reason.len() > 0 {
        assert(line.last() == reason.last());
    } else {
        assert(line.last() == code[code.len() - 1]);
    }
    text::law_lines_end_at_line_feeds(line, others);
    text::law_lines_end_at_line_feeds(Seq::empty(), others);
}

/// The length of the body is that of the first header line which gives one, and zero where
/// no line does.
pub proof fn law_first_length_counts(l: Seq<Seq<char>>, i: int)
    requires
        0 <= i <= l.len(),
        forall|j: int|
            0 <= j < i ==> !text::has_prefix(
                text::lowercase(#[trigger] l[j]),
                "content-length:"@,
            ),
        i < l.len() ==> text::has_prefix(text::lowercase(l[i]), "content-length:"@),
    ensures
        i < l.len() ==> first_length(l) == length_of_line(l[i]),
        i == l.len() ==> first_length(l) == 0,
    decreases l.len(),
{
    if i > 0 {
        let rest = l.drop_first();
        assert forall|j: int| 0 <= j < i - 1 implies !text::has_prefix(
            text::lowercase(#[trigger] rest[j]),
            "content-length:"@,
        ) by {
            assert(rest[j] == l[j + 1]);
        }
        if i < l.len() {
            assert(rest[i - 1] == l[i]);
        }
        assert(!is_length_line(l[0]));
        law_first_length_counts(rest, i - 1);
    }
}

/// The length in a header line is the number behind its colon.
pub proof fn law_length_stands_behind_the_colon(name: Seq<char>, gap: char, n: usize)
    requires
        !name.contains(':'),
        text::whitespace(gap),
    ensures
        length_of_line(name + seq![':'] + (seq![gap] + text::decimal(n as nat))) == n,
        length_of_line(name) == 0,
{
    let code = text::decimal(n as nat);
    lemma_decimal_is_a_word(n as nat);
    text::law_decimal_reads_back(n as nat, usize::MAX as nat);
    let value = seq![gap] + code;
    let line = name + seq![':'] + value;
    assert forall|j: int| 0 <= j < name.len() implies name[j] != ':' by {
        assert(name.contains(name[j]));
    }
    text::lemma_first_position(line, ':', name.len() as int);
    text::lemma_first_position(name, ':', name.len() as int);
    assert(line.skip((name.len() + 1) as int) =~= value);
    assert forall|j: int| 0 <= j < value.len() implies value[j] != ':' by {
        if j > 0 {
            assert(value[j] == code[j - 1]);
        }
    }
    text::lemma_first_position(value, ':', value.len() as int);
    let behind = text::pieces(value, ':');
    assert(behind =~= seq![value]);
    assert(text::first_position(line, ':') == name.len());
    assert(text::pieces(line, ':') == seq![line.take(name.len() as int)] + behind);
    assert(text::pieces(line, ':')[1] == value);
    assert(value.drop_first() =~= code);
    assert(!text::whitespace(code[0]));
    assert(text::trim_start_of(value) == text::trim_start_of(code));
    assert(text::trim_start_of(code) == code);
    assert(!text::whitespace(code[code.len() - 1]));
    assert(text::trim_end_of(code) == code);
}

} // verus!
