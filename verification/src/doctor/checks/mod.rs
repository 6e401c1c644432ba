//! The checks of whether the providers can work on this machine.
use std::sync::Arc;

use vstd::prelude::*;

use crate::assoc::Assoc;
use crate::catalog::toml_doctor_parser::Severity;
use crate::doctor::checks::binary_available::BinaryInfo;
use crate::doctor::CommandOutput;
use crate::domain::Timestamp;
use crate::interop;
use crate::interop::new_uuid;
use crate::json::{Json, JsonView};
use crate::text;
use crate::text::{contains, lines, slice_string, chars_of, starts_with, str_eq, trim, trim_matches};

pub mod binary_available;
pub mod image_available;
pub mod kvm_available;
pub mod provider_alive;
pub mod worker_binary_valid;

verus! {

/// How a check came out.
#[derive(Debug, Clone, Copy, PartialEq, Eq, Structural)]
pub enum CheckStatus {
    Pass,
    Fail,
}

/// One thing that is not as it should be.
#[derive(Debug)]
pub struct DeltaItem {
    pub item: String,
    pub expected: String,
    pub actual: Option<String>,
    pub severity: Severity,
}

/// What a thing is that is not as it should be.
#[verifier::ext_equal]
pub struct DeltaView {
    pub item: Seq<char>,
    pub expected: Seq<char>,
    pub actual: Option<Seq<char>>,
    pub severity: Severity,
}

/// A text that may be missing.
pub open spec fn optional(s: Option<String>) -> Option<Seq<char>> {
    match s {
        Some(t) => Some(t@),
        None => None,
    }
}

impl DeltaItem {
    pub open spec fn view(self) -> DeltaView {
        DeltaView {
            item: self.item@,
            expected: self.expected@,
            actual: optional(self.actual),
            severity: self.severity,
        }
    }
}

/// Where something can be had from.
#[derive(Debug)]
pub struct InstallSource {
    pub name: String,
    pub url: String,
    pub method: String,
}

/// Where something can be had from.
#[verifier::ext_equal]
pub struct SourceView {
    pub name: Seq<char>,
    pub url: Seq<char>,
    pub method: Seq<char>,
}

impl InstallSource {
    pub open spec fn view(self) -> SourceView {
        SourceView { name: self.name@, url: self.url@, method: self.method@ }
    }
}

/// What is to be done.
#[derive(Debug)]
pub struct Remediation {
    pub confidence: String,
    pub auto_fixable: bool,
    pub commands: Vec<String>,
    pub manual_steps: Vec<String>,
    pub verify_after: String,
    pub install_sources: Vec<InstallSource>,
}

/// What is to be done.
#[verifier::ext_equal]
pub struct RemediationView {
    pub confidence: Seq<char>,
    pub auto_fixable: bool,
    pub commands: Seq<Seq<char>>,
    pub manual_steps: Seq<Seq<char>>,
    pub verify_after: Seq<char>,
    pub install_sources: Seq<SourceView>,
}

/// The views of sources.
pub open spec fn source_views(v: Seq<InstallSource>) -> Seq<SourceView> {
    v.map_values(|s: InstallSource| s@)
}

/// The views of what is wrong.
pub open spec fn delta_views(v: Seq<DeltaItem>) -> Seq<DeltaView> {
    v.map_values(|d: DeltaItem| d@)
}

impl Remediation {
    pub open spec fn view(self) -> RemediationView {
        RemediationView {
            confidence: self.confidence@,
            auto_fixable: self.auto_fixable,
            commands: text::texts(self.commands@),
            manual_steps: text::texts(self.manual_steps@),
            verify_after: self.verify_after@,
            install_sources: source_views(self.install_sources@),
        }
    }
}

/// A check, with what was found and what should have been.
#[derive(Debug)]
pub struct RichCheckResult {
    pub check_id: String,
    pub check_type: String,
    pub status: CheckStatus,
    pub current_state: Json,
    pub expected_state: Json,
    pub delta: Vec<DeltaItem>,
    pub remediation: Option<Remediation>,
    /// The system that was checked.
    pub system_context: Arc<SystemContext>,
    pub trace_id: String,
    pub executed_at: Timestamp,
}

/// What a check says.
#[verifier::ext_equal]
pub struct ReportView {
    pub check_id: Seq<char>,
    pub check_type: Seq<char>,
    pub current_state: JsonView,
    pub expected_state: JsonView,
    pub delta: Seq<DeltaView>,
    pub remediation: Option<RemediationView>,
}

impl RichCheckResult {
    pub open spec fn view(self) -> ReportView {
        ReportView {
            check_id: self.check_id@,
            check_type: self.check_type@,
            current_state: self.current_state@,
            expected_state: self.expected_state@,
            delta: delta_views(self.delta@),
            remediation: match self.remediation {
                Some(m) => Some(m@),
                None => None,
            },
        }
    }

    /// The check fails exactly where something is wrong, and then says what is to be
    /// done. Its trace has an identifier of its own.
    pub open spec fn wf(self) -> bool {
        &&& (self.status is Fail) == (self.delta@.len() > 0)
        &&& (self.remediation is Some) == (self.delta@.len() > 0)
        &&& interop::uuid_form(self.trace_id@)
    }
}

/// The names of the providers and their binaries differ from each other.
pub proof fn lemma_provider_names()
    ensures
        "podman"@ != "docker"@,
        "podman"@ != "gvisor"@,
        "podman"@ != "firecracker"@,
        "podman"@ != "runsc"@,
        "podman"@ != "kubectl"@,
        "podman"@ != "helm"@,
        "docker"@ != "gvisor"@,
        "docker"@ != "firecracker"@,
        "docker"@ != "runsc"@,
        "docker"@ != "kubectl"@,
        "docker"@ != "helm"@,
        "gvisor"@ != "firecracker"@,
        "firecracker"@ != "runsc"@,
        "firecracker"@ != "kubectl"@,
        "firecracker"@ != "helm"@,
        "runsc"@ != "kubectl"@,
        "runsc"@ != "helm"@,
        "kubectl"@ != "helm"@,
{
    reveal_strlit("podman");
    reveal_strlit("docker");
    reveal_strlit("gvisor");
    reveal_strlit("firecracker");
    reveal_strlit("runsc");
    reveal_strlit("kubectl");
    reveal_strlit("helm");
    assert("podman"@[0] == 'p' && "docker"@[0] == 'd' && "gvisor"@[0] == 'g');
    assert("firecracker"@.len() == 11 && "runsc"@.len() == 5 && "kubectl"@.len() == 7);
    assert("helm"@.len() == 4 && "podman"@.len() == 6 && "docker"@.len() == 6);
    assert("gvisor"@.len() == 6);
}

/// A new identifier for a trace.
pub fn generate_trace_id() -> (r: String)
    ensures
        interop::uuid_form(r@),
{
    new_uuid()
}

/// The result of a check, which fails where something is wrong.
pub fn report(
    check_id: String,
    check_type: &str,
    current_state: Json,
    expected_state: Json,
    delta: Vec<DeltaItem>,
    remediation: Option<Remediation>,
    context: Arc<SystemContext>,
    now: Timestamp,
) -> (r: RichCheckResult)
    requires
        (remediation is Some) == (delta@.len() > 0),
    ensures
        r.wf(),
        r.check_id == check_id,
        r.check_type@ == check_type@,
        r.current_state == current_state,
        r.expected_state == expected_state,
        r.delta == delta,
        r.remediation == remediation,
        r.system_context == context,
        r.executed_at == now,
{
    let status = if delta.len() == 0 {
        CheckStatus::Pass
    } else {
        CheckStatus::Fail
    };
    RichCheckResult {
        check_id,
        check_type: check_type.to_owned(),
        status,
        current_state,
        expected_state,
        delta,
        remediation,
        system_context: context,
        trace_id: generate_trace_id(),
        executed_at: now,
    }
}

/// The value of a line of an `os-release` file: what follows the first equals sign,
/// without quotes and white space around it.
pub open spec fn release_value(line: Seq<char>) -> Seq<char> {
    text::trimmed(text::trim_matches_of(line.skip(text::first_position(line, '=') + 1), '"'))
}

/// Whether a line of an `os-release` file names the system.
pub open spec fn names_system(line: Seq<char>) -> bool {
    (text::has_prefix(line, "PRETTY_NAME="@) || text::has_prefix(line, "VERSION="@)) && release_value(
        line,
    ).len() > 0
}

/// The name of the system: the value of the first line that gives one.
pub open spec fn system_name(all: Seq<Seq<char>>) -> Option<Seq<char>>
    decreases all.len(),
{
    if all.len() == 0 {
        None
    } else if names_system(all[0]) {
        Some(release_value(all[0]))
    } else {
        system_name(all.drop_first())
    }
}

proof fn lemma_position_of_equals(line: Seq<char>, p: Seq<char>, n: int)
    requires
        text::has_prefix(line, p),
        p.len() == n + 1,
        n >= 0,
        p[n] == '=',
        forall|i: int| 0 <= i < n ==> #[trigger] p[i] != '=',
    ensures
        text::first_position(line, '=') == n,
{
    assert(line.take(n + 1) == p);
    assert forall|i: int| 0 <= i < n implies #[trigger] line[i] != '=' by {
        assert(line.take(n + 1)[i] == p[i]);
    }
    assert(line.take(n + 1)[n] == p[n]);
    crate::text::lemma_first_position(line, '=', n);
}

/// The version of the system: from an `os-release` file, or else what the kernel says.
pub fn os_version(os_release: Option<&str>, kernel: String) -> (r: String)
    ensures
        r@ == (match os_release {
            Some(content) => match system_name(text::lines_of(content@)) {
                Some(v) => v,
                None => kernel@,
            },
            None => kernel@,
        }),
{
    match os_release {
        None => kernel,
        Some(content) => {
            let all = lines(content);
            let ghost file = text::texts(all@);
            let mut i: usize = 0;
            proof {
                reveal_strlit("PRETTY_NAME=");
                reveal_strlit("VERSION=");
                assert(file.skip(0) =~= file);
            }
            while i < all.len()
                invariant
                    i <= all@.len(),
                    file == text::texts(all@),
                    "PRETTY_NAME="@ =~= seq!['P', 'R', 'E', 'T', 'T', 'Y', '_', 'N', 'A', 'M', 'E', '='],
                    "VERSION="@ =~= seq!['V', 'E', 'R', 'S', 'I', 'O', 'N', '='],
                    system_name(file) == system_name(file.skip(i as int)),
                    file == text::lines_of(content@),
                    os_release == Some(content),
                decreases all@.len() - i,
            {
                let line = all[i].as_str();
                let ghost rest = file.skip(i as int);
                proof {
                    assert(rest[0] == line@);
                    assert(rest.drop_first() =~= file.skip(i + 1));
                }
                let pretty = starts_with(line, "PRETTY_NAME=");
                if pretty || starts_with(line, "VERSION=") {
                    let cs = chars_of(line);
                    let start: usize = if pretty {
                        12
                    } else {
                        8
                    };
                    proof {
                        if pretty {
                            lemma_position_of_equals(line@, "PRETTY_NAME="@, 11);
                        } else {
                            lemma_position_of_equals(line@, "VERSION="@, 7);
                        }
                        assert(line@.skip(start as int) =~= cs@.subrange(
                            start as int,
                            cs@.len() as int,
                        ));
                    }
                    let value = slice_string(cs.as_slice(), start, cs.len());
                    let bare = trim_matches(value.as_str(), '"');
                    let name = trim(bare.as_str());
                    if !name.as_str().is_empty() {
                        return name;
                    }
                }
                i = i + 1;
            }
            assert(file.skip(i as int) =~= seq![]);
            kernel
        },
    }
}

/// Whether nested virtualization is on, from the parameters of the two KVM modules, of
/// which the first that can be read counts.
pub fn nested_virt(intel: Option<&str>, amd: Option<&str>) -> (r: bool)
    ensures
        r == (match (intel, amd) {
            (Some(t), _) => text::trimmed(t@) == "Y"@,
            (None, Some(t)) => text::trimmed(t@) == "Y"@,
            (None, None) => false,
        }),
{
    match intel {
        Some(t) => str_eq(trim(t).as_str(), "Y"),
        None => match amd {
            Some(t) => str_eq(trim(t).as_str(), "Y"),
            None => false,
        },
    }
}

/// The version of a binary: the first line that it printed, if it succeeded.
pub open spec fn version_line(stdout: Seq<char>) -> Seq<char> {
    let out = text::trimmed(stdout);
    if text::lines_of(out).len() == 0 {
        out
    } else {
        text::lines_of(out)[0]
    }
}

/// The version of a binary, from how asking it for its version came out.
pub fn binary_version(success: bool, stdout: &str) -> (r: Option<String>)
    ensures
        match r {
            Some(v) => success && v@ == version_line(stdout@),
            None => !success,
        },
{
    if !success {
        return None;
    }
    let out = trim(stdout);
    let all = lines(out.as_str());
    assert(text::texts(all@).len() == all@.len());
    if all.len() == 0 {
        Some(out)
    } else {
        assert(text::texts(all@)[0] == all@[0]@);
        Some(all[0].clone())
    }
}

/// What the checks know of the machine.
#[derive(Debug)]
pub struct SystemContext {
    pub os: String,
    pub os_version: String,
    pub architecture: String,
    pub kernel: String,
    pub has_kvm: bool,
    pub has_nested_virt: Option<bool>,
    /// The binaries that were looked for, by name.
    pub relevant_binaries: Assoc<BinaryInfo>,
    /// The providers, by name.
    pub installed_providers: Assoc<ProviderInfo>,
}

/// What is known of a provider.
#[derive(Debug)]
pub struct ProviderInfo {
    pub name: String,
    pub version: Option<String>,
    pub available: bool,
}

/// What was answered on a binary: by `which`, and by the binary itself on its version.
/// What did not run is missing.
pub struct BinaryAnswers {
    pub which: Option<CommandOutput>,
    pub version: Option<CommandOutput>,
}

/// What the machine answered to the questions from which its context is made.
pub struct SystemFacts {
    pub os: String,
    pub architecture: String,
    /// The content of `/etc/os-release`.
    pub os_release: Option<String>,
    /// What `uname -r` printed.
    pub kernel: Option<String>,
    /// What `uname -v` printed.
    pub kernel_version: Option<String>,
    /// Whether `/dev/kvm` exists.
    pub has_kvm: bool,
    /// The `nested` parameter of the module for Intel processors.
    pub nested_intel: Option<String>,
    /// The `nested` parameter of the module for AMD processors.
    pub nested_amd: Option<String>,
    pub podman: BinaryAnswers,
    pub docker: BinaryAnswers,
    pub firecracker: BinaryAnswers,
    pub runsc: BinaryAnswers,
    pub kubectl: BinaryAnswers,
    pub helm: BinaryAnswers,
}

/// What is known of a binary.
#[verifier::ext_equal]
pub struct BinaryView {
    pub name: Seq<char>,
    pub path: Option<Seq<char>>,
    pub version: Option<Seq<char>>,
}

/// What is known of a provider.
#[verifier::ext_equal]
pub struct ProviderView {
    pub name: Seq<char>,
    pub version: Option<Seq<char>>,
    pub available: bool,
}

/// Whether `which` found a binary.
pub open spec fn was_found(answers: BinaryAnswers) -> bool {
    match answers.which {
        Some(o) => o.success,
        None => false,
    }
}

/// The version that a binary told, asked only where it was found.
pub open spec fn told_version(answers: BinaryAnswers) -> Option<Seq<char>> {
    match answers.version {
        Some(o) if was_found(answers) && o.success => Some(version_line(o.stdout@)),
        _ => None,
    }
}

/// What is known of a binary, from what was answered on it.
pub open spec fn binary_of(name: Seq<char>, answers: BinaryAnswers) -> BinaryView {
    BinaryView {
        name,
        path: match answers.which {
            Some(o) if o.success => Some(text::trimmed(o.stdout@)),
            _ => None,
        },
        version: told_version(answers),
    }
}

/// What is known of a provider, from what was answered on its binary.
pub open spec fn provider_of(name: Seq<char>, answers: BinaryAnswers) -> ProviderView {
    ProviderView { name, version: told_version(answers), available: was_found(answers) }
}

/// What is known of a binary.
pub open spec fn binary_view(b: BinaryInfo) -> BinaryView {
    BinaryView { name: b.name@, path: optional(b.path), version: optional(b.version) }
}

/// What is known of a provider.
pub open spec fn provider_view(p: ProviderInfo) -> ProviderView {
    ProviderView { name: p.name@, version: optional(p.version), available: p.available }
}

/// Binaries by name.
pub open spec fn binaries(m: Map<Seq<char>, BinaryInfo>) -> Map<Seq<char>, BinaryView> {
    m.map_values(|b: BinaryInfo| binary_view(b))
}

/// Providers by name.
pub open spec fn providers(m: Map<Seq<char>, ProviderInfo>) -> Map<Seq<char>, ProviderView> {
    m.map_values(|p: ProviderInfo| provider_view(p))
}

fn version_of(answers: &BinaryAnswers) -> (r: Option<String>)
    ensures
        optional(r) == told_version(*answers),
        r is Some <==> answers.which is Some && answers.which->0.success && answers.version is Some
            && answers.version->0.success,
        r is Some ==> r->0@ == version_line(answers.version->0.stdout@),
{
    let found = match &answers.which {
        Some(o) => o.success,
        None => false,
    };
    if !found {
        return None;
    }
    match &answers.version {
        Some(o) => binary_version(o.success, o.stdout.as_str()),
        None => None,
    }
}

fn put_binary(all: &mut Assoc<BinaryInfo>, name: &str, answers: &BinaryAnswers)
    requires
        old(all).wf(),
    ensures
        final(all).wf(),
        binaries(final(all)@) == binaries(old(all)@).insert(name@, binary_of(name@, *answers)),
        final(all)@.contains_key(name@),
        final(all)@[name@].name@ == name@,
        final(all)@[name@].path is Some <==> answers.which is Some && answers.which->0.success,
        final(all)@[name@].path is Some ==> final(all)@[name@].path->0@ == text::trimmed(
            answers.which->0.stdout@,
        ),
        final(all)@[name@].version is Some <==> answers.which is Some && answers.which->0.success
            && answers.version is Some && answers.version->0.success,
        final(all)@[name@].version is Some ==> final(all)@[name@].version->0@ == version_line(
            answers.version->0.stdout@,
        ),
{
    let path = match &answers.which {
        Some(o) => if o.success {
            Some(trim(o.stdout.as_str()))
        } else {
            None
        },
        None => None,
    };
    let info = BinaryInfo { name: name.to_owned(), path, version: version_of(answers) };
    assert(binary_view(info) == binary_of(name@, *answers));
    let _ = all.insert(name.to_owned(), info);
    assert(binaries(all@) =~= binaries(old(all)@).insert(name@, binary_of(name@, *answers)));
}

fn put_provider(all: &mut Assoc<ProviderInfo>, name: &str, answers: &BinaryAnswers)
    requires
        old(all).wf(),
    ensures
        final(all).wf(),
        providers(final(all)@) == providers(old(all)@).insert(name@, provider_of(name@, *answers)),
        final(all)@.contains_key(name@),
        final(all)@[name@].name@ == name@,
        final(all)@[name@].available <==> answers.which is Some && answers.which->0.success,
        final(all)@[name@].version is Some <==> answers.which is Some && answers.which->0.success
            && answers.version is Some && answers.version->0.success,
{
    let available = match &answers.which {
        Some(o) => o.success,
        None => false,
    };
    let info = ProviderInfo { name: name.to_owned(), version: version_of(answers), available };
    assert(provider_view(info) == provider_of(name@, *answers));
    let _ = all.insert(name.to_owned(), info);
    assert(providers(all@) =~= providers(old(all)@).insert(name@, provider_of(name@, *answers)));
}

/// What is known of the machine, from what it answered.
pub fn gather_system_context(facts: SystemFacts) -> (r: SystemContext)
    ensures
        r.relevant_binaries.wf(),
        r.installed_providers.wf(),
        r.os == facts.os,
        r.architecture == facts.architecture,
        r.kernel@ == (match facts.kernel {
            Some(out) => text::trimmed(out@),
            None => ""@,
        }),
        r.os_version@ == (match facts.os_release {
            Some(content) => match system_name(text::lines_of(content@)) {
                Some(v) => v,
                None => kernel_name(facts.kernel_version),
            },
            None => kernel_name(facts.kernel_version),
        }),
        r.has_kvm == facts.has_kvm,
        facts.os_release is None && facts.kernel_version is None ==> r.os_version@ == "unknown"@,
        facts.os_release is None && facts.kernel_version is Some ==> r.os_version@ == text::trimmed(
            facts.kernel_version->0@,
        ),
        r.has_nested_virt == Some(
            match (facts.nested_intel, facts.nested_amd) {
                (Some(t), _) => text::trimmed(t@) == "Y"@,
                (None, Some(t)) => text::trimmed(t@) == "Y"@,
                (None, None) => false,
            },
        ),
        binaries(r.relevant_binaries@) == Map::<Seq<char>, BinaryView>::empty().insert(
            "podman"@,
            binary_of("podman"@, facts.podman),
        ).insert("docker"@, binary_of("docker"@, facts.docker)).insert(
            "firecracker"@,
            binary_of("firecracker"@, facts.firecracker),
        ).insert("runsc"@, binary_of("runsc"@, facts.runsc)).insert(
            "kubectl"@,
            binary_of("kubectl"@, facts.kubectl),
        ).insert("helm"@, binary_of("helm"@, facts.helm)),
        providers(r.installed_providers@) == Map::<Seq<char>, ProviderView>::empty().insert(
            "podman"@,
            provider_of("podman"@, facts.podman),
        ).insert("docker"@, provider_of("docker"@, facts.docker)).insert(
            "firecracker"@,
            provider_of("firecracker"@, facts.firecracker),
        ).insert("gvisor"@, provider_of("gvisor"@, facts.runsc)),
{
    let kernel = match &facts.kernel {
        Some(out) => trim(out.as_str()),
        None => "".to_owned(),
    };
    let otherwise = match &facts.kernel_version {
        Some(out) => trim(out.as_str()),
        None => "unknown".to_owned(),
    };
    let release = match &facts.os_release {
        Some(content) => Some(content.as_str()),
        None => None,
    };
    let intel = match &facts.nested_intel {
        Some(t) => Some(t.as_str()),
        None => None,
    };
    let amd = match &facts.nested_amd {
        Some(t) => Some(t.as_str()),
        None => None,
    };
    let mut relevant: Assoc<BinaryInfo> = Assoc::new();
    assert(binaries(relevant@) =~= Map::<Seq<char>, BinaryView>::empty());
    put_binary(&mut relevant, "podman", &facts.podman);
    put_binary(&mut relevant, "docker", &facts.docker);
    put_binary(&mut relevant, "firecracker", &facts.firecracker);
    put_binary(&mut relevant, "runsc", &facts.runsc);
    put_binary(&mut relevant, "kubectl", &facts.kubectl);
    put_binary(&mut relevant, "helm", &facts.helm);
    let mut installed: Assoc<ProviderInfo> = Assoc::new();
    assert(providers(installed@) =~= Map::<Seq<char>, ProviderView>::empty());
    put_provider(&mut installed, "podman", &facts.podman);
    put_provider(&mut installed, "docker", &facts.docker);
    put_provider(&mut installed, "firecracker", &facts.firecracker);
    put_provider(&mut installed, "gvisor", &facts.runsc);
    SystemContext {
        os: facts.os,
        os_version: os_version(release, otherwise),
        architecture: facts.architecture,
        kernel,
        has_kvm: facts.has_kvm,
        has_nested_virt: Some(nested_virt(intel, amd)),
        relevant_binaries: relevant,
        installed_providers: installed,
    }
}

/// The version of the kernel, or what stands for it where it is not known.
pub open spec fn kernel_name(out: Option<String>) -> Seq<char> {
    match out {
        Some(o) => text::trimmed(o@),
        None => "unknown"@,
    }
}

/// Whether one of the lines lists the flag of a processor that can run virtual
/// machines.
pub open spec fn lists_virt_flag(all: Seq<Seq<char>>) -> bool {
    exists|i: int| 0 <= i < all.len() && has_virt_flag(#[trigger] all[i])
}

/// Whether a line lists the flag of a processor that can run virtual machines.
pub open spec fn has_virt_flag(line: Seq<char>) -> bool {
    text::has_prefix(line, "flags"@) && (text::contains_text(line, "vmx"@) || text::contains_text(line, "svm"@))
}

/// Whether the processor can run virtual machines, from `/proc/cpuinfo`.
pub fn cpu_virtualization(cpuinfo: Option<&str>) -> (r: bool)
    ensures
        r == (match cpuinfo {
            Some(content) => lists_virt_flag(text::lines_of(content@)),
            None => false,
        }),
        cpuinfo is None ==> !r,
        cpuinfo is Some ==> (r <==> exists|i: int|
            0 <= i < text::lines_of(cpuinfo->0@).len() && text::has_prefix(
                #[trigger] text::lines_of(cpuinfo->0@)[i],
                "flags"@,
            ) && (text::contains_text(text::lines_of(cpuinfo->0@)[i], "vmx"@) || text::contains_text(
                text::lines_of(cpuinfo->0@)[i],
                "svm"@,
            ))),
{
    match cpuinfo {
        None => false,
        Some(content) => {
            let all = lines(content);
            let ghost file = text::texts(all@);
            let mut i: usize = 0;
            while i < all.len()
                invariant
                    i <= all@.len(),
                    file == text::texts(all@),
                    file == text::lines_of(content@),
                    cpuinfo == Some(content),
                    forall|j: int| 0 <= j < i ==> !has_virt_flag(#[trigger] file[j]),
                decreases all@.len() - i,
            {
                let line = all[i].as_str();
                assert(file[i as int] == line@);
                if starts_with(line, "flags") && (contains(line, "vmx") || contains(line, "svm")) {
                    proof {
                        let k = i as int;
                        let told = text::lines_of(cpuinfo->0@);
                        assert(0 <= k < told.len() && told[k] == line@);
                        assert(text::has_prefix(told[k], "flags"@));
                        assert(text::contains_text(told[k], "vmx"@) || text::contains_text(
                            told[k],
                            "svm"@,
                        ));
                    }
                    return true;
                }
                i = i + 1;
            }
            false
        },
    }
}

/// The name of a system is what its first line that gives one says, and there is none where no
/// line does.
pub proof fn law_first_name_counts(all: Seq<Seq<char>>, i: int)
    requires
        0 <= i <= all.len(),
        forall|j: int|
            0 <= j < i ==> !((text::has_prefix(#[trigger] all[j], "PRETTY_NAME="@)
                || text::has_prefix(all[j], "VERSION="@)) && release_value(all[j]).len() > 0),
        i < all.len() ==> (text::has_prefix(all[i], "PRETTY_NAME="@) || text::has_prefix(
            all[i],
            "VERSION="@,
        )) && release_value(all[i]).len() > 0,
    ensures
        i < all.len() ==> system_name(all) == Some(release_value(all[i])),
        i == all.len() ==> system_name(all) is None,
    decreases all.len(),
{
    if i > 0 {
        let rest = all.drop_first();
        assert(!names_system(all[0]));
        assert forall|j: int| 0 <= j < i - 1 implies !((text::has_prefix(
            #[trigger] rest[j],
            "PRETTY_NAME="@,
        ) || text::has_prefix(rest[j], "VERSION="@)) && release_value(rest[j]).len() > 0) by {
            assert(rest[j] == all[j + 1]);
        }
        if i < all.len() {
            assert(rest[i - 1] == all[i]);
        }
        law_first_name_counts(rest, i - 1);
    }
}

/// The value of a line stands behind its first equals sign, without the quotes and the white
/// space around it.
pub proof fn law_value_stands_behind_the_equals_sign(key: Seq<char>, value: Seq<char>)
    requires
        !key.contains('='),
    ensures
        release_value(key + seq!['='] + value) == text::trimmed(text::trim_matches_of(value, '"')),
{
    let line = key + seq!['='] + value;
    assert forall|j: int| 0 <= j < key.len() implies line[j] != '=' by {
        assert(key.contains(key[j]));
    }
    text::lemma_first_position(line, '=', key.len() as int);
    assert(line.skip(key.len() as int + 1) =~= value);
}

/// The version of a binary is the first line of what it printed, once the white space around
/// all of it is taken off.
pub proof fn law_version_is_the_first_line(out: Seq<char>, line: Seq<char>, rest: Seq<char>)
    requires
        !line.contains('\n'),
        line.len() == 0 || line.last() != '\r',
    ensures
        text::trimmed(out) == line + seq!['\n'] + rest ==> version_line(out) == line,
        text::trimmed(out) == line ==> version_line(out) == line,
{
    text::law_lines_end_at_line_feeds(line, rest);
}

} // verus!
