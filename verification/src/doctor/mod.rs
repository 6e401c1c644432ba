//! Checks of the machine, with what is wrong and how to mend it.
use vstd::prelude::*;

use crate::assoc::Assoc;
use crate::domain::{Pair, Timestamp};
use crate::json::Json;
use crate::text;
use crate::text::{lines, starts_with, str_eq, trim, trim_matches, trim_start_text, words};

pub mod checks;

verus! {

/// How a check came out.
#[derive(Debug, Clone, Copy, PartialEq, Eq, Structural)]
pub enum RichCheckStatus {
    Pass,
    Fail,
    Skip,
    Error,
}

/// What is to be done about a check that failed.
#[derive(Debug)]
pub struct RichRemediation {
    /// What has to be mended.
    pub summary: String,
    /// The commands, one after the other.
    pub steps: Vec<RemediationStep>,
    /// How long it may take.
    pub estimated_time: Option<String>,
    /// Where to read about it.
    pub docs_url: Option<String>,
}

/// One step of what is to be done.
#[derive(Debug)]
pub struct RemediationStep {
    /// The number of the step, from 1 on.
    pub step: usize,
    pub command: String,
    pub description: String,
    /// The command that shows whether the step worked.
    pub verify_after: Option<String>,
}

/// The machine at the time of a check.
pub struct SystemContext {
    pub os: Option<String>,
    pub os_version: Option<String>,
    pub architecture: Option<String>,
    pub kernel: Option<String>,
    /// Whether `/dev/kvm` exists.
    pub kvm_exists: bool,
    /// The permissions of `/dev/kvm` as octal digits.
    pub kvm_permissions: Option<String>,
    pub in_kvm_group: bool,
    /// The binaries that were looked for, and where they lie.
    pub installed_binaries: Assoc<Option<String>>,
}

impl SystemContext {
    pub open spec fn wf(self) -> bool {
        self.installed_binaries.wf()
    }

    /// Nothing is known of the machine.
    pub fn new() -> (r: Self)
        ensures
            r.wf(),
            r.os is None,
            r.os_version is None,
            r.architecture is None,
            r.kernel is None,
            !r.kvm_exists,
            r.kvm_permissions is None,
            !r.in_kvm_group,
            r.installed_binaries@ == Map::<Seq<char>, Option<String>>::empty(),
    {
        SystemContext {
            os: None,
            os_version: None,
            architecture: None,
            kernel: None,
            kvm_exists: false,
            kvm_permissions: None,
            in_kvm_group: false,
            installed_binaries: Assoc::new(),
        }
    }

    /// The same machine, with where a binary lies.
    pub fn with_binary(self, name: &str, path: Option<String>) -> (r: Self)
        requires
            self.wf(),
        ensures
            r.wf(),
            r.installed_binaries@ == self.installed_binaries@.insert(name@, path),
            r.os == self.os,
            r.os_version == self.os_version,
            r.architecture == self.architecture,
            r.kernel == self.kernel,
            r.kvm_exists == self.kvm_exists,
            r.kvm_permissions == self.kvm_permissions,
            r.in_kvm_group == self.in_kvm_group,
    {
        let mut installed_binaries = self.installed_binaries;
        let _ = installed_binaries.insert(name.to_owned(), path);
        SystemContext {
            os: self.os,
            os_version: self.os_version,
            architecture: self.architecture,
            kernel: self.kernel,
            kvm_exists: self.kvm_exists,
            kvm_permissions: self.kvm_permissions,
            in_kvm_group: self.in_kvm_group,
            installed_binaries,
        }
    }
}

impl Default for SystemContext {
    fn default() -> (r: Self)
        ensures
            r.wf(),
            r.os is None,
            r.os_version is None,
            r.architecture is None,
            r.kernel is None,
            !r.kvm_exists,
            r.kvm_permissions is None,
            !r.in_kvm_group,
            r.installed_binaries@ == Map::<Seq<char>, Option<String>>::empty(),
    {
        Self::new()
    }
}

/// The version that the lines of an `os-release` file give: the last `VERSION`, or the
/// `PRETTY_NAME` that came before any of them.
pub open spec fn release_version(all: Seq<Seq<char>>) -> Option<Seq<char>>
    decreases all.len(),
{
    if all.len() == 0 {
        None
    } else {
        let line = all.last();
        let before = release_version(all.drop_last());
        if text::has_prefix(line, "VERSION="@) {
            Some(text::trim_matches_of(text::trim_start_text_of(line, "VERSION="@), '"'))
        } else if text::has_prefix(line, "PRETTY_NAME="@) && before is None {
            Some(text::trim_matches_of(text::trim_start_text_of(line, "PRETTY_NAME="@), '"'))
        } else {
            before
        }
    }
}

/// The version that an `os-release` file gives.
pub fn parse_os_release(content: &str) -> (r: Option<String>)
    ensures
        match r {
            Some(v) => release_version(text::lines_of(content@)) == Some(v@),
            None => release_version(text::lines_of(content@)) is None,
        },
{
    let all = lines(content);
    let ghost file = text::texts(all@);
    let mut version: Option<String> = None;
    let mut i: usize = 0;
    proof {
        reveal_strlit("VERSION=");
        reveal_strlit("PRETTY_NAME=");
        assert(file.take(0) =~= seq![]);
        assert("VERSION="@[0] != "PRETTY_NAME="@[0]);
    }
    while i < all.len()
        invariant
            i <= all@.len(),
            file == text::texts(all@),
            "VERSION="@.len() > 0,
            "PRETTY_NAME="@.len() > 0,
            "VERSION="@[0] != "PRETTY_NAME="@[0],
            match version {
                Some(v) => release_version(file.take(i as int)) == Some(v@),
                None => release_version(file.take(i as int)) is None,
            },
        decreases all@.len() - i,
    {
        let line = all[i].as_str();
        proof {
            assert(file.take(i + 1).drop_last() =~= file.take(i as int));
            assert(file.take(i + 1).last() == line@);
        }
        if starts_with(line, "VERSION=") {
            let value = trim_start_text(line, "VERSION=");
            version = Some(trim_matches(value.as_str(), '"'));
        } else if starts_with(line, "PRETTY_NAME=") {
            if version.is_none() {
                let value = trim_start_text(line, "PRETTY_NAME=");
                version = Some(trim_matches(value.as_str(), '"'));
            }
        }
        i = i + 1;
    }
    assert(file.take(i as int) =~= file);
    version
}

/// Whether the groups of a user, as `id` tells them, give access to the KVM device.
pub fn in_kvm_group(groups: &str) -> (r: bool)
    ensures
        r == (text::words_of(groups@).contains("kvm"@) || text::words_of(groups@).contains("libvirt"@)),
{
    let all = words(groups);
    let ghost found = text::texts(all@);
    let mut i: usize = 0;
    while i < all.len()
        invariant
            i <= all@.len(),
            found == text::texts(all@),
            found == text::words_of(groups@),
            forall|j: int|
                0 <= j < i ==> #[trigger] found[j] != "kvm"@ && found[j] != "libvirt"@,
        decreases all@.len() - i,
    {
        if str_eq(all[i].as_str(), "kvm") || str_eq(all[i].as_str(), "libvirt") {
            assert(found[i as int] == "kvm"@ || found[i as int] == "libvirt"@);
            return true;
        }
        i = i + 1;
    }
    false
}

/// Where a binary lies, from what `which` printed; none where it failed or printed
/// nothing.
pub fn located_binary(success: bool, stdout: &str) -> (r: Option<String>)
    ensures
        match r {
            Some(p) => success && p@ == text::trimmed(stdout@) && p@.len() > 0,
            None => !success || text::trimmed(stdout@).len() == 0,
        },
{
    if !success {
        return None;
    }
    let path = trim(stdout);
    if path.as_str().is_empty() {
        None
    } else {
        Some(path)
    }
}

/// The digits of a number in base 8.
pub open spec fn octal(n: nat) -> Seq<char>
    decreases n,
{
    if n < 8 {
        seq![crate::text::digit_char(n)]
    } else {
        octal(n / 8).push(crate::text::digit_char(n % 8))
    }
}

fn octal_digit(n: u32) -> (r: char)
    requires
        n < 8,
    ensures
        r == crate::text::digit_char(n as nat),
        '0' <= r <= '7',
        r as u32 - 48 == n,
{
    match n {
        0 => '0',
        1 => '1',
        2 => '2',
        3 => '3',
        4 => '4',
        5 => '5',
        6 => '6',
        _ => '7',
    }
}

/// The permissions of a file as octal digits, from its mode.
pub fn permission_text(mode: u32) -> (r: String)
    ensures
        r@ == octal((mode % 512) as nat),
        forall|i: int| 0 <= i < r@.len() ==> '0' <= #[trigger] r@[i] <= '7',
        mode % 512 < 8 ==> r@.len() == 1 && mode % 512 == r@[0] as u32 - 48,
        8 <= mode % 512 < 64 ==> r@.len() == 2 && mode % 512 == 8 * (r@[0] as u32 - 48) + (r@[1] as u32
            - 48),
        mode % 512 >= 64 ==> r@.len() == 3 && mode % 512 == 64 * (r@[0] as u32 - 48) + 8 * (
        r@[1] as u32 - 48) + (r@[2] as u32 - 48),
{
    let bits: u32 = mode % 512;
    let mut out = String::new();
    if bits >= 64 {
        out.push(octal_digit(bits / 64));
        out.push(octal_digit((bits / 8) % 8));
        out.push(octal_digit(bits % 8));
        proof {
            reveal_with_fuel(octal, 3);
            assert((bits / 8) / 8 == bits / 64);
            assert(out@ =~= octal(bits as nat));
        }
    } else if bits >= 8 {
        out.push(octal_digit(bits / 8));
        out.push(octal_digit(bits % 8));
        proof {
            reveal_with_fuel(octal, 2);
            assert(out@ =~= octal(bits as nat));
        }
    } else {
        out.push(octal_digit(bits));
        assert(out@ =~= octal(bits as nat));
    }
    out
}

/// What a command answered: whether it succeeded, and what it printed.
#[derive(Debug)]
pub struct CommandOutput {
    pub success: bool,
    pub stdout: String,
}

/// The system that a machine runs.
#[derive(Debug, Clone, Copy, PartialEq, Eq, Structural)]
pub enum Platform {
    Linux,
    MacOs,
    Other,
}

/// What the machine answered to the questions from which its context is made. What could
/// not be read or run is missing.
pub struct SystemFacts {
    pub platform: Platform,
    pub architecture: Option<String>,
    /// The content of `/etc/os-release`.
    pub os_release: Option<String>,
    /// What `uname -r` printed.
    pub uname: Option<String>,
    /// What `sw_vers -productVersion` printed.
    pub product_version: Option<String>,
    /// Whether `/dev/kvm` exists.
    pub kvm_exists: bool,
    /// The mode of `/dev/kvm`.
    pub kvm_mode: Option<u32>,
    /// What `id -Gn` printed.
    pub groups: Option<String>,
    /// What `which` answered for each binary.
    pub podman: Option<CommandOutput>,
    pub docker: Option<CommandOutput>,
    pub runsc: Option<CommandOutput>,
    pub firecracker: Option<CommandOutput>,
    pub which: Option<CommandOutput>,
}

/// Where a binary lies, from what `which` answered.
pub open spec fn place_of(answer: Option<CommandOutput>) -> Option<Seq<char>> {
    match answer {
        Some(o) => if o.success && text::trimmed(o.stdout@).len() > 0 {
            Some(text::trimmed(o.stdout@))
        } else {
            None
        },
        None => None,
    }
}

fn locate(answer: &Option<CommandOutput>) -> (r: Option<String>)
    ensures
        checks::optional(r) == place_of(*answer),
        r is Some <==> answer is Some && answer->0.success && text::trimmed(
            answer->0.stdout@,
        ).len() > 0,
        r is Some ==> r->0@ == text::trimmed(answer->0.stdout@),
{
    match answer {
        Some(o) => located_binary(o.success, o.stdout.as_str()),
        None => None,
    }
}

/// A text without white space around it, where there is one.
pub open spec fn trimmed_of(s: Option<String>) -> Option<Seq<char>> {
    match s {
        Some(t) => Some(text::trimmed(t@)),
        None => None,
    }
}

fn trim_optional(s: &Option<String>) -> (r: Option<String>)
    ensures
        checks::optional(r) == trimmed_of(*s),
        r is Some <==> s is Some,
        r is Some ==> r->0@ == text::trimmed(s->0@),
{
    match s {
        Some(t) => Some(trim(t.as_str())),
        None => None,
    }
}

/// The places of binaries by name.
pub open spec fn places(m: Map<Seq<char>, Option<String>>) -> Map<Seq<char>, Option<Seq<char>>> {
    m.map_values(|p: Option<String>| checks::optional(p))
}

proof fn lemma_places_insert(
    m: Map<Seq<char>, Option<String>>,
    name: Seq<char>,
    path: Option<String>,
)
    ensures
        places(m.insert(name, path)) == places(m).insert(name, checks::optional(path)),
{
    assert(places(m.insert(name, path)) =~= places(m).insert(name, checks::optional(path)));
}

/// The context of a machine, from what it answered. Its version comes from the
/// `os-release` file on Linux and from `sw_vers` on macOS. Permissions and groups are
/// looked at only where there is a KVM device.
pub fn gather_system_context(facts: SystemFacts) -> (r: SystemContext)
    ensures
        r.wf(),
        checks::optional(r.os) == (match facts.platform {
            Platform::Linux => Some("Linux"@),
            Platform::MacOs => Some("macOS"@),
            Platform::Other => None,
        }),
        checks::optional(r.os_version) == (match facts.platform {
            Platform::Linux => match facts.os_release {
                Some(content) => release_version(text::lines_of(content@)),
                None => None,
            },
            Platform::MacOs => trimmed_of(facts.product_version),
            Platform::Other => None,
        }),
        checks::optional(r.kernel) == (if facts.platform is Linux {
            trimmed_of(facts.uname)
        } else {
            None
        }),
        r.architecture == facts.architecture,
        r.kvm_exists == facts.kvm_exists,
        checks::optional(r.kvm_permissions) == (match facts.kvm_mode {
            Some(mode) if facts.kvm_exists => Some(octal((mode % 512) as nat)),
            _ => None,
        }),
        r.in_kvm_group == (facts.kvm_exists && (match facts.groups {
            Some(groups) => text::words_of(groups@).contains("kvm"@) || text::words_of(
                groups@,
            ).contains("libvirt"@),
            None => false,
        })),
        places(r.installed_binaries@) == Map::<Seq<char>, Option<Seq<char>>>::empty().insert(
            "podman"@,
            place_of(facts.podman),
        ).insert("docker"@, place_of(facts.docker)).insert("runsc"@, place_of(facts.runsc)).insert(
            "firecracker"@,
            place_of(facts.firecracker),
        ).insert("which"@, place_of(facts.which)),
{
    let mut ctx = SystemContext::new();
    match facts.platform {
        Platform::Linux => {
            ctx.os = Some("Linux".to_owned());
            if let Some(content) = &facts.os_release {
                ctx.os_version = parse_os_release(content.as_str());
            }
            ctx.kernel = trim_optional(&facts.uname);
        },
        Platform::MacOs => {
            ctx.os = Some("macOS".to_owned());
            ctx.os_version = trim_optional(&facts.product_version);
        },
        Platform::Other => {},
    }
    ctx.architecture = facts.architecture;
    ctx.kvm_exists = facts.kvm_exists;
    if facts.kvm_exists {
        if let Some(mode) = facts.kvm_mode {
            ctx.kvm_permissions = Some(permission_text(mode));
        }
        if let Some(groups) = &facts.groups {
            ctx.in_kvm_group = in_kvm_group(groups.as_str());
        }
    }
    let ghost none = ctx.installed_binaries@;
    assert(places(none) =~= Map::<Seq<char>, Option<Seq<char>>>::empty());
    let podman = locate(&facts.podman);
    let docker = locate(&facts.docker);
    let runsc = locate(&facts.runsc);
    let firecracker = locate(&facts.firecracker);
    let which = locate(&facts.which);
    proof {
        lemma_places_insert(none, "podman"@, podman);
        let one = none.insert("podman"@, podman);
        lemma_places_insert(one, "docker"@, docker);
        let two = one.insert("docker"@, docker);
        lemma_places_insert(two, "runsc"@, runsc);
        let three = two.insert("runsc"@, runsc);
        lemma_places_insert(three, "firecracker"@, firecracker);
        lemma_places_insert(three.insert("firecracker"@, firecracker), "which"@, which);
    }
    ctx.with_binary("podman", podman).with_binary("docker", docker).with_binary(
        "runsc",
        runsc,
    ).with_binary("firecracker", firecracker).with_binary("which", which)
}

/// A check with all that a reader needs to act on it.
pub struct RichCheckResult {
    pub check_id: String,
    pub check_type: String,
    pub status: RichCheckStatus,
    pub current_state: Json,
    pub expected_state: Json,
    /// What is wrong, by what it is about.
    pub delta: Vec<Pair>,
    pub remediation: Option<RichRemediation>,
    pub system_context: SystemContext,
    pub trace_id: String,
    pub executed_at: Timestamp,
}

impl RichCheckResult {
    /// The result of a check.
    pub fn new(
        check_id: String,
        check_type: String,
        status: RichCheckStatus,
        current_state: Json,
        expected_state: Json,
        delta: Vec<Pair>,
        remediation: Option<RichRemediation>,
        system_context: SystemContext,
        trace_id: String,
        executed_at: Timestamp,
    ) -> (r: Self)
        ensures
            r == (RichCheckResult {
                check_id,
                check_type,
                status,
                current_state,
                expected_state,
                delta,
                remediation,
                system_context,
                trace_id,
                executed_at,
            }),
    {
        RichCheckResult {
            check_id,
            check_type,
            status,
            current_state,
            expected_state,
            delta,
            remediation,
            system_context,
            trace_id,
            executed_at,
        }
    }

    /// The result of a check that passed: nothing is wrong, and nothing to be done.
    pub fn pass(
        check_id: String,
        check_type: String,
        current_state: Json,
        expected_state: Json,
        system_context: SystemContext,
        trace_id: String,
        executed_at: Timestamp,
    ) -> (r: Self)
        ensures
            r.check_id == check_id,
            r.check_type == check_type,
            r.status is Pass,
            r.current_state == current_state,
            r.expected_state == expected_state,
            r.delta@.len() == 0,
            r.remediation is None,
            r.system_context == system_context,
            r.trace_id == trace_id,
            r.executed_at == executed_at,
    {
        Self::new(
            check_id,
            check_type,
            RichCheckStatus::Pass,
            current_state,
            expected_state,
            Vec::new(),
            None,
            system_context,
            trace_id,
            executed_at,
        )
    }

    /// The result of a check that failed: it says what is to be done.
    pub fn fail(
        check_id: String,
        check_type: String,
        current_state: Json,
        expected_state: Json,
        delta: Vec<Pair>,
        remediation: RichRemediation,
        system_context: SystemContext,
        trace_id: String,
        executed_at: Timestamp,
    ) -> (r: Self)
        ensures
            r == (RichCheckResult {
                check_id,
                check_type,
                status: RichCheckStatus::Fail,
                current_state,
                expected_state,
                delta,
                remediation: Some(remediation),
                system_context,
                trace_id,
                executed_at,
            }),
    {
        Self::new(
            check_id,
            check_type,
            RichCheckStatus::Fail,
            current_state,
            expected_state,
            delta,
            Some(remediation),
            system_context,
            trace_id,
            executed_at,
        )
    }
}

/// The version of a system is what its last `VERSION` line gives. Where there is none, it is
/// what the first `PRETTY_NAME` line gives.
pub proof fn law_last_version_counts(all: Seq<Seq<char>>, i: int)
    requires
        0 <= i < all.len(),
        ({
            let by_version = text::has_prefix(all[i], "VERSION="@) && forall|j: int|
                i < j < all.len() ==> !text::has_prefix(#[trigger] all[j], "VERSION="@);
            let by_name = text::has_prefix(all[i], "PRETTY_NAME="@) && (forall|j: int|
                0 <= j < all.len() ==> !text::has_prefix(#[trigger] all[j], "VERSION="@)) && (
            forall|j: int| 0 <= j < i ==> !text::has_prefix(#[trigger] all[j], "PRETTY_NAME="@));
            by_version || by_name
        }),
    ensures
        text::has_prefix(all[i], "VERSION="@) ==> release_version(all) == Some(
            text::trim_matches_of(text::trim_start_text_of(all[i], "VERSION="@), '"'),
        ),
        !text::has_prefix(all[i], "VERSION="@) ==> release_version(all) == Some(
            text::trim_matches_of(text::trim_start_text_of(all[i], "PRETTY_NAME="@), '"'),
        ),
    decreases all.len(),
{
    let last = all.len() - 1;
    let front = all.drop_last();
    assert(all.last() == all[last]);
    assert forall|j: int| 0 <= j < front.len() implies front[j] == all[j] by {}
    if i < last {
        assert(!text::has_prefix(all[last], "VERSION="@));
        assert(front[i] == all[i]);
        law_last_version_counts(front, i);
    } else if !text::has_prefix(all[i], "VERSION="@) {
        assert forall|j: int| 0 <= j < front.len() implies !text::has_prefix(
            #[trigger] front[j],
            "VERSION="@,
        ) && !text::has_prefix(front[j], "PRETTY_NAME="@) by {
            assert(front[j] == all[j]);
        }
        law_no_version_without_a_line(front);
    }
}

/// Without a line that gives a version there is none.
pub proof fn law_no_version_without_a_line(all: Seq<Seq<char>>)
    requires
        forall|j: int|
            0 <= j < all.len() ==> !text::has_prefix(#[trigger] all[j], "VERSION="@)
                && !text::has_prefix(all[j], "PRETTY_NAME="@),
    ensures
        release_version(all) is None,
    decreases all.len(),
{
    if all.len() > 0 {
        let front = all.drop_last();
        assert(!text::has_prefix(all[all.len() - 1], "VERSION="@));
        assert forall|j: int| 0 <= j < front.len() implies !text::has_prefix(
            #[trigger] front[j],
            "VERSION="@,
        ) && !text::has_prefix(front[j], "PRETTY_NAME="@) by {
            assert(front[j] == all[j]);
        }
        law_no_version_without_a_line(front);
    }
}

} // verus!
