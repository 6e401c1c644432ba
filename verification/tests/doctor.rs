use std::sync::Arc;

use bastion_infrastructure::assoc::Assoc;
use bastion_infrastructure::catalog::toml_doctor_parser::Severity;
use bastion_infrastructure::doctor;
use bastion_infrastructure::doctor::checks;
use bastion_infrastructure::doctor::checks::binary_available::{self, BinaryInfo};
use bastion_infrastructure::doctor::checks::image_available;
use bastion_infrastructure::doctor::checks::kvm_available;
use bastion_infrastructure::doctor::checks::provider_alive;
use bastion_infrastructure::doctor::checks::worker_binary_valid::{
    self, FileFacts, ProgramOutput,
};
use bastion_infrastructure::doctor::checks::{
    BinaryAnswers, CheckStatus, RichCheckResult, SystemContext,
};
use bastion_infrastructure::doctor::{CommandOutput, Platform, RichCheckStatus};
use bastion_infrastructure::domain::{Pair, Timestamp};
use bastion_infrastructure::json::Json;

fn s(text: &str) -> String {
    text.to_string()
}

fn now() -> Timestamp {
    Timestamp { secs: 7, nanos: 8 }
}

fn text_at<'a>(state: &'a Json, name: &str) -> Option<&'a str> {
    state.get(name).unwrap().as_text()
}

fn assert_failed(r: &RichCheckResult, item: &str, severity: Severity) {
    assert_eq!(r.status, CheckStatus::Fail);
    assert_eq!(r.delta.len(), 1);
    assert_eq!(r.delta[0].item, item);
    assert_eq!(r.delta[0].severity, severity);
    assert!(r.remediation.is_some());
    assert_eq!(r.trace_id.len(), 36);
    assert_eq!(r.executed_at, now());
}

fn assert_passed(r: &RichCheckResult) {
    assert_eq!(r.status, CheckStatus::Pass);
    assert!(r.delta.is_empty());
    assert!(r.remediation.is_none());
}

fn ran(stdout: &str) -> Option<CommandOutput> {
    Some(CommandOutput { success: true, stdout: s(stdout) })
}

fn nothing() -> doctor::SystemFacts {
    doctor::SystemFacts {
        platform: Platform::Linux,
        architecture: Some(s("x86_64")),
        os_release: None,
        uname: None,
        product_version: None,
        kvm_exists: false,
        kvm_mode: Some(0o100660),
        groups: Some(s("users kvm")),
        podman: None,
        docker: None,
        runsc: None,
        firecracker: None,
        which: None,
    }
}

#[test]
fn the_machine_as_it_answered() {
    let mut facts = nothing();
    facts.os_release = Some(s("NAME=x\nPRETTY_NAME=\"Debian 12\"\nVERSION=\"12 (bookworm)\"\n"));
    facts.uname = Some(s(" 6.1.0 \n"));
    facts.kvm_exists = true;
    facts.podman = ran("/usr/bin/podman\n");
    facts.docker = Some(CommandOutput { success: false, stdout: s("/usr/bin/docker") });
    facts.runsc = ran("  \n");
    let ctx = doctor::gather_system_context(facts);
    assert_eq!(ctx.os.as_deref(), Some("Linux"));
    assert_eq!(ctx.os_version.as_deref(), Some("12 (bookworm)"));
    assert_eq!(ctx.kernel.as_deref(), Some("6.1.0"));
    assert_eq!(ctx.architecture.as_deref(), Some("x86_64"));
    assert_eq!(ctx.kvm_permissions.as_deref(), Some("660"));
    assert!(ctx.kvm_exists);
    assert!(ctx.in_kvm_group);
    assert_eq!(ctx.installed_binaries.len(), 5);
    assert_eq!(ctx.installed_binaries.get("podman").unwrap().as_deref(), Some("/usr/bin/podman"));
    assert_eq!(ctx.installed_binaries.get("docker").unwrap(), &None);
    assert_eq!(ctx.installed_binaries.get("runsc").unwrap(), &None);
    assert!(ctx.installed_binaries.get("helm").is_none());
}

#[test]
fn without_a_device_groups_do_not_matter() {
    let ctx = doctor::gather_system_context(nothing());
    assert!(!ctx.in_kvm_group);
    assert_eq!(ctx.kvm_permissions, None);
    assert_eq!(ctx.os_version, None);
    let mut mac = nothing();
    mac.platform = Platform::MacOs;
    mac.product_version = Some(s("14.4\n"));
    mac.uname = Some(s("23"));
    let ctx = doctor::gather_system_context(mac);
    assert_eq!(ctx.os.as_deref(), Some("macOS"));
    assert_eq!(ctx.os_version.as_deref(), Some("14.4"));
    assert_eq!(ctx.kernel, None);
}

#[test]
fn releases_and_groups_are_read() {
    assert_eq!(
        doctor::parse_os_release("PRETTY_NAME=\"A\"\nPRETTY_NAME=\"B\""),
        Some(s("A"))
    );
    assert_eq!(doctor::parse_os_release("VERSION=1\nVERSION=2"), Some(s("2")));
    assert_eq!(doctor::parse_os_release("ID=x"), None);
    assert!(doctor::in_kvm_group("a libvirt\n"));
    assert!(!doctor::in_kvm_group("kvmx"));
    assert_eq!(doctor::permission_text(0o20644), "644");
    assert_eq!(doctor::permission_text(0o7), "7");
    assert_eq!(doctor::permission_text(0o60), "60");
}

#[test]
fn results_pass_or_fail() {
    let ctx = doctor::SystemContext::new().with_binary("podman", Some(s("/bin/podman")));
    let passed = doctor::RichCheckResult::pass(
        s("id"),
        s("type"),
        Json::Null,
        Json::Bool(true),
        ctx,
        s("trace"),
        now(),
    );
    assert_eq!(passed.status, RichCheckStatus::Pass);
    assert!(passed.delta.is_empty());
    assert!(passed.remediation.is_none());
    let remedy = doctor::RichRemediation {
        summary: s("mend"),
        steps: vec![],
        estimated_time: None,
        docs_url: None,
    };
    let failed = doctor::RichCheckResult::fail(
        s("id"),
        s("type"),
        Json::Null,
        Json::Null,
        vec![Pair { key: s("k"), value: s("v") }],
        remedy,
        doctor::SystemContext::default(),
        s("trace"),
        now(),
    );
    assert_eq!(failed.status, RichCheckStatus::Fail);
    assert_eq!(failed.remediation.unwrap().summary, "mend");
}

fn absent() -> BinaryAnswers {
    BinaryAnswers { which: None, version: None }
}

#[test]
fn what_the_checks_know_of_the_machine() {
    let ctx = checks::gather_system_context(checks::SystemFacts {
        os: s("linux"),
        architecture: s("x86_64"),
        os_release: Some(s("VERSION=\nPRETTY_NAME=\" Debian \"\nVERSION=12")),
        kernel: None,
        kernel_version: Some(s("#1 SMP\n")),
        has_kvm: true,
        nested_intel: Some(s("Y\n")),
        nested_amd: None,
        podman: BinaryAnswers { which: ran("/bin/podman\n"), version: ran("podman 4\nmore\n") },
        docker: BinaryAnswers {
            which: Some(CommandOutput { success: false, stdout: s("") }),
            version: ran("docker 1"),
        },
        firecracker: absent(),
        runsc: BinaryAnswers { which: ran("/bin/runsc"), version: None },
        kubectl: absent(),
        helm: absent(),
    });
    assert_eq!(ctx.os_version, "Debian");
    assert_eq!(ctx.kernel, "");
    assert_eq!(ctx.has_nested_virt, Some(true));
    assert_eq!(ctx.relevant_binaries.len(), 6);
    let podman = ctx.relevant_binaries.get("podman").unwrap();
    assert_eq!(podman.path.as_deref(), Some("/bin/podman"));
    assert_eq!(podman.version.as_deref(), Some("podman 4"));
    let docker = ctx.relevant_binaries.get("docker").unwrap();
    assert_eq!(docker.path, None);
    assert_eq!(docker.version, None);
    let gvisor = ctx.installed_providers.get("gvisor").unwrap();
    assert!(gvisor.available);
    assert_eq!(gvisor.version, None);
    assert!(!ctx.installed_providers.get("firecracker").unwrap().available);
}

#[test]
fn versions_fall_back_on_the_kernel() {
    assert_eq!(checks::os_version(None, s("kernel")), "kernel");
    assert_eq!(checks::os_version(Some("ID=x\nVERSION=\"\""), s("kernel")), "kernel");
    assert!(!checks::nested_virt(Some("N"), Some("Y")));
    assert!(checks::nested_virt(None, Some(" Y ")));
    assert!(!checks::nested_virt(None, None));
    assert_eq!(checks::binary_version(true, " v1 \nx"), Some(s("v1 ")));
    assert_eq!(checks::binary_version(true, ""), Some(s("")));
    assert_eq!(checks::binary_version(false, "v1"), None);
    assert!(checks::cpu_virtualization(Some("model\nflags : fpu vmx")));
    assert!(!checks::cpu_virtualization(Some("model vmx")));
    assert!(!checks::cpu_virtualization(None));
}

#[test]
fn traces_differ() {
    let one = checks::generate_trace_id();
    assert_eq!(one.len(), 36);
    assert_ne!(one, checks::generate_trace_id());
}

fn system(nested: Option<bool>, binary: Option<BinaryInfo>) -> Arc<SystemContext> {
    let mut relevant_binaries = Assoc::new();
    if let Some(info) = binary {
        relevant_binaries.insert(info.name.clone(), info);
    }
    Arc::new(SystemContext {
        os: s("linux"),
        os_version: s("12"),
        architecture: s("x86_64"),
        kernel: s("6.1"),
        has_kvm: true,
        has_nested_virt: nested,
        relevant_binaries,
        installed_providers: Assoc::new(),
    })
}

fn context() -> Arc<SystemContext> {
    system(None, None)
}

fn nested(supported: Option<bool>) -> Arc<SystemContext> {
    system(supported, None)
}

fn podman(path: Option<&str>) -> Arc<SystemContext> {
    let info = BinaryInfo { name: s("podman"), path: path.map(s), version: Some(s("4")) };
    system(None, Some(info))
}

#[test]
fn a_check_carries_the_system_it_was_made_on() {
    let r = provider_alive::evaluate("podman", "/p", Ok(s("up")), nested(Some(true)), now());
    assert_eq!(r.system_context.os_version, "12");
    assert_eq!(r.system_context.has_nested_virt, Some(true));
}

#[test]
fn a_binary_is_at_hand() {
    let r = binary_available::evaluate("podman", None, podman(Some("/usr/bin/podman")), now());
    assert_passed(&r);
    assert_eq!(r.check_id, "binary_available.podman");
    assert_eq!(r.check_type, "binary_available");
    assert_eq!(text_at(&r.current_state, "path"), Some("/usr/bin/podman"));
    assert_eq!(text_at(&r.expected_state, "expected_path"), Some("any path"));
    assert_passed(&binary_available::evaluate(
        "podman",
        Some("bin/pod"),
        podman(Some("/usr/bin/podman")),
        now(),
    ));
}

#[test]
fn a_binary_is_missing_or_elsewhere() {
    let r = binary_available::evaluate("podman", None, context(), now());
    assert_failed(&r, "binary 'podman'", Severity::Critical);
    let remedy = r.remediation.unwrap();
    assert_eq!(remedy.verify_after, "which podman && podman --version");
    assert_eq!(remedy.install_sources[0].url, "https://podman.io/docs/installation");
    let r = binary_available::evaluate(
        "podman",
        Some("/opt/"),
        podman(Some("/usr/bin/podman")),
        now(),
    );
    assert_failed(&r, "binary path for 'podman'", Severity::Warning);
    assert_eq!(
        r.remediation.unwrap().manual_steps,
        vec![s("Binary found at /usr/bin/podman but expected at /opt/")]
    );
}

#[test]
fn images_are_looked_for_where_they_may_lie() {
    let paths = image_available::image_paths("firecracker", Some("vmlinux"));
    assert_eq!(paths[0], "/var/lib/firecracker/images/vmlinux");
    let mut exists = vec![false; paths.len()];
    assert_eq!(image_available::find_provider_image("firecracker", Some("vmlinux"), &exists), None);
    let r = image_available::evaluate("firecracker", Some("vmlinux"), &exists, context(), now());
    assert_failed(&r, "firecracker image", r.delta[0].severity);
    exists[1] = true;
    assert_eq!(
        image_available::find_provider_image("firecracker", Some("vmlinux"), &exists),
        Some(paths[1].clone())
    );
    assert_passed(&image_available::evaluate("firecracker", Some("vmlinux"), &exists, context(), now()));
    assert_eq!(
        image_available::find_provider_image("podman", None, &vec![]),
        Some(s("registry image: docker.io/library/alpine:latest"))
    );
    assert_eq!(image_available::image_source_url_for("odd"), "https://odd.io/docs");
    assert_eq!(image_available::download_instruction_for("odd"), "# Download image for odd");
}

#[test]
fn virtual_machines_can_run_or_not() {
    assert_passed(&kvm_available::evaluate(true, true, nested(Some(true)), now()));
    let r = kvm_available::evaluate(false, false, nested(None), now());
    assert_eq!(r.status, CheckStatus::Fail);
    assert_eq!(r.remediation.unwrap().verify_after, "ls -la /dev/kvm");
}

#[test]
fn a_daemon_answers_or_not() {
    assert_eq!(provider_alive::socket_path("docker", None), "/var/run/docker.sock");
    assert_eq!(provider_alive::socket_path("docker", Some(s("/x"))), "/x");
    assert_eq!(
        provider_alive::ping_daemon("podman", "/p", true, Ok(())),
        Ok(s("podman daemon is responsive"))
    );
    assert_eq!(
        provider_alive::ping_daemon("podman", "/p", false, Ok(())),
        Err(s("Socket not found at /p"))
    );
    assert_eq!(
        provider_alive::ping_daemon("podman", "/p", true, Err(s("refused"))),
        Err(s("Failed to connect to socket: refused"))
    );
    assert_eq!(
        provider_alive::ping_daemon("docker", "/p", true, Err(s("refused"))),
        Err(s("Failed to connect to docker socket: refused"))
    );
    assert_eq!(
        provider_alive::ping_daemon("odd", "/p", true, Ok(())),
        Err(s("Unknown provider: odd"))
    );
    assert_passed(&provider_alive::evaluate("podman", "/p", Ok(s("up")), context(), now()));
    let r = provider_alive::evaluate("podman", "/p", Err(s("down")), context(), now());
    assert_failed(&r, "podman daemon", Severity::Critical);
    assert_eq!(r.delta[0].actual.as_deref(), Some("down"));
}

fn facts(exists: bool, executable: bool, run: Result<ProgramOutput, String>) -> FileFacts {
    FileFacts { exists, executable, run }
}

#[test]
fn a_worker_binary_can_be_used_or_not() {
    let path = Some(s("/w"));
    let out = |success: bool, stdout: &str| ProgramOutput {
        success,
        stdout: s(stdout),
        stderr: s(""),
    };
    let good = facts(true, true, Ok(out(true, "worker 1.0\n")));
    let v = worker_binary_valid::validate_worker_binary(&path, &good);
    assert!(v.is_valid);
    assert_eq!(v.details[2].value, "worker 1.0");
    let mute = facts(true, true, Ok(out(false, "")));
    let v = worker_binary_valid::validate_worker_binary(&path, &mute);
    assert!(v.is_valid);
    assert_eq!(v.details[2].value, "true (no version flag)");
    assert!(
        worker_binary_valid::validate_worker_binary(&path, &facts(true, true, Ok(out(false, "x"))))
            .is_valid
    );
    for (bad, message) in [
        (facts(false, false, Err(s(""))), "File not found at /w"),
        (facts(true, false, Err(s(""))), "File at /w is not executable"),
        (facts(true, true, Err(s("exec format"))), "Failed to execute: exec format"),
    ] {
        assert!(!worker_binary_valid::validate_worker_binary(&path, &bad).is_valid);
        let r = worker_binary_valid::evaluate("podman", &path, &bad, context(), now());
        assert_failed(&r, "worker binary for 'podman'", Severity::Critical);
        assert_eq!(r.delta[0].actual.as_deref(), Some(message));
    }
    assert_passed(&worker_binary_valid::evaluate("podman", &path, &good, context(), now()));
    let none = worker_binary_valid::validate_worker_binary(&None, &good);
    assert_eq!(none.details[0].value, "No worker binary path configured");
}

#[test]
fn a_mode_tells_whether_a_file_is_a_program() {
    assert!(worker_binary_valid::is_executable(0o755));
    assert!(worker_binary_valid::is_executable(0o001));
    assert!(worker_binary_valid::is_executable(0o010));
    assert!(!worker_binary_valid::is_executable(0o644));
    assert!(!worker_binary_valid::is_executable(0));
}
