use bastion_infrastructure::domain::{
    CommandResult, CommandSpec, DomainError, NetworkSpec, Pair, ResourcesSpec, SandboxFilter,
    SandboxStatus, Timestamp,
};
use bastion_infrastructure::json::Json;
use bastion_infrastructure::provider::config::{
    default_plugin, ProviderCapabilitiesConfig, ProviderConfig,
};
use bastion_infrastructure::provider::docker::{
    absolute_path, choose_image, container_alive, env_strings, inspect_error,
    new_running_sandbox, ContainerInfo, ContainerSummary, DockerProvider, DockerStep,
};
use bastion_infrastructure::provider::factory::ProviderFactory;
use bastion_infrastructure::provider::local::{stream_chunks, LocalProvider};
use bastion_infrastructure::provider::network::bridge_backend::BridgeBackend;
use bastion_infrastructure::provider::network::host_backend::HostBackend;
use bastion_infrastructure::provider::network::tap_backend::{TapBackend, TapOutcome};
use bastion_infrastructure::provider::network::NetworkKind;
use bastion_infrastructure::provider::podman::{
    read_le_i32, CommandChunk, LogPiece, PodmanProvider, PodmanStep, WorkerChunk,
};
use bastion_infrastructure::provider::process_view::{
    list_tracked, set_timeout, tracked_info, SandboxDefaults,
};
use bastion_infrastructure::provider::registry::{
    instantiate_provider, ProviderPlan, ProviderRegistry, RegistryError,
};
use bastion_infrastructure::provider::rootfs_manager::{CopyAction, DefaultRootfsManager};
use bastion_infrastructure::provider::routing::{
    new_worker_secret, require_worker, route_command, worker_secret,
};
use bastion_infrastructure::provider::state_machine::DashMapSandboxStateMachine;
use bastion_infrastructure::provider::toml_repository::{
    ProviderInstance, TomlProviderInstanceRepository,
};
use bastion_infrastructure::provider::wasm::{
    child_of, normalize, WasmSandboxProvider, WasmSandboxProviderStub,
};

fn s(text: &str) -> String {
    text.to_string()
}

fn now() -> Timestamp {
    Timestamp { secs: 100, nanos: 0 }
}

fn resources() -> ResourcesSpec {
    ResourcesSpec { cpu_count: 1, memory_mb: 512 }
}

fn network() -> NetworkSpec {
    NetworkSpec { document: s("{}") }
}

fn defaults() -> SandboxDefaults {
    SandboxDefaults { resources: resources(), network: network() }
}

fn any(limit: Option<u32>) -> SandboxFilter {
    SandboxFilter { status: None, limit }
}

fn texts(json: &Json) -> Vec<&str> {
    json.items().unwrap().iter().map(|j| j.as_text().unwrap()).collect()
}

// Configuration and registry.

fn provider_config(name: &str, kind: &str, default: Option<bool>) -> ProviderConfig {
    ProviderConfig {
        name: s(name),
        kind: s(kind),
        plugin: default_plugin(),
        default,
        socket: None,
        image: None,
        worker_binary: None,
        capabilities: ProviderCapabilitiesConfig::default(),
    }
}

#[test]
fn test_provider_capabilities_defaults() {
    let caps = ProviderCapabilitiesConfig::default().into_domain();
    // Check defaults are applied
    assert_eq!(caps.avg_startup_ms, 1500);
    assert_eq!(caps.max_memory_mb, 16384);
    assert_eq!(caps.max_cpu_count, 16);
    assert_eq!(caps.max_timeout_ms, 86_400_000);
    assert!(caps.supports_streaming);
    let mut config = ProviderCapabilitiesConfig::default();
    config.requires_kvm = Some(true);
    config.supports_streaming = Some(false);
    assert!(config.into_domain().requires_kvm);
    assert_eq!(default_plugin(), "builtin");
}

#[test]
fn test_registry_creation() {
    let registry: ProviderRegistry<u8> = ProviderRegistry::new(ProviderFactory::new("podman"));
    assert!(registry.default_name() == "podman");
}

#[test]
fn test_load_from_nonexistent_dir() {
    let mut registry: ProviderRegistry<u8> = ProviderRegistry::new(ProviderFactory::new("podman"));
    assert_eq!(registry.load_from_dir(vec![]), 0);
    assert_eq!(registry.default_name(), "podman");
}

#[test]
fn configurations_are_kept_by_name() {
    let mut registry: ProviderRegistry<u8> = ProviderRegistry::new(ProviderFactory::new("podman"));
    let loaded = registry.load_from_dir(vec![
        Some(provider_config("a", "podman", None)),
        None,
        Some(provider_config("b", "local", Some(true))),
        Some(provider_config("c", "odd", None)),
    ]);
    assert_eq!(loaded, 3);
    assert_eq!(registry.default_name(), "b");
    assert_eq!(registry.get_config("a").unwrap().kind, "podman");
    assert!(registry.get_config("d").is_none());
    let planned: Vec<String> = registry.register_configs().into_iter().map(|p| p.name).collect();
    assert_eq!(planned, vec![s("a"), s("b")]);
    registry.register("b", 7, ProviderCapabilitiesConfig::default().into_domain());
    assert!(registry.contains("b"));
    assert_eq!(registry.get("b"), Some(&7));
    assert_eq!(registry.default(), &7);
    assert_eq!(registry.list_providers().len(), 1);
}

#[test]
fn providers_are_made_by_their_kind() {
    match instantiate_provider(&provider_config("a", "podman", None)).unwrap() {
        ProviderPlan::Podman { socket, image, worker_binary } => {
            assert_eq!(socket, "/run/user/1000/podman/podman.sock");
            assert_eq!(image, "debian:bookworm-slim");
            assert_eq!(worker_binary, "target/debug/bastion-worker");
        }
        other => panic!("{:?}", other),
    }
    assert!(matches!(
        instantiate_provider(&provider_config("a", "local", None)),
        Ok(ProviderPlan::Local { base_dir: None })
    ));
    let error = instantiate_provider(&provider_config("a", "odd", None)).unwrap_err();
    assert_eq!(error.message(), "Failed to start file watcher: Unknown provider kind: odd");
    let error = instantiate_provider(&provider_config("a", "wasm", None)).unwrap_err();
    assert!(error.message().contains("wasm-sandbox feature not enabled"));
    assert_eq!(RegistryError::ReadDir(s("x")).message(), "Failed to read directory: x");
    assert_eq!(RegistryError::TomlParse(s("x")).message(), "Failed to parse TOML: x");
    assert_eq!(
        RegistryError::ProviderNotFound(s("x")).message(),
        "Provider 'x' not found in factory"
    );
}

fn instance(name: &str, type_id: &str) -> ProviderInstance {
    ProviderInstance {
        id: format!("id-of-{}", name),
        type_id: s(type_id),
        name: s(name),
        document: s(""),
    }
}

#[test]
fn test_list_by_type() {
    let all = vec![
        instance("podman-1", "podman"),
        instance("podman-2", "podman"),
        instance("docker-1", "docker"),
    ];
    let podman_instances = TomlProviderInstanceRepository::list_by_type(&all, "podman");
    assert_eq!(podman_instances.len(), 2);
    assert_eq!(podman_instances, vec![0, 1]);

    let docker_instances = TomlProviderInstanceRepository::list_by_type(&all, "docker");
    assert_eq!(docker_instances.len(), 1);
    assert_eq!(docker_instances, vec![2]);

    let wasm_instances = TomlProviderInstanceRepository::list_by_type(&all, "wasm");
    assert!(wasm_instances.is_empty());
}

#[test]
fn test_find_by_id() {
    let instance = instance("test-podman", "podman");
    let id = instance.id.clone();
    let all = vec![instance];

    let found = TomlProviderInstanceRepository::find_by_id(&all, &id);
    assert!(found.is_some());
    assert_eq!(all[found.unwrap()].name, "test-podman");
}

#[test]
fn test_find_by_id_not_found() {
    assert!(TomlProviderInstanceRepository::find_by_id(&vec![], "any").is_none());
    let all = vec![instance("test-podman", "podman")];
    assert!(TomlProviderInstanceRepository::find_by_id(&all, "any").is_none());
}

#[test]
fn test_delete() {
    let repo = TomlProviderInstanceRepository::new(s("/etc/providers"));
    let instance = instance("test-podman", "podman");
    let id = instance.id.clone();
    let mut all = vec![instance];
    assert!(TomlProviderInstanceRepository::find_by_id(&all, &id).is_some());

    let removed = repo.delete(&all, &id).unwrap();
    assert_eq!(removed, "/etc/providers/test-podman.toml");
    // Without the file that is named, the instance is no longer read.
    all.retain(|i| repo.instance_path(&i.name) != removed);
    assert!(TomlProviderInstanceRepository::find_by_id(&all, &id).is_none());
}

#[test]
fn test_delete_nonexistent() {
    let repo = TomlProviderInstanceRepository::new(s("/etc/providers"));
    assert_eq!(repo.delete(&vec![], "any"), None);
}

// The state of sandboxes.

#[test]
fn states_change_only_as_allowed() {
    let mut machine: DashMapSandboxStateMachine<u32> = DashMapSandboxStateMachine::new();
    machine.register(s("a"), 0).unwrap();
    assert_eq!(
        machine.register(s("a"), 0),
        Err(DomainError::AlreadyExists(s("Sandbox already registered")))
    );
    assert_eq!(machine.get_state("a"), Some(SandboxStatus::Pending));
    assert_eq!(machine.transition("a", SandboxStatus::Running), Ok(SandboxStatus::Pending));
    assert!(machine.transition("a", SandboxStatus::Pending).is_err());
    assert!(matches!(
        machine.transition("b", SandboxStatus::Running),
        Err(DomainError::NotFound(_))
    ));
    machine.attach_payload("a", 5).unwrap();
    assert_eq!(machine.get_payload("a"), Some(&5));
    machine.register(s("b"), 0).unwrap();
    let counts = machine.count_by_status();
    assert_eq!((counts.pending, counts.running, counts.stopped), (1, 1, 0));
    machine.transition("a", SandboxStatus::Stopped).unwrap();
    // What has ended stays ended.
    assert!(machine.transition("a", SandboxStatus::Running).is_err());
    let mut listed = machine.list_active();
    listed.sort();
    assert_eq!(listed, vec![s("a"), s("b")]);
    assert_eq!(machine.remove("a"), Some(5));
    assert_eq!(machine.get_state("a"), None);
    assert_eq!(machine.remove("a"), None);
}

#[test]
fn tracked_sandboxes_are_listed_by_their_process() {
    let ids = vec![s("a"), s("b"), s("c")];
    let processes = vec![Some(true), None, Some(false)];
    let listed = |filter: SandboxFilter| -> Vec<String> {
        list_tracked(&ids, &processes, &filter, "gvisor", &defaults(), now())
            .into_iter()
            .map(|x| x.id)
            .collect()
    };
    assert_eq!(listed(any(None)), vec![s("a"), s("c")]);
    assert_eq!(listed(any(Some(2))), vec![s("a")]);
    let stopped = SandboxFilter { status: Some(SandboxStatus::Stopped), limit: None };
    assert_eq!(listed(stopped), vec![s("c")]);
    assert_eq!(
        tracked_info("a", Some(true), "gvisor", &defaults(), now()).unwrap().status,
        SandboxStatus::Running
    );
    assert_eq!(
        tracked_info("a", None, "gvisor", &defaults(), now()).err(),
        Some(DomainError::NotFound(s("a")))
    );
    assert!(set_timeout("a", true).is_ok());
    assert_eq!(set_timeout("a", false), Err(DomainError::NotFound(s("a"))));
}

fn command(text: &str) -> CommandSpec {
    CommandSpec {
        command: s(text),
        args: vec![],
        working_dir: None,
        env_vars: vec![],
        timeout_ms: None,
    }
}

#[test]
fn commands_go_to_the_worker_that_is_connected() {
    let routed = route_command("a", true, &command("ls")).unwrap();
    assert_eq!(routed.working_dir, "/workspace");
    assert_eq!(routed.timeout_ms, 30_000);
    let mut own = command("ls");
    own.working_dir = Some(s("/src"));
    own.timeout_ms = Some(5);
    let routed = route_command("a", true, &own).unwrap();
    assert_eq!(routed.working_dir, "/src");
    assert_eq!(routed.timeout_ms, 5);
    assert_eq!(require_worker("a", false), Err(DomainError::WorkerNotConnected(s("a"))));
    assert!(route_command("a", false, &own).is_err());
    assert_eq!(worker_secret("u"), "secret-u");
    let secret = new_worker_secret();
    assert_eq!(secret.len(), 43);
    assert_ne!(secret, new_worker_secret());
}

// Network backends.

#[test]
fn devices_are_named_after_their_sandbox() {
    let tap = TapBackend::new(s("10.0.2.1"), 24);
    assert_eq!(tap.tap_name_for_sandbox("sandbox_0123456789"), "tap-sandbox-012");
    assert_eq!(tap.device_for("ab").unwrap(), "tap-ab");
    assert!(TapBackend::tap_name_valid("tap-ab"));
    assert!(!TapBackend::tap_name_valid("tap-0123456789ab"));
    assert!(!TapBackend::tap_name_valid("tap a"));
    assert!(matches!(tap.device_for("a b"), Err(DomainError::Validation(_))));
    assert_eq!(TapBackend::create_args("t").join(" "), "tuntap add dev t mode tap");
    assert_eq!(TapBackend::delete_args("t").join(" "), "tuntap del dev t mode tap");
    assert_eq!(TapBackend::link_args("t", true).join(" "), "link set t up");
    assert_eq!(TapBackend::link_args("t", false).join(" "), "link set t down");
    assert_eq!(tap.address_args("t").join(" "), "addr add 10.0.2.1/24 dev t");
    assert_eq!(tap.kind(), NetworkKind::Tap);
}

#[test]
fn a_device_that_exists_is_used() {
    let tap = TapBackend::new(s("10.0.2.1"), 24);
    let made = tap.setup(s("t"), TapOutcome::Created).unwrap();
    assert_eq!(made.interface_name, "t");
    assert_eq!(made.gateway_ip, "10.0.2.1");
    assert_eq!(made.subnet_mask, 24);
    assert!(tap.setup(s("t"), TapOutcome::Refused(s("ioctl: File exists"))).is_ok());
    assert_eq!(
        tap.setup(s("t"), TapOutcome::Refused(s("not permitted"))).err(),
        Some(DomainError::Internal(s("Failed to create TAP device 't': not permitted")))
    );
    assert_eq!(
        tap.setup(s("t"), TapOutcome::NotRun(s("no ip"))).err(),
        Some(DomainError::Internal(s("Failed to create TAP device: no ip")))
    );
}

#[test]
fn other_networks() {
    let host = HostBackend::new();
    assert_eq!(host.setup().unwrap().interface_name, "host");
    assert!(host.teardown().is_ok());
    assert_eq!(host.kind(), NetworkKind::Host);
    let bridge = BridgeBackend::new();
    assert!(matches!(bridge.setup(), Err(DomainError::UnsupportedOperation(_))));
    assert!(bridge.teardown().is_err());
    assert_eq!(bridge.kind(), NetworkKind::Bridge);
}

// Root file systems.

#[test]
fn test_generate_oci_config() {
    let manager = DefaultRootfsManager::new();
    let entrypoint = vec![s("/bin/sh"), s("-c"), s("echo hello")];
    let config = manager.generate_oci_config("test-sandbox", &vec![], &entrypoint);
    assert_eq!(config.get("ociVersion").unwrap().as_text(), Some("1.0.2"));
    assert_eq!(config.get("hostname").unwrap().as_text(), Some("sandbox-test-sandbox"));
    let process = config.get("process").unwrap();
    assert_eq!(texts(process.get("args").unwrap()), vec!["/bin/sh", "-c", "echo hello"]);
}

#[test]
fn a_container_without_an_entrypoint_sleeps() {
    let manager = DefaultRootfsManager::new();
    let vars = vec![Pair { key: s("A"), value: s("b=c") }];
    let config = manager.generate_oci_config("x", &vars, &vec![]);
    let process = config.get("process").unwrap();
    assert_eq!(texts(process.get("args").unwrap()), vec!["sleep", "999999"]);
    assert_eq!(
        texts(process.get("env").unwrap()),
        vec!["PATH=/usr/local/sbin:/usr/local/bin:/usr/sbin:/usr/bin:/sbin:/bin", "A=b=c"]
    );
    assert_eq!(config.get("mounts").unwrap().items().unwrap().len(), 3);
}

#[test]
fn bundles_have_their_places() {
    assert_eq!(DefaultRootfsManager::rootfs_dir("/b"), "/b/rootfs");
    assert_eq!(
        DefaultRootfsManager::worker_destination("/b"),
        "/b/rootfs/usr/local/bin/bastion-worker"
    );
    assert_eq!(DefaultRootfsManager::workspace_dir("/b/"), "/b/rootfs/workspace");
    assert_eq!(DefaultRootfsManager::config_path("/b"), "/b/config.json");
    assert_eq!(DefaultRootfsManager::executable_mode(0o644), 0o755);
    assert_eq!(DefaultRootfsManager::copy_action(true, false), CopyAction::Descend);
    assert_eq!(DefaultRootfsManager::copy_action(false, true), CopyAction::CopyTarget);
    assert_eq!(DefaultRootfsManager::copy_action(false, false), CopyAction::CopyFile);
}

// Docker and Podman.

#[test]
fn a_container_is_made_from_a_template() {
    assert_eq!(choose_image("", "debian"), "debian");
    assert_eq!(choose_image("maven", "debian"), "maven");
    let vars = vec![Pair { key: s("A"), value: s("1") }];
    assert_eq!(env_strings(&vars), vec![s("A=1")]);
    assert_eq!(absolute_path(Some(s("/real")), "x", None), "/real");
    assert_eq!(absolute_path(None, "/x", None), "/x");
    assert_eq!(absolute_path(None, "x", Some(s("/cwd"))), "/cwd/x");
    assert_eq!(absolute_path(None, "x", None), "/tmp/x");
    let provider = DockerProvider::new("debian", s("worker"));
    let made =
        provider.create_with("id", "", &vars, "/abs/worker", Some(s("/src")), "secret-1");
    assert_eq!(made.container.name, "id");
    assert_eq!(made.container.image, "debian");
    assert_eq!(made.container.cmd, vec![s("sleep"), s("infinity")]);
    assert_eq!(
        made.container.binds,
        vec![s("/abs/worker:/usr/local/bin/bastion-worker:ro"), s("/src:/workspace/code:ro")]
    );
    assert_eq!(made.container.extra_hosts, vec![s("host.containers.internal:host-gateway")]);
    assert_eq!(made.worker, DockerProvider::start_worker_in_container("id", "secret-1"));
    assert_eq!(made.worker[0], "/usr/local/bin/bastion-worker");
    let other = provider.create("id", "maven", &vars, "/abs/worker", None);
    assert_eq!(other.container.image, "maven");
    assert_eq!(other.container.binds.len(), 1);
    assert!(other.worker.iter().any(|w| w.starts_with("secret-")));
}

#[test]
fn containers_are_alive_or_missing() {
    assert_eq!(container_alive(Ok(Some(true))), Ok(true));
    assert_eq!(container_alive(Ok(None)), Ok(false));
    assert_eq!(container_alive(Err(s("status 404"))), Ok(false));
    assert_eq!(
        container_alive(Err(s("refused"))),
        Err(DomainError::Internal(s("Failed to inspect container: refused")))
    );
    assert_eq!(inspect_error("a", "No such container: a"), DomainError::NotFound(s("a")));
    assert!(DockerProvider::set_timeout("a", None).is_ok());
    assert!(DockerProvider::set_timeout("a", Some(s("404"))).is_err());
}

fn summary(name: Option<&str>, state: &str) -> ContainerSummary {
    ContainerSummary {
        id: Some(s("c0ffee")),
        names: name.map(|n| vec![s(n)]),
        image: Some(s("maven")),
        state: Some(s(state)),
    }
}

#[test]
fn containers_are_listed_by_their_state() {
    let all = vec![
        summary(Some("/a"), "running"),
        summary(None, "exited"),
        summary(Some("/b"), "restarting"),
        summary(Some("/c"), "paused"),
    ];
    let ids = |filter: SandboxFilter| -> Vec<String> {
        DockerProvider::list_sandboxes(&all, &filter, &defaults(), now())
            .into_iter()
            .map(|x| x.id)
            .collect()
    };
    assert_eq!(ids(any(None)), vec![s("a"), s("c0ffee"), s("c")]);
    assert_eq!(ids(any(Some(1))), vec![s("a")]);
    let running = SandboxFilter { status: Some(SandboxStatus::Running), limit: None };
    assert_eq!(ids(running), vec![s("a")]);
}

#[test]
fn a_container_is_described() {
    let info = |state: Option<Option<&str>>| {
        DockerProvider::get_info(
            "a",
            Ok(ContainerInfo { state: state.map(|x| x.map(s)), image: None }),
            &defaults(),
            now(),
        )
    };
    assert_eq!(info(Some(Some("running"))).unwrap().status, SandboxStatus::Running);
    assert_eq!(info(Some(Some("dead"))).unwrap().status, SandboxStatus::Stopped);
    assert_eq!(info(Some(Some("restarting"))).unwrap().status, SandboxStatus::Pending);
    assert_eq!(info(Some(None)).unwrap().status, SandboxStatus::Failed);
    assert_eq!(info(None).err(), Some(DomainError::Internal(s("Container has no state"))));
}

#[test]
fn steps_of_a_container_in_order() {
    let mut step = DockerStep::CreateContainer;
    let mut errors: Vec<DomainError> = vec![];
    while step != DockerStep::Finished {
        errors.push(step.failed("no"));
        step = step.next();
    }
    assert_eq!(
        errors,
        vec![
            DomainError::Internal(s("Failed to create container: no")),
            DomainError::Internal(s("Failed to start container: no")),
            DomainError::Internal(s("Failed to create exec for worker: no")),
            DomainError::Internal(s("Failed to start worker: no")),
        ]
    );
    let mut step = PodmanStep::CreateContainer;
    let mut count = 0;
    while step != PodmanStep::Finished {
        step = step.next();
        count += 1;
    }
    assert_eq!(count, 8);
    assert_eq!(
        PodmanStep::Connect.failed("http://127.0.0.1:1", "no"),
        DomainError::Internal(s("Cannot connect to worker at http://127.0.0.1:1: no"))
    );
}

#[test]
fn the_worker_port_is_mapped() {
    let provider = PodmanProvider::new("debian", s("w"));
    let made = provider.create("id", "", &vec![]);
    assert_eq!(made.image, "debian");
    assert_eq!(made.container_port, "50051/tcp");
    assert_eq!(PodmanProvider::get_mapped_port(Some(s("43210"))), 43210);
    assert_eq!(PodmanProvider::get_mapped_port(Some(s("70000"))), 50051);
    assert_eq!(PodmanProvider::get_mapped_port(None), 50051);
    assert_eq!(PodmanProvider::grpc_addr(43210), "http://127.0.0.1:43210");
}

#[test]
fn the_worker_goes_into_the_container_as_an_archive() {
    let archive = PodmanProvider::worker_archive(b"#!/bin/sh\n").unwrap();
    let mut reader = tar::Archive::new(archive.as_slice());
    let mut entries = reader.entries().unwrap();
    let mut entry = entries.next().unwrap().unwrap();
    assert_eq!(entry.path().unwrap().to_str(), Some("usr/local/bin/bastion-worker"));
    assert_eq!(entry.header().mode().unwrap(), 0o755);
    let mut content = String::new();
    std::io::Read::read_to_string(&mut entry, &mut content).unwrap();
    assert_eq!(content, "#!/bin/sh\n");
    assert!(entries.next().is_none());
}

fn chunk(kind: i32, data: &[u8]) -> WorkerChunk {
    WorkerChunk { kind, data: data.to_vec() }
}

#[test]
fn output_is_put_together_in_order() {
    let result = PodmanProvider::run_command(
        &vec![
            chunk(0, b"a"),
            chunk(1, b"e"),
            chunk(7, b"x"),
            chunk(0, b"b"),
            chunk(2, &[255, 255, 255, 255]),
            chunk(2, &[3]),
        ],
        9,
    );
    assert_eq!(result.stdout, b"ab");
    assert_eq!(result.stderr, b"e");
    assert_eq!(result.exit_code, -1);
    assert_eq!(result.duration_ms, 9);
    assert_eq!(PodmanProvider::run_command(&vec![], 0).exit_code, -1);
    assert_eq!(read_le_i32(&vec![1, 1, 0, 0]), 257);
    assert_eq!(read_le_i32(&vec![0, 0, 0, 128]), i32::MIN);
    assert!(matches!(
        PodmanProvider::run_command_stream(Ok(chunk(2, &[4, 0, 0, 0]))),
        CommandChunk::ExitCode(4)
    ));
    assert!(matches!(
        PodmanProvider::run_command_stream(Ok(chunk(2, &[]))),
        CommandChunk::ExitCode(-1)
    ));
    assert!(matches!(
        PodmanProvider::run_command_stream(Ok(chunk(9, b"o"))),
        CommandChunk::Stdout(d) if d == b"o"
    ));
    assert!(matches!(
        PodmanProvider::run_command_stream(Err(s("gone"))),
        CommandChunk::Error(e) if e == "gone"
    ));
    let pieces = vec![
        LogPiece::Stdout(b"o".to_vec()),
        LogPiece::Other,
        LogPiece::Console(b"c".to_vec()),
        LogPiece::Stderr(b"e".to_vec()),
    ];
    assert_eq!(
        PodmanProvider::exec_in_container(&pieces, None),
        (b"oc".to_vec(), b"e".to_vec(), -1)
    );
    assert!(PodmanProvider::require_client("a", true).is_ok());
    assert_eq!(PodmanProvider::require_client("a", false), Err(DomainError::NotFound(s("a"))));
    assert_eq!(PodmanProvider::file_entry(s("p"), false, 3, s("rw")).size_bytes, 3);
}

// The local provider.

#[test]
fn the_local_provider_has_to_be_allowed() {
    assert!(matches!(
        LocalProvider::new(s("/tmp"), false),
        Err(DomainError::Config(_)) | Err(DomainError::PermissionDenied(_))
    ));
    assert_eq!(LocalProvider::new(s("/tmp"), true).unwrap().base_dir(), "/tmp");
}

#[test]
fn local_sandboxes_have_workspaces() {
    let mut provider = LocalProvider::new(s("/tmp/b"), true).unwrap();
    assert_eq!(provider.workspace_path("a"), "/tmp/b/local-a");
    let made = provider.create("a", "t", resources(), network(), 60_000, now(), 0).unwrap();
    assert_eq!(made.status, SandboxStatus::Running);
    assert_eq!(made.provider_id, "local");
    assert!(provider.is_alive("a"));
    assert_eq!(provider.workspace("a").unwrap(), "/tmp/b/local-a");
    assert_eq!(provider.get_info("a").unwrap().id, "a");
    assert_eq!(provider.list_sandboxes().len(), 1);
    assert!(provider.create("a", "t", resources(), network(), 60_000, now(), 0).is_err());
    assert_eq!(provider.terminate("a"), Some(s("/tmp/b/local-a")));
    assert!(!provider.is_alive("a"));
    assert!(matches!(provider.workspace("a"), Err(DomainError::NotFound(_))));
    assert_eq!(provider.terminate("a"), None);
}

#[test]
fn local_commands_run_in_a_shell() {
    let mut spec = command("echo");
    assert_eq!(LocalProvider::shell_command(&spec), "echo");
    spec.args = vec![s("a"), s("b")];
    assert_eq!(LocalProvider::shell_command(&spec), "echo a b");
    let result = LocalProvider::run_command(None, b"o".to_vec(), b"".to_vec(), 2);
    assert_eq!(result.exit_code, -1);
    assert_eq!(LocalProvider::file_path("/w", "/etc/passwd"), "/w/etc/passwd");
    assert_eq!(LocalProvider::file_path("/w", "a/b"), "/w/a/b");
    let chunks = stream_chunks(CommandResult {
        exit_code: 3,
        stdout: b"out".to_vec(),
        stderr: b"err".to_vec(),
        duration_ms: 0,
        timed_out: false,
    });
    assert!(matches!(chunks.last(), Some(CommandChunk::ExitCode(3))));
    assert!(matches!(
        LocalProvider::create_snapshot(),
        DomainError::UnsupportedOperation(_)
    ));
}

// The provider in memory.

#[test]
fn test_create_and_terminate() {
    let mut provider = WasmSandboxProvider::new();
    let sandbox = provider.create("w-1", "test-template", resources(), network(), now());
    assert_eq!(sandbox.id, "w-1");
    assert!(provider.is_alive("w-1"));
    provider.terminate("w-1");
    assert!(!provider.is_alive("w-1"));
}

#[test]
fn test_write_and_read_file() {
    let mut provider = WasmSandboxProvider::new();
    provider.create("w-1", "test-template", resources(), network(), now());
    provider.write_file("w-1", "/test.txt", b"Hello, WASM!").unwrap();
    assert_eq!(provider.read_file("w-1", "/test.txt").unwrap(), b"Hello, WASM!");
    // The slash in front makes no difference.
    assert_eq!(provider.read_file("w-1", "test.txt").unwrap(), b"Hello, WASM!");
    assert_eq!(
        provider.read_file("w-1", "/other").err(),
        Some(DomainError::NotFound(s("File /other not found")))
    );
    assert!(provider.write_file("w-2", "/x", b"").is_err());
    provider.terminate("w-1");
    assert!(provider.read_file("w-1", "/test.txt").is_err());
}

#[test]
fn test_list_files() {
    let mut provider = WasmSandboxProvider::new();
    provider.create("w-1", "test-template", resources(), network(), now());
    provider.write_file("w-1", "/file1.txt", b"Content 1").unwrap();
    provider.write_file("w-1", "/file2.txt", b"Content 2").unwrap();
    let entries = provider.list_files("w-1", "/").unwrap();
    assert!(entries.len() >= 2);
    assert_eq!(entries[0].size_bytes, 9);
    let out = provider.run_command("w-1", "go", 4).unwrap();
    assert_eq!(out.stdout, "WASM: Executed 'go' in sandbox w-1\n");
    assert_eq!(out.exit_code, 0);
    assert_eq!(provider.get_info("w-1").unwrap().id, "w-1");
    assert!(provider.get_info("w-2").is_err());
}

#[test]
fn paths_are_normalized_once() {
    assert_eq!(normalize("a"), "/a");
    assert_eq!(normalize("//a"), "/a");
    assert_eq!(normalize(&normalize("///a/b")), normalize("///a/b"));
    assert!(child_of("/a", "/"));
}

#[test]
fn test_stub_returns_error() {
    match WasmSandboxProviderStub::new().create("w-1") {
        Err(DomainError::UnsupportedOperation(msg)) => {
            assert!(msg.contains("wasm-sandbox feature not enabled"))
        }
        _ => panic!("Expected UnsupportedOperation error"),
    }
}

#[test]
fn sandboxes_in_memory_are_listed_once() {
    let mut provider = WasmSandboxProvider::new();
    provider.create("w-1", "t", resources(), network(), now());
    provider.create("w-2", "t", resources(), network(), now());
    provider.create("w-1", "u", resources(), network(), now());
    let mut ids: Vec<String> = provider.list_sandboxes().into_iter().map(|x| x.id).collect();
    ids.sort();
    assert_eq!(ids, ["w-1", "w-2"]);
    provider.terminate("w-1");
    assert_eq!(provider.list_sandboxes().len(), 1);
}

#[test]
fn only_what_lies_in_a_directory_is_listed() {
    let mut provider = WasmSandboxProvider::default();
    provider.create("w-1", "t", resources(), network(), now());
    for path in ["/a/x", "/a/y/z", "/ab.txt", "/b"] {
        provider.write_file("w-1", path, b"12").unwrap();
    }
    let listed = |dir: &str| -> Vec<String> {
        provider.list_files("w-1", dir).unwrap().into_iter().map(|e| e.path).collect()
    };
    assert_eq!(listed("/a"), ["/a/x"]);
    assert_eq!(listed("a/"), ["/a/x"]);
    assert_eq!(listed("/"), ["/ab.txt", "/b"]);
    assert!(!child_of("/ab.txt", "/a"));
    assert!(child_of("/a/b.txt", "/a"));
    let entries = provider.list_files("w-1", "/a").unwrap();
    assert_eq!(entries[0].size_bytes, 2);
    assert!(entries[0].modified_at.is_none());
}

#[test]
fn the_stand_in_refuses_every_request() {
    let stub = WasmSandboxProviderStub::new();
    let refused = |e: Option<DomainError>| {
        assert_eq!(e, Some(WasmSandboxProviderStub::feature_error()));
    };
    refused(stub.terminate("a").err());
    refused(stub.is_alive("a").err());
    refused(stub.run_command("a", "ls").err());
    refused(stub.write_file("a", "/f", b"").err());
    refused(stub.read_file("a", "/f").err());
    refused(stub.list_files("a", "/").err());
    refused(stub.create_snapshot("a", "s").err());
    refused(stub.restore_snapshot("s").err());
    refused(stub.list_sandboxes(&any(None)).err());
    refused(stub.get_info("a").err());
    refused(stub.set_timeout("a", 1).err());
}

#[test]
fn workers_are_asked_with_fixed_limits() {
    let command = CommandSpec {
        command: s("ls"),
        args: vec![s("-l")],
        working_dir: Some(s("/x")),
        env_vars: vec![],
        timeout_ms: Some(5),
    };
    let request = PodmanProvider::run_request(&command);
    assert_eq!(request.command, "ls");
    assert_eq!(request.args, ["-l"]);
    assert_eq!(request.timeout_ms, 30_000);
    let request = PodmanProvider::list_request("/d");
    assert_eq!(request.directory, "/d");
    assert!(!request.recursive);
    assert_eq!(
        PodmanProvider::request_error("x"),
        DomainError::Internal(s("gRPC error: x"))
    );
    assert_eq!(
        PodmanProvider::stream_error("x"),
        DomainError::Internal(s("Stream error: x"))
    );
}

#[test]
fn the_guest_has_the_second_address_of_the_network() {
    let backend = TapBackend::new(s("10.0.2.1"), 24);
    let config = backend.setup(s("tap-a"), TapOutcome::Created).unwrap();
    assert_eq!(config.guest_ip, "10.0.2.2");
    assert_eq!(config.gateway_ip, "10.0.2.1");
}

#[test]
fn local_commands_are_not_cancelled() {
    assert!(!LocalProvider::cancel_command("a", 1000));
}

#[test]
fn new_containers_run_until_their_deadline() {
    let sandbox =
        new_running_sandbox("a", "t", "docker", resources(), network(), 1500, now()).unwrap();
    assert_eq!(sandbox.status, SandboxStatus::Running);
    assert_eq!(sandbox.provider_id, "docker");
    assert_eq!(sandbox.expires_at, Some(Timestamp { secs: 101, nanos: 500_000_000 }));
}

#[test]
fn registered_providers_can_be_taken_out() {
    let mut registry: ProviderRegistry<u8> = ProviderRegistry::new(ProviderFactory::new("local"));
    registry.register("local", 3, LocalProvider::capabilities());
    assert_eq!(registry.reload(), 0);
    let config = ProviderConfig {
        name: s("p"),
        kind: s("podman"),
        plugin: default_plugin(),
        default: None,
        socket: None,
        image: None,
        worker_binary: None,
        capabilities: ProviderCapabilitiesConfig::default(),
    };
    assert_eq!(registry.load_from_dir(vec![Some(config), None]), 1);
    assert_eq!(registry.reload(), 1);
    assert_eq!(*registry.into_providers().default(), 3);
}
