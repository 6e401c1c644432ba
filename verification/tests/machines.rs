use bastion_infrastructure::domain::{
    DomainError, NetworkSpec, ResourcesSpec, SandboxStatus, Timestamp,
};
use bastion_infrastructure::json::Json;
use bastion_infrastructure::provider::firecracker::{
    FirecrackerFiles, FirecrackerProvider, WaitStep,
};
use bastion_infrastructure::provider::firecracker_create::{
    prepare_rootfs, CreateAction, CreateStep, EndStep, FirecrackerCreate, InjectStep, StepFailure,
};
use bastion_infrastructure::provider::gvisor::{
    GVisorAction, GVisorCreate, GVisorProvider, GVisorStep, PollStep,
};
use bastion_infrastructure::provider::state_machine::DashMapSandboxStateMachine;

fn s(text: &str) -> String {
    text.to_string()
}

fn now() -> Timestamp {
    Timestamp { secs: 100, nanos: 0 }
}

fn network() -> NetworkSpec {
    NetworkSpec { document: s("{}") }
}

fn vm(readonly: bool) -> FirecrackerProvider {
    FirecrackerProvider {
        firecracker_binary: s("/bin/firecracker"),
        kernel_path: s("/k"),
        rootfs_path: s("/r.img"),
        vm_dir: s("/vms"),
        rootfs_readonly: readonly,
        worker_binary: s("/w"),
        gateway_addr: s("10.0.2.1:50052"),
    }
}

fn files() -> FirecrackerFiles {
    FirecrackerFiles {
        binary_exists: true,
        kernel_exists: true,
        rootfs_exists: true,
        vm_dir_error: None,
        rootfs_head: vec![],
    }
}

fn setup_error(files: FirecrackerFiles) -> DomainError {
    FirecrackerProvider::new(vm(false), &files).err().unwrap()
}

#[test]
fn a_vm_needs_its_files() {
    assert!(FirecrackerProvider::new(vm(false), &files()).is_ok());
    let mut f = files();
    f.binary_exists = false;
    assert_eq!(
        setup_error(f),
        DomainError::Config(s("Firecracker binary not found: /bin/firecracker"))
    );
    let mut f = files();
    f.kernel_exists = false;
    assert_eq!(setup_error(f), DomainError::Config(s("Kernel not found: /k")));
    let mut f = files();
    f.rootfs_exists = false;
    assert_eq!(setup_error(f), DomainError::Config(s("Rootfs not found: /r.img")));
    let mut f = files();
    f.vm_dir_error = Some(s("denied"));
    assert_eq!(setup_error(f), DomainError::Config(s("Cannot create VM directory: denied")));
}

#[test]
fn squashed_file_systems_are_read_only() {
    assert!(FirecrackerProvider::detect_readonly(b"hsqs...."));
    assert!(!FirecrackerProvider::detect_readonly(b"\0\0\0\0"));
    assert!(!FirecrackerProvider::detect_readonly(b"hs"));
    let mut f = files();
    f.rootfs_head = b"hsqs".to_vec();
    assert!(FirecrackerProvider::new(vm(false), &f).unwrap().rootfs_readonly);
}

#[test]
fn requests_are_written_out() {
    assert_eq!(
        FirecrackerProvider::api_request("PUT", "/actions", "{\"ä\":1}"),
        "PUT /actions HTTP/1.1\r\nHost: localhost\r\nContent-Type: application/json\r\n\
         Content-Length: 8\r\nConnection: close\r\n\r\n{\"ä\":1}"
    );
}

#[test]
fn responses_are_read() {
    let head = b"HTTP/1.1 204 No Content\r\nServer: x\r\nCONTENT-LENGTH: 12\r\n\r\n";
    assert!(FirecrackerProvider::headers_complete(&head.to_vec()));
    assert!(!FirecrackerProvider::headers_complete(&head[..head.len() - 1].to_vec()));
    let read = FirecrackerProvider::read_head(head);
    assert_eq!(read.status, 204);
    assert_eq!(read.content_length, 12);
    let odd = FirecrackerProvider::read_head(b"nonsense");
    assert_eq!(odd.status, 500);
    assert_eq!(odd.content_length, 0);
    assert_eq!(FirecrackerProvider::read_response(204, b""), Ok(s("{}")));
    assert_eq!(FirecrackerProvider::read_response(200, b"{\"a\":1}"), Ok(s("{\"a\":1}")));
    assert_eq!(
        FirecrackerProvider::read_response(400, b"{\"fault_message\":\"bad \\\"drive\\\"\"}"),
        Err(DomainError::Internal(s("Firecracker API error 400: bad \"drive\"")))
    );
    assert_eq!(
        FirecrackerProvider::read_response(500, b"not json"),
        Err(DomainError::Internal(s("Firecracker API error 500: unknown error")))
    );
    // Bytes that are no text are replaced.
    assert_eq!(
        FirecrackerProvider::read_response(400, b"{\"fault_message\":\"a\xffb\"}"),
        Err(DomainError::Internal(s("Firecracker API error 400: a\u{fffd}b")))
    );
}

#[test]
fn waiting_for_a_vm() {
    assert!(FirecrackerProvider::socket_deadline(4_000, 5_000, "/s").is_ok());
    assert_eq!(
        FirecrackerProvider::socket_deadline(5_001, 5_000, "/s"),
        Err(DomainError::Internal(s("Firecracker socket did not appear within 5000ms: /s")))
    );
    assert!(matches!(FirecrackerProvider::wait_for_socket(true), WaitStep::Ready));
    assert!(matches!(FirecrackerProvider::wait_for_socket(false), WaitStep::Sleep(50)));
    assert!(matches!(
        FirecrackerProvider::wait_for_boot(1, 2, b"... root@vm:~# "),
        WaitStep::Ready
    ));
    assert!(matches!(FirecrackerProvider::wait_for_boot(1, 2, b"root@vm"), WaitStep::Sleep(100)));
    assert!(matches!(
        FirecrackerProvider::wait_for_boot(3, 2, b"root@vm:~#"),
        WaitStep::Failed(DomainError::Timeout(_))
    ));
    assert!(FirecrackerProvider::is_static_worker("ELF, statically linked"));
    assert!(FirecrackerProvider::is_static_worker("musl static-pie"));
    assert!(!FirecrackerProvider::is_static_worker("dynamically linked"));
    assert!(FirecrackerProvider::is_alive(None, true, Some(true)));
    assert!(!FirecrackerProvider::is_alive(Some(SandboxStatus::Stopped), true, Some(true)));
    assert!(!FirecrackerProvider::is_alive(None, false, Some(true)));
    assert!(!FirecrackerProvider::is_alive(None, true, None));
}

fn start(has_router: bool, resources: ResourcesSpec) -> FirecrackerCreate {
    FirecrackerCreate::start("a", resources, s("secret-1"), has_router)
}

fn small() -> ResourcesSpec {
    ResourcesSpec { cpu_count: 2, memory_mb: 512 }
}

fn number(json: &Json, name: &str) -> u64 {
    match json.get(name) {
        Some(Json::Number(n)) => *n,
        other => panic!("{:?}", other),
    }
}

#[test]
fn a_vm_is_made_step_by_step() {
    let provider = vm(false);
    let mut create = start(true, small());
    create.interface = s("tap-a");
    let mut steps: Vec<CreateStep> = vec![];
    let mut puts: Vec<String> = vec![];
    loop {
        steps.push(create.step);
        match create.action(&provider) {
            CreateAction::Done => break,
            CreateAction::MakeDir(d) => assert_eq!(d, "/vms/a"),
            CreateAction::CopyRootfs(from, to) => {
                assert_eq!(from, "/r.img");
                assert_eq!(to, "/vms/a/rootfs.img");
            }
            CreateAction::Spawn(binary, socket) => {
                assert_eq!(binary, "/bin/firecracker");
                assert_eq!(socket, "/vms/a/firecracker.sock");
            }
            CreateAction::WaitSocket(socket, timeout) => {
                assert_eq!(socket, "/vms/a/firecracker.sock");
                assert_eq!(timeout, 5_000);
            }
            CreateAction::Put(path, body) => {
                if path == "/machine-config" {
                    assert_eq!(number(&body, "vcpu_count"), 2);
                    assert_eq!(number(&body, "mem_size_mib"), 512);
                }
                if path == "/network-interfaces/eth0" {
                    assert_eq!(body.get("host_dev_name").unwrap().as_text(), Some("tap-a"));
                }
                puts.push(path);
            }
            CreateAction::Console(line) => assert_eq!(
                line,
                "nohup /usr/local/bin/bastion-worker --gateway-addr http://10.0.2.1:50052 \
                 --sandbox-id a --secret secret-1 --workdir /workspace > /tmp/worker.log 2>&1 &"
            ),
            CreateAction::RegisterSecret(id, secret) => {
                assert_eq!(id, "a");
                assert_eq!(secret, "secret-1");
            }
            _ => {}
        }
        create.done(false);
    }
    assert_eq!(steps.first(), Some(&CreateStep::MakeDir));
    assert_eq!(steps.last(), Some(&CreateStep::Finished));
    assert!(steps.contains(&CreateStep::RegisterSecret));
    assert_eq!(
        puts,
        vec![
            s("/boot-source"),
            s("/drives/rootfs"),
            s("/machine-config"),
            s("/network-interfaces/eth0"),
            s("/actions"),
        ]
    );
    let mut machine: DashMapSandboxStateMachine<()> = DashMapSandboxStateMachine::new();
    let made = create.finish(&mut machine, network(), 60_000, now(), 0).unwrap();
    assert_eq!(made.status, SandboxStatus::Running);
    assert_eq!(made.provider_id, "firecracker");
    assert_eq!(machine.get_state("a"), Some(SandboxStatus::Running));
    let mut again = start(true, small());
    again.step = CreateStep::Finished;
    assert_eq!(
        again.finish(&mut machine, network(), 60_000, now(), 0).err(),
        Some(DomainError::AlreadyExists(s("Sandbox already registered")))
    );
}

#[test]
fn a_read_only_vm_gets_no_worker() {
    let mut create = start(false, small());
    let mut steps: Vec<CreateStep> = vec![];
    while create.step != CreateStep::Finished {
        steps.push(create.step);
        create.done(true);
    }
    assert!(!steps.contains(&CreateStep::InjectWorker));
    assert!(!steps.contains(&CreateStep::RegisterSecret));
}

#[test]
fn failed_steps_of_a_vm_are_told() {
    let mut create = start(true, small());
    assert_eq!(
        create.failed(StepFailure::Message(s("denied"))),
        DomainError::Internal(s("Cannot create sandbox directory: denied"))
    );
    create.step = CreateStep::Spawn;
    assert_eq!(
        create.failed(StepFailure::Message(s("no"))),
        DomainError::Internal(s("Failed to spawn Firecracker: no"))
    );
    let own = DomainError::Timeout(s("late"));
    assert_eq!(create.failed(StepFailure::Error(own)), DomainError::Timeout(s("late")));
}

#[test]
fn a_mount_is_undone() {
    let mut step = InjectStep::Copy;
    let mut seen: Vec<InjectStep> = vec![];
    while step != InjectStep::Done {
        seen.push(step);
        // Copying the worker fails.
        step = prepare_rootfs(step, step != InjectStep::CopyWorker, false);
    }
    assert_eq!(
        seen,
        vec![
            InjectStep::Copy,
            InjectStep::MakeMountPoint,
            InjectStep::Mount,
            InjectStep::CopyWorker,
            InjectStep::MakeWorkspace,
            InjectStep::Unmount,
            InjectStep::RemoveMountPoint,
        ]
    );
    assert_eq!(prepare_rootfs(InjectStep::Copy, true, true), InjectStep::Done);
    assert_eq!(prepare_rootfs(InjectStep::Copy, false, false), InjectStep::Failed);
    assert_eq!(prepare_rootfs(InjectStep::Mount, false, false), InjectStep::RemoveMountPoint);
}

#[test]
fn snapshots_pause_the_vm() {
    let provider = vm(false);
    let requests = provider.create_snapshot("a", "one");
    let paths: Vec<&str> = requests.iter().map(|r| r.path.as_str()).collect();
    assert_eq!(paths, vec!["/actions", "/snapshot/create", "/actions"]);
    assert_eq!(requests[0].body.get("action_type").unwrap().as_text(), Some("Pause"));
    assert_eq!(
        requests[1].body.get("state_file_path").unwrap().as_text(),
        Some("/vms/a/snapshots/one/snapshot.state")
    );
    assert_eq!(requests[2].body.get("action_type").unwrap().as_text(), Some("Resume"));
    let info = FirecrackerProvider::snapshot_info("a", "one", 3, 4, now());
    assert_eq!(info.snapshot_id, "a-one");
    assert_eq!(info.size_bytes, 7);
    assert!(matches!(
        FirecrackerProvider::restore_snapshot(),
        DomainError::UnsupportedOperation(_)
    ));
    assert_eq!(provider.mount_point("a"), "/vms/a/mnt");
}

#[test]
fn a_vm_is_asked_to_shut_down_first() {
    let steps = FirecrackerProvider::terminate(true);
    assert!(matches!(steps[0], EndStep::AskToShutDown));
    assert!(matches!(steps.last(), Some(EndStep::RemoveDir)));
    let steps = FirecrackerProvider::terminate(false);
    assert!(!steps.iter().any(|x| matches!(x, EndStep::AskToShutDown)));
    assert_eq!(
        FirecrackerProvider::shutdown_request().get("action_type").unwrap().as_text(),
        Some("SendCtrlAltDel")
    );
}

fn gvisor() -> GVisorProvider {
    GVisorProvider {
        runsc_binary: s("/nonexistent/runsc"),
        default_image: s("default"),
        rootfs_dir: s("/tmp/bastion-test-rootfs"),
        worker_binary: s("/nonexistent/bastion-worker"),
        gateway_addr: s("host.containers.internal:50052"),
    }
}

#[test]
fn test_new_validates_runsc_binary() {
    let result = GVisorProvider::new(gvisor(), false, true, None);
    assert!(result.is_err());
    assert_eq!(
        result.err(),
        Some(DomainError::Config(s("runsc binary not found: /nonexistent/runsc")))
    );
    assert_eq!(
        GVisorProvider::new(gvisor(), true, false, None).err(),
        Some(DomainError::Config(s("Rootfs directory not found: /tmp/bastion-test-rootfs")))
    );
    assert_eq!(
        GVisorProvider::new(gvisor(), true, true, Some(s("denied"))).err(),
        Some(DomainError::Config(s("Cannot create rootfs directory: denied")))
    );
    assert!(GVisorProvider::new(gvisor(), true, true, None).is_ok());
}

#[test]
fn running_containers_are_found_in_the_listing() {
    let listing = "ID PID STATUS BUNDLE\na 12 running /b\nab 13 stopped /b\n";
    assert!(GVisorProvider::container_is_running(listing, "a"));
    assert!(!GVisorProvider::container_is_running(listing, "ab"));
    assert!(!GVisorProvider::container_is_running(listing, "12"));
    assert!(GVisorProvider::is_alive("a", None, None, listing));
    assert!(!GVisorProvider::is_alive("a", None, Some(false), listing));
    assert!(!GVisorProvider::is_alive("a", Some(SandboxStatus::Failed), None, listing));
}

#[test]
fn waiting_for_a_container() {
    assert_eq!(GVisorProvider::poll_start("a", true, 3).1, 3);
    assert!(matches!(GVisorProvider::poll_start("a", false, 0), (PollStep::Sleep(200), 1)));
    match GVisorProvider::poll_start("a", false, 9) {
        (PollStep::Failed(e), 10) => assert_eq!(
            e,
            DomainError::Timeout(s("Container a did not start within timeout"))
        ),
        _ => panic!("goes on"),
    }
    assert!(matches!(
        GVisorProvider::wait_for_worker_connection("a", false, false, 9, 1),
        PollStep::Ready
    ));
    assert!(matches!(
        GVisorProvider::wait_for_worker_connection("a", true, false, 0, 1),
        PollStep::Sleep(200)
    ));
    assert!(matches!(
        GVisorProvider::wait_for_worker_connection("a", true, true, 2, 1),
        PollStep::Failed(DomainError::Timeout(_))
    ));
}

#[test]
fn a_container_is_made_step_by_step() {
    let provider = gvisor();
    let mut create = GVisorCreate::start("a", "", small(), s("secret-1"), true);
    let mut steps: Vec<GVisorStep> = vec![];
    loop {
        steps.push(create.step);
        match create.action(&provider) {
            GVisorAction::Done => break,
            GVisorAction::Spawn(args) => assert_eq!(
                args.join(" "),
                format!("-rootless -network=host run -bundle {} a", provider.bundle_dir("a"))
            ),
            GVisorAction::StartWorker(args) => {
                assert!(args.contains(&s("http://host.containers.internal:50052")));
                assert!(args.contains(&s("secret-1")));
            }
            GVisorAction::PrepareBundle(_, _, entrypoint) => {
                assert_eq!(entrypoint, vec![s("/bin/sleep"), s("infinity")])
            }
            _ => {}
        }
        create.done();
    }
    assert_eq!(steps.first(), Some(&GVisorStep::CheckImage));
    assert!(steps.contains(&GVisorStep::RegisterSecret));
    let mut machine: DashMapSandboxStateMachine<()> = DashMapSandboxStateMachine::new();
    create.track(&mut machine, 0).unwrap();
    assert!(create.track(&mut machine, 0).is_err());
    let made = create.finish(network(), 60_000, now()).unwrap();
    assert_eq!(made.provider_id, "gvisor");
    assert_eq!(
        GVisorCreate::spawn_error("no"),
        DomainError::Internal(s("Failed to spawn runsc: no"))
    );
    assert!(provider.require_image("x", true).is_ok());
    assert!(provider.require_image("x", false).is_err());
    assert_eq!(GVisorProvider::list_args().join(" "), "-rootless -network=host list");
    assert_eq!(
        GVisorProvider::delete_args("a").join(" "),
        "-rootless -network=host delete -force a"
    );
}
