use bastion_infrastructure::assoc::Assoc;
use bastion_infrastructure::config::loader::{
    default_http_addr, default_network_mode, default_pool_size, FirecrackerConfig, GVisorConfig,
    GatewayConfig, PodmanConfig, PoolConfig, ProviderConfig, ServerConfig,
};
use bastion_infrastructure::domain::{DomainError, Timestamp};
use bastion_infrastructure::grpc::client::GrpcWorkerClient;
use bastion_infrastructure::provider::watch::ReloadTimer;
use bastion_infrastructure::secret::env_resolver::EnvSecretResolver;
use bastion_infrastructure::secret::noop_resolver::NoopSecretResolver;
use bastion_infrastructure::text::trim;

fn s(text: &str) -> String {
    text.to_string()
}

#[test]
fn defaults_of_the_gateway() {
    assert_eq!(default_http_addr(), "0.0.0.0:8080");
    assert_eq!(default_network_mode(), "bridge");
    assert_eq!(default_pool_size(), 3);
    let pool = PoolConfig::default();
    assert!(pool.min_hot_per_provider <= pool.max_hot_per_provider);
}

#[test]
fn the_default_provider_is_looked_up() {
    let mut providers: Assoc<ProviderConfig> = Assoc::new();
    providers.insert(
        s("podman"),
        ProviderConfig::Podman(PodmanConfig {
            socket_path: s("/p"),
            default_image: s("alpine"),
            network_mode: default_network_mode(),
            rootless: true,
            hot_pool_size: 4,
        }),
    );
    providers.insert(
        s("vm"),
        ProviderConfig::Firecracker(FirecrackerConfig {
            kernel_path: s("k"),
            rootfs_path: s("r"),
            firecracker_bin: s("f"),
            jailer_bin: None,
            hot_pool_size: 5,
        }),
    );
    providers.insert(
        s("gvisor"),
        ProviderConfig::GVisor(GVisorConfig {
            runsc_bin: s("runsc"),
            default_image: s("alpine"),
            hot_pool_size: 6,
        }),
    );
    let mut config = GatewayConfig {
        server: ServerConfig { transport: s("stdio"), http_addr: default_http_addr() },
        default_provider: s("podman"),
        providers,
        pool: PoolConfig::default(),
    };
    assert_eq!(config.default_provider_config().unwrap().hot_pool_size(), 4);
    assert_eq!(config.provider("vm").unwrap().hot_pool_size(), 5);
    assert_eq!(config.provider("gvisor").unwrap().hot_pool_size(), 6);
    config.default_provider = s("other");
    assert!(config.default_provider_config().is_none());
}

#[test]
fn secrets_come_from_the_environment() {
    let resolver = EnvSecretResolver::new();
    let found = resolver.resolve("TOKEN", Some(s("value"))).unwrap();
    assert_eq!(found.value, "value");
    assert_eq!(found.source, "env:TOKEN");
    assert_eq!(
        resolver.resolve("TOKEN", None).err(),
        Some(DomainError::Config(s("Secret 'TOKEN' not found in environment")))
    );
}

#[test]
fn names_stand_for_secrets() {
    let found = NoopSecretResolver::new().resolve("TOKEN").unwrap();
    assert_eq!(found.value, "TOKEN");
    assert_eq!(found.source, "noop");
}

#[test]
fn a_worker_is_reached_at_its_endpoint() {
    assert_eq!(GrpcWorkerClient::new(s("http://w:1")).endpoint(), "http://w:1");
}

#[test]
fn changed_files_are_read_after_two_quiet_seconds() {
    let mut timer = ReloadTimer::new();
    assert!(!timer.take_due(10_000));
    timer.on_event(false, 10_000);
    assert!(!timer.take_due(20_000));
    timer.on_event(true, 20_000);
    assert!(!timer.take_due(21_999));
    timer.on_event(true, 21_000);
    assert!(!timer.take_due(22_000));
    assert!(timer.take_due(23_000));
    assert!(!timer.take_due(30_000));
    timer.on_event(true, u64::MAX - 1);
    assert_eq!(timer.due_ms, Some(u64::MAX));
}

#[test]
fn white_space_is_what_unicode_calls_so() {
    assert_eq!(trim("\u{3000}\t a\u{a0}b \u{85}\u{2003}\r\n"), "a\u{a0}b");
    assert_eq!(trim("\u{200b}a\u{180e}"), "\u{200b}a\u{180e}");
}

#[test]
fn points_in_time_have_texts() {
    let t = Timestamp { secs: 86_400, nanos: 500_000_000 };
    assert_eq!(t.to_rfc3339().unwrap(), "1970-01-02T00:00:00.500+00:00");
    assert!(Timestamp { secs: i64::MAX, nanos: 0 }.to_rfc3339().is_none());
}
