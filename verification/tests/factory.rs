//! Providers by name.
use bastion_infrastructure::domain::ProviderCapabilities;
use bastion_infrastructure::provider::config::ProviderCapabilitiesConfig;
use bastion_infrastructure::provider::factory::ProviderFactory;

fn capabilities() -> ProviderCapabilities {
    ProviderCapabilitiesConfig {
        supports_snapshots: None,
        supports_streaming: None,
        avg_startup_ms: None,
        max_memory_mb: None,
        max_cpu_count: None,
        requires_kvm: None,
    }
    .into_domain()
}

#[test]
fn test_factory_register_and_get() {
    let mut factory: ProviderFactory<u32> = ProviderFactory::new("podman");
    factory.register("podman", 7, capabilities());
    assert_eq!(factory.get("podman"), Some(&7));
    assert_eq!(factory.get("docker"), None);
    assert_eq!(*factory.default(), 7);
    assert!(factory.contains("podman"));
    assert_eq!(factory.default_name(), "podman");
    assert_eq!(factory.list_providers().len(), 1);
}
