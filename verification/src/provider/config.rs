//! The configuration of a provider.
use vstd::prelude::*;

use crate::domain::ProviderCapabilities;

verus! {

/// A provider as it is configured.
#[derive(Debug)]
pub struct ProviderConfig {
    /// The name that it is registered under.
    pub name: String,
    /// What it is: `podman`, `local`, `wasm`.
    pub kind: String,
    /// Where it comes from.
    pub plugin: String,
    /// Whether it becomes the default provider.
    pub default: Option<bool>,
    pub socket: Option<String>,
    pub image: Option<String>,
    pub worker_binary: Option<String>,
    pub capabilities: ProviderCapabilitiesConfig,
}

/// The source of a provider that names none.
pub fn default_plugin() -> (r: String)
    ensures
        r@ == "builtin"@,
{
    "builtin".to_owned()
}

/// What a provider can do, as far as it is configured.
#[derive(Debug, Clone, Copy, PartialEq, Eq, Structural)]
pub struct ProviderCapabilitiesConfig {
    pub supports_snapshots: Option<bool>,
    pub supports_streaming: Option<bool>,
    pub avg_startup_ms: Option<u32>,
    pub max_memory_mb: Option<u64>,
    pub max_cpu_count: Option<u32>,
    pub requires_kvm: Option<bool>,
}

impl Default for ProviderCapabilitiesConfig {
    fn default() -> (r: Self)
        ensures
            r == nothing_configured(),
            r.supports_snapshots is None && r.supports_streaming is None && r.requires_kvm is None,
            r.avg_startup_ms is None && r.max_memory_mb is None && r.max_cpu_count is None,
    {
        ProviderCapabilitiesConfig {
            supports_snapshots: None,
            supports_streaming: None,
            avg_startup_ms: None,
            max_memory_mb: None,
            max_cpu_count: None,
            requires_kvm: None,
        }
    }
}

/// A configuration without any capability.
pub open spec fn nothing_configured() -> ProviderCapabilitiesConfig {
    ProviderCapabilitiesConfig {
        supports_snapshots: None,
        supports_streaming: None,
        avg_startup_ms: None,
        max_memory_mb: None,
        max_cpu_count: None,
        requires_kvm: None,
    }
}

/// A configured value, or the one that stands in for it.
pub open spec fn or_else<T>(configured: Option<T>, otherwise: T) -> T {
    match configured {
        Some(v) => v,
        None => otherwise,
    }
}

/// What a provider can do: as configured, and else as a provider usually can.
pub open spec fn capabilities_of(c: ProviderCapabilitiesConfig) -> ProviderCapabilities {
    ProviderCapabilities {
        supports_snapshots: or_else(c.supports_snapshots, false),
        supports_streaming: or_else(c.supports_streaming, true),
        supports_pause_resume: false,
        max_timeout_ms: 86_400_000,
        max_memory_mb: or_else(c.max_memory_mb, 16384),
        max_cpu_count: or_else(c.max_cpu_count, 16),
        supports_networking: true,
        requires_kvm: or_else(c.requires_kvm, false),
        avg_startup_ms: or_else(c.avg_startup_ms, 1500),
    }
}

impl ProviderCapabilitiesConfig {
    /// What the provider can do.
    pub fn into_domain(self) -> (r: ProviderCapabilities)
        ensures
            r == capabilities_of(self),
            r.supports_snapshots <==> self.supports_snapshots == Some(true),
            r.supports_streaming <==> self.supports_streaming != Some(false),
            r.requires_kvm <==> self.requires_kvm == Some(true),
            r.supports_networking && !r.supports_pause_resume,
            r.max_timeout_ms == 86_400_000,
            self.max_memory_mb matches Some(m) ==> r.max_memory_mb == m,
            self.max_memory_mb is None ==> r.max_memory_mb == 16_384,
            self.max_cpu_count matches Some(n) ==> r.max_cpu_count == n,
            self.max_cpu_count is None ==> r.max_cpu_count == 16,
            self.avg_startup_ms matches Some(t) ==> r.avg_startup_ms == t,
            self.avg_startup_ms is None ==> r.avg_startup_ms == 1500,
    {
        ProviderCapabilities {
            supports_snapshots: self.supports_snapshots.unwrap_or(false),
            supports_streaming: self.supports_streaming.unwrap_or(true),
            supports_pause_resume: false,
            max_timeout_ms: 86_400_000,
            max_memory_mb: self.max_memory_mb.unwrap_or(16384),
            max_cpu_count: self.max_cpu_count.unwrap_or(16),
            supports_networking: true,
            requires_kvm: self.requires_kvm.unwrap_or(false),
            avg_startup_ms: self.avg_startup_ms.unwrap_or(1500),
        }
    }
}

} // verus!
