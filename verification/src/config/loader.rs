//! The configuration file of the gateway, and what it says where a setting is left out.
use vstd::prelude::*;

use crate::assoc::Assoc;

verus! {

/// The configuration of the gateway.
pub struct GatewayConfig {
    pub server: ServerConfig,
    pub default_provider: String,
    pub providers: Assoc<ProviderConfig>,
    pub pool: PoolConfig,
}

impl GatewayConfig {
    /// Each provider has one configuration.
    pub open spec fn wf(self) -> bool {
        self.providers.wf()
    }

    /// The configuration of a provider.
    pub fn provider(&self, name: &str) -> (r: Option<&ProviderConfig>)
        ensures
            match r {
                Some(c) => self.providers@.contains_key(name@) && *c == self.providers@[name@],
                None => !self.providers@.contains_key(name@),
            },
    {
        self.providers.get(name)
    }

    /// The configuration of the default provider.
    pub fn default_provider_config(&self) -> (r: Option<&ProviderConfig>)
        ensures
            match r {
                Some(c) => self.providers@.contains_key(self.default_provider@) && *c
                    == self.providers@[self.default_provider@],
                None => !self.providers@.contains_key(self.default_provider@),
            },
    {
        self.providers.get(self.default_provider.as_str())
    }
}

/// How the gateway is reached.
#[derive(Debug)]
pub struct ServerConfig {
    pub transport: String,
    pub http_addr: String,
}

/// The address of the gateway where none is given.
pub fn default_http_addr() -> (r: String)
    ensures
        r@ == "0.0.0.0:8080"@,
{
    "0.0.0.0:8080".to_owned()
}

/// The configuration of a provider.
#[derive(Debug)]
pub enum ProviderConfig {
    Podman(PodmanConfig),
    Firecracker(FirecrackerConfig),
    GVisor(GVisorConfig),
}

impl ProviderConfig {
    /// How many sandboxes the provider keeps ready.
    pub open spec fn pool_size(self) -> usize {
        match self {
            ProviderConfig::Podman(c) => c.hot_pool_size,
            ProviderConfig::Firecracker(c) => c.hot_pool_size,
            ProviderConfig::GVisor(c) => c.hot_pool_size,
        }
    }

    /// How many sandboxes the provider keeps ready.
    pub fn hot_pool_size(&self) -> (r: usize)
        ensures
            r == self.pool_size(),
            *self matches ProviderConfig::Podman(c) ==> r == c.hot_pool_size,
            *self matches ProviderConfig::Firecracker(c) ==> r == c.hot_pool_size,
            *self matches ProviderConfig::GVisor(c) ==> r == c.hot_pool_size,
    {
        match self {
            ProviderConfig::Podman(c) => c.hot_pool_size,
            ProviderConfig::Firecracker(c) => c.hot_pool_size,
            ProviderConfig::GVisor(c) => c.hot_pool_size,
        }
    }
}

/// The configuration of Podman.
#[derive(Debug)]
pub struct PodmanConfig {
    pub socket_path: String,
    pub default_image: String,
    pub network_mode: String,
    pub rootless: bool,
    pub hot_pool_size: usize,
}

/// The network mode where none is given.
pub fn default_network_mode() -> (r: String)
    ensures
        r@ == "bridge"@,
{
    "bridge".to_owned()
}

/// How many sandboxes a provider keeps ready where it does not say.
pub fn default_pool_size() -> (r: usize)
    ensures
        r == 3,
{
    3
}

/// The configuration of Firecracker.
#[derive(Debug)]
pub struct FirecrackerConfig {
    pub kernel_path: String,
    pub rootfs_path: String,
    pub firecracker_bin: String,
    pub jailer_bin: Option<String>,
    pub hot_pool_size: usize,
}

/// The configuration of gVisor.
#[derive(Debug)]
pub struct GVisorConfig {
    pub runsc_bin: String,
    pub default_image: String,
    pub hot_pool_size: usize,
}

/// The configuration of the pool.
#[derive(Debug, Clone, Copy, PartialEq, Eq, Structural)]
pub struct PoolConfig {
    pub min_hot_per_provider: usize,
    pub max_hot_per_provider: usize,
    pub idle_timeout_ms: u64,
    pub cleanup_interval_ms: u64,
}

impl Default for PoolConfig {
    fn default() -> (r: Self)
        ensures
            r == (PoolConfig {
                min_hot_per_provider: 1,
                max_hot_per_provider: 10,
                idle_timeout_ms: 300_000,
                cleanup_interval_ms: 60_000,
            }),
    {
        PoolConfig {
            min_hot_per_provider: default_min_hot(),
            max_hot_per_provider: default_max_hot(),
            idle_timeout_ms: default_idle_timeout(),
            cleanup_interval_ms: default_cleanup_interval(),
        }
    }
}

/// The fewest sandboxes that are kept ready for a provider.
pub fn default_min_hot() -> (r: usize)
    ensures
        r == 1,
{
    1
}

/// The most sandboxes that are kept ready for a provider.
pub fn default_max_hot() -> (r: usize)
    ensures
        r == 10,
{
    10
}

/// How long a sandbox may be idle, in milliseconds.
pub fn default_idle_timeout() -> (r: u64)
    ensures
        r == 300_000,
{
    300_000
}

/// How often idle sandboxes are looked for, in milliseconds.
pub fn default_cleanup_interval() -> (r: u64)
    ensures
        r == 60_000,
{
    60_000
}

} // verus!
