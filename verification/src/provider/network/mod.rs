//! How sandboxes are connected to the network of the host.
pub mod bridge_backend;
pub mod host_backend;
pub mod tap_backend;

pub use bridge_backend::BridgeBackend;
pub use host_backend::HostBackend;
pub use tap_backend::TapBackend;

use vstd::prelude::*;

verus! {

/// What a backend connects sandboxes with.
#[derive(Debug, Clone, Copy, PartialEq, Eq, Structural)]
pub enum NetworkKind {
    Tap,
    Bridge,
    Host,
}

/// How a sandbox is connected.
#[derive(Debug)]
pub struct NetworkConfig {
    pub interface_name: String,
    pub guest_ip: String,
    pub gateway_ip: String,
    pub subnet_mask: u8,
}

} // verus!
