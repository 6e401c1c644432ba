//! The host backend: a sandbox uses the network of the host as it is.
use vstd::prelude::*;

use crate::domain::DomainError;
use crate::provider::network::{NetworkConfig, NetworkKind};

verus! {

/// Leaves sandboxes in the network of the host.
#[derive(Debug)]
pub struct HostBackend;

impl Default for HostBackend {
    fn default() -> (r: Self)
        ensures
            r == HostBackend,
    {
        HostBackend
    }
}

impl HostBackend {
    /// The backend.
    pub fn new() -> (r: Self)
        ensures
            r == HostBackend,
    {
        HostBackend
    }

    /// Tells that a sandbox uses the host, without addresses of its own.
    pub fn setup(&self) -> (r: Result<NetworkConfig, DomainError>)
        ensures
            r matches Ok(c) && {
                &&& c.interface_name@ == "host"@
                &&& c.guest_ip@ == Seq::<char>::empty()
                &&& c.gateway_ip@ == Seq::<char>::empty()
                &&& c.subnet_mask == 0
            },
    {
        Ok(
            NetworkConfig {
                interface_name: "host".to_owned(),
                guest_ip: String::new(),
                gateway_ip: String::new(),
                subnet_mask: 0,
            },
        )
    }

    /// There is nothing to disconnect.
    pub fn teardown(&self) -> (r: Result<(), DomainError>)
        ensures
            r is Ok,
    {
        Ok(())
    }

    /// What the backend connects sandboxes with.
    pub fn kind(&self) -> (r: NetworkKind)
        ensures
            r == NetworkKind::Host,
    {
        NetworkKind::Host
    }
}

} // verus!
