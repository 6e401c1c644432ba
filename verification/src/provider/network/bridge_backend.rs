//! The bridge backend, which does not connect anything yet.
use vstd::prelude::*;

use crate::domain::{DomainError, DomainErrorView};
use crate::provider::network::{NetworkConfig, NetworkKind};

verus! {

/// Would connect sandboxes over a bridge device.
#[derive(Debug)]
pub struct BridgeBackend;

impl Default for BridgeBackend {
    fn default() -> (r: Self)
        ensures
            r == BridgeBackend,
    {
        BridgeBackend
    }
}

impl BridgeBackend {
    /// The backend.
    pub fn new() -> (r: Self)
        ensures
            r == BridgeBackend,
    {
        BridgeBackend
    }

    /// Refuses to connect a sandbox.
    pub fn setup(&self) -> (r: Result<NetworkConfig, DomainError>)
        ensures
            r matches Err(e) && e@ == DomainErrorView::UnsupportedOperation(
                "BridgeBackend not yet implemented"@,
            ),
    {
        Err(DomainError::UnsupportedOperation("BridgeBackend not yet implemented".to_owned()))
    }

    /// Refuses to disconnect a sandbox.
    pub fn teardown(&self) -> (r: Result<(), DomainError>)
        ensures
            r matches Err(e) && e@ == DomainErrorView::UnsupportedOperation(
                "BridgeBackend not yet implemented"@,
            ),
    {
        Err(DomainError::UnsupportedOperation("BridgeBackend not yet implemented".to_owned()))
    }

    /// What the backend connects sandboxes with.
    pub fn kind(&self) -> (r: NetworkKind)
        ensures
            r == NetworkKind::Bridge,
    {
        NetworkKind::Bridge
    }
}

} // verus!
