//! The configuration of the gateway.
pub mod loader;
