//! Counters of the gateway, the resources that workers report, and the changes of the
//! configuration.
pub mod gateway;
pub mod heartbeat_bridge;

pub mod hub;
