//! Infrastructure of a sandbox platform: catalogs, doctor checks, metrics, the warm
//! pool, and the plans by which the provider back ends create and drive sandboxes.
pub mod assoc;
pub mod catalog;
pub mod config;
pub mod doctor;
pub mod domain;
pub mod enrichment;
pub mod evaluation;
pub mod grpc;
pub mod interop;
pub mod json;
pub mod metrics;
pub mod persistence;
pub mod pool;
pub mod provider;
pub mod secret;
pub mod table;
pub mod text;
