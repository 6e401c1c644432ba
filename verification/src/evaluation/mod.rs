//! Evaluation of checks.
pub mod legacy_cel_shim;
