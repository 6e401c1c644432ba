//! Where secrets come from.
pub mod env_resolver;
pub mod noop_resolver;
