//! Warm sandboxes, kept ready so that a sandbox can be handed out at once.
pub mod manager;
pub mod queue;

pub use manager::{PoolStats, RecoveryResult, SandboxPoolManager, TemplateStats};
pub use queue::{PoolConfig, PoolEntry, PoolQueue};
