//! Where sandboxes are kept.
pub mod in_memory;
pub mod sqlite_repository;
