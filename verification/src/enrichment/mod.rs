//! Enrichment of command output: the catalog of enrichers, the files that they may
//! read, and the records of their runs.
pub mod models;
pub mod sqlite_repo;
pub mod config;
pub mod fs;
pub mod adapter;
pub mod schema_migration;
pub mod sqlite_optimizer_repo;
pub mod sqlite_worker;
pub mod cleanup;
