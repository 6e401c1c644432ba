//! Settings of the enrichment.
use vstd::prelude::*;

verus! {

/// How many records may be on their way to the database at once.
#[derive(Debug, Clone, Copy, PartialEq, Eq, Structural)]
pub struct SemaphoreConfig {
    pub max_concurrent_records: usize,
}

impl Default for SemaphoreConfig {
    fn default() -> (r: Self)
        ensures
            r.max_concurrent_records == 64,
    {
        SemaphoreConfig { max_concurrent_records: 64 }
    }
}

/// How long records of runs are kept.
#[derive(Debug, Clone, Copy, PartialEq, Eq, Structural)]
pub struct RetentionConfig {
    pub max_age_days: u32,
    pub max_rows: u64,
    pub enabled: bool,
    pub sanitize: bool,
}

impl Default for RetentionConfig {
    fn default() -> (r: Self)
        ensures
            r == (RetentionConfig {
                max_age_days: 90,
                max_rows: 100_000,
                enabled: true,
                sanitize: true,
            }),
    {
        RetentionConfig { max_age_days: 90, max_rows: 100_000, enabled: true, sanitize: true }
    }
}

/// Settings of the enrichment.
#[derive(Debug)]
pub struct EnrichmentConfig {
    /// Whether output is enriched at all.
    pub enabled: bool,
    /// Where the enricher files lie.
    pub catalog_dir: String,
    pub retention: RetentionConfig,
    pub semaphore: SemaphoreConfig,
}

impl Default for EnrichmentConfig {
    fn default() -> (r: Self)
        ensures
            r.enabled,
            r.catalog_dir@ == ".bastion/catalog/enrichers"@,
            r.retention == (RetentionConfig {
                max_age_days: 90,
                max_rows: 100_000,
                enabled: true,
                sanitize: true,
            }),
            r.semaphore.max_concurrent_records == 64,
    {
        EnrichmentConfig {
            enabled: true,
            catalog_dir: ".bastion/catalog/enrichers".to_owned(),
            retention: RetentionConfig::default(),
            semaphore: SemaphoreConfig::default(),
        }
    }
}

} // verus!
