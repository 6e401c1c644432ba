//! Names in place of secrets.
use vstd::prelude::*;

use crate::domain::DomainError;
use crate::secret::env_resolver::SecretValue;

verus! {

/// Gives each name as its own secret.
#[derive(Debug, Clone, Copy, PartialEq, Eq, Structural)]
pub struct NoopSecretResolver;

impl NoopSecretResolver {
    /// Gives each name as its own secret.
    pub fn new() -> (r: Self)
        ensures
            r == NoopSecretResolver,
    {
        NoopSecretResolver
    }

    /// The name itself.
    pub fn resolve(&self, key: &str) -> (r: Result<SecretValue, DomainError>)
        ensures
            match r {
                Ok(s) => s.value@ == key@ && s.source@ == "noop"@,
                Err(_) => false,
            },
    {
        Ok(SecretValue { value: key.to_owned(), source: "noop".to_owned() })
    }
}

impl Default for NoopSecretResolver {
    fn default() -> (r: Self)
        ensures
            r == NoopSecretResolver,
    {
        NoopSecretResolver
    }
}

} // verus!
