//! Secrets from the environment.
use vstd::prelude::*;

use crate::domain::{DomainError, DomainErrorView};
use crate::text::{concat2, concat3};

verus! {

/// A secret, and where it came from.
pub struct SecretValue {
    pub value: String,
    pub source: String,
}

/// Takes secrets from the environment.
#[derive(Debug, Clone, Copy, PartialEq, Eq, Structural)]
pub struct EnvSecretResolver;

impl EnvSecretResolver {
    /// Takes secrets from the environment.
    pub fn new() -> (r: Self)
        ensures
            r == EnvSecretResolver,
    {
        EnvSecretResolver
    }

    /// The secret under a name, from what the environment holds under it.
    pub fn resolve(&self, key: &str, found: Option<String>) -> (r: Result<SecretValue, DomainError>)
        ensures
            match r {
                Ok(s) => found == Some(s.value) && s.source@ == "env:"@ + key@,
                Err(e) => found is None && e@ == DomainErrorView::Config(
                    "Secret '"@ + key@ + "' not found in environment"@,
                ),
            },
    {
        match found {
            Some(value) => Ok(SecretValue { value, source: concat2("env:", key) }),
            None => Err(
                DomainError::Config(concat3("Secret '", key, "' not found in environment")),
            ),
        }
    }
}

impl Default for EnvSecretResolver {
    fn default() -> (r: Self)
        ensures
            r == EnvSecretResolver,
    {
        EnvSecretResolver
    }
}

} // verus!
