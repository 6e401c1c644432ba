//! How a request for a sandbox reaches its worker.
use vstd::prelude::*;

use crate::domain::{CommandSpec, DomainError, DomainErrorView};
use crate::interop;
use crate::interop::new_uuid;
use crate::text::concat2;

verus! {

/// The timeout of a command that names none, in milliseconds.
pub const DEFAULT_COMMAND_TIMEOUT_MS: u64 = 30000;

/// What a routed command runs with.
#[derive(Debug)]
pub struct RoutedCommand {
    pub working_dir: String,
    pub timeout_ms: u64,
}

/// Requires that the worker of a sandbox is connected. Without it a request fails:
/// there is no other way into the sandbox.
pub fn require_worker(id: &str, connected: bool) -> (r: Result<(), DomainError>)
    ensures
        match r {
            Ok(_) => connected,
            Err(e) => !connected && e@ == DomainErrorView::WorkerNotConnected(id@),
        },
{
    if connected {
        Ok(())
    } else {
        Err(DomainError::WorkerNotConnected(id.to_owned()))
    }
}

/// How a command is routed to the worker of a sandbox: with its own working directory
/// and timeout, or with the default ones.
pub fn route_command(id: &str, connected: bool, command: &CommandSpec) -> (r: Result<
    RoutedCommand,
    DomainError,
>)
    ensures
        match r {
            Ok(c) => {
                &&& connected
                &&& c.timeout_ms == (match command.timeout_ms {
                    Some(t) => t,
                    None => DEFAULT_COMMAND_TIMEOUT_MS,
                })
                &&& c.working_dir@ == (match command.working_dir {
                    Some(d) => d@,
                    None => "/workspace"@,
                })
            },
            Err(e) => !connected && e@ == DomainErrorView::WorkerNotConnected(id@),
        },
        connected && command.timeout_ms is None ==> r->Ok_0.timeout_ms == 30_000,
{
    if !connected {
        return Err(DomainError::WorkerNotConnected(id.to_owned()));
    }
    let timeout_ms: u64 = match command.timeout_ms {
        Some(t) => t,
        None => DEFAULT_COMMAND_TIMEOUT_MS,
    };
    let working_dir = match &command.working_dir {
        Some(d) => d.clone(),
        None => "/workspace".to_owned(),
    };
    Ok(RoutedCommand { working_dir, timeout_ms })
}

/// The secret that is made of an identifier.
pub open spec fn secret_of(uuid: Seq<char>) -> Seq<char> {
    "secret-"@ + uuid
}

/// The secret that is made of an identifier.
pub fn worker_secret(uuid: &str) -> (r: String)
    ensures
        r@ == secret_of(uuid@),
        r@ == "secret-"@ + uuid@,
{
    concat2("secret-", uuid)
}

/// A secret for the worker of a new sandbox, made of a random identifier.
pub fn new_worker_secret() -> (r: String)
    ensures
        exists|uuid: Seq<char>| interop::uuid_form(uuid) && r@ == #[trigger] secret_of(uuid),
{
    let uuid = new_uuid();
    let secret = worker_secret(uuid.as_str());
    assert(secret@ == secret_of(uuid@));
    secret
}

} // verus!
