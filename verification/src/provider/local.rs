//! Sandboxes that are directories of the host, for development and tests.
use vstd::prelude::*;

use crate::assoc::Assoc;
use crate::domain;
use crate::domain::{
    CommandResult, CommandSpec, DomainError, DomainErrorView, NetworkSpec, ProviderCapabilities,
    ResourcesSpec, Sandbox, SandboxStatus, Timestamp,
};
use crate::provider::podman::CommandChunk;
use crate::provider::state_machine;
use crate::provider::state_machine::{not_found, DashMapSandboxStateMachine, StateEntry};
use crate::table;
use crate::table::Entry;
use crate::text;
use crate::text::{concat2, concat3, join, join_path, trim_start_matches};

verus! {

/// Runs commands on the host itself, each sandbox in a directory of its own.
pub struct LocalProvider {
    base_dir: String,
    cleanup: bool,
    workspaces: Assoc<String>,
    sandboxes: Assoc<Sandbox>,
    machine: DashMapSandboxStateMachine<()>,
}

/// The directory of a sandbox.
pub open spec fn workspace_of(base_dir: Seq<char>, id: Seq<char>) -> Seq<char> {
    text::joined_path(base_dir, "local-"@ + id)
}

/// The command line that a shell is given.
pub open spec fn shell_text(command: CommandSpec) -> Seq<char> {
    if command.args@.len() == 0 {
        command.command@
    } else {
        command.command@ + " "@ + text::joined(text::texts(command.args@), " "@)
    }
}

/// What the provider can do. A limit of zero means that there is none.
pub open spec fn local_capabilities() -> ProviderCapabilities {
    ProviderCapabilities {
        supports_snapshots: false,
        supports_streaming: true,
        supports_pause_resume: false,
        max_timeout_ms: 86_400_000,
        max_memory_mb: 0,
        max_cpu_count: 0,
        supports_networking: true,
        requires_kvm: false,
        avg_startup_ms: 10,
    }
}

/// The ids of the entries that the map knows, in their order.
pub open spec fn known_ids(rows: Seq<Entry<StateEntry<()>>>, known: Map<Seq<char>, Sandbox>) -> Seq<
    Seq<char>,
>
    decreases rows.len(),
{
    if rows.len() == 0 {
        seq![]
    } else {
        let before = known_ids(rows.drop_last(), known);
        if known.contains_key(rows.last().key@) {
            before.push(rows.last().key@)
        } else {
            before
        }
    }
}

proof fn lemma_known_ids(rows: Seq<Entry<StateEntry<()>>>, known: Map<Seq<char>, Sandbox>)
    requires
        forall|i: int, j: int|
            0 <= i < rows.len() && 0 <= j < rows.len() && (#[trigger] rows[i]).key@ == (
            #[trigger] rows[j]).key@ ==> i == j,
    ensures
        known_ids(rows, known).no_duplicates(),
        forall|id: Seq<char>| #[trigger]
            known_ids(rows, known).contains(id) <==> known.contains_key(id) && (exists|i: int|
                0 <= i < rows.len() && (#[trigger] rows[i]).key@ == id),
    decreases rows.len(),
{
    let ids = known_ids(rows, known);
    if rows.len() > 0 {
        let front = rows.drop_last();
        let before = known_ids(front, known);
        let last = rows.last().key@;
        lemma_known_ids(front, known);
        assert(!before.contains(last)) by {
            if before.contains(last) {
                let i = choose|i: int| 0 <= i < front.len() && (#[trigger] front[i]).key@ == last;
                assert(rows[i].key@ == rows[rows.len() - 1].key@);
            }
        }
        assert forall|id: Seq<char>| #[trigger] ids.contains(id) <==> known.contains_key(id) && (
        exists|i: int| 0 <= i < rows.len() && (#[trigger] rows[i]).key@ == id) by {
            if ids.contains(id) {
                let k = choose|k: int| 0 <= k < ids.len() && ids[k] == id;
                if k < before.len() {
                    assert(before[k] == id);
                    assert(before.contains(id));
                    let i = choose|i: int| 0 <= i < front.len() && (#[trigger] front[i]).key@ == id;
                    assert(rows[i].key@ == id);
                } else {
                    assert(rows[rows.len() - 1].key@ == id);
                }
            }
            if known.contains_key(id) && (exists|i: int|
                0 <= i < rows.len() && (#[trigger] rows[i]).key@ == id) {
                let i = choose|i: int| 0 <= i < rows.len() && (#[trigger] rows[i]).key@ == id;
                if i < front.len() {
                    assert(front[i].key@ == id);
                    assert(before.contains(id));
                    let k = choose|k: int| 0 <= k < before.len() && before[k] == id;
                    assert(ids[k] == id);
                } else {
                    assert(ids[before.len() as int] == id);
                }
            }
        }
        assert forall|k: int, l: int| 0 <= k < ids.len() && 0 <= l < ids.len() && k != l implies ids[k]
            != ids[l] by {
            if k < before.len() {
                assert(before.contains(before[k]));
            }
            if l < before.len() {
                assert(before.contains(before[l]));
            }
        }
    }
}

/// The result of a command as chunks: its outputs where they are not empty, then its
/// exit code.
pub fn stream_chunks(result: CommandResult) -> (r: Vec<CommandChunk>)
    ensures
        r@ == (if result.stdout@.len() > 0 {
            seq![CommandChunk::Stdout(result.stdout)]
        } else {
            seq![]
        }) + (if result.stderr@.len() > 0 {
            seq![CommandChunk::Stderr(result.stderr)]
        } else {
            seq![]
        }) + seq![CommandChunk::ExitCode(result.exit_code)],
{
    let mut out: Vec<CommandChunk> = Vec::new();
    if result.stdout.len() > 0 {
        out.push(CommandChunk::Stdout(result.stdout));
    }
    if result.stderr.len() > 0 {
        out.push(CommandChunk::Stderr(result.stderr));
    }
    out.push(CommandChunk::ExitCode(result.exit_code));
    assert(out@ =~= (if result.stdout@.len() > 0 {
        seq![CommandChunk::Stdout(result.stdout)]
    } else {
        seq![]
    }) + (if result.stderr@.len() > 0 {
        seq![CommandChunk::Stderr(result.stderr)]
    } else {
        seq![]
    }) + seq![CommandChunk::ExitCode(result.exit_code)]);
    out
}

impl LocalProvider {
    /// No id stands twice, and directories are removed with their sandboxes.
    pub closed spec fn wf(self) -> bool {
        self.workspaces.wf() && self.sandboxes.wf() && self.machine.wf() && self.cleanup
    }

    /// The directory that the workspaces lie in.
    pub closed spec fn base(self) -> Seq<char> {
        self.base_dir@
    }

    /// The workspaces by sandbox.
    pub closed spec fn spaces(self) -> Map<Seq<char>, String> {
        self.workspaces@
    }

    /// The sandboxes by id.
    pub closed spec fn known(self) -> Map<Seq<char>, Sandbox> {
        self.sandboxes@
    }

    /// The states by id.
    pub closed spec fn states(self) -> Map<Seq<char>, StateEntry<()>> {
        self.machine@
    }

    /// The states in the order in which they are listed.
    pub closed spec fn state_rows(self) -> Seq<Entry<StateEntry<()>>> {
        self.machine.rows()
    }

    /// The listed sandboxes are those that have a state and are known, each once.
    pub proof fn law_each_sandbox_is_listed_once(self)
        requires
            self.wf(),
        ensures
            table::lists_map(self.state_rows(), self.states()),
            known_ids(self.state_rows(), self.known()).no_duplicates(),
            forall|id: Seq<char>| #[trigger]
                known_ids(self.state_rows(), self.known()).contains(id) <==> (
                self.states().contains_key(id) && self.known().contains_key(id)),
    {
        let rows = self.state_rows();
        let ids = known_ids(rows, self.known());
        self.machine.lemma_rows();
        lemma_known_ids(rows, self.known());
        assert forall|id: Seq<char>| #[trigger] ids.contains(id) <==> (self.states().contains_key(id)
            && self.known().contains_key(id)) by {
            if ids.contains(id) {
                let i = choose|i: int| 0 <= i < rows.len() && (#[trigger] rows[i]).key@ == id;
                assert(self.states().contains_key(rows[i].key@));
            }
        }
    }

    /// The provider, where running on the host is allowed.
    pub fn new(base_dir: String, allowed: bool) -> (r: Result<LocalProvider, DomainError>)
        ensures
            match r {
                Ok(p) => allowed && p.wf() && p.base() == base_dir@ && p.spaces() == Map::<
                    Seq<char>,
                    String,
                >::empty() && p.known() == Map::<Seq<char>, Sandbox>::empty() && p.states() == Map::<
                    Seq<char>,
                    StateEntry<()>,
                >::empty(),
                Err(e) => !allowed && e@ == DomainErrorView::PermissionDenied(
                    "LocalProvider requires DANGEROUS_ALLOW_LOCAL=1 for security"@,
                ),
            },
    {
        if !allowed {
            return Err(
                DomainError::PermissionDenied(
                    "LocalProvider requires DANGEROUS_ALLOW_LOCAL=1 for security".to_owned(),
                ),
            );
        }
        Ok(
            LocalProvider {
                base_dir,
                cleanup: true,
                workspaces: Assoc::new(),
                sandboxes: Assoc::new(),
                machine: DashMapSandboxStateMachine::new(),
            },
        )
    }

    /// The directory that the workspaces lie in.
    pub fn base_dir(&self) -> (r: &String)
        ensures
            r@ == self.base(),
    {
        &self.base_dir
    }

    /// The directory that a new sandbox gets.
    pub fn workspace_path(&self, id: &str) -> (r: String)
        ensures
            r@ == workspace_of(self.base(), id@),
            self.base().len() > 0 && self.base().last() != '/' ==> r@ == self.base() + "/"@ + (
            "local-"@ + id@),
            self.base().len() == 0 || self.base().last() == '/' ==> r@ == self.base() + ("local-"@
                + id@),
    {
        proof {
            reveal_strlit("local-");
            assert(("local-"@ + id@)[0] == 'l');
        }
        let name = concat2("local-", id);
        join_path(self.base_dir.as_str(), name.as_str())
    }

    /// Takes a sandbox in whose directory was made, as running. Where the id was tracked
    /// already the sandbox is refused, though it has taken the place of the other one,
    /// whose state starts again as pending.
    pub fn create(
        &mut self,
        id: &str,
        template: &str,
        resources: ResourcesSpec,
        network: NetworkSpec,
        timeout_ms: u64,
        now: Timestamp,
        registered_at: u64,
    ) -> (r: Result<Sandbox, DomainError>)
        requires
            old(self).wf(),
        ensures
            final(self).wf(),
            final(self).base() == old(self).base(),
            final(self).spaces().dom() == old(self).spaces().dom().insert(id@),
            final(self).spaces()[id@]@ == workspace_of(old(self).base(), id@),
            forall|k: Seq<char>|
                k != id@ && old(self).spaces().contains_key(k) ==> final(self).spaces()[k] == old(
                    self,
                ).spaces()[k],
            ({
                let s = final(self).known()[id@];
                &&& final(self).known() == old(self).known().insert(id@, s)
                &&& s.id@ == id@
                &&& s.template_id@ == template@
                &&& s.provider_id@ == "local"@
                &&& s.status is Running
                &&& s.created_at == now
                &&& s.expires_at == Some(domain::deadline(now, timeout_ms))
                &&& s.resources == resources
                &&& s.network == network
                &&& s.metadata@.len() == 0
                &&& match r {
                    Ok(made) => {
                        &&& !old(self).states().contains_key(id@)
                        &&& made.same_as(s)
                        &&& final(self).states() == old(self).states().insert(
                            id@,
                            StateEntry {
                                status: SandboxStatus::Running,
                                payload: None,
                                registered_at,
                            },
                        )
                    },
                    Err(e) => {
                        &&& old(self).states().contains_key(id@)
                        &&& e@ == DomainErrorView::AlreadyExists("Sandbox already registered"@)
                        &&& final(self).states() == old(self).states().insert(
                            id@,
                            StateEntry {
                                status: SandboxStatus::Pending,
                                payload: None,
                                registered_at,
                            },
                        )
                    },
                }
            }),
    {
        let workspace = self.workspace_path(id);
        let _ = self.workspaces.insert(id.to_owned(), workspace);
        let mut sandbox = Sandbox::new(
            id.to_owned(),
            template.to_owned(),
            "local".to_owned(),
            resources,
            network,
            now,
        );
        match sandbox.mark_running() {
            Ok(_) => {},
            Err(e) => return Err(e),
        }
        sandbox.set_timeout(timeout_ms);
        let made = sandbox.duplicate();
        let _ = self.sandboxes.insert(id.to_owned(), sandbox);
        assert(self.spaces().dom() =~= old(self).spaces().dom().insert(id@));
        match self.machine.register(id.to_owned(), registered_at) {
            Ok(_) => {},
            Err(e) => return Err(e),
        }
        match self.machine.transition(id, SandboxStatus::Running) {
            Ok(_) => {},
            Err(e) => return Err(e),
        }
        assert(self.states() =~= old(self).states().insert(
            id@,
            StateEntry { status: SandboxStatus::Running, payload: None, registered_at },
        ));
        Ok(made)
    }

    /// Forgets a sandbox. Returns the directory to remove, where there is one.
    pub fn terminate(&mut self, id: &str) -> (r: Option<String>)
        requires
            old(self).wf(),
        ensures
            final(self).wf(),
            final(self).base() == old(self).base(),
            final(self).spaces() == old(self).spaces().remove(id@),
            final(self).known() == old(self).known().remove(id@),
            final(self).states() == old(self).states().remove(id@),
            match r {
                Some(w) => old(self).spaces().contains_key(id@) && w == old(self).spaces()[id@],
                None => !old(self).spaces().contains_key(id@),
            },
    {
        let workspace = self.workspaces.remove(id);
        let _ = self.sandboxes.remove(id);
        let _ = self.machine.remove(id);
        if self.cleanup {
            workspace
        } else {
            None
        }
    }

    /// Whether a sandbox is alive: by its state, or by being known where it has none.
    pub fn is_alive(&self, id: &str) -> (r: bool)
        requires
            self.wf(),
        ensures
            r == (if self.states().contains_key(id@) {
                self.states()[id@].status is Running
            } else {
                self.known().contains_key(id@)
            }),
    {
        match self.machine.get_state(id) {
            Some(status) => status == SandboxStatus::Running,
            None => self.sandboxes.contains_key(id),
        }
    }

    /// The description of a sandbox that is tracked and known.
    pub fn get_info(&self, id: &str) -> (r: Result<Sandbox, DomainError>)
        requires
            self.wf(),
        ensures
            match r {
                Ok(s) => self.states().contains_key(id@) && self.known().contains_key(id@)
                    && s.same_as(self.known()[id@]),
                Err(e) => (!self.states().contains_key(id@) || !self.known().contains_key(id@))
                    && e@ == DomainErrorView::NotFound(state_machine::sandbox_not_found(id@)),
            },
    {
        if self.machine.get_state(id).is_none() {
            return Err(not_found(id));
        }
        match self.sandboxes.get(id) {
            Some(s) => Ok(s.duplicate()),
            None => Err(not_found(id)),
        }
    }

    /// The descriptions of the sandboxes that are tracked and known.
    pub fn list_sandboxes(&self) -> (r: Vec<Sandbox>)
        requires
            self.wf(),
        ensures
            ({
                let ids = known_ids(self.state_rows(), self.known());
                &&& r@.len() == ids.len()
                &&& forall|k: int|
                    0 <= k < r@.len() ==> (#[trigger] r@[k]).same_as(self.known()[ids[k]])
            }),
    {
        let ids = self.machine.list_active();
        let mut out: Vec<Sandbox> = Vec::new();
        let ghost rows = self.machine.rows();
        let mut i: usize = 0;
        assert(rows.take(0) =~= seq![]);
        while i < ids.len()
            invariant
                i <= ids@.len(),
                self.wf(),
                rows == self.machine.rows(),
                ids@.len() == rows.len(),
                forall|j: int| 0 <= j < ids@.len() ==> (#[trigger] ids@[j])@ == rows[j].key@,
                out@.len() == known_ids(rows.take(i as int), self.sandboxes@).len(),
                forall|k: int|
                    0 <= k < out@.len() ==> (#[trigger] out@[k]).same_as(
                        self.sandboxes@[known_ids(rows.take(i as int), self.sandboxes@)[k]],
                    ),
            decreases ids@.len() - i,
        {
            proof {
                assert(rows.take(i + 1).drop_last() =~= rows.take(i as int));
                assert(rows.take(i + 1).last() == rows[i as int]);
                self.machine.lemma_rows();
                assert(ids@[i as int]@ == rows[i as int].key@);
            }
            match self.get_info(ids[i].as_str()) {
                Ok(s) => {
                    out.push(s);
                },
                Err(_) => {},
            }
            i = i + 1;
        }
        assert(rows.take(i as int) =~= rows);
        out
    }

    /// The directory of a sandbox.
    pub fn workspace(&self, id: &str) -> (r: Result<String, DomainError>)
        requires
            self.wf(),
        ensures
            match r {
                Ok(w) => self.spaces().contains_key(id@) && w == self.spaces()[id@],
                Err(e) => !self.spaces().contains_key(id@) && e@ == DomainErrorView::NotFound(
                    state_machine::sandbox_not_found(id@),
                ),
            },
    {
        match self.workspaces.get(id) {
            Some(w) => Ok(w.clone()),
            None => Err(not_found(id)),
        }
    }

    /// The command line that a shell is given.
    pub fn shell_command(command: &CommandSpec) -> (r: String)
        ensures
            r@ == shell_text(*command),
            command.args@.len() == 0 ==> r@ == command.command@,
            command.args@.len() > 0 ==> r@ == command.command@ + " "@ + text::joined(
                text::texts(command.args@),
                " "@,
            ),
    {
        if command.args.len() == 0 {
            return command.command.clone();
        }
        let args = join(&command.args, " ");
        concat3(command.command.as_str(), " ", args.as_str())
    }

    /// The result of a command. One that a signal ended has the exit code minus one.
    pub fn run_command(
        exit_code: Option<i32>,
        stdout: Vec<u8>,
        stderr: Vec<u8>,
        duration_ms: u64,
    ) -> (r: CommandResult)
        ensures
            r.exit_code == (match exit_code {
                Some(c) => c as int,
                None => -1,
            }),
            r.stdout == stdout,
            r.stderr == stderr,
            r.duration_ms == duration_ms,
            !r.timed_out,
    {
        let code: i32 = match exit_code {
            Some(c) => c,
            None => -1,
        };
        CommandResult { exit_code: code, stdout, stderr, duration_ms, timed_out: false }
    }

    /// Where a path of a sandbox lies in its directory. The slashes in front of it do
    /// not lead out.
    pub fn file_path(workspace: &str, path: &str) -> (r: String)
        ensures
            r@ == text::joined_path(workspace@, text::trim_start_matches_of(path@, '/')),
    {
        let relative = trim_start_matches(path, '/');
        join_path(workspace, relative.as_str())
    }

    /// Commands run to their end: a cancelled command is never stopped.
    pub fn cancel_command(_id: &str, _grace_period_ms: u64) -> (r: bool)
        ensures
            !r,
    {
        false
    }

    /// A snapshot is not to be had.
    pub fn create_snapshot() -> (r: DomainError)
        ensures
            r@ == DomainErrorView::UnsupportedOperation(
                "snapshots not supported for local provider"@,
            ),
    {
        DomainError::UnsupportedOperation("snapshots not supported for local provider".to_owned())
    }

    /// What the provider can do.
    pub fn capabilities() -> (r: ProviderCapabilities)
        ensures
            r == local_capabilities(),
            r.supports_streaming && r.supports_networking,
            !r.supports_snapshots && !r.supports_pause_resume && !r.requires_kvm,
            r.max_timeout_ms == 86_400_000,
            r.max_memory_mb == 0 && r.max_cpu_count == 0,
            r.avg_startup_ms == 10,
    {
        ProviderCapabilities {
            supports_snapshots: false,
            supports_streaming: true,
            supports_pause_resume: false,
            max_timeout_ms: 86_400_000,
            max_memory_mb: 0,
            max_cpu_count: 0,
            supports_networking: true,
            requires_kvm: false,
            avg_startup_ms: 10,
        }
    }

    /// The name of the provider.
    pub fn name() -> (r: &'static str)
        ensures
            r@ == "local"@,
    {
        "local"
    }
}

proof fn lemma_trimmed_front(s: Seq<char>, c: char)
    ensures
        text::trim_start_matches_of(s, c).len() == 0 || text::trim_start_matches_of(s, c)[0] != c,
    decreases s.len(),
{
    if s.len() > 0 && s[0] == c {
        lemma_trimmed_front(s.drop_first(), c);
    }
}

/// The text of a file path of a sandbox begins with its directory, whatever slashes the path
/// was given with in front. Parts such as `..` in it are kept as they are.
pub proof fn law_file_paths_begin_with_workspace(workspace: Seq<char>, path: Seq<char>)
    ensures
        ({
            let p = text::joined_path(workspace, text::trim_start_matches_of(path, '/'));
            p.len() >= workspace.len() && p.take(workspace.len() as int) == workspace
        }),
{
    lemma_trimmed_front(path, '/');
    let rel = text::trim_start_matches_of(path, '/');
    let p = text::joined_path(workspace, rel);
    assert(p.take(workspace.len() as int) =~= workspace);
}

} // verus!
