//! Sandboxes with a file system in memory, and what stands in for them where they are
//! not built in.
use vstd::prelude::*;

use crate::assoc::Assoc;
use crate::domain::{
    DomainError, DomainErrorView, FileEntry, NetworkSpec, ProviderCapabilities, ResourcesSpec,
    Sandbox, SandboxFilter, Timestamp,
};
use crate::provider::firecracker_create::SnapshotInfo;
use crate::provider::state_machine;
use crate::provider::state_machine::not_found;
use crate::table::Entry;
use crate::text;
use crate::text::{
    chars_of, concat2, concat3, concat5, contains_char, starts_with, string_of, trim_start_matches,
};

verus! {

/// A path as the file system keeps it: with exactly one slash in front.
pub open spec fn normalized(path: Seq<char>) -> Seq<char> {
    "/"@ + text::trim_start_matches_of(path, '/')
}

/// A path as the file system keeps it.
pub fn normalize(path: &str) -> (r: String)
    ensures
        r@ == normalized(path@),
{
    let rest = trim_start_matches(path, '/');
    concat2("/", rest.as_str())
}

/// Whether a path ends in a slash.
pub open spec fn ends_in_slash(path: Seq<char>) -> bool {
    path.len() > 0 && path.last() == '/'
}

/// What lies behind a directory in a path, without the slashes between them.
pub open spec fn below(path: Seq<char>, dir: Seq<char>) -> Seq<char> {
    text::trim_start_matches_of(path.skip(dir.len() as int), '/')
}

/// Whether a path is an immediate child of a directory, both as the file system keeps
/// them: behind the directory come a slash and one name. On purpose it is not enough that the
/// path begins with the text of the directory: `/data2` is no child of `/data`.
pub open spec fn is_child(path: Seq<char>, dir: Seq<char>) -> bool {
    &&& text::has_prefix(path, dir)
    &&& ends_in_slash(dir) || (path.len() > dir.len() && path[dir.len() as int] == '/')
    &&& below(path, dir).len() > 0
    &&& !text::has_char(below(path, dir), '/')
}

/// Whether a path is an immediate child of a directory.
pub fn child_of(path: &str, dir: &str) -> (r: bool)
    ensures
        r == is_child(path@, dir@),
{
    if !starts_with(path, dir) {
        return false;
    }
    let mut cs = chars_of(path);
    let ds = chars_of(dir);
    let slash_in_dir = ds.len() > 0 && ds[ds.len() - 1] == '/';
    let slash_behind = cs.len() > ds.len() && cs[ds.len()] == '/';
    if !slash_in_dir && !slash_behind {
        return false;
    }
    let tail = cs.split_off(ds.len());
    assert(tail@ =~= path@.skip(dir@.len() as int));
    let tail_text = string_of(tail.as_slice());
    let relative = trim_start_matches(tail_text.as_str(), '/');
    !relative.as_str().is_empty() && !contains_char(relative.as_str(), '/')
}

/// Whether an entry of a listing stands for a file.
pub open spec fn lists_file(e: FileEntry, file: Entry<Vec<u8>>) -> bool {
    &&& e.path@ == file.key@
    &&& !e.is_directory
    &&& e.size_bytes == file.value@.len()
    &&& e.modified_at is None
    &&& e.permissions@ == ""@
}

/// The positions of the files that are immediate children of a directory.
pub open spec fn child_positions(rows: Seq<Entry<Vec<u8>>>, dir: Seq<char>) -> Seq<int>
    decreases rows.len(),
{
    if rows.len() == 0 {
        seq![]
    } else {
        let before = child_positions(rows.drop_last(), dir);
        if is_child(rows.last().key@, dir) {
            before.push(rows.len() - 1)
        } else {
            before
        }
    }
}

/// What the provider can do.
pub open spec fn wasm_capabilities() -> ProviderCapabilities {
    ProviderCapabilities {
        supports_snapshots: false,
        supports_streaming: true,
        supports_pause_resume: false,
        max_timeout_ms: 86_400_000,
        max_memory_mb: 4096,
        max_cpu_count: 4,
        supports_networking: false,
        requires_kvm: false,
        avg_startup_ms: 100,
    }
}

/// Keeps the files of each sandbox in memory.
pub struct WasmSandboxProvider {
    vfs: Assoc<Assoc<Vec<u8>>>,
    sandboxes: Assoc<Sandbox>,
}

proof fn lemma_child_positions(rows: Seq<Entry<Vec<u8>>>, dir: Seq<char>)
    ensures
        forall|k: int|
            0 <= k < child_positions(rows, dir).len() ==> {
                let p = #[trigger] child_positions(rows, dir)[k];
                0 <= p < rows.len() && is_child(rows[p].key@, dir)
            },
        forall|i: int|
            0 <= i < rows.len() && is_child((#[trigger] rows[i]).key@, dir) ==> exists|k: int|
                0 <= k < child_positions(rows, dir).len() && #[trigger] child_positions(
                    rows,
                    dir,
                )[k] == i,
        forall|k: int, l: int|
            0 <= k < child_positions(rows, dir).len() && 0 <= l < child_positions(rows, dir).len()
                && #[trigger] child_positions(rows, dir)[k] == #[trigger] child_positions(
                rows,
                dir,
            )[l] ==> k == l,
    decreases rows.len(),
{
    if rows.len() > 0 {
        let front = rows.drop_last();
        let before = child_positions(front, dir);
        let all = child_positions(rows, dir);
        lemma_child_positions(front, dir);
        assert forall|k: int| 0 <= k < before.len() implies all[k] == before[k] && 0 <= before[k]
            < front.len() && rows[before[k]] == front[before[k]] by {
            assert(0 <= before[k] < front.len());
        }
        assert forall|i: int|
            0 <= i < rows.len() && is_child((#[trigger] rows[i]).key@, dir) implies exists|k: int|
            0 <= k < all.len() && #[trigger] all[k] == i by {
            if i < front.len() {
                assert(is_child(front[i].key@, dir));
                let k = choose|k: int| 0 <= k < before.len() && #[trigger] before[k] == i;
                assert(all[k] == i);
            } else {
                assert(all[before.len() as int] == i);
            }
        }
    }
}

/// Copies bytes.
fn copy_bytes(data: &[u8]) -> (r: Vec<u8>)
    ensures
        r@ == data@,
{
    let mut out: Vec<u8> = Vec::new();
    let mut i: usize = 0;
    while i < data.len()
        invariant
            i <= data@.len(),
            out@ == data@.take(i as int),
        decreases data@.len() - i,
    {
        out.push(data[i]);
        i = i + 1;
        assert(out@ =~= data@.take(i as int));
    }
    assert(data@.take(i as int) =~= data@);
    out
}

impl Default for WasmSandboxProvider {
    /// A provider without sandboxes.
    fn default() -> (r: Self)
        ensures
            r.wf(),
            r.known() == Map::<Seq<char>, Sandbox>::empty(),
            forall|id: Seq<char>| !r.has_files(id),
    {
        WasmSandboxProvider::new()
    }
}

impl WasmSandboxProvider {
    /// No sandbox stands twice, nor any file of one.
    pub closed spec fn wf(self) -> bool {
        &&& self.vfs.wf()
        &&& self.sandboxes.wf()
        &&& forall|k: Seq<char>| #[trigger] self.vfs@.contains_key(k) ==> self.vfs@[k].wf()
    }

    /// The sandboxes that have a file system.
    pub closed spec fn has_files(self, id: Seq<char>) -> bool {
        self.vfs@.contains_key(id)
    }

    /// The files of a sandbox by path.
    pub closed spec fn files(self, id: Seq<char>) -> Map<Seq<char>, Seq<u8>> {
        self.vfs@[id]@.map_values(|v: Vec<u8>| v@)
    }

    /// The files of a sandbox in the order in which they are listed.
    pub closed spec fn file_rows(self, id: Seq<char>) -> Seq<Entry<Vec<u8>>> {
        self.vfs@[id].rows()
    }

    /// The sandboxes by id.
    pub closed spec fn known(self) -> Map<Seq<char>, Sandbox> {
        self.sandboxes@
    }

    /// The ids of the sandboxes in the order in which they are listed.
    pub closed spec fn listed(self) -> Seq<Seq<char>> {
        self.sandboxes.rows().map_values(|e: Entry<Sandbox>| e.key@)
    }

    /// The files of a sandbox are listed from rows that hold each file once.
    pub proof fn law_rows_are_the_files(self, id: Seq<char>)
        requires
            self.wf(),
            self.has_files(id),
        ensures
            forall|i: int|
                0 <= i < self.file_rows(id).len() ==> self.files(id).contains_key(
                    (#[trigger] self.file_rows(id)[i]).key@,
                ) && self.files(id)[self.file_rows(id)[i].key@] == self.file_rows(id)[i].value@,
            forall|path: Seq<char>| #[trigger]
                self.files(id).contains_key(path) ==> exists|i: int|
                    0 <= i < self.file_rows(id).len() && (#[trigger] self.file_rows(id)[i]).key@
                        == path,
            forall|i: int, j: int|
                0 <= i < self.file_rows(id).len() && 0 <= j < self.file_rows(id).len() && (
                #[trigger] self.file_rows(id)[i]).key@ == (#[trigger] self.file_rows(id)[j]).key@
                    ==> i == j,
    {
        let files = self.vfs@[id];
        files.lemma_rows();
        assert(self.file_rows(id) == files.rows());
        assert forall|path: Seq<char>| #[trigger] self.files(id).contains_key(path) implies exists|
            i: int,
        |
            0 <= i < self.file_rows(id).len() && (#[trigger] self.file_rows(id)[i]).key@ == path by {
            assert(files@.contains_key(path));
        }
    }

    /// A listing of a directory shows every file that lies in it, with its size, and shows
    /// it once; it shows nothing else.
    pub proof fn law_each_file_is_listed_once(self, id: Seq<char>, dir: Seq<char>)
        requires
            self.wf(),
            self.has_files(id),
        ensures
            ({
                let rows = self.file_rows(id);
                let positions = child_positions(rows, normalized(dir));
                &&& forall|k: int|
                    0 <= k < positions.len() ==> {
                        let p = #[trigger] positions[k];
                        &&& 0 <= p < rows.len()
                        &&& self.files(id).contains_key(rows[p].key@)
                        &&& is_child(rows[p].key@, normalized(dir))
                        &&& rows[p].value@.len() == self.files(id)[rows[p].key@].len()
                    }
                &&& forall|path: Seq<char>| #[trigger]
                    self.files(id).contains_key(path) && is_child(path, normalized(dir))
                        ==> exists|k: int|
                        0 <= k < positions.len() && rows[#[trigger] positions[k]].key@ == path
                &&& forall|k: int, l: int|
                    0 <= k < positions.len() && 0 <= l < positions.len() && rows[
                    #[trigger] positions[k]].key@ == rows[#[trigger] positions[l]].key@ ==> k == l
            }),
    {
        let rows = self.file_rows(id);
        let dir_path = normalized(dir);
        let positions = child_positions(rows, dir_path);
        self.law_rows_are_the_files(id);
        lemma_child_positions(rows, dir_path);
        assert forall|path: Seq<char>| #[trigger]
            self.files(id).contains_key(path) && is_child(path, dir_path) implies exists|k: int|
            0 <= k < positions.len() && rows[#[trigger] positions[k]].key@ == path by {
            let i = choose|i: int| 0 <= i < rows.len() && (#[trigger] rows[i]).key@ == path;
            assert(is_child(rows[i].key@, dir_path));
            let k = choose|k: int| 0 <= k < positions.len() && #[trigger] positions[k] == i;
            assert(rows[positions[k]].key@ == path);
        }
    }

    /// A provider without sandboxes.
    pub fn new() -> (r: WasmSandboxProvider)
        ensures
            r.wf(),
            r.known() == Map::<Seq<char>, Sandbox>::empty(),
            forall|id: Seq<char>| !r.has_files(id),
    {
        WasmSandboxProvider { vfs: Assoc::new(), sandboxes: Assoc::new() }
    }

    /// Gives a sandbox an empty file system.
    pub fn create(
        &mut self,
        id: &str,
        template: &str,
        resources: ResourcesSpec,
        network: NetworkSpec,
        now: Timestamp,
    ) -> (r: Sandbox)
        requires
            old(self).wf(),
        ensures
            final(self).wf(),
            r.id@ == id@,
            r.template_id@ == template@,
            r.provider_id@ == "wasm"@,
            r.status is Pending,
            r.created_at == now,
            r.expires_at is None,
            r.resources == resources,
            r.network == network,
            r.metadata@.len() == 0,
            final(self).known().dom() == old(self).known().dom().insert(id@),
            final(self).known()[id@].same_as(r),
            forall|k: Seq<char>|
                k != id@ && old(self).known().contains_key(k) ==> final(self).known()[k] == old(
                    self,
                ).known()[k],
            final(self).has_files(id@),
            final(self).files(id@) == Map::<Seq<char>, Seq<u8>>::empty(),
            forall|k: Seq<char>|
                k != id@ ==> final(self).has_files(k) == old(self).has_files(k) && final(self).files(
                    k,
                ) == old(self).files(k),
    {
        let _ = self.vfs.insert(id.to_owned(), Assoc::new());
        let sandbox = Sandbox::new(
            id.to_owned(),
            template.to_owned(),
            "wasm".to_owned(),
            resources,
            network,
            now,
        );
        let made = sandbox.duplicate();
        let _ = self.sandboxes.insert(id.to_owned(), sandbox);
        proof {
            assert(self.files(id@) =~= Map::<Seq<char>, Seq<u8>>::empty());
            assert(self.known().dom() =~= old(self).known().dom().insert(id@));
            assert forall|k: Seq<char>| k != id@ implies self.has_files(k) == old(self).has_files(k)
                && self.files(k) == old(self).files(k) by {
                if self.has_files(k) {
                    assert(self.vfs@[k] == old(self).vfs@[k]);
                } else {
                    assert(self.vfs@[k] == old(self).vfs@[k]);
                }
            }
        }
        made
    }

    /// Forgets a sandbox and its files.
    pub fn terminate(&mut self, id: &str)
        requires
            old(self).wf(),
        ensures
            final(self).wf(),
            final(self).known() == old(self).known().remove(id@),
            forall|k: Seq<char>|
                final(self).has_files(k) == (old(self).has_files(k) && k != id@),
            forall|k: Seq<char>|
                final(self).has_files(k) ==> final(self).files(k) == old(self).files(k),
    {
        let _ = self.vfs.remove(id);
        let _ = self.sandboxes.remove(id);
    }

    /// Whether a sandbox is alive.
    pub fn is_alive(&self, id: &str) -> (r: bool)
        requires
            self.wf(),
        ensures
            r == self.known().contains_key(id@),
    {
        self.sandboxes.contains_key(id)
    }

    /// Takes note of a command in a sandbox that is there. Nothing is run.
    pub fn run_command(&self, id: &str, command: &str, duration_ms: u64) -> (r: Result<
        WasmOutput,
        DomainError,
    >)
        requires
            self.wf(),
        ensures
            match r {
                Ok(o) => self.has_files(id@) && o.exit_code == 0 && o.stdout@ == "WASM: Executed '"@
                    + command@ + "' in sandbox "@ + id@ + "\n"@ && o.duration_ms == duration_ms,
                Err(e) => !self.has_files(id@) && e@ == DomainErrorView::NotFound(
                    state_machine::sandbox_not_found(id@),
                ),
            },
    {
        if !self.vfs.contains_key(id) {
            return Err(not_found(id));
        }
        Ok(
            WasmOutput {
                exit_code: 0,
                stdout: concat5("WASM: Executed '", command, "' in sandbox ", id, "\n"),
                duration_ms,
            },
        )
    }

    /// Writes a file of a sandbox.
    pub fn write_file(&mut self, id: &str, path: &str, content: &[u8]) -> (r: Result<
        (),
        DomainError,
    >)
        requires
            old(self).wf(),
        ensures
            final(self).wf(),
            final(self).known() == old(self).known(),
            match r {
                Ok(_) => {
                    &&& old(self).has_files(id@)
                    &&& final(self).has_files(id@)
                    &&& final(self).files(id@) == old(self).files(id@).insert(
                        normalized(path@),
                        content@,
                    )
                    &&& forall|k: Seq<char>|
                        k != id@ ==> final(self).has_files(k) == old(self).has_files(k)
                    &&& forall|k: Seq<char>|
                        k != id@ && old(self).has_files(k) ==> final(self).files(k) == old(
                            self,
                        ).files(k)
                },
                Err(e) => {
                    &&& !old(self).has_files(id@)
                    &&& *final(self) == *old(self)
                    &&& e@ == DomainErrorView::NotFound(state_machine::sandbox_not_found(id@))
                },
            },
    {
        let place: usize = match self.vfs.place_of(id) {
            Some(place) => place,
            None => return Err(not_found(id)),
        };
        let ghost before = *self;
        let key = normalize(path);
        let data = copy_bytes(content);
        assert(self.vfs@[id@] == self.vfs.rows()[place as int].value);
        let _ = self.vfs.value_mut(place).insert(key, data);
        proof {
            let after = self.vfs.rows()[place as int].value;
            Assoc::lemma_updated(before.vfs, self.vfs, place as int, after);
            assert(self.files(id@) =~= before.files(id@).insert(normalized(path@), content@));
        }
        Ok(())
    }

    /// Reads a file of a sandbox.
    pub fn read_file(&self, id: &str, path: &str) -> (r: Result<Vec<u8>, DomainError>)
        requires
            self.wf(),
        ensures
            match r {
                Ok(v) => self.has_files(id@) && self.files(id@).contains_key(normalized(path@))
                    && v@ == self.files(id@)[normalized(path@)],
                Err(e) => if !self.has_files(id@) {
                    e@ == DomainErrorView::NotFound(state_machine::sandbox_not_found(id@))
                } else {
                    !self.files(id@).contains_key(normalized(path@)) && e@
                        == DomainErrorView::NotFound("File "@ + path@ + " not found"@)
                },
            },
    {
        let files = match self.vfs.get(id) {
            Some(files) => files,
            None => return Err(not_found(id)),
        };
        let key = normalize(path);
        match files.get(key.as_str()) {
            Some(v) => Ok(copy_bytes(v.as_slice())),
            None => Err(DomainError::NotFound(concat3("File ", path, " not found"))),
        }
    }

    /// Lists the files of a sandbox that are immediate children of a directory.
    pub fn list_files(&self, id: &str, dir: &str) -> (r: Result<Vec<FileEntry>, DomainError>)
        requires
            self.wf(),
        ensures
            match r {
                Ok(v) => {
                    let positions = child_positions(self.file_rows(id@), normalized(dir@));
                    &&& self.has_files(id@)
                    &&& v@.len() == positions.len()
                    &&& forall|k: int|
                        0 <= k < v@.len() ==> lists_file(
                            #[trigger] v@[k],
                            self.file_rows(id@)[positions[k]],
                        )
                },
                Err(e) => !self.has_files(id@) && e@ == DomainErrorView::NotFound(
                    state_machine::sandbox_not_found(id@),
                ),
            },
            r is Ok ==> forall|k: int|
                0 <= k < r->Ok_0@.len() ==> {
                    let e = #[trigger] r->Ok_0@[k];
                    &&& self.files(id@).contains_key(e.path@)
                    &&& e.size_bytes == self.files(id@)[e.path@].len()
                    &&& is_child(e.path@, normalized(dir@))
                    &&& !e.is_directory && e.modified_at is None
                },
            r is Ok ==> forall|path: Seq<char>| #[trigger]
                self.files(id@).contains_key(path) && is_child(path, normalized(dir@))
                    ==> exists|k: int|
                    0 <= k < r->Ok_0@.len() && (#[trigger] r->Ok_0@[k]).path@ == path,
    {
        proof {
            if self.has_files(id@) {
                self.law_each_file_is_listed_once(id@, dir@);
                self.law_rows_are_the_files(id@);
            }
        }
        let files = match self.vfs.get(id) {
            Some(files) => files,
            None => return Err(not_found(id)),
        };
        let normalized_dir = normalize(dir);
        let mut out: Vec<FileEntry> = Vec::new();
        let ghost rows = files.rows();
        let mut i: usize = 0;
        assert(rows.take(0) =~= seq![]);
        while i < files.len()
            invariant
                i <= rows.len(),
                rows == files.rows(),
                normalized_dir@ == normalized(dir@),
                out@.len() == child_positions(rows.take(i as int), normalized(dir@)).len(),
                forall|k: int|
                    0 <= k < out@.len() ==> lists_file(
                        #[trigger] out@[k],
                        rows[child_positions(rows.take(i as int), normalized(dir@))[k]],
                    ),
            decreases rows.len() - i,
        {
            proof {
                assert(rows.take(i + 1).drop_last() =~= rows.take(i as int));
                assert(rows.take(i + 1).last() == rows[i as int]);
            }
            if child_of(files.key_at(i).as_str(), normalized_dir.as_str()) {
                out.push(
                    FileEntry {
                        path: files.key_at(i).clone(),
                        is_directory: false,
                        size_bytes: files.value_at(i).len() as u64,
                        modified_at: None,
                        permissions: "".to_owned(),
                    },
                );
            }
            i = i + 1;
        }
        assert(rows.take(i as int) =~= rows);
        proof {
            let positions = child_positions(self.file_rows(id@), normalized(dir@));
            assert(rows == self.file_rows(id@));
            assert forall|path: Seq<char>| #[trigger]
                self.files(id@).contains_key(path) && is_child(path, normalized(dir@)) implies exists|
                k: int,
            | 0 <= k < out@.len() && (#[trigger] out@[k]).path@ == path by {
                let k = choose|k: int|
                    0 <= k < positions.len() && rows[#[trigger] positions[k]].key@ == path;
                assert(out@[k].path@ == path);
            }
        }
        Ok(out)
    }

    /// All sandboxes, each once.
    pub fn list_sandboxes(&self) -> (r: Vec<Sandbox>)
        requires
            self.wf(),
        ensures
            r@.len() == self.listed().len(),
            forall|k: int|
                0 <= k < r@.len() ==> (#[trigger] r@[k]).same_as(self.known()[self.listed()[k]]),
            self.listed().no_duplicates(),
            forall|id: Seq<char>| self.listed().contains(id) <==> self.known().contains_key(id),
    {
        let ghost rows = self.sandboxes.rows();
        proof {
            self.sandboxes.lemma_rows();
            assert forall|id: Seq<char>| self.known().contains_key(id) implies self.listed().contains(
                id,
            ) by {
                let i = choose|i: int| 0 <= i < rows.len() && (#[trigger] rows[i]).key@ == id;
                assert(self.listed()[i] == id);
            }
        }
        let mut out: Vec<Sandbox> = Vec::new();
        let mut i: usize = 0;
        while i < self.sandboxes.len()
            invariant
                i <= rows.len(),
                rows == self.sandboxes.rows(),
                out@.len() == i,
                forall|k: int| 0 <= k < i ==> (#[trigger] out@[k]).same_as(rows[k].value),
            decreases rows.len() - i,
        {
            out.push(self.sandboxes.value_at(i).duplicate());
            i = i + 1;
        }
        out
    }

    /// The description of a sandbox.
    pub fn get_info(&self, id: &str) -> (r: Result<Sandbox, DomainError>)
        requires
            self.wf(),
        ensures
            match r {
                Ok(s) => self.known().contains_key(id@) && s.same_as(self.known()[id@]),
                Err(e) => !self.known().contains_key(id@) && e@ == DomainErrorView::NotFound(
                    state_machine::sandbox_not_found(id@),
                ),
            },
    {
        match self.sandboxes.get(id) {
            Some(s) => Ok(s.duplicate()),
            None => Err(not_found(id)),
        }
    }

    /// A snapshot is not to be had.
    pub fn create_snapshot() -> (r: DomainError)
        ensures
            r@ == DomainErrorView::UnsupportedOperation(
                "snapshots not supported for wasm provider"@,
            ),
    {
        DomainError::UnsupportedOperation("snapshots not supported for wasm provider".to_owned())
    }

    /// What the provider can do.
    pub fn capabilities() -> (r: ProviderCapabilities)
        ensures
            r == wasm_capabilities(),
            r.supports_streaming,
            !r.supports_snapshots && !r.supports_pause_resume && !r.supports_networking
                && !r.requires_kvm,
            r.max_timeout_ms == 86_400_000,
            r.max_memory_mb == 4096,
            r.max_cpu_count == 4,
            r.avg_startup_ms == 100,
    {
        ProviderCapabilities {
            supports_snapshots: false,
            supports_streaming: true,
            supports_pause_resume: false,
            max_timeout_ms: 86_400_000,
            max_memory_mb: 4096,
            max_cpu_count: 4,
            supports_networking: false,
            requires_kvm: false,
            avg_startup_ms: 100,
        }
    }

    /// The name of the provider.
    pub fn name() -> (r: &'static str)
        ensures
            r@ == "wasm"@,
    {
        "wasm"
    }
}

/// What a command in memory puts out.
#[derive(Debug)]
pub struct WasmOutput {
    pub exit_code: i32,
    pub stdout: String,
    pub duration_ms: u64,
}

/// Stands in for the provider where it is not built in: every request is refused.
#[derive(Debug)]
pub struct WasmSandboxProviderStub;

/// The message of the stand-in.
pub open spec fn feature_message() -> Seq<char> {
    "wasm-sandbox feature not enabled. Rebuild with --features wasm-sandbox"@
}

impl Default for WasmSandboxProviderStub {
    fn default() -> (r: Self)
        ensures
            r == WasmSandboxProviderStub,
    {
        WasmSandboxProviderStub
    }
}

impl WasmSandboxProviderStub {
    /// The stand-in.
    pub fn new() -> (r: Self)
        ensures
            r == WasmSandboxProviderStub,
    {
        WasmSandboxProviderStub
    }

    /// The error that answers every request.
    pub fn feature_error() -> (r: DomainError)
        ensures
            r@ == DomainErrorView::UnsupportedOperation(feature_message()),
            r@ == DomainErrorView::UnsupportedOperation(
                "wasm-sandbox feature not enabled. Rebuild with --features wasm-sandbox"@,
            ),
    {
        DomainError::UnsupportedOperation(
            "wasm-sandbox feature not enabled. Rebuild with --features wasm-sandbox".to_owned(),
        )
    }

    /// The name of the provider.
    pub fn name(&self) -> (r: &'static str)
        ensures
            r@ == "wasm"@,
    {
        "wasm"
    }

    /// No sandbox is made.
    pub fn create(&self, _id: &str) -> (r: Result<Sandbox, DomainError>)
        ensures
            r matches Err(e) && e@ == DomainErrorView::UnsupportedOperation(feature_message()),
    {
        Err(Self::feature_error())
    }

    /// No sandbox is ended.
    pub fn terminate(&self, _id: &str) -> (r: Result<(), DomainError>)
        ensures
            r matches Err(e) && e@ == DomainErrorView::UnsupportedOperation(feature_message()),
    {
        Err(Self::feature_error())
    }

    /// Of no sandbox is it known whether it runs.
    pub fn is_alive(&self, _id: &str) -> (r: Result<bool, DomainError>)
        ensures
            r matches Err(e) && e@ == DomainErrorView::UnsupportedOperation(feature_message()),
    {
        Err(Self::feature_error())
    }

    /// No command is run, with its output at the end or piece by piece.
    pub fn run_command(&self, _id: &str, _command: &str) -> (r: Result<WasmOutput, DomainError>)
        ensures
            r matches Err(e) && e@ == DomainErrorView::UnsupportedOperation(feature_message()),
    {
        Err(Self::feature_error())
    }

    /// No file is written.
    pub fn write_file(&self, _id: &str, _path: &str, _content: &[u8]) -> (r: Result<
        (),
        DomainError,
    >)
        ensures
            r matches Err(e) && e@ == DomainErrorView::UnsupportedOperation(feature_message()),
    {
        Err(Self::feature_error())
    }

    /// No file is read.
    pub fn read_file(&self, _id: &str, _path: &str) -> (r: Result<Vec<u8>, DomainError>)
        ensures
            r matches Err(e) && e@ == DomainErrorView::UnsupportedOperation(feature_message()),
    {
        Err(Self::feature_error())
    }

    /// No directory is listed.
    pub fn list_files(&self, _id: &str, _dir: &str) -> (r: Result<Vec<FileEntry>, DomainError>)
        ensures
            r matches Err(e) && e@ == DomainErrorView::UnsupportedOperation(feature_message()),
    {
        Err(Self::feature_error())
    }

    /// No snapshot is taken.
    pub fn create_snapshot(&self, _id: &str, _name: &str) -> (r: Result<
        SnapshotInfo,
        DomainError,
    >)
        ensures
            r matches Err(e) && e@ == DomainErrorView::UnsupportedOperation(feature_message()),
    {
        Err(Self::feature_error())
    }

    /// No snapshot is brought back.
    pub fn restore_snapshot(&self, _snapshot_id: &str) -> (r: Result<Sandbox, DomainError>)
        ensures
            r matches Err(e) && e@ == DomainErrorView::UnsupportedOperation(feature_message()),
    {
        Err(Self::feature_error())
    }

    /// No sandboxes are listed.
    pub fn list_sandboxes(&self, _filter: &SandboxFilter) -> (r: Result<Vec<Sandbox>, DomainError>)
        ensures
            r matches Err(e) && e@ == DomainErrorView::UnsupportedOperation(feature_message()),
    {
        Err(Self::feature_error())
    }

    /// No sandbox is described.
    pub fn get_info(&self, _id: &str) -> (r: Result<Sandbox, DomainError>)
        ensures
            r matches Err(e) && e@ == DomainErrorView::UnsupportedOperation(feature_message()),
    {
        Err(Self::feature_error())
    }

    /// No timeout is set.
    pub fn set_timeout(&self, _id: &str, _timeout_ms: u64) -> (r: Result<(), DomainError>)
        ensures
            r matches Err(e) && e@ == DomainErrorView::UnsupportedOperation(feature_message()),
    {
        Err(Self::feature_error())
    }
}

/// What is written to a file is what the next read of it gives, however the path is
/// written, and no other file of the sandbox changes.
pub proof fn law_read_gives_what_was_written(
    before: Map<Seq<char>, Seq<u8>>,
    after: Map<Seq<char>, Seq<u8>>,
    written: Seq<char>,
    content: Seq<u8>,
    read: Seq<char>,
)
    requires
        after == before.insert(normalized(written), content),
    ensures
        normalized(read) == normalized(written) ==> after.contains_key(normalized(read))
            && after[normalized(read)] == content,
        normalized(read) != normalized(written) ==> after.contains_key(normalized(read))
            == before.contains_key(normalized(read)),
        normalized(read) != normalized(written) && before.contains_key(normalized(read))
            ==> after[normalized(read)] == before[normalized(read)],
{
}

/// Slashes in front of a path do not matter, and a kept path is kept as it is.
pub proof fn law_normalized_once(path: Seq<char>)
    ensures
        normalized("/"@ + path) == normalized(path),
        normalized(normalized(path)) == normalized(path),
{
    reveal_strlit("/");
    lemma_front_slash(path);
    lemma_front_slash(text::trim_start_matches_of(path, '/'));
    lemma_trim_twice(path);
}

proof fn lemma_front_slash(s: Seq<char>)
    ensures
        text::trim_start_matches_of("/"@ + s, '/') == text::trim_start_matches_of(s, '/'),
{
    reveal_strlit("/");
    let t = "/"@ + s;
    assert(t[0] == '/');
    assert(t.drop_first() =~= s);
}

proof fn lemma_trim_twice(s: Seq<char>)
    ensures
        text::trim_start_matches_of(text::trim_start_matches_of(s, '/'), '/') == text::trim_start_matches_of(s, '/'),
    decreases s.len(),
{
    if s.len() > 0 && s[0] == '/' {
        lemma_trim_twice(s.drop_first());
    }
}

/// A kept path is one slash and what stands behind all the slashes in front of the path: as
/// many characters are taken off as the number given, all of them slashes.
pub proof fn law_normalized_has_one_slash(path: Seq<char>) -> (n: int)
    ensures
        0 <= n <= path.len(),
        normalized(path) == seq!['/'] + path.skip(n),
        forall|i: int| 0 <= i < n ==> #[trigger] path[i] == '/',
        n < path.len() ==> path[n] != '/',
{
    reveal_strlit("/");
    assert("/"@ =~= seq!['/']);
    text::lemma_trim_start_matches_from(path, '/')
}

/// Of a directory whose name does not end in a slash, a path made of the directory, a slash
/// and a name is an immediate child. What goes on behind that name lies deeper, and a path
/// that goes on without a slash lies beside the directory.
pub proof fn law_children_lie_right_below(
    dir: Seq<char>,
    name: Seq<char>,
    deeper: Seq<char>,
)
    requires
        name.len() > 0,
        !name.contains('/'),
    ensures
        !ends_in_slash(dir) ==> is_child(dir + seq!['/'] + name, dir),
        !ends_in_slash(dir) ==> !is_child(dir + seq!['/'] + name + seq!['/'] + deeper, dir),
        !ends_in_slash(dir) ==> !is_child(dir + name + deeper, dir),
        ends_in_slash(dir) ==> is_child(dir + name, dir),
        ends_in_slash(dir) ==> !is_child(dir + name + seq!['/'] + deeper, dir),
        !is_child(dir, dir),
{
    let d = dir.len() as int;
    assert(name.contains(name[0]));
    // The directory itself.
    assert(dir.skip(d) =~= seq![]);
    // A slash and the name.
    let direct = dir + seq!['/'] + name;
    assert(direct.take(d) =~= dir);
    assert(direct.skip(d) =~= seq!['/'] + name);
    assert((seq!['/'] + name).drop_first() =~= name);
    assert(text::trim_start_matches_of(seq!['/'] + name, '/') == text::trim_start_matches_of(
        name,
        '/',
    ));
    assert(text::trim_start_matches_of(name, '/') == name);
    // A slash, the name and more.
    let tail = name + seq!['/'] + deeper;
    let deep = dir + seq!['/'] + name + seq!['/'] + deeper;
    assert(deep.skip(d) =~= seq!['/'] + tail);
    assert((seq!['/'] + tail).drop_first() =~= tail);
    assert(tail[0] == name[0]);
    assert(text::trim_start_matches_of(tail, '/') == tail);
    assert(tail[name.len() as int] == '/');
    assert(tail.contains('/'));
    assert(text::trim_start_matches_of(seq!['/'] + tail, '/') == tail);
    // No slash in between.
    let beside = dir + name + deeper;
    assert(beside[d] == name[0]);
    // A directory that ends in a slash.
    let below_slash = dir + name;
    assert(below_slash.take(d) =~= dir);
    assert(below_slash.skip(d) =~= name);
    let deep_slash = dir + name + seq!['/'] + deeper;
    assert(deep_slash.skip(d) =~= tail);
}

/// An immediate child is made of its directory, slashes and one name without a slash: the
/// number of the slashes is given.
pub proof fn law_child_is_directory_and_name(path: Seq<char>, dir: Seq<char>) -> (n: int)
    requires
        is_child(path, dir),
    ensures
        0 <= n && dir.len() + n < path.len(),
        path.take(dir.len() as int) == dir,
        forall|i: int| dir.len() <= i < dir.len() + n ==> #[trigger] path[i] == '/',
        forall|i: int| dir.len() + n <= i < path.len() ==> #[trigger] path[i] != '/',
        n > 0 || ends_in_slash(dir),
{
    let tail = path.skip(dir.len() as int);
    let n = text::lemma_trim_start_matches_from(tail, '/');
    let name = tail.skip(n);
    assert forall|i: int| dir.len() <= i < dir.len() + n implies #[trigger] path[i] == '/' by {
        assert(tail[i - dir.len()] == path[i]);
    }
    assert forall|i: int| dir.len() + n <= i < path.len() implies #[trigger] path[i] != '/' by {
        assert(name[i - dir.len() - n] == path[i]);
        assert(name.contains(name[i - dir.len() - n]));
    }
    if n == 0 && !ends_in_slash(dir) {
        assert(tail[0] == path[dir.len() as int]);
    }
    n
}

} // verus!
