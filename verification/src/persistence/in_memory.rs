//! Sandboxes kept in memory.
use vstd::prelude::*;

use crate::assoc::Assoc;
use crate::domain::{DomainError, DomainErrorView, Sandbox};
use crate::table::Entry;

verus! {

/// Sandboxes by identifier.
pub struct InMemorySandboxRepository {
    sandboxes: Assoc<Sandbox>,
}

impl InMemorySandboxRepository {
    pub closed spec fn wf(self) -> bool {
        self.sandboxes.wf()
    }

    /// The sandboxes by identifier.
    pub closed spec fn view(self) -> Map<Seq<char>, Sandbox> {
        self.sandboxes@
    }

    /// The identifiers in the order in which the sandboxes are listed.
    pub closed spec fn ids(self) -> Seq<Seq<char>> {
        self.sandboxes.rows().map_values(|e: Entry<Sandbox>| e.key@)
    }

    /// The listed identifiers are those of the kept sandboxes, each once.
    pub proof fn law_each_sandbox_is_listed_once(self)
        requires
            self.wf(),
        ensures
            self.ids().no_duplicates(),
            forall|k: Seq<char>| #[trigger] self@.contains_key(k) <==> self.ids().contains(k),
    {
        self.sandboxes.lemma_rows();
        assert forall|k: Seq<char>| #[trigger] self@.contains_key(k) implies self.ids().contains(
            k,
        ) by {
            let i = choose|i: int|
                0 <= i < self.sandboxes.rows().len() && (
                #[trigger] self.sandboxes.rows()[i]).key@ == k;
            assert(self.ids()[i] == k);
        }
        assert forall|k: Seq<char>| self.ids().contains(k) implies #[trigger] self@.contains_key(
            k,
        ) by {
            let i = choose|i: int| 0 <= i < self.ids().len() && self.ids()[i] == k;
            assert(self.sandboxes@.contains_key(self.sandboxes.rows()[i].key@));
        }
    }

    /// A repository without sandboxes.
    pub fn new() -> (r: Self)
        ensures
            r.wf(),
            r@ == Map::<Seq<char>, Sandbox>::empty(),
    {
        InMemorySandboxRepository { sandboxes: Assoc::new() }
    }

    fn put(&mut self, sandbox: &Sandbox)
        requires
            old(self).wf(),
        ensures
            final(self).wf(),
            final(self)@ == old(self)@.insert(sandbox.id@, final(self)@[sandbox.id@]),
            final(self)@[sandbox.id@].same_as(*sandbox),
    {
        let _ = self.sandboxes.insert(sandbox.id.clone(), sandbox.duplicate());
    }

    /// Keeps a sandbox in place of the one of its identifier.
    pub fn save(&mut self, sandbox: &Sandbox) -> (r: Result<(), DomainError>)
        requires
            old(self).wf(),
        ensures
            r is Ok,
            final(self).wf(),
            final(self)@ == old(self)@.insert(sandbox.id@, final(self)@[sandbox.id@]),
            final(self)@[sandbox.id@].same_as(*sandbox),
    {
        self.put(sandbox);
        Ok(())
    }

    /// The sandbox of an identifier.
    pub fn find_by_id(&self, id: &str) -> (r: Result<Option<Sandbox>, DomainError>)
        requires
            self.wf(),
        ensures
            match r {
                Ok(Some(s)) => self@.contains_key(id@) && s.same_as(self@[id@]),
                Ok(None) => !self@.contains_key(id@),
                Err(_) => false,
            },
    {
        match self.sandboxes.get(id) {
            Some(s) => Ok(Some(s.duplicate())),
            None => Ok(None),
        }
    }

    /// Keeps a sandbox in place of the one of its identifier.
    pub fn update(&mut self, sandbox: &Sandbox) -> (r: Result<(), DomainError>)
        requires
            old(self).wf(),
        ensures
            r is Ok,
            final(self).wf(),
            final(self)@ == old(self)@.insert(sandbox.id@, final(self)@[sandbox.id@]),
            final(self)@[sandbox.id@].same_as(*sandbox),
    {
        self.put(sandbox);
        Ok(())
    }

    /// Forgets a sandbox, which has to be there.
    pub fn delete(&mut self, id: &str) -> (r: Result<(), DomainError>)
        requires
            old(self).wf(),
        ensures
            final(self).wf(),
            final(self)@ == old(self)@.remove(id@),
            match r {
                Ok(_) => old(self)@.contains_key(id@),
                Err(e) => !old(self)@.contains_key(id@) && e@ == DomainErrorView::NotFound(id@),
            },
    {
        match self.sandboxes.remove(id) {
            Some(_) => Ok(()),
            None => Err(DomainError::NotFound(id.to_owned())),
        }
    }

    /// All sandboxes.
    pub fn find_active(&self) -> (r: Result<Vec<Sandbox>, DomainError>)
        requires
            self.wf(),
        ensures
            match r {
                Ok(v) => {
                    &&& v@.len() == self.ids().len()
                    &&& forall|i: int|
                        0 <= i < v@.len() ==> (#[trigger] v@[i]).same_as(self@[self.ids()[i]])
                },
                Err(_) => false,
            },
    {
        let mut out: Vec<Sandbox> = Vec::new();
        let mut i: usize = 0;
        proof {
            self.sandboxes.lemma_rows();
        }
        while i < self.sandboxes.len()
            invariant
                i <= self.sandboxes.rows().len(),
                out@.len() == i,
                forall|j: int|
                    0 <= j < i ==> (#[trigger] out@[j]).same_as(self.sandboxes.rows()[j].value),
            decreases self.sandboxes.rows().len() - i,
        {
            out.push(self.sandboxes.value_at(i).duplicate());
            i = i + 1;
        }
        assert forall|j: int| 0 <= j < out@.len() implies (#[trigger] out@[j]).same_as(
            self@[self.ids()[j]],
        ) by {
            assert(self.ids()[j] == self.sandboxes.rows()[j].key@);
        }
        Ok(out)
    }
}

impl Default for InMemorySandboxRepository {
    fn default() -> (r: Self)
        ensures
            r.wf(),
            r@ == Map::<Seq<char>, Sandbox>::empty(),
    {
        Self::new()
    }
}

/// What is saved is what is found under its identifier, and every other sandbox stays as it
/// was; what is deleted is found no more.
pub proof fn law_saved_is_found(
    before: Map<Seq<char>, Sandbox>,
    after: Map<Seq<char>, Sandbox>,
    sandbox: Sandbox,
    found: Sandbox,
)
    requires
        after == before.insert(sandbox.id@, after[sandbox.id@]),
        after[sandbox.id@].same_as(sandbox),
        found.same_as(after[sandbox.id@]),
    ensures
        after.contains_key(sandbox.id@),
        found.same_as(sandbox),
        forall|id: Seq<char>|
            id != sandbox.id@ ==> (#[trigger] after.contains_key(id) <==> before.contains_key(id)),
        forall|id: Seq<char>|
            id != sandbox.id@ && before.contains_key(id) ==> #[trigger] after[id] == before[id],
        !after.remove(sandbox.id@).contains_key(sandbox.id@),
{
}

} // verus!
