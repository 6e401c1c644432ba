//! The providers that are at hand, by name.
use vstd::prelude::*;

use crate::assoc::Assoc;
use crate::domain::ProviderCapabilities;
use crate::table;
use crate::table::Entry;

verus! {

/// A provider as it is listed.
#[derive(Debug)]
pub struct ProviderInfo {
    pub name: String,
    pub capabilities: ProviderCapabilities,
}

/// A provider and what it said that it can do.
pub struct Registered<P> {
    pub provider: P,
    pub capabilities: ProviderCapabilities,
}

/// The registered providers, one of which is meant where none is named.
pub struct ProviderFactory<P> {
    providers: Assoc<Registered<P>>,
    default: String,
}

impl<P> ProviderFactory<P> {
    pub closed spec fn wf(self) -> bool {
        self.providers.wf()
    }

    /// The providers by name.
    pub closed spec fn view(self) -> Map<Seq<char>, Registered<P>> {
        self.providers@
    }

    /// The providers in the order in which they are listed.
    pub closed spec fn rows(self) -> Seq<Entry<Registered<P>>> {
        self.providers.rows()
    }

    /// The name of the default provider.
    pub closed spec fn default_key(self) -> Seq<char> {
        self.default@
    }

    /// The listed providers are the registered ones, each once.
    pub proof fn law_each_provider_is_listed_once(self)
        requires
            self.wf(),
        ensures
            table::lists_map(self.rows(), self@),
    {
        self.providers.lemma_rows();
    }

    /// A factory without providers.
    pub fn new(default_provider: &str) -> (r: Self)
        ensures
            r.wf(),
            r@ == Map::<Seq<char>, Registered<P>>::empty(),
            r.default_key() == default_provider@,
            r.rows().len() == 0,
    {
        ProviderFactory { providers: Assoc::new(), default: default_provider.to_owned() }
    }

    /// Registers a provider under a name, in place of the one that had it.
    pub fn register(&mut self, name: &str, provider: P, capabilities: ProviderCapabilities)
        requires
            old(self).wf(),
        ensures
            final(self).wf(),
            final(self).default_key() == old(self).default_key(),
            final(self)@ == old(self)@.insert(name@, Registered { provider, capabilities }),
    {
        let _ = self.providers.insert(name.to_owned(), Registered { provider, capabilities });
    }

    /// Makes a name that of the default provider.
    pub fn set_default(&mut self, name: &str)
        requires
            old(self).wf(),
        ensures
            final(self).wf(),
            final(self)@ == old(self)@,
            final(self).rows() == old(self).rows(),
            final(self).default_key() == name@,
    {
        self.default = name.to_owned();
    }

    /// The provider of a name.
    pub fn get(&self, name: &str) -> (r: Option<&P>)
        requires
            self.wf(),
        ensures
            match r {
                Some(p) => self@.contains_key(name@) && self@[name@].provider == *p,
                None => !self@.contains_key(name@),
            },
    {
        match self.providers.get(name) {
            Some(entry) => Some(&entry.provider),
            None => None,
        }
    }

    /// The default provider, which has to be registered.
    pub fn default(&self) -> (r: &P)
        requires
            self.wf(),
            self@.contains_key(self.default_key()),
        ensures
            *r == self@[self.default_key()].provider,
    {
        match self.providers.place_of(self.default.as_str()) {
            Some(i) => &self.providers.value_at(i).provider,
            None => {
                assert(false);
                vstd::pervasive::unreached()
            },
        }
    }

    /// The registered providers.
    pub fn list_providers(&self) -> (r: Vec<ProviderInfo>)
        requires
            self.wf(),
        ensures
            r@.len() == self.rows().len(),
            forall|i: int|
                0 <= i < r@.len() ==> (#[trigger] r@[i]).name@ == self.rows()[i].key@
                    && r@[i].capabilities == self.rows()[i].value.capabilities,
    {
        let mut out: Vec<ProviderInfo> = Vec::new();
        let mut i: usize = 0;
        while i < self.providers.len()
            invariant
                i <= self.providers.rows().len(),
                out@.len() == i,
                forall|j: int|
                    0 <= j < i ==> (#[trigger] out@[j]).name@ == self.providers.rows()[j].key@
                        && out@[j].capabilities == self.providers.rows()[j].value.capabilities,
            decreases self.providers.rows().len() - i,
        {
            out.push(
                ProviderInfo {
                    name: self.providers.key_at(i).clone(),
                    capabilities: self.providers.value_at(i).capabilities,
                },
            );
            i = i + 1;
        }
        out
    }

    /// Whether a provider is registered.
    pub fn contains(&self, name: &str) -> (r: bool)
        requires
            self.wf(),
        ensures
            r == self@.contains_key(name@),
    {
        self.providers.contains_key(name)
    }

    /// The name of the default provider.
    pub fn default_name(&self) -> (r: &str)
        ensures
            r@ == self.default_key(),
    {
        self.default.as_str()
    }
}

} // verus!
