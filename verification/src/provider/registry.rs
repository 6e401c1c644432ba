//! The providers that configuration files describe.
use vstd::prelude::*;

use crate::assoc::Assoc;
use crate::provider::config::ProviderConfig;
use crate::provider::factory::ProviderFactory;
use crate::table;
use crate::table::Entry;
use crate::text::{concat2, concat3, str_eq};

verus! {

/// What goes wrong with a registry.
#[derive(Debug)]
pub enum RegistryError {
    ReadDir(String),
    TomlParse(String),
    ProviderNotFound(String),
    Watcher(String),
}

impl RegistryError {
    /// The error in words.
    pub open spec fn text(self) -> Seq<char> {
        match self {
            RegistryError::ReadDir(e) => "Failed to read directory: "@ + e@,
            RegistryError::TomlParse(e) => "Failed to parse TOML: "@ + e@,
            RegistryError::ProviderNotFound(n) => "Provider '"@ + n@ + "' not found in factory"@,
            RegistryError::Watcher(e) => "Failed to start file watcher: "@ + e@,
        }
    }

    /// The error in words.
    pub fn message(&self) -> (r: String)
        ensures
            r@ == self.text(),
            *self matches RegistryError::ReadDir(e) ==> r@ == "Failed to read directory: "@ + e@,
            *self matches RegistryError::TomlParse(e) ==> r@ == "Failed to parse TOML: "@ + e@,
            *self matches RegistryError::ProviderNotFound(n) ==> r@ == "Provider '"@ + n@
                + "' not found in factory"@,
            *self matches RegistryError::Watcher(e) ==> r@ == "Failed to start file watcher: "@
                + e@,
    {
        match self {
            RegistryError::ReadDir(e) => concat2("Failed to read directory: ", e.as_str()),
            RegistryError::TomlParse(e) => concat2("Failed to parse TOML: ", e.as_str()),
            RegistryError::ProviderNotFound(n) => concat3(
                "Provider '",
                n.as_str(),
                "' not found in factory",
            ),
            RegistryError::Watcher(e) => concat2("Failed to start file watcher: ", e.as_str()),
        }
    }
}

/// A loaded configuration.
#[derive(Debug)]
pub struct ProviderRegistryEntry {
    pub name: String,
    pub config: ProviderConfig,
}

/// What a provider is made from.
#[derive(Debug)]
pub enum ProviderPlan {
    Podman {
        socket: String,
        image: String,
        worker_binary: String,
    },
    Local {
        /// Where the workspaces lie; none for the directory of temporary files.
        base_dir: Option<String>,
    },
}

/// The text of a setting, or the one that stands in for it.
pub open spec fn setting(configured: Option<String>, otherwise: Seq<char>) -> Seq<char> {
    match configured {
        Some(s) => s@,
        None => otherwise,
    }
}

/// Why no provider can be made from a configuration, if so.
pub open spec fn plan_error(kind: Seq<char>) -> Option<Seq<char>> {
    if kind == "podman"@ || kind == "local"@ {
        None
    } else if kind == "wasm"@ {
        Some("wasm-sandbox feature not enabled. Rebuild with --features wasm-sandbox"@)
    } else {
        Some("Unknown provider kind: "@ + kind)
    }
}

/// Whether a plan is that of a configuration.
pub open spec fn is_plan_of(plan: ProviderPlan, config: ProviderConfig) -> bool {
    match plan {
        ProviderPlan::Podman { socket, image, worker_binary } => {
            &&& config.kind@ == "podman"@
            &&& socket@ == setting(config.socket, "/run/user/1000/podman/podman.sock"@)
            &&& image@ == setting(config.image, "debian:bookworm-slim"@)
            &&& worker_binary@ == setting(config.worker_binary, "target/debug/bastion-worker"@)
        },
        ProviderPlan::Local { base_dir } => {
            &&& config.kind@ == "local"@
            &&& base_dir == config.socket
        },
    }
}

fn setting_or(configured: &Option<String>, otherwise: &str) -> (r: String)
    ensures
        r@ == setting(*configured, otherwise@),
{
    match configured {
        Some(s) => s.clone(),
        None => otherwise.to_owned(),
    }
}

/// What a provider is made from, by its kind.
pub fn instantiate_provider(config: &ProviderConfig) -> (r: Result<ProviderPlan, RegistryError>)
    ensures
        match r {
            Ok(plan) => plan_error(config.kind@) is None && is_plan_of(plan, *config),
            Err(RegistryError::Watcher(m)) => plan_error(config.kind@) == Some(m@),
            Err(_) => false,
        },
        r is Ok <==> config.kind@ == "podman"@ || config.kind@ == "local"@,
        config.kind@ == "podman"@ ==> (r matches Ok(ProviderPlan::Podman {
            socket,
            image,
            worker_binary,
        }) && socket@ == (match config.socket {
            Some(s) => s@,
            None => "/run/user/1000/podman/podman.sock"@,
        }) && image@ == (match config.image {
            Some(s) => s@,
            None => "debian:bookworm-slim"@,
        }) && worker_binary@ == (match config.worker_binary {
            Some(s) => s@,
            None => "target/debug/bastion-worker"@,
        })),
        config.kind@ == "local"@ ==> (r matches Ok(ProviderPlan::Local { base_dir }) && base_dir
            == config.socket),
        config.kind@ == "wasm"@ ==> (r matches Err(RegistryError::Watcher(m)) && m@
            == "wasm-sandbox feature not enabled. Rebuild with --features wasm-sandbox"@),
        config.kind@ != "podman"@ && config.kind@ != "local"@ && config.kind@ != "wasm"@ ==> (
        r matches Err(RegistryError::Watcher(m)) && m@ == "Unknown provider kind: "@
            + config.kind@),
{
    let kind = config.kind.as_str();
    proof {
        reveal_strlit("podman");
        reveal_strlit("local");
        reveal_strlit("wasm");
        assert("podman"@.len() != "local"@.len());
        assert("wasm"@.len() != "local"@.len());
        assert("wasm"@.len() != "podman"@.len());
    }
    if str_eq(kind, "podman") {
        Ok(
            ProviderPlan::Podman {
                socket: setting_or(&config.socket, "/run/user/1000/podman/podman.sock"),
                image: setting_or(&config.image, "debian:bookworm-slim"),
                worker_binary: setting_or(&config.worker_binary, "target/debug/bastion-worker"),
            },
        )
    } else if str_eq(kind, "local") {
        let base_dir: Option<String> = match &config.socket {
            Some(s) => Some(s.clone()),
            None => None,
        };
        Ok(ProviderPlan::Local { base_dir })
    } else if str_eq(kind, "wasm") {
        Err(
            RegistryError::Watcher(
                "wasm-sandbox feature not enabled. Rebuild with --features wasm-sandbox".to_owned(),
            ),
        )
    } else {
        Err(RegistryError::Watcher(concat2("Unknown provider kind: ", kind)))
    }
}

/// Providers with the configurations that they come from.
pub struct ProviderRegistry<P> {
    factory: ProviderFactory<P>,
    configs: Assoc<ProviderConfig>,
}

impl<P> ProviderRegistry<P> {
    pub closed spec fn wf(self) -> bool {
        self.factory.wf() && self.configs.wf()
    }

    /// The factory that holds the providers.
    pub closed spec fn providers(self) -> ProviderFactory<P> {
        self.factory
    }

    /// The configurations by name.
    pub closed spec fn loaded(self) -> Map<Seq<char>, ProviderConfig> {
        self.configs@
    }

    /// The configurations in the order in which they are gone through.
    pub closed spec fn config_rows(self) -> Seq<Entry<ProviderConfig>> {
        self.configs.rows()
    }

    /// The configurations are listed, each once, and a provider is planned for each of them
    /// whose kind is known, for each once and for no other.
    pub proof fn law_each_config_is_planned_once(self)
        requires
            self.wf(),
        ensures
            table::lists_map(self.config_rows(), self.loaded()),
            ({
                let planned = makeable(self.config_rows());
                &&& forall|k: int|
                    0 <= k < planned.len() ==> {
                        let row = #[trigger] planned[k];
                        &&& self.loaded().contains_key(row.key@)
                        &&& self.loaded()[row.key@] == row.value
                        &&& plan_error(row.value.kind@) is None
                    }
                &&& forall|name: Seq<char>| #[trigger]
                    self.loaded().contains_key(name) && plan_error(self.loaded()[name].kind@) is None
                        ==> exists|k: int|
                        0 <= k < planned.len() && (#[trigger] planned[k]).key@ == name
                &&& forall|k: int, l: int|
                    0 <= k < planned.len() && 0 <= l < planned.len() && (#[trigger] planned[k]).key@
                        == (#[trigger] planned[l]).key@ ==> k == l
            }),
    {
        let rows = self.config_rows();
        let planned = makeable(rows);
        self.configs.lemma_rows();
        lemma_makeable(rows);
        assert forall|k: int| 0 <= k < planned.len() implies {
            let row = #[trigger] planned[k];
            &&& self.loaded().contains_key(row.key@)
            &&& self.loaded()[row.key@] == row.value
            &&& plan_error(row.value.kind@) is None
        } by {
            let i = choose|i: int| 0 <= i < rows.len() && #[trigger] rows[i] == planned[k];
            assert(self.loaded().contains_key(rows[i].key@));
        }
        assert forall|name: Seq<char>| #[trigger]
            self.loaded().contains_key(name) && plan_error(self.loaded()[name].kind@)
                is None implies exists|k: int|
            0 <= k < planned.len() && (#[trigger] planned[k]).key@ == name by {
            let i = choose|i: int| 0 <= i < rows.len() && (#[trigger] rows[i]).key@ == name;
            assert(plan_error(rows[i].value.kind@) is None);
            let k = choose|k: int| 0 <= k < planned.len() && #[trigger] planned[k] == rows[i];
            assert(planned[k].key@ == name);
        }
    }

    /// A registry over a factory.
    pub fn new(factory: ProviderFactory<P>) -> (r: Self)
        requires
            factory.wf(),
        ensures
            r.wf(),
            r.providers() == factory,
            r.loaded() == Map::<Seq<char>, ProviderConfig>::empty(),
            r.config_rows().len() == 0,
    {
        ProviderRegistry { factory, configs: Assoc::new() }
    }

    /// Registers a provider.
    pub fn register(
        &mut self,
        name: &str,
        provider: P,
        capabilities: crate::domain::ProviderCapabilities,
    )
        requires
            old(self).wf(),
        ensures
            final(self).wf(),
            final(self).loaded() == old(self).loaded(),
            final(self).config_rows() == old(self).config_rows(),
            final(self).providers().default_key() == old(self).providers().default_key(),
            final(self).providers()@ == old(self).providers()@.insert(
                name@,
                crate::provider::factory::Registered { provider, capabilities },
            ),
    {
        self.factory.register(name, provider, capabilities);
    }

    /// Keeps the configurations that a directory holds, file by file: those that could
    /// not be read are passed over, one under a name that is known replaces the other,
    /// and one that says so becomes the default provider. Returns how many were read.
    pub fn load_from_dir(&mut self, files: Vec<Option<ProviderConfig>>) -> (r: usize)
        requires
            old(self).wf(),
        ensures
            final(self).wf(),
            r == readable(files@),
            final(self).loaded() == loaded_over(old(self).loaded(), files@),
            final(self).providers()@ == old(self).providers()@,
            final(self).providers().default_key() == default_over(
                old(self).providers().default_key(),
                files@,
            ),
    {
        let total: usize = files.len();
        let ghost all = files@;
        let ghost start = self.loaded();
        let ghost start_default = self.providers().default_key();
        let mut count: usize = 0;
        assert(all.take(0) =~= seq![]);
        for file in it: files
            invariant
                it.seq() == all,
                total == all.len(),
                self.wf(),
                count <= it.index(),
                count == readable(all.take(it.index() as int)),
                self.loaded() == loaded_over(start, all.take(it.index() as int)),
                self.providers()@ == old(self).providers()@,
                self.providers().default_key() == default_over(
                    start_default,
                    all.take(it.index() as int),
                ),
        {
            proof {
                let i = it.index() as int;
                assert(all.take(i + 1).drop_last() =~= all.take(i));
                assert(all.take(i + 1).last() == file);
            }
            match file {
                Some(config) => {
                    let name = config.name.clone();
                    if let Some(true) = config.default {
                        self.factory.set_default(name.as_str());
                    }
                    let _ = self.configs.insert(name, config);
                    count = count + 1;
                },
                None => {},
            }
        }
        assert(all.take(all.len() as int) =~= all);
        count
    }

    /// What each loaded configuration is made into, where it can be.
    pub fn register_configs(&self) -> (r: Vec<PlannedProvider>)
        requires
            self.wf(),
        ensures
            r@.len() == makeable(self.config_rows()).len(),
            forall|k: int|
                0 <= k < r@.len() ==> (#[trigger] r@[k]).name@ == makeable(
                    self.config_rows(),
                )[k].key@ && is_plan_of(r@[k].plan, makeable(self.config_rows())[k].value),
    {
        let mut out: Vec<PlannedProvider> = Vec::new();
        let ghost rows = self.configs.rows();
        let mut i: usize = 0;
        assert(rows.take(0) =~= seq![]);
        while i < self.configs.len()
            invariant
                i <= rows.len(),
                rows == self.configs.rows(),
                out@.len() == makeable(rows.take(i as int)).len(),
                forall|k: int|
                    0 <= k < out@.len() ==> (#[trigger] out@[k]).name@ == makeable(
                        rows.take(i as int),
                    )[k].key@ && is_plan_of(out@[k].plan, makeable(rows.take(i as int))[k].value),
            decreases rows.len() - i,
        {
            proof {
                assert(rows.take(i + 1).drop_last() =~= rows.take(i as int));
                assert(rows.take(i + 1).last() == rows[i as int]);
            }
            match instantiate_provider(self.configs.value_at(i)) {
                Ok(plan) => {
                    out.push(PlannedProvider { name: self.configs.key_at(i).clone(), plan });
                },
                Err(_) => {},
            }
            i = i + 1;
        }
        assert(rows.take(i as int) =~= rows);
        out
    }

    /// The number of configurations that a reload goes through.
    pub fn reload(&self) -> (r: usize)
        ensures
            r == self.config_rows().len(),
    {
        self.configs.len()
    }

    /// The configuration that was loaded under a name.
    pub fn get_config(&self, name: &str) -> (r: Option<&ProviderConfig>)
        requires
            self.wf(),
        ensures
            match r {
                Some(c) => self.loaded().contains_key(name@) && *c == self.loaded()[name@],
                None => !self.loaded().contains_key(name@),
            },
    {
        self.configs.get(name)
    }

    /// The provider of a name.
    pub fn get(&self, name: &str) -> (r: Option<&P>)
        requires
            self.wf(),
        ensures
            match r {
                Some(p) => self.providers()@.contains_key(name@)
                    && self.providers()@[name@].provider == *p,
                None => !self.providers()@.contains_key(name@),
            },
    {
        self.factory.get(name)
    }

    /// The default provider, which has to be registered.
    pub fn default(&self) -> (r: &P)
        requires
            self.wf(),
            self.providers()@.contains_key(self.providers().default_key()),
        ensures
            *r == self.providers()@[self.providers().default_key()].provider,
    {
        self.factory.default()
    }

    /// Whether a provider is registered.
    pub fn contains(&self, name: &str) -> (r: bool)
        requires
            self.wf(),
        ensures
            r == self.providers()@.contains_key(name@),
    {
        self.factory.contains(name)
    }

    /// The name of the default provider.
    pub fn default_name(&self) -> (r: String)
        ensures
            r@ == self.providers().default_key(),
    {
        self.factory.default_name().to_owned()
    }

    /// The registered providers.
    pub fn list_providers(&self) -> (r: Vec<crate::provider::factory::ProviderInfo>)
        requires
            self.wf(),
        ensures
            r@.len() == self.providers().rows().len(),
            forall|i: int|
                0 <= i < r@.len() ==> (#[trigger] r@[i]).name@ == self.providers().rows()[i].key@
                    && r@[i].capabilities == self.providers().rows()[i].value.capabilities,
    {
        self.factory.list_providers()
    }

    /// The factory with the providers.
    pub fn into_providers(self) -> (r: ProviderFactory<P>)
        requires
            self.wf(),
        ensures
            r == self.providers(),
            r.wf(),
    {
        self.factory
    }
}

/// A provider to make, and the name to register it under.
#[derive(Debug)]
pub struct PlannedProvider {
    pub name: String,
    pub plan: ProviderPlan,
}

proof fn lemma_makeable(rows: Seq<Entry<ProviderConfig>>)
    requires
        forall|i: int, j: int|
            0 <= i < rows.len() && 0 <= j < rows.len() && (#[trigger] rows[i]).key@ == (
            #[trigger] rows[j]).key@ ==> i == j,
    ensures
        forall|k: int|
            0 <= k < makeable(rows).len() ==> plan_error((#[trigger] makeable(rows)[k]).value.kind@)
                is None && exists|i: int|
                0 <= i < rows.len() && #[trigger] rows[i] == makeable(rows)[k],
        forall|i: int|
            0 <= i < rows.len() && plan_error((#[trigger] rows[i]).value.kind@) is None
                ==> exists|k: int|
                0 <= k < makeable(rows).len() && #[trigger] makeable(rows)[k] == rows[i],
        forall|k: int, l: int|
            0 <= k < makeable(rows).len() && 0 <= l < makeable(rows).len() && (
            #[trigger] makeable(rows)[k]).key@ == (#[trigger] makeable(rows)[l]).key@ ==> k == l,
    decreases rows.len(),
{
    let all = makeable(rows);
    if rows.len() > 0 {
        let front = rows.drop_last();
        let before = makeable(front);
        lemma_makeable(front);
        assert forall|k: int| 0 <= k < all.len() implies plan_error(
            (#[trigger] all[k]).value.kind@,
        ) is None && exists|i: int| 0 <= i < rows.len() && #[trigger] rows[i] == all[k] by {
            if k < before.len() {
                assert(all[k] == before[k]);
                let i = choose|i: int| 0 <= i < front.len() && #[trigger] front[i] == before[k];
                assert(rows[i] == all[k]);
            } else {
                assert(rows[rows.len() - 1] == all[k]);
            }
        }
        assert forall|i: int|
            0 <= i < rows.len() && plan_error((#[trigger] rows[i]).value.kind@)
                is None implies exists|k: int| 0 <= k < all.len() && #[trigger] all[k] == rows[i] by {
            if i < front.len() {
                assert(front[i] == rows[i]);
                let k = choose|k: int| 0 <= k < before.len() && #[trigger] before[k] == front[i];
                assert(all[k] == rows[i]);
            } else {
                assert(all[before.len() as int] == rows[i]);
            }
        }
        assert forall|k: int, l: int|
            0 <= k < all.len() && 0 <= l < all.len() && (#[trigger] all[k]).key@ == (
            #[trigger] all[l]).key@ implies k == l by {
            if k < before.len() && l < before.len() {
                assert(all[k] == before[k] && all[l] == before[l]);
            } else if k < before.len() {
                let i = choose|i: int| 0 <= i < front.len() && #[trigger] front[i] == before[k];
                assert(all[k] == before[k]);
                assert(rows[i].key@ == rows[rows.len() - 1].key@);
            } else if l < before.len() {
                let i = choose|i: int| 0 <= i < front.len() && #[trigger] front[i] == before[l];
                assert(all[l] == before[l]);
                assert(rows[i].key@ == rows[rows.len() - 1].key@);
            }
        }
    }
}

/// How many of the files could be read.
pub open spec fn readable(files: Seq<Option<ProviderConfig>>) -> nat
    decreases files.len(),
{
    if files.len() == 0 {
        0
    } else {
        readable(files.drop_last()) + (if files.last() is Some {
            1nat
        } else {
            0nat
        })
    }
}

/// The configurations after the files were read, one by one.
pub open spec fn loaded_over(
    before: Map<Seq<char>, ProviderConfig>,
    files: Seq<Option<ProviderConfig>>,
) -> Map<Seq<char>, ProviderConfig>
    decreases files.len(),
{
    if files.len() == 0 {
        before
    } else {
        let rest = loaded_over(before, files.drop_last());
        match files.last() {
            Some(c) => rest.insert(c.name@, c),
            None => rest,
        }
    }
}

/// The default provider after the files were read: that of the last one that says so.
pub open spec fn default_over(before: Seq<char>, files: Seq<Option<ProviderConfig>>) -> Seq<char>
    decreases files.len(),
{
    if files.len() == 0 {
        before
    } else {
        match files.last() {
            Some(c) if c.default == Some(true) => c.name@,
            _ => default_over(before, files.drop_last()),
        }
    }
}

/// The configurations that a provider can be made from.
pub open spec fn makeable(rows: Seq<Entry<ProviderConfig>>) -> Seq<Entry<ProviderConfig>>
    decreases rows.len(),
{
    if rows.len() == 0 {
        seq![]
    } else {
        let before = makeable(rows.drop_last());
        if plan_error(rows.last().value.kind@) is None {
            before.push(rows.last())
        } else {
            before
        }
    }
}

/// A directory without readable files changes nothing.
pub proof fn law_empty_dir_changes_nothing(
    before: Map<Seq<char>, ProviderConfig>,
    default: Seq<char>,
    files: Seq<Option<ProviderConfig>>,
)
    requires
        forall|i: int| 0 <= i < files.len() ==> (#[trigger] files[i]) is None,
    ensures
        readable(files) == 0,
        loaded_over(before, files) == before,
        default_over(default, files) == default,
    decreases files.len(),
{
    if files.len() > 0 {
        law_empty_dir_changes_nothing(before, default, files.drop_last());
    }
}

/// The number of files that were read is that of the files which hold a configuration.
pub proof fn law_readable_files_are_counted(files: Seq<Option<ProviderConfig>>)
    ensures
        readable(files) == files.filter(|f: Option<ProviderConfig>| f is Some).len(),
    decreases files.len(),
{
    reveal(Seq::filter);
    if files.len() > 0 {
        law_readable_files_are_counted(files.drop_last());
    }
}

/// Under a name stands the configuration of the last file that gives one for it, whatever was
/// there before. A name that no file gives keeps what it had.
pub proof fn law_last_configuration_wins(
    before: Map<Seq<char>, ProviderConfig>,
    files: Seq<Option<ProviderConfig>>,
    name: Seq<char>,
    i: int,
)
    requires
        -1 <= i < files.len(),
        i >= 0 ==> (files[i] matches Some(c) && c.name@ == name),
        forall|j: int| i < j < files.len() ==> !((#[trigger] files[j]) matches Some(c) && c.name@ == name),
    ensures
        i >= 0 ==> loaded_over(before, files).contains_key(name) && loaded_over(before, files)[name]
            == files[i]->0,
        i == -1 ==> loaded_over(before, files).contains_key(name) == before.contains_key(name),
        i == -1 && before.contains_key(name) ==> loaded_over(before, files)[name] == before[name],
    decreases files.len(),
{
    if files.len() > 0 && i < files.len() - 1 {
        let front = files.drop_last();
        assert(!(files[files.len() - 1] matches Some(c) && c.name@ == name));
        assert forall|j: int| i < j < front.len() implies !((#[trigger] front[j]) matches Some(c)
            && c.name@ == name) by {
            assert(front[j] == files[j]);
        }
        if i >= 0 {
            assert(front[i] == files[i]);
        }
        law_last_configuration_wins(before, front, name, i);
    }
}

/// The default provider is that of the last file which asks to be it, whatever the default was
/// before; where no file asks, the default stays.
pub proof fn law_last_default_wins(before: Seq<char>, files: Seq<Option<ProviderConfig>>, i: int)
    requires
        -1 <= i < files.len(),
        i >= 0 ==> (files[i] matches Some(c) && c.default == Some(true)),
        forall|j: int|
            i < j < files.len() ==> !((#[trigger] files[j]) matches Some(c) && c.default == Some(true)),
    ensures
        i >= 0 ==> default_over(before, files) == files[i]->0.name@,
        i == -1 ==> default_over(before, files) == before,
    decreases files.len(),
{
    if files.len() > 0 && i < files.len() - 1 {
        let front = files.drop_last();
        assert(!(files[files.len() - 1] matches Some(c) && c.default == Some(true)));
        assert forall|j: int| i < j < front.len() implies !((#[trigger] front[j]) matches Some(c)
            && c.default == Some(true)) by {
            assert(front[j] == files[j]);
        }
        if i >= 0 {
            assert(front[i] == files[i]);
        }
        law_last_default_wins(before, front, i);
    }
}

/// Providers are planned in the order of the configurations, for those of the kind `podman` or
/// `local` and for no others: the positions of these are given.
pub proof fn law_plans_follow_the_configurations(rows: Seq<Entry<ProviderConfig>>) -> (at: Seq<int>)
    ensures
        at.len() == makeable(rows).len(),
        forall|k: int|
            0 <= k < at.len() ==> 0 <= (#[trigger] at[k]) < rows.len() && makeable(rows)[k]
                == rows[at[k]],
        forall|k: int, l: int| 0 <= k < l < at.len() ==> #[trigger] at[k] < #[trigger] at[l],
        forall|j: int|
            0 <= j < rows.len() ==> (#[trigger] at.contains(j) <==> rows[j].value.kind@ == "podman"@
                || rows[j].value.kind@ == "local"@),
    decreases rows.len(),
{
    if rows.len() == 0 {
        Seq::empty()
    } else {
        let front = rows.drop_last();
        let before = law_plans_follow_the_configurations(front);
        let last = rows.len() - 1;
        let kind = rows[last].value.kind@;
        assert(rows.last() == rows[last]);
        let chosen = kind == "podman"@ || kind == "local"@;
        let at = if chosen {
            before.push(last)
        } else {
            before
        };
        assert forall|k: int| 0 <= k < before.len() implies #[trigger] at[k] == before[k] && 0
            <= before[k] < front.len() && rows[before[k]] == front[before[k]] by {}
        assert forall|j: int| 0 <= j < rows.len() implies (#[trigger] at.contains(j) <==> (
        rows[j].value.kind@ == "podman"@ || rows[j].value.kind@ == "local"@)) by {
            if j < front.len() {
                assert(front[j] == rows[j]);
                if before.contains(j) {
                    let k = choose|k: int| 0 <= k < before.len() && before[k] == j;
                    assert(at[k] == j);
                }
                if at.contains(j) {
                    let k = choose|k: int| 0 <= k < at.len() && at[k] == j;
                    assert(before[k] == j);
                    assert(before.contains(j));
                }
            } else {
                if chosen {
                    assert(at[before.len() as int] == j);
                }
                if at.contains(j) && !chosen {
                    let k = choose|k: int| 0 <= k < at.len() && at[k] == j;
                    assert(before[k] < front.len());
                }
            }
        }
        at
    }
}

} // verus!
