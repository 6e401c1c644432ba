//! Doctors: descriptors with their checks, and the registry of those that are loaded.
use vstd::prelude::*;

use crate::catalog::collection::Catalog;
use crate::text::{concat2, concat3};

verus! {

/// How much a failing doctor matters.
#[derive(Debug, Clone, Copy, PartialEq, Eq, Structural)]
pub enum Severity {
    Info,
    Warning,
    Critical,
}

/// What a doctor looks at.
#[derive(Debug)]
pub enum DoctorCheck {
    Aliveness { sandbox_id: Option<String> },
    Resources { max_total: Option<usize>, max_idle_per_template: Option<usize> },
    AssertionDriven { assertion_id: String },
}

impl Clone for DoctorCheck {
    fn clone(&self) -> (r: Self)
        ensures
            r == *self,
    {
        match self {
            DoctorCheck::Aliveness { sandbox_id } => {
                let id: Option<String> = match sandbox_id {
                    Some(s) => Some(s.clone()),
                    None => None,
                };
                DoctorCheck::Aliveness { sandbox_id: id }
            },
            DoctorCheck::Resources { max_total, max_idle_per_template } => {
                DoctorCheck::Resources {
                    max_total: *max_total,
                    max_idle_per_template: *max_idle_per_template,
                }
            },
            DoctorCheck::AssertionDriven { assertion_id } => DoctorCheck::AssertionDriven {
                assertion_id: assertion_id.clone(),
            },
        }
    }
}

/// A doctor.
#[derive(Debug)]
pub struct DoctorDescriptor {
    pub id: String,
    pub name: String,
    pub description: String,
    pub category: String,
    pub severity: Severity,
    pub checks: Vec<DoctorCheck>,
}

/// What a doctor says.
pub struct DoctorView {
    pub id: Seq<char>,
    pub name: Seq<char>,
    pub description: Seq<char>,
    pub category: Seq<char>,
    pub severity: Severity,
    pub checks: Seq<DoctorCheck>,
}

impl View for DoctorDescriptor {
    type V = DoctorView;

    open spec fn view(&self) -> DoctorView {
        DoctorView {
            id: self.id@,
            name: self.name@,
            description: self.description@,
            category: self.category@,
            severity: self.severity,
            checks: self.checks@,
        }
    }
}

impl DoctorDescriptor {
    /// The same doctor once more.
    pub fn duplicate(&self) -> (r: Self)
        ensures
            r@ == self@,
    {
        let mut checks: Vec<DoctorCheck> = Vec::new();
        let mut i: usize = 0;
        while i < self.checks.len()
            invariant
                i <= self.checks@.len(),
                checks@ == self.checks@.take(i as int),
            decreases self.checks@.len() - i,
        {
            checks.push(self.checks[i].clone());
            i = i + 1;
            assert(checks@ =~= self.checks@.take(i as int));
        }
        assert(checks@ =~= self.checks@);
        DoctorDescriptor {
            id: self.id.clone(),
            name: self.name.clone(),
            description: self.description.clone(),
            category: self.category.clone(),
            severity: self.severity,
            checks,
        }
    }
}

/// A doctor's configuration.
#[derive(Debug)]
pub struct TomlDoctorConfig {
    pub doctor: TomlDoctor,
}

/// The `[doctor]` section.
#[derive(Debug)]
pub struct TomlDoctor {
    pub id: String,
    pub name: String,
    pub description: String,
    pub category: String,
    pub severity: Severity,
    pub checks: Vec<TomlDoctorCheck>,
}

/// The category of a doctor that names none.
pub fn default_category() -> (r: String)
    ensures
        r@ == "sandbox"@,
{
    "sandbox".to_owned()
}

/// The severity of a doctor that names none.
pub fn default_severity() -> (r: Severity)
    ensures
        r == Severity::Warning,
{
    Severity::Warning
}

/// A check as it is written in a file.
#[derive(Debug)]
pub enum TomlDoctorCheck {
    /// A sandbox is alive.
    Aliveness {
        /// The sandbox, where one is named.
        sandbox_id: Option<String>,
    },
    /// The sandboxes stay within limits.
    Resources {
        /// The most sandboxes over all pools.
        max_total: Option<usize>,
        /// The most idle sandboxes of a template.
        max_idle_per_template: Option<usize>,
    },
    /// An assertion holds.
    AssertionDriven {
        /// The assertion.
        assertion_id: String,
    },
}

impl TomlDoctorCheck {
    /// The condition of the rules engine that holds when the check does; none for a
    /// check on the infrastructure.
    pub open spec fn condition(self) -> Option<Seq<char>> {
        match self {
            TomlDoctorCheck::Aliveness { .. } => None,
            TomlDoctorCheck::Resources { .. } => None,
            TomlDoctorCheck::AssertionDriven { assertion_id } => Some(
                "fact('assertion:"@ + assertion_id@ + "') == 'passed'"@,
            ),
        }
    }

    /// The condition of the rules engine that holds when the check does.
    pub fn to_cel_condition(&self) -> (r: Option<String>)
        ensures
            match r {
                Some(c) => self.condition() == Some(c@),
                None => self.condition() is None,
            },
            r is Some <==> *self is AssertionDriven,
            *self matches TomlDoctorCheck::AssertionDriven { assertion_id } ==> r->0@
                == "fact('assertion:"@ + assertion_id@ + "') == 'passed'"@,
    {
        match self {
            TomlDoctorCheck::Aliveness { .. } => None,
            TomlDoctorCheck::Resources { .. } => None,
            TomlDoctorCheck::AssertionDriven { assertion_id } => Some(
                concat3("fact('assertion:", assertion_id.as_str(), "') == 'passed'"),
            ),
        }
    }

    /// The check that a file's check stands for.
    pub open spec fn check(self) -> DoctorCheck {
        match self {
            TomlDoctorCheck::Aliveness { sandbox_id } => DoctorCheck::Aliveness { sandbox_id },
            TomlDoctorCheck::Resources { max_total, max_idle_per_template } => {
                DoctorCheck::Resources { max_total, max_idle_per_template }
            },
            TomlDoctorCheck::AssertionDriven { assertion_id } => DoctorCheck::AssertionDriven {
                assertion_id,
            },
        }
    }

    /// The check that a file's check stands for.
    pub fn into_doctor_check(self) -> (r: DoctorCheck)
        ensures
            r == self.check(),
            self matches TomlDoctorCheck::Aliveness { sandbox_id } ==> r == (
            DoctorCheck::Aliveness { sandbox_id }),
            self matches TomlDoctorCheck::Resources { max_total, max_idle_per_template } ==> r == (
            DoctorCheck::Resources { max_total, max_idle_per_template }),
            self matches TomlDoctorCheck::AssertionDriven { assertion_id } ==> r == (
            DoctorCheck::AssertionDriven { assertion_id }),
    {
        match self {
            TomlDoctorCheck::Aliveness { sandbox_id } => DoctorCheck::Aliveness { sandbox_id },
            TomlDoctorCheck::Resources { max_total, max_idle_per_template } => {
                DoctorCheck::Resources { max_total, max_idle_per_template }
            },
            TomlDoctorCheck::AssertionDriven { assertion_id } => DoctorCheck::AssertionDriven {
                assertion_id,
            },
        }
    }
}

impl From<TomlDoctorCheck> for DoctorCheck {
    fn from(toml: TomlDoctorCheck) -> (r: Self) {
        toml.into_doctor_check()
    }
}

impl vstd::std_specs::convert::FromSpecImpl<TomlDoctorCheck> for DoctorCheck {
    open spec fn obeys_from_spec() -> bool {
        true
    }

    open spec fn from_spec(v: TomlDoctorCheck) -> DoctorCheck {
        v.check()
    }
}

/// The checks that a file's checks stand for.
pub open spec fn checks_of(checks: Seq<TomlDoctorCheck>) -> Seq<DoctorCheck> {
    checks.map_values(|c: TomlDoctorCheck| c.check())
}

impl TomlDoctorConfig {
    /// The doctor that a file describes.
    pub open spec fn descriptor(self) -> DoctorView {
        DoctorView {
            id: self.doctor.id@,
            name: self.doctor.name@,
            description: self.doctor.description@,
            category: self.doctor.category@,
            severity: self.doctor.severity,
            checks: checks_of(self.doctor.checks@),
        }
    }

    /// The doctor that a file describes.
    pub fn into_descriptor(self) -> (r: DoctorDescriptor)
        ensures
            r@ == self.descriptor(),
            r.id == self.doctor.id,
            r.name == self.doctor.name,
            r.description == self.doctor.description,
            r.category == self.doctor.category,
            r.severity == self.doctor.severity,
            r.checks@.len() == self.doctor.checks@.len(),
            forall|i: int|
                0 <= i < r.checks@.len() ==> #[trigger] r.checks@[i]
                    == self.doctor.checks@[i].check(),
    {
        let doctor = self.doctor;
        let ghost all = doctor.checks@;
        let mut checks: Vec<DoctorCheck> = Vec::new();
        for check in it: doctor.checks
            invariant
                it.seq() == all,
                checks@ == checks_of(all.take(it.index() as int)),
        {
            checks.push(check.into_doctor_check());
            proof {
                let i = it.index() as int;
                assert(checks_of(all.take(i + 1)) =~= checks_of(all.take(i)).push(check.check()));
            }
        }
        assert(all.take(all.len() as int) =~= all);
        DoctorDescriptor {
            id: doctor.id,
            name: doctor.name,
            description: doctor.description,
            category: doctor.category,
            severity: doctor.severity,
            checks,
        }
    }
}

/// What goes wrong with doctor files.
#[derive(Debug)]
pub enum DoctorParserError {
    ReadDir(String),
    TomlParse(String),
    NotFound(String),
}

impl DoctorParserError {
    /// The error in words.
    pub open spec fn text(self) -> Seq<char> {
        match self {
            DoctorParserError::ReadDir(e) => "Failed to read directory: "@ + e@,
            DoctorParserError::TomlParse(e) => "Failed to parse TOML: "@ + e@,
            DoctorParserError::NotFound(id) => "Doctor '"@ + id@ + "' not found"@,
        }
    }

    /// The error in words.
    pub fn message(&self) -> (r: String)
        ensures
            r@ == self.text(),
            *self matches DoctorParserError::ReadDir(e) ==> r@ == "Failed to read directory: "@ + e@,
            *self matches DoctorParserError::TomlParse(e) ==> r@ == "Failed to parse TOML: "@ + e@,
            *self matches DoctorParserError::NotFound(id) ==> r@ == "Doctor '"@ + id@ + "' not found"@,
    {
        match self {
            DoctorParserError::ReadDir(e) => concat2("Failed to read directory: ", e.as_str()),
            DoctorParserError::TomlParse(e) => concat2("Failed to parse TOML: ", e.as_str()),
            DoctorParserError::NotFound(id) => concat3("Doctor '", id.as_str(), "' not found"),
        }
    }
}

/// A doctor file that was read, and its text.
#[derive(Debug)]
pub struct DoctorFile {
    pub config: TomlDoctorConfig,
    pub source: String,
}

/// How many of the files could be read.
pub open spec fn readable(files: Seq<Option<DoctorFile>>) -> nat
    decreases files.len(),
{
    if files.len() == 0 {
        0
    } else {
        readable(files.drop_last()) + (if files.last() is Some {
            1nat
        } else {
            0nat
        })
    }
}

/// The doctors after files were gone through: a later one replaces an earlier one of
/// the same identifier.
pub open spec fn loaded_over(
    start: Map<Seq<char>, DoctorView>,
    files: Seq<Option<DoctorFile>>,
) -> Map<Seq<char>, DoctorView>
    decreases files.len(),
{
    if files.len() == 0 {
        start
    } else {
        let before = loaded_over(start, files.drop_last());
        match files.last() {
            Some(f) => before.insert(f.config.doctor.id@, f.config.descriptor()),
            None => before,
        }
    }
}

/// The sources after files were gone through.
pub open spec fn sources_over(
    start: Map<Seq<char>, Seq<char>>,
    files: Seq<Option<DoctorFile>>,
) -> Map<Seq<char>, Seq<char>>
    decreases files.len(),
{
    if files.len() == 0 {
        start
    } else {
        let before = sources_over(start, files.drop_last());
        match files.last() {
            Some(f) => before.insert(f.config.doctor.id@, f.source@),
            None => before,
        }
    }
}

/// The doctors that are loaded.
pub struct DoctorRegistry {
    doctors: Catalog<DoctorDescriptor>,
}

impl DoctorRegistry {
    pub closed spec fn wf(self) -> bool {
        self.doctors.wf()
    }

    /// The doctors by identifier.
    pub closed spec fn view(self) -> Map<Seq<char>, DoctorView> {
        self.doctors@
    }

    /// The texts that the doctors came from.
    pub closed spec fn sources(self) -> Map<Seq<char>, Seq<char>> {
        self.doctors.texts()
    }

    /// The identifiers in the order in which the doctors are listed.
    pub closed spec fn ids(self) -> Seq<Seq<char>> {
        self.doctors.ids()
    }

    /// Every doctor is listed once, and has its source.
    pub proof fn law_each_doctor_is_listed_once(self)
        requires
            self.wf(),
        ensures
            self.sources().dom() == self@.dom(),
            self.ids().no_duplicates(),
            forall|k: Seq<char>| #[trigger] self@.contains_key(k) <==> self.ids().contains(k),
    {
        self.doctors.lemma_ids();
    }

    /// A registry without doctors.
    pub fn new() -> (r: Self)
        ensures
            r.wf(),
            r@ == Map::<Seq<char>, DoctorView>::empty(),
            r.sources() == Map::<Seq<char>, Seq<char>>::empty(),
    {
        DoctorRegistry { doctors: Catalog::new() }
    }

    /// Keeps the doctors of the files of a directory. Those that could not be read are
    /// passed over. Returns how many were read.
    pub fn load_from_dir(&mut self, files: Vec<Option<DoctorFile>>) -> (r: usize)
        requires
            old(self).wf(),
        ensures
            final(self).wf(),
            r == readable(files@),
            final(self)@ == loaded_over(old(self)@, files@),
            final(self).sources() == sources_over(old(self).sources(), files@),
            forall|i: int|
                0 <= i < files@.len() && (#[trigger] files@[i]) is Some && (forall|j: int|
                    i < j < files@.len() && (#[trigger] files@[j]) is Some
                        ==> files@[j]->0.config.doctor.id@ != files@[i]->0.config.doctor.id@) ==> {
                    let id = files@[i]->0.config.doctor.id@;
                    final(self)@.contains_key(id) && final(self)@[id] == files@[i]->0.config.descriptor()
                },
            forall|id: Seq<char>|
                (forall|j: int|
                    0 <= j < files@.len() && (#[trigger] files@[j]) is Some
                        ==> files@[j]->0.config.doctor.id@ != id) ==> (#[trigger] final(self)@.contains_key(id)
                    <==> old(self)@.contains_key(id)) && (old(self)@.contains_key(id)
                    ==> final(self)@[id] == old(self)@[id]),
    {
        let total: usize = files.len();
        let ghost all = files@;
        let mut loaded: usize = 0;
        assert(all.take(0) =~= seq![]);
        for file in it: files
            invariant
                it.seq() == all,
                total == all.len(),
                self.wf(),
                loaded <= it.index(),
                loaded == readable(all.take(it.index() as int)),
                self@ == loaded_over(old(self)@, all.take(it.index() as int)),
                self.sources() == sources_over(
                    old(self).sources(),
                    all.take(it.index() as int),
                ),
        {
            proof {
                let i = it.index() as int;
                assert(all.take(i + 1).drop_last() =~= all.take(i));
                assert(all.take(i + 1).last() == file);
            }
            match file {
                Some(f) => {
                    let descriptor = f.config.into_descriptor();
                    self.doctors.put(descriptor.id.clone(), descriptor, f.source);
                    loaded = loaded + 1;
                },
                None => {},
            }
        }
        assert(all.take(all.len() as int) =~= all);
        proof {
            assert forall|i: int|
                0 <= i < all.len() && (#[trigger] all[i]) is Some && (forall|j: int|
                    i < j < all.len() && (#[trigger] all[j]) is Some
                        ==> all[j]->0.config.doctor.id@ != all[i]->0.config.doctor.id@) implies {
                let id = all[i]->0.config.doctor.id@;
                self@.contains_key(id) && self@[id] == all[i]->0.config.descriptor()
            } by {
                law_last_file_wins(old(self)@, old(self).sources(), all, i);
            }
            assert forall|id: Seq<char>|
                (forall|j: int|
                    0 <= j < all.len() && (#[trigger] all[j]) is Some ==> all[j]->0.config.doctor.id@
                        != id) implies (#[trigger] self@.contains_key(id) <==> old(
                self,
            )@.contains_key(id)) && (old(self)@.contains_key(id) ==> self@[id] == old(
                self,
            )@[id]) by {
                law_other_doctors_stay(old(self)@, old(self).sources(), all, id);
            }
        }
        loaded
    }

    /// The doctor of an identifier.
    pub fn get(&self, id: &str) -> (r: Option<&DoctorDescriptor>)
        requires
            self.wf(),
        ensures
            match r {
                Some(d) => self@.contains_key(id@) && self@[id@] == d@,
                None => !self@.contains_key(id@),
            },
    {
        self.doctors.get(id)
    }

    /// All doctors.
    pub fn list(&self) -> (r: Vec<DoctorDescriptor>)
        requires
            self.wf(),
        ensures
            r@.len() == self.ids().len(),
            forall|i: int|
                0 <= i < r@.len() ==> (#[trigger] r@[i])@ == self@[self.ids()[i]],
    {
        let mut out: Vec<DoctorDescriptor> = Vec::new();
        let mut i: usize = 0;
        while i < self.doctors.len()
            invariant
                self.wf(),
                i <= self.ids().len(),
                out@.len() == i,
                forall|j: int|
                    0 <= j < i ==> (#[trigger] out@[j])@ == self@[self.ids()[j]],
            decreases self.ids().len() - i,
        {
            out.push(self.doctors.nth(i).duplicate());
            i = i + 1;
        }
        out
    }

    /// The text that a doctor came from.
    pub fn get_source(&self, id: &str) -> (r: Option<String>)
        requires
            self.wf(),
        ensures
            match r {
                Some(s) => self.sources().contains_key(id@) && self.sources()[id@] == s@,
                None => !self.sources().contains_key(id@),
            },
    {
        self.doctors.get_source(id)
    }

    /// The number of doctors.
    pub fn len(&self) -> (r: usize)
        ensures
            r == self.ids().len(),
    {
        self.doctors.len()
    }

    /// Whether there is no doctor.
    pub fn is_empty(&self) -> (r: bool)
        ensures
            r == (self.ids().len() == 0),
    {
        self.doctors.len() == 0
    }
}

impl Default for DoctorRegistry {
    fn default() -> (r: Self)
        ensures
            r.wf(),
            r@ == Map::<Seq<char>, DoctorView>::empty(),
            r.sources() == Map::<Seq<char>, Seq<char>>::empty(),
    {
        Self::new()
    }
}

/// Files change nothing of a doctor that none of them has.
pub proof fn law_other_doctors_stay(
    start: Map<Seq<char>, DoctorView>,
    sources: Map<Seq<char>, Seq<char>>,
    files: Seq<Option<DoctorFile>>,
    id: Seq<char>,
)
    requires
        forall|j: int|
            0 <= j < files.len() && (#[trigger] files[j]) is Some ==> files[j]->0.config.doctor.id@
                != id,
    ensures
        loaded_over(start, files).contains_key(id) == start.contains_key(id),
        start.contains_key(id) ==> loaded_over(start, files)[id] == start[id],
        sources_over(sources, files).contains_key(id) == sources.contains_key(id),
        sources.contains_key(id) ==> sources_over(sources, files)[id] == sources[id],
    decreases files.len(),
{
    if files.len() > 0 {
        let f = files.drop_last();
        assert forall|j: int| 0 <= j < f.len() && (#[trigger] f[j]) is Some implies f[j]->0.config.doctor.id@
            != id by {
            assert(f[j] == files[j]);
        }
        law_other_doctors_stay(start, sources, f, id);
        assert(files.last() == files[files.len() - 1]);
    }
}

/// The files that are counted are those that could be read.
pub proof fn law_readable_files_are_counted(files: Seq<Option<DoctorFile>>)
    ensures
        readable(files) == files.filter(|f: Option<DoctorFile>| f is Some).len(),
    decreases files.len(),
{
    reveal(Seq::filter);
    if files.len() > 0 {
        law_readable_files_are_counted(files.drop_last());
    }
}

/// Of several files with one identifier the last is kept, with its own source.
pub proof fn law_last_file_wins(
    start: Map<Seq<char>, DoctorView>,
    sources: Map<Seq<char>, Seq<char>>,
    files: Seq<Option<DoctorFile>>,
    i: int,
)
    requires
        0 <= i < files.len(),
        files[i] is Some,
        forall|j: int|
            i < j < files.len() && (#[trigger] files[j]) is Some
                ==> files[j]->0.config.doctor.id@ != files[i]->0.config.doctor.id@,
    ensures
        loaded_over(start, files).contains_key(files[i]->0.config.doctor.id@),
        loaded_over(start, files)[files[i]->0.config.doctor.id@]
            == files[i]->0.config.descriptor(),
        sources_over(sources, files).contains_key(files[i]->0.config.doctor.id@),
        sources_over(sources, files)[files[i]->0.config.doctor.id@] == files[i]->0.source@,
    decreases files.len(),
{
    if i < files.len() - 1 {
        let f = files.drop_last();
        assert forall|j: int|
            i < j < f.len() && (#[trigger] f[j]) is Some implies f[j]->0.config.doctor.id@
            != f[i]->0.config.doctor.id@ by {
            assert(f[j] == files[j]);
        }
        law_last_file_wins(start, sources, f, i);
        assert(files.last() == files[files.len() - 1]);
    }
}

} // verus!
