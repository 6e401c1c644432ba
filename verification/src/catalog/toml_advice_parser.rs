//! Advice: descriptors with their triggers, the registry of those that are loaded, and
//! the settings by which advice is switched off.
use vstd::prelude::*;

use crate::catalog::collection::Catalog;
use crate::text;
use crate::text::{clone_strings, concat2, concat3, decimal_string, str_eq};


verus! {

/// How much an advice matters.
#[derive(Debug, Clone, Copy, PartialEq, Eq, Structural)]
pub enum AdviceSeverity {
    Hint,
    Warning,
    Critical,
}

/// What makes an advice come up.
#[derive(Debug)]
pub enum AdviceTrigger {
    AssertionFailed { assertion_id: String },
    DoctorFailed { doctor_id: String },
    ExperiencePattern { tool_name: String, status: String, threshold: u32 },
}

/// An advice.
#[derive(Debug)]
pub struct AdviceDescriptor {
    pub id: String,
    pub name: String,
    pub description: String,
    pub category: String,
    pub severity: AdviceSeverity,
    pub triggers: Vec<AdviceTrigger>,
    pub message: String,
    pub suggested_actions: Vec<String>,
    pub hint: Option<String>,
}

impl Clone for AdviceTrigger {
    fn clone(&self) -> (r: Self)
        ensures
            r == *self,
    {
        match self {
            AdviceTrigger::AssertionFailed { assertion_id } => AdviceTrigger::AssertionFailed {
                assertion_id: assertion_id.clone(),
            },
            AdviceTrigger::DoctorFailed { doctor_id } => AdviceTrigger::DoctorFailed {
                doctor_id: doctor_id.clone(),
            },
            AdviceTrigger::ExperiencePattern { tool_name, status, threshold } => {
                AdviceTrigger::ExperiencePattern {
                    tool_name: tool_name.clone(),
                    status: status.clone(),
                    threshold: *threshold,
                }
            },
        }
    }
}

impl AdviceDescriptor {
    /// The same advice once more.
    pub fn duplicate(&self) -> (r: Self)
        ensures
            r@ == self@,
    {
        let mut triggers: Vec<AdviceTrigger> = Vec::new();
        let mut i: usize = 0;
        while i < self.triggers.len()
            invariant
                i <= self.triggers@.len(),
                triggers@ == self.triggers@.take(i as int),
            decreases self.triggers@.len() - i,
        {
            triggers.push(self.triggers[i].clone());
            i = i + 1;
            assert(triggers@ =~= self.triggers@.take(i as int));
        }
        assert(triggers@ =~= self.triggers@);
        let hint: Option<String> = match &self.hint {
            Some(h) => Some(h.clone()),
            None => None,
        };
        AdviceDescriptor {
            id: self.id.clone(),
            name: self.name.clone(),
            description: self.description.clone(),
            category: self.category.clone(),
            severity: self.severity,
            triggers,
            message: self.message.clone(),
            suggested_actions: clone_strings(&self.suggested_actions),
            hint,
        }
    }
}

/// What an advice says.
pub struct AdviceView {
    pub id: Seq<char>,
    pub name: Seq<char>,
    pub description: Seq<char>,
    pub category: Seq<char>,
    pub severity: AdviceSeverity,
    pub triggers: Seq<AdviceTrigger>,
    pub message: Seq<char>,
    pub suggested_actions: Seq<Seq<char>>,
    pub hint: Option<String>,
}

impl View for AdviceDescriptor {
    type V = AdviceView;

    open spec fn view(&self) -> AdviceView {
        AdviceView {
            id: self.id@,
            name: self.name@,
            description: self.description@,
            category: self.category@,
            severity: self.severity,
            triggers: self.triggers@,
            message: self.message@,
            suggested_actions: text::texts(self.suggested_actions@),
            hint: self.hint,
        }
    }
}

/// Which advice is switched off.
#[derive(Debug)]
pub struct AdviceConfig {
    /// Whether there is advice at all.
    pub enabled: bool,
    /// The advice that is switched off.
    pub disabled: Vec<String>,
}

impl Default for AdviceConfig {
    /// No advice, and none switched off by name.
    fn default() -> (r: Self)
        ensures
            !r.enabled,
            r.disabled@.len() == 0,
    {
        AdviceConfig { enabled: false, disabled: Vec::new() }
    }
}

impl AdviceConfig {
    /// Whether an advice is switched off by its identifier.
    pub fn is_disabled(&self, id: &str) -> (r: bool)
        ensures
            r == text::texts(self.disabled@).contains(id@),
    {
        let ghost all = text::texts(self.disabled@);
        let mut i: usize = 0;
        while i < self.disabled.len()
            invariant
                i <= self.disabled@.len(),
                all == text::texts(self.disabled@),
                forall|j: int| 0 <= j < i ==> #[trigger] all[j] != id@,
            decreases self.disabled@.len() - i,
        {
            if str_eq(self.disabled[i].as_str(), id) {
                assert(all[i as int] == id@);
                return true;
            }
            i = i + 1;
        }
        false
    }

    /// All advice, none switched off.
    pub fn default_enabled() -> (r: Self)
        ensures
            r.enabled,
            r.disabled@.len() == 0,
    {
        AdviceConfig { enabled: true, disabled: Vec::new() }
    }

    fn snapshot(&self) -> (r: Self)
        ensures
            r.enabled == self.enabled,
            text::texts(r.disabled@) == text::texts(self.disabled@),
    {
        AdviceConfig { enabled: self.enabled, disabled: clone_strings(&self.disabled) }
    }
}

/// An advice file.
#[derive(Debug)]
pub struct TomlAdviceConfig {
    pub advice: TomlAdvice,
}

/// The `[advice]` section.
#[derive(Debug)]
pub struct TomlAdvice {
    pub id: String,
    pub name: String,
    pub description: String,
    pub category: String,
    pub severity: AdviceSeverity,
    pub triggers: Vec<TomlTrigger>,
    pub message: String,
    pub suggested_actions: Vec<String>,
    pub hint: Option<String>,
}

/// The category of an advice that names none.
pub fn default_category() -> (r: String)
    ensures
        r@ == "general"@,
{
    "general".to_owned()
}

/// The severity of an advice that names none.
pub fn default_severity() -> (r: AdviceSeverity)
    ensures
        r == AdviceSeverity::Warning,
{
    AdviceSeverity::Warning
}

/// A trigger as it is written in a file.
#[derive(Debug)]
pub enum TomlTrigger {
    /// An assertion fails.
    AssertionFailed { assertion_id: String },
    /// A doctor fails.
    DoctorFailed { doctor_id: String },
    /// A tool ends with a status at least so many times.
    ExperiencePattern { tool_name: String, status: String, threshold: u32 },
}

impl TomlTrigger {
    /// The condition of the rules engine that holds when the trigger fires.
    pub open spec fn condition(self) -> Seq<char> {
        match self {
            TomlTrigger::AssertionFailed { assertion_id } => "fact('assertion:"@ + assertion_id@
                + "') == 'failed'"@,
            TomlTrigger::DoctorFailed { doctor_id } => "fact('doctor:"@ + doctor_id@
                + "') == 'failed'"@,
            TomlTrigger::ExperiencePattern { tool_name, status, threshold } => {
                "count_fact('experience:"@ + tool_name@ + ":"@ + status@ + "', '>=', "@ + text::decimal(
                    threshold as nat,
                ) + ")"@
            },
        }
    }

    /// The condition of the rules engine that holds when the trigger fires. There is
    /// one for every trigger.
    pub fn to_cel_condition(&self) -> (r: Option<String>)
        ensures
            r matches Some(c) && c@ == self.condition(),
            *self matches TomlTrigger::AssertionFailed { assertion_id } ==> r->0@
                == "fact('assertion:"@ + assertion_id@ + "') == 'failed'"@,
            *self matches TomlTrigger::DoctorFailed { doctor_id } ==> r->0@ == "fact('doctor:"@
                + doctor_id@ + "') == 'failed'"@,
            *self matches TomlTrigger::ExperiencePattern { tool_name, status, threshold } ==> r->0@
                == "count_fact('experience:"@ + tool_name@ + ":"@ + status@ + "', '>=', "@
                + text::decimal(threshold as nat) + ")"@,
    {
        match self {
            TomlTrigger::AssertionFailed { assertion_id } => Some(
                concat3("fact('assertion:", assertion_id.as_str(), "') == 'failed'"),
            ),
            TomlTrigger::DoctorFailed { doctor_id } => Some(
                concat3("fact('doctor:", doctor_id.as_str(), "') == 'failed'"),
            ),
            TomlTrigger::ExperiencePattern { tool_name, status, threshold } => {
                let head = concat3("count_fact('experience:", tool_name.as_str(), ":");
                let key = concat3(head.as_str(), status.as_str(), "', '>=', ");
                Some(
                    concat3(key.as_str(), decimal_string(*threshold as u64).as_str(), ")"),
                )
            },
        }
    }

    /// The trigger that a file's trigger stands for.
    pub open spec fn trigger(self) -> AdviceTrigger {
        match self {
            TomlTrigger::AssertionFailed { assertion_id } => AdviceTrigger::AssertionFailed {
                assertion_id,
            },
            TomlTrigger::DoctorFailed { doctor_id } => AdviceTrigger::DoctorFailed { doctor_id },
            TomlTrigger::ExperiencePattern { tool_name, status, threshold } => {
                AdviceTrigger::ExperiencePattern { tool_name, status, threshold }
            },
        }
    }

    /// The trigger that a file's trigger stands for.
    pub fn into_trigger(self) -> (r: AdviceTrigger)
        ensures
            r == self.trigger(),
            self matches TomlTrigger::AssertionFailed { assertion_id } ==> r == (
            AdviceTrigger::AssertionFailed { assertion_id }),
            self matches TomlTrigger::DoctorFailed { doctor_id } ==> r == (
            AdviceTrigger::DoctorFailed { doctor_id }),
            self matches TomlTrigger::ExperiencePattern { tool_name, status, threshold } ==> r == (
            AdviceTrigger::ExperiencePattern { tool_name, status, threshold }),
    {
        match self {
            TomlTrigger::AssertionFailed { assertion_id } => AdviceTrigger::AssertionFailed {
                assertion_id,
            },
            TomlTrigger::DoctorFailed { doctor_id } => AdviceTrigger::DoctorFailed { doctor_id },
            TomlTrigger::ExperiencePattern { tool_name, status, threshold } => {
                AdviceTrigger::ExperiencePattern { tool_name, status, threshold }
            },
        }
    }
}

impl From<TomlTrigger> for AdviceTrigger {
    fn from(toml: TomlTrigger) -> (r: Self) {
        toml.into_trigger()
    }
}

impl vstd::std_specs::convert::FromSpecImpl<TomlTrigger> for AdviceTrigger {
    open spec fn obeys_from_spec() -> bool {
        true
    }

    open spec fn from_spec(v: TomlTrigger) -> AdviceTrigger {
        v.trigger()
    }
}

/// The triggers that a file's triggers stand for.
pub open spec fn triggers_of(triggers: Seq<TomlTrigger>) -> Seq<AdviceTrigger> {
    triggers.map_values(|t: TomlTrigger| t.trigger())
}

impl TomlAdviceConfig {
    /// The advice that a file describes.
    pub open spec fn descriptor(self) -> AdviceView {
        AdviceView {
            id: self.advice.id@,
            name: self.advice.name@,
            description: self.advice.description@,
            category: self.advice.category@,
            severity: self.advice.severity,
            triggers: triggers_of(self.advice.triggers@),
            message: self.advice.message@,
            suggested_actions: text::texts(self.advice.suggested_actions@),
            hint: self.advice.hint,
        }
    }

    /// The advice that a file describes.
    pub fn into_descriptor(self) -> (r: AdviceDescriptor)
        ensures
            r@ == self.descriptor(),
            r.id == self.advice.id,
            r.name == self.advice.name,
            r.description == self.advice.description,
            r.category == self.advice.category,
            r.severity == self.advice.severity,
            r.message == self.advice.message,
            r.suggested_actions == self.advice.suggested_actions,
            r.hint == self.advice.hint,
            r.triggers@.len() == self.advice.triggers@.len(),
            forall|i: int|
                0 <= i < r.triggers@.len() ==> #[trigger] r.triggers@[i]
                    == self.advice.triggers@[i].trigger(),
    {
        let advice = self.advice;
        let ghost all = advice.triggers@;
        let mut triggers: Vec<AdviceTrigger> = Vec::new();
        for trigger in it: advice.triggers
            invariant
                it.seq() == all,
                triggers@ == triggers_of(all.take(it.index() as int)),
        {
            triggers.push(trigger.into_trigger());
            proof {
                let i = it.index() as int;
                assert(triggers_of(all.take(i + 1)) =~= triggers_of(all.take(i)).push(
                    trigger.trigger(),
                ));
            }
        }
        assert(all.take(all.len() as int) =~= all);
        AdviceDescriptor {
            id: advice.id,
            name: advice.name,
            description: advice.description,
            category: advice.category,
            severity: advice.severity,
            triggers,
            message: advice.message,
            suggested_actions: advice.suggested_actions,
            hint: advice.hint,
        }
    }
}

/// The settings file.
#[derive(Debug)]
pub struct TomlAdviceSettings {
    pub enabled: bool,
    pub disabled: Vec<String>,
}

/// Whether there is advice where the settings do not say.
pub fn default_enabled() -> (r: bool)
    ensures
        r,
{
    true
}

impl Default for TomlAdviceSettings {
    /// All advice.
    fn default() -> (r: Self)
        ensures
            r.enabled,
            r.disabled@.len() == 0,
    {
        TomlAdviceSettings { enabled: true, disabled: Vec::new() }
    }
}

/// What goes wrong with advice files.
#[derive(Debug)]
pub enum AdviceParserError {
    ReadDir(String),
    TomlParse(String),
    TomlSerialize(String),
    NotFound(String),
}

impl AdviceParserError {
    /// The error in words.
    pub open spec fn text(self) -> Seq<char> {
        match self {
            AdviceParserError::ReadDir(e) => "Failed to read directory: "@ + e@,
            AdviceParserError::TomlParse(e) => "Failed to parse TOML: "@ + e@,
            AdviceParserError::TomlSerialize(e) => "Failed to serialize TOML: "@ + e@,
            AdviceParserError::NotFound(id) => "Advice '"@ + id@ + "' not found"@,
        }
    }

    /// The error in words.
    pub fn message(&self) -> (r: String)
        ensures
            r@ == self.text(),
            *self matches AdviceParserError::ReadDir(e) ==> r@ == "Failed to read directory: "@ + e@,
            *self matches AdviceParserError::TomlParse(e) ==> r@ == "Failed to parse TOML: "@ + e@,
            *self matches AdviceParserError::TomlSerialize(e) ==> r@ == "Failed to serialize TOML: "@
                + e@,
            *self matches AdviceParserError::NotFound(id) ==> r@ == "Advice '"@ + id@ + "' not found"@,
    {
        match self {
            AdviceParserError::ReadDir(e) => concat2("Failed to read directory: ", e.as_str()),
            AdviceParserError::TomlParse(e) => concat2("Failed to parse TOML: ", e.as_str()),
            AdviceParserError::TomlSerialize(e) => concat2(
                "Failed to serialize TOML: ",
                e.as_str(),
            ),
            AdviceParserError::NotFound(id) => concat3("Advice '", id.as_str(), "' not found"),
        }
    }
}

/// An advice file that was read, and its text.
#[derive(Debug)]
pub struct AdviceFile {
    pub config: TomlAdviceConfig,
    pub source: String,
}

/// How many of the files could be read.
pub open spec fn readable(files: Seq<Option<AdviceFile>>) -> nat
    decreases files.len(),
{
    if files.len() == 0 {
        0
    } else {
        readable(files.drop_last()) + (if files.last() is Some {
            1nat
        } else {
            0nat
        })
    }
}

/// The advice after files were gone through: a later one replaces an earlier one of
/// the same identifier.
pub open spec fn loaded_over(
    start: Map<Seq<char>, AdviceView>,
    files: Seq<Option<AdviceFile>>,
) -> Map<Seq<char>, AdviceView>
    decreases files.len(),
{
    if files.len() == 0 {
        start
    } else {
        let before = loaded_over(start, files.drop_last());
        match files.last() {
            Some(f) => before.insert(f.config.advice.id@, f.config.descriptor()),
            None => before,
        }
    }
}

/// The sources after files were gone through.
pub open spec fn sources_over(
    start: Map<Seq<char>, Seq<char>>,
    files: Seq<Option<AdviceFile>>,
) -> Map<Seq<char>, Seq<char>>
    decreases files.len(),
{
    if files.len() == 0 {
        start
    } else {
        let before = sources_over(start, files.drop_last());
        match files.last() {
            Some(f) => before.insert(f.config.advice.id@, f.source@),
            None => before,
        }
    }
}

/// The advice that is loaded.
pub struct AdviceRegistry {
    advice: Catalog<AdviceDescriptor>,
}

impl AdviceRegistry {
    pub closed spec fn wf(self) -> bool {
        self.advice.wf()
    }

    /// The advice by identifier.
    pub closed spec fn view(self) -> Map<Seq<char>, AdviceView> {
        self.advice@
    }

    /// The texts that the advice came from.
    pub closed spec fn sources(self) -> Map<Seq<char>, Seq<char>> {
        self.advice.texts()
    }

    /// The identifiers in the order in which the advice is listed.
    pub closed spec fn ids(self) -> Seq<Seq<char>> {
        self.advice.ids()
    }

    /// Every advice is listed once, and has its source.
    pub proof fn law_each_advice_is_listed_once(self)
        requires
            self.wf(),
        ensures
            self.sources().dom() == self@.dom(),
            self.ids().no_duplicates(),
            forall|k: Seq<char>| #[trigger] self@.contains_key(k) <==> self.ids().contains(k),
    {
        self.advice.lemma_ids();
    }

    /// A registry without advice.
    pub fn new() -> (r: Self)
        ensures
            r.wf(),
            r@ == Map::<Seq<char>, AdviceView>::empty(),
            r.sources() == Map::<Seq<char>, Seq<char>>::empty(),
    {
        AdviceRegistry { advice: Catalog::new() }
    }

    /// Keeps the advice of the files of a directory. Those that could not be read are
    /// passed over. Returns how many were read.
    pub fn load_from_dir(&mut self, files: Vec<Option<AdviceFile>>) -> (r: usize)
        requires
            old(self).wf(),
        ensures
            final(self).wf(),
            r == readable(files@),
            final(self)@ == loaded_over(old(self)@, files@),
            final(self).sources() == sources_over(old(self).sources(), files@),
            forall|i: int|
                0 <= i < files@.len() && (#[trigger] files@[i]) is Some && (forall|j: int|
                    i < j < files@.len() && (#[trigger] files@[j]) is Some
                        ==> files@[j]->0.config.advice.id@ != files@[i]->0.config.advice.id@) ==> {
                    let id = files@[i]->0.config.advice.id@;
                    final(self)@.contains_key(id) && final(self)@[id] == files@[i]->0.config.descriptor()
                },
            forall|id: Seq<char>|
                (forall|j: int|
                    0 <= j < files@.len() && (#[trigger] files@[j]) is Some
                        ==> files@[j]->0.config.advice.id@ != id) ==> (#[trigger] final(self)@.contains_key(id)
                    <==> old(self)@.contains_key(id)) && (old(self)@.contains_key(id)
                    ==> final(self)@[id] == old(self)@[id]),
    {
        let total: usize = files.len();
        let ghost all = files@;
        let mut loaded: usize = 0;
        assert(all.take(0) =~= seq![]);
        for file in it: files
            invariant
                it.seq() == all,
                total == all.len(),
                self.wf(),
                loaded <= it.index(),
                loaded == readable(all.take(it.index() as int)),
                self@ == loaded_over(old(self)@, all.take(it.index() as int)),
                self.sources() == sources_over(
                    old(self).sources(),
                    all.take(it.index() as int),
                ),
        {
            proof {
                let i = it.index() as int;
                assert(all.take(i + 1).drop_last() =~= all.take(i));
                assert(all.take(i + 1).last() == file);
            }
            match file {
                Some(f) => {
                    let descriptor = f.config.into_descriptor();
                    self.advice.put(descriptor.id.clone(), descriptor, f.source);
                    loaded = loaded + 1;
                },
                None => {},
            }
        }
        assert(all.take(all.len() as int) =~= all);
        proof {
            assert forall|i: int|
                0 <= i < all.len() && (#[trigger] all[i]) is Some && (forall|j: int|
                    i < j < all.len() && (#[trigger] all[j]) is Some
                        ==> all[j]->0.config.advice.id@ != all[i]->0.config.advice.id@) implies {
                let id = all[i]->0.config.advice.id@;
                self@.contains_key(id) && self@[id] == all[i]->0.config.descriptor()
            } by {
                law_last_file_wins(old(self)@, old(self).sources(), all, i);
            }
            assert forall|id: Seq<char>|
                (forall|j: int|
                    0 <= j < all.len() && (#[trigger] all[j]) is Some ==> all[j]->0.config.advice.id@
                        != id) implies (#[trigger] self@.contains_key(id) <==> old(
                self,
            )@.contains_key(id)) && (old(self)@.contains_key(id) ==> self@[id] == old(
                self,
            )@[id]) by {
                law_other_advice_stay(old(self)@, old(self).sources(), all, id);
            }
        }
        loaded
    }

    /// The advice of an identifier.
    pub fn get(&self, id: &str) -> (r: Option<&AdviceDescriptor>)
        requires
            self.wf(),
        ensures
            match r {
                Some(d) => self@.contains_key(id@) && self@[id@] == d@,
                None => !self@.contains_key(id@),
            },
    {
        self.advice.get(id)
    }

    /// All advice.
    pub fn list(&self) -> (r: Vec<AdviceDescriptor>)
        requires
            self.wf(),
        ensures
            r@.len() == self.ids().len(),
            forall|i: int|
                0 <= i < r@.len() ==> (#[trigger] r@[i])@ == self@[self.ids()[i]],
    {
        let mut out: Vec<AdviceDescriptor> = Vec::new();
        let mut i: usize = 0;
        while i < self.advice.len()
            invariant
                self.wf(),
                i <= self.ids().len(),
                out@.len() == i,
                forall|j: int|
                    0 <= j < i ==> (#[trigger] out@[j])@ == self@[self.ids()[j]],
            decreases self.ids().len() - i,
        {
            out.push(self.advice.nth(i).duplicate());
            i = i + 1;
        }
        out
    }

    /// The text that an advice came from.
    pub fn get_source(&self, id: &str) -> (r: Option<String>)
        requires
            self.wf(),
        ensures
            match r {
                Some(s) => self.sources().contains_key(id@) && self.sources()[id@] == s@,
                None => !self.sources().contains_key(id@),
            },
    {
        self.advice.get_source(id)
    }

    /// The number of advice items.
    pub fn len(&self) -> (r: usize)
        ensures
            r == self.ids().len(),
    {
        self.advice.len()
    }

    /// Whether there is no advice.
    pub fn is_empty(&self) -> (r: bool)
        ensures
            r == (self.ids().len() == 0),
    {
        self.advice.len() == 0
    }
}

impl Default for AdviceRegistry {
    fn default() -> (r: Self)
        ensures
            r.wf(),
            r@ == Map::<Seq<char>, AdviceView>::empty(),
            r.sources() == Map::<Seq<char>, Seq<char>>::empty(),
    {
        Self::new()
    }
}

/// Files change nothing of a piece of advice that none of them has.
pub proof fn law_other_advice_stay(
    start: Map<Seq<char>, AdviceView>,
    sources: Map<Seq<char>, Seq<char>>,
    files: Seq<Option<AdviceFile>>,
    id: Seq<char>,
)
    requires
        forall|j: int|
            0 <= j < files.len() && (#[trigger] files[j]) is Some ==> files[j]->0.config.advice.id@
                != id,
    ensures
        loaded_over(start, files).contains_key(id) == start.contains_key(id),
        start.contains_key(id) ==> loaded_over(start, files)[id] == start[id],
        sources_over(sources, files).contains_key(id) == sources.contains_key(id),
        sources.contains_key(id) ==> sources_over(sources, files)[id] == sources[id],
    decreases files.len(),
{
    if files.len() > 0 {
        let f = files.drop_last();
        assert forall|j: int| 0 <= j < f.len() && (#[trigger] f[j]) is Some implies f[j]->0.config.advice.id@
            != id by {
            assert(f[j] == files[j]);
        }
        law_other_advice_stay(start, sources, f, id);
        assert(files.last() == files[files.len() - 1]);
    }
}

/// The files that are counted are those that could be read.
pub proof fn law_readable_files_are_counted(files: Seq<Option<AdviceFile>>)
    ensures
        readable(files) == files.filter(|f: Option<AdviceFile>| f is Some).len(),
    decreases files.len(),
{
    reveal(Seq::filter);
    if files.len() > 0 {
        law_readable_files_are_counted(files.drop_last());
    }
}

/// Of several files with one identifier the last is kept, with its own source.
pub proof fn law_last_file_wins(
    start: Map<Seq<char>, AdviceView>,
    sources: Map<Seq<char>, Seq<char>>,
    files: Seq<Option<AdviceFile>>,
    i: int,
)
    requires
        0 <= i < files.len(),
        files[i] is Some,
        forall|j: int|
            i < j < files.len() && (#[trigger] files[j]) is Some
                ==> files[j]->0.config.advice.id@ != files[i]->0.config.advice.id@,
    ensures
        loaded_over(start, files).contains_key(files[i]->0.config.advice.id@),
        loaded_over(start, files)[files[i]->0.config.advice.id@]
            == files[i]->0.config.descriptor(),
        sources_over(sources, files).contains_key(files[i]->0.config.advice.id@),
        sources_over(sources, files)[files[i]->0.config.advice.id@] == files[i]->0.source@,
    decreases files.len(),
{
    if i < files.len() - 1 {
        let f = files.drop_last();
        assert forall|j: int|
            i < j < f.len() && (#[trigger] f[j]) is Some implies f[j]->0.config.advice.id@
            != f[i]->0.config.advice.id@ by {
            assert(f[j] == files[j]);
        }
        law_last_file_wins(start, sources, f, i);
        assert(files.last() == files[files.len() - 1]);
    }
}

/// The identifiers that are left when one is taken out.
pub open spec fn others(ids: Seq<Seq<char>>, id: Seq<char>) -> Seq<Seq<char>>
    decreases ids.len(),
{
    if ids.len() == 0 {
        Seq::empty()
    } else if ids.last() == id {
        others(ids.drop_last(), id)
    } else {
        others(ids.drop_last(), id).push(ids.last())
    }
}

/// The advice settings, kept at a path.
pub struct AdviceConfigStore {
    config_path: String,
    config: AdviceConfig,
}

impl AdviceConfigStore {
    /// Where the settings are kept.
    pub closed spec fn place(self) -> Seq<char> {
        self.config_path@
    }

    /// Whether there is advice at all.
    pub closed spec fn enabled(self) -> bool {
        self.config.enabled
    }

    /// The advice that is switched off, in the order in which it was.
    pub closed spec fn disabled(self) -> Seq<Seq<char>> {
        text::texts(self.config.disabled@)
    }

    /// The settings read from a path; where none could be read, all advice is on.
    pub fn new(config_path: String, settings: Option<TomlAdviceSettings>) -> (r: Self)
        ensures
            r.place() == config_path@,
            match settings {
                Some(s) => r.enabled() == s.enabled && r.disabled() == text::texts(s.disabled@),
                None => r.enabled() && r.disabled().len() == 0,
            },
    {
        let config = match settings {
            Some(s) => AdviceConfig { enabled: s.enabled, disabled: s.disabled },
            None => AdviceConfig::default_enabled(),
        };
        AdviceConfigStore { config_path, config }
    }

    /// Where the settings are kept.
    pub fn config_path(&self) -> (r: &str)
        ensures
            r@ == self.place(),
    {
        self.config_path.as_str()
    }

    /// The settings as they are written to their path.
    pub fn settings(&self) -> (r: TomlAdviceSettings)
        ensures
            r.enabled == self.enabled(),
            text::texts(r.disabled@) == self.disabled(),
    {
        TomlAdviceSettings {
            enabled: self.config.enabled,
            disabled: clone_strings(&self.config.disabled),
        }
    }

    /// The settings as they stand.
    pub fn get_config(&self) -> (r: AdviceConfig)
        ensures
            r.enabled == self.enabled(),
            text::texts(r.disabled@) == self.disabled(),
    {
        self.config.snapshot()
    }

    /// Switches all advice on or off.
    pub fn set_global_enabled(&mut self, enabled: bool) -> (r: AdviceConfig)
        ensures
            final(self).place() == old(self).place(),
            final(self).enabled() == enabled,
            final(self).disabled() == old(self).disabled(),
            r.enabled == final(self).enabled(),
            text::texts(r.disabled@) == final(self).disabled(),
    {
        self.config.enabled = enabled;
        self.config.snapshot()
    }

    /// Switches an advice off, if it is not off already.
    pub fn disable_advice(&mut self, id: &str) -> (r: AdviceConfig)
        ensures
            final(self).place() == old(self).place(),
            final(self).enabled() == old(self).enabled(),
            final(self).disabled() == (if old(self).disabled().contains(id@) {
                old(self).disabled()
            } else {
                old(self).disabled().push(id@)
            }),
            r.enabled == final(self).enabled(),
            text::texts(r.disabled@) == final(self).disabled(),
    {
        if !self.config.is_disabled(id) {
            self.config.disabled.push(id.to_owned());
            assert(self.disabled() =~= old(self).disabled().push(id@));
        }
        self.config.snapshot()
    }

    /// Switches an advice on again.
    pub fn enable_advice(&mut self, id: &str) -> (r: AdviceConfig)
        ensures
            final(self).place() == old(self).place(),
            final(self).enabled() == old(self).enabled(),
            final(self).disabled() == others(old(self).disabled(), id@),
            !final(self).disabled().contains(id@),
            forall|k: Seq<char>|
                k != id@ ==> (#[trigger] final(self).disabled().contains(k) <==> old(
                    self,
                ).disabled().contains(k)),
            r.enabled == final(self).enabled(),
            text::texts(r.disabled@) == final(self).disabled(),
    {
        let ghost all = text::texts(self.config.disabled@);
        proof {
            lemma_others(all, id@);
        }
        let mut kept: Vec<String> = Vec::new();
        let mut i: usize = 0;
        assert(all.take(0) =~= seq![]);
        assert(text::texts(kept@) =~= seq![]);
        while i < self.config.disabled.len()
            invariant
                i <= self.config.disabled@.len(),
                all == text::texts(self.config.disabled@),
                *self == *old(self),
                text::texts(kept@) == others(all.take(i as int), id@),
            decreases self.config.disabled@.len() - i,
        {
            proof {
                assert(all.take(i + 1).drop_last() =~= all.take(i as int));
                assert(all.take(i + 1).last() == all[i as int]);
            }
            if !str_eq(self.config.disabled[i].as_str(), id) {
                let ghost before = kept@;
                kept.push(self.config.disabled[i].clone());
                assert(text::texts(kept@) =~= text::texts(before).push(all[i as int]));
            }
            i = i + 1;
        }
        assert(all.take(i as int) =~= all);
        self.config.disabled = kept;
        self.config.snapshot()
    }

    /// Switches every advice on again.
    pub fn clear_disabled(&mut self) -> (r: AdviceConfig)
        ensures
            final(self).place() == old(self).place(),
            final(self).enabled() == old(self).enabled(),
            final(self).disabled().len() == 0,
            r.enabled == final(self).enabled(),
            r.disabled@.len() == 0,
    {
        self.config.disabled = Vec::new();
        let r = self.config.snapshot();
        assert(text::texts(r.disabled@).len() == 0);
        r
    }
}

proof fn lemma_others(ids: Seq<Seq<char>>, id: Seq<char>)
    ensures
        !others(ids, id).contains(id),
        forall|k: Seq<char>| k != id ==> (#[trigger] others(ids, id).contains(k) <==> ids.contains(k)),
        !ids.contains(id) ==> others(ids, id) == ids,
    decreases ids.len(),
{
    if ids.len() > 0 {
        let front = ids.drop_last();
        lemma_others(front, id);
        let rest = others(front, id);
        let out = others(ids, id);
        assert(ids =~= front.push(ids.last()));
        assert forall|k: Seq<char>| ids.contains(k) <==> front.contains(k) || k == ids.last() by {
            if front.contains(k) {
                let i = choose|i: int| 0 <= i < front.len() && front[i] == k;
                assert(ids[i] == k);
            }
            if k == ids.last() {
                assert(ids[ids.len() - 1] == k);
            }
        }
        if ids.last() != id {
            assert forall|k: Seq<char>| out.contains(k) <==> rest.contains(k) || k
                == ids.last() by {
                if rest.contains(k) {
                    let i = choose|i: int| 0 <= i < rest.len() && rest[i] == k;
                    assert(out[i] == k);
                }
                if k == ids.last() {
                    assert(out[out.len() - 1] == k);
                }
            }
        }
    }
}

/// Switching an advice on takes it off the list and leaves every other one there.
/// Switching off an advice that was on, and on again, leaves the list as it was.
pub proof fn law_enable_undoes_disable(disabled: Seq<Seq<char>>, id: Seq<char>)
    ensures
        !others(disabled, id).contains(id),
        forall|k: Seq<char>|
            k != id ==> (#[trigger] others(disabled, id).contains(k) <==> disabled.contains(k)),
        !disabled.contains(id) ==> others(disabled.push(id), id) == disabled,
{
    lemma_others(disabled, id);
    assert(disabled.push(id).drop_last() =~= disabled);
}

/// Taking an identifier out leaves all the others, in their order and as often as they stood.
pub proof fn law_only_the_identifier_is_taken_out(ids: Seq<Seq<char>>, id: Seq<char>)
    ensures
        others(ids, id) == ids.filter(|k: Seq<char>| k != id),
    decreases ids.len(),
{
    reveal(Seq::filter);
    if ids.len() > 0 {
        law_only_the_identifier_is_taken_out(ids.drop_last(), id);
    }
}

} // verus!
