//! Assertions: descriptors with their checks, and the registry of those that are
//! loaded.
use vstd::prelude::*;

use crate::assoc::Assoc;
use crate::table::Entry;
use crate::text;
use crate::text::{concat2, concat3, decimal_string, integer_string, replace_char};

verus! {

/// What an assertion asks of a command that ran.
#[derive(Debug)]
pub enum AssertionCheck {
    ExitCode { expected: i32 },
    StdoutContains { substring: String },
    StderrContains { substring: String },
    StdoutMatches { regex: String },
    SandboxAlive,
    CommandDuration { max_ms: u64 },
}

impl Clone for AssertionCheck {
    fn clone(&self) -> (r: Self)
        ensures
            r == *self,
    {
        match self {
            AssertionCheck::ExitCode { expected } => AssertionCheck::ExitCode {
                expected: *expected,
            },
            AssertionCheck::StdoutContains { substring } => AssertionCheck::StdoutContains {
                substring: substring.clone(),
            },
            AssertionCheck::StderrContains { substring } => AssertionCheck::StderrContains {
                substring: substring.clone(),
            },
            AssertionCheck::StdoutMatches { regex } => AssertionCheck::StdoutMatches {
                regex: regex.clone(),
            },
            AssertionCheck::SandboxAlive => AssertionCheck::SandboxAlive,
            AssertionCheck::CommandDuration { max_ms } => AssertionCheck::CommandDuration {
                max_ms: *max_ms,
            },
        }
    }
}

/// An assertion: all of its checks have to hold.
#[derive(Debug)]
pub struct AssertionDescriptor {
    pub id: String,
    pub name: String,
    pub description: String,
    pub category: String,
    pub checks: Vec<AssertionCheck>,
}

/// What an assertion says.
pub struct AssertionView {
    pub id: Seq<char>,
    pub name: Seq<char>,
    pub description: Seq<char>,
    pub category: Seq<char>,
    pub checks: Seq<AssertionCheck>,
}

impl View for AssertionDescriptor {
    type V = AssertionView;

    open spec fn view(&self) -> AssertionView {
        AssertionView {
            id: self.id@,
            name: self.name@,
            description: self.description@,
            category: self.category@,
            checks: self.checks@,
        }
    }
}

impl AssertionDescriptor {
    /// The same assertion once more.
    pub fn duplicate(&self) -> (r: Self)
        ensures
            r@ == self@,
    {
        let mut checks: Vec<AssertionCheck> = Vec::new();
        let mut i: usize = 0;
        while i < self.checks.len()
            invariant
                i <= self.checks@.len(),
                checks@ == self.checks@.take(i as int),
            decreases self.checks@.len() - i,
        {
            checks.push(self.checks[i].clone());
            i = i + 1;
            assert(checks@ =~= self.checks@.take(i as int));
        }
        assert(checks@ =~= self.checks@);
        AssertionDescriptor {
            id: self.id.clone(),
            name: self.name.clone(),
            description: self.description.clone(),
            category: self.category.clone(),
            checks,
        }
    }
}

/// An assertion file.
#[derive(Debug)]
pub struct TomlAssertionConfig {
    pub assertion: TomlAssertion,
}

/// The `[assertion]` section, with one check or several.
#[derive(Debug)]
pub struct TomlAssertion {
    pub id: String,
    pub name: String,
    pub description: String,
    pub category: String,
    /// The check of `[assertion.check]`.
    pub check: Option<TomlCheck>,
    /// The checks of `[[assertion.checks]]`.
    pub checks: Vec<TomlCheck>,
}

/// A check as it is written in a file.
#[derive(Debug)]
pub enum TomlCheck {
    ExitCode { expected: i32 },
    StdoutContains { substring: String },
    StderrContains { substring: String },
    StdoutMatches { regex: String },
    SandboxAlive,
    CommandDuration { max_ms: u64 },
}

/// The category of an assertion that names none.
pub fn default_category() -> (r: String)
    ensures
        r@ == "general"@,
{
    "general".to_owned()
}

/// A text as it stands in a literal of the rules engine: each backslash is doubled,
/// and each quote has one before it.
pub open spec fn escaped(s: Seq<char>) -> Seq<char> {
    text::replaced(text::replaced(s, '\\', "\\\\"@), '\'', "\\'"@)
}

impl TomlCheck {
    /// The condition of the rules engine that holds when the check does; none for a
    /// check on the sandbox itself.
    pub open spec fn condition(self) -> Option<Seq<char>> {
        match self {
            TomlCheck::ExitCode { expected } => Some(
                "exit_code == "@ + text::integer_text(expected as int),
            ),
            TomlCheck::StdoutContains { substring } => Some(
                "stdout_contains('"@ + escaped(substring@) + "')"@,
            ),
            TomlCheck::StderrContains { substring } => Some(
                "stderr_contains('"@ + escaped(substring@) + "')"@,
            ),
            TomlCheck::StdoutMatches { regex } => Some(
                "stdout_matches('"@ + escaped(regex@) + "')"@,
            ),
            TomlCheck::SandboxAlive => None,
            TomlCheck::CommandDuration { max_ms } => Some(
                "duration_lt("@ + text::decimal(max_ms as nat) + ")"@,
            ),
        }
    }

    /// The condition of the rules engine that holds when the check does.
    pub fn to_cel_condition(&self) -> (r: Option<String>)
        ensures
            match r {
                Some(c) => self.condition() == Some(c@),
                None => self.condition() is None,
            },
            r is None <==> *self is SandboxAlive,
            *self matches TomlCheck::ExitCode { expected } ==> r->0@ == "exit_code == "@
                + text::integer_text(expected as int),
            *self matches TomlCheck::StdoutContains { substring } ==> r->0@
                == "stdout_contains('"@ + escaped(substring@) + "')"@,
            *self matches TomlCheck::StderrContains { substring } ==> r->0@
                == "stderr_contains('"@ + escaped(substring@) + "')"@,
            *self matches TomlCheck::StdoutMatches { regex } ==> r->0@ == "stdout_matches('"@
                + escaped(regex@) + "')"@,
            *self matches TomlCheck::CommandDuration { max_ms } ==> r->0@ == "duration_lt("@
                + text::decimal(max_ms as nat) + ")"@,
    {
        match self {
            TomlCheck::ExitCode { expected } => Some(
                concat2("exit_code == ", integer_string(*expected as i64).as_str()),
            ),
            TomlCheck::StdoutContains { substring } => Some(
                concat3(
                    "stdout_contains('",
                    Self::escape_cel_string(substring.as_str()).as_str(),
                    "')",
                ),
            ),
            TomlCheck::StderrContains { substring } => Some(
                concat3(
                    "stderr_contains('",
                    Self::escape_cel_string(substring.as_str()).as_str(),
                    "')",
                ),
            ),
            TomlCheck::StdoutMatches { regex } => Some(
                concat3(
                    "stdout_matches('",
                    Self::escape_cel_string(regex.as_str()).as_str(),
                    "')",
                ),
            ),
            TomlCheck::SandboxAlive => None,
            TomlCheck::CommandDuration { max_ms } => Some(
                concat3("duration_lt(", decimal_string(*max_ms).as_str(), ")"),
            ),
        }
    }

    /// A text as it stands in a literal of the rules engine.
    pub fn escape_cel_string(s: &str) -> (r: String)
        ensures
            r@ == escaped(s@),
    {
        let doubled = replace_char(s, '\\', "\\\\");
        replace_char(doubled.as_str(), '\'', "\\'")
    }

    /// The check that a file's check stands for.
    pub open spec fn check(self) -> AssertionCheck {
        match self {
            TomlCheck::ExitCode { expected } => AssertionCheck::ExitCode { expected },
            TomlCheck::StdoutContains { substring } => AssertionCheck::StdoutContains { substring },
            TomlCheck::StderrContains { substring } => AssertionCheck::StderrContains { substring },
            TomlCheck::StdoutMatches { regex } => AssertionCheck::StdoutMatches { regex },
            TomlCheck::SandboxAlive => AssertionCheck::SandboxAlive,
            TomlCheck::CommandDuration { max_ms } => AssertionCheck::CommandDuration { max_ms },
        }
    }

    /// The check that a file's check stands for.
    pub fn into_assertion_check(self) -> (r: AssertionCheck)
        ensures
            r == self.check(),
            self matches TomlCheck::ExitCode { expected } ==> r == (AssertionCheck::ExitCode {
                expected,
            }),
            self matches TomlCheck::StdoutContains { substring } ==> r == (
            AssertionCheck::StdoutContains { substring }),
            self matches TomlCheck::StderrContains { substring } ==> r == (
            AssertionCheck::StderrContains { substring }),
            self matches TomlCheck::StdoutMatches { regex } ==> r == (
            AssertionCheck::StdoutMatches { regex }),
            self is SandboxAlive ==> r is SandboxAlive,
            self matches TomlCheck::CommandDuration { max_ms } ==> r == (
            AssertionCheck::CommandDuration { max_ms }),
    {
        match self {
            TomlCheck::ExitCode { expected } => AssertionCheck::ExitCode { expected },
            TomlCheck::StdoutContains { substring } => AssertionCheck::StdoutContains { substring },
            TomlCheck::StderrContains { substring } => AssertionCheck::StderrContains { substring },
            TomlCheck::StdoutMatches { regex } => AssertionCheck::StdoutMatches { regex },
            TomlCheck::SandboxAlive => AssertionCheck::SandboxAlive,
            TomlCheck::CommandDuration { max_ms } => AssertionCheck::CommandDuration { max_ms },
        }
    }
}

impl From<TomlCheck> for AssertionCheck {
    fn from(toml: TomlCheck) -> (r: Self) {
        toml.into_assertion_check()
    }
}

impl vstd::std_specs::convert::FromSpecImpl<TomlCheck> for AssertionCheck {
    open spec fn obeys_from_spec() -> bool {
        true
    }

    open spec fn from_spec(v: TomlCheck) -> AssertionCheck {
        v.check()
    }
}

impl AssertionCheck {
    /// The check as a file writes it.
    pub open spec fn written(self) -> TomlCheck {
        match self {
            AssertionCheck::ExitCode { expected } => TomlCheck::ExitCode { expected },
            AssertionCheck::StdoutContains { substring } => TomlCheck::StdoutContains { substring },
            AssertionCheck::StderrContains { substring } => TomlCheck::StderrContains { substring },
            AssertionCheck::StdoutMatches { regex } => TomlCheck::StdoutMatches { regex },
            AssertionCheck::SandboxAlive => TomlCheck::SandboxAlive,
            AssertionCheck::CommandDuration { max_ms } => TomlCheck::CommandDuration { max_ms },
        }
    }
}

impl From<AssertionCheck> for TomlCheck {
    fn from(assertion: AssertionCheck) -> (r: Self) {
        match assertion {
            AssertionCheck::ExitCode { expected } => TomlCheck::ExitCode { expected },
            AssertionCheck::StdoutContains { substring } => TomlCheck::StdoutContains { substring },
            AssertionCheck::StderrContains { substring } => TomlCheck::StderrContains { substring },
            AssertionCheck::StdoutMatches { regex } => TomlCheck::StdoutMatches { regex },
            AssertionCheck::SandboxAlive => TomlCheck::SandboxAlive,
            AssertionCheck::CommandDuration { max_ms } => TomlCheck::CommandDuration { max_ms },
        }
    }
}

impl vstd::std_specs::convert::FromSpecImpl<AssertionCheck> for TomlCheck {
    open spec fn obeys_from_spec() -> bool {
        true
    }

    open spec fn from_spec(v: AssertionCheck) -> TomlCheck {
        v.written()
    }
}

/// A check and its written form stand for each other, both ways, and are of one sort.
pub proof fn law_checks_convert_both_ways(toml: TomlCheck, assertion: AssertionCheck)
    ensures
        toml.check().written() == toml,
        assertion.written().check() == assertion,
        toml is ExitCode <==> toml.check() is ExitCode,
        toml is StdoutContains <==> toml.check() is StdoutContains,
        toml is StderrContains <==> toml.check() is StderrContains,
        toml is StdoutMatches <==> toml.check() is StdoutMatches,
        toml is SandboxAlive <==> toml.check() is SandboxAlive,
        toml is CommandDuration <==> toml.check() is CommandDuration,
{
}

proof fn lemma_replaced_splits(a: Seq<char>, b: Seq<char>, c: char, by: Seq<char>)
    ensures
        text::replaced(a + b, c, by) == text::replaced(a, c, by) + text::replaced(b, c, by),
    decreases b.len(),
{
    if b.len() == 0 {
        assert(a + b =~= a);
        assert(text::replaced(a, c, by) + text::replaced(b, c, by) =~= text::replaced(a, c, by));
    } else {
        assert((a + b).drop_last() =~= a + b.drop_last());
        assert((a + b).last() == b.last());
        lemma_replaced_splits(a, b.drop_last(), c, by);
        assert(text::replaced(a + b, c, by) =~= text::replaced(a, c, by) + text::replaced(b, c, by));
    }
}

/// A character as it stands in a literal.
spec fn escaped_char(c: char) -> Seq<char> {
    if c == '\\' {
        seq!['\\', '\\']
    } else if c == '\'' {
        seq!['\\', '\'']
    } else {
        seq![c]
    }
}

proof fn lemma_escaped_first(s: Seq<char>)
    requires
        s.len() > 0,
    ensures
        escaped(s) == escaped_char(s[0]) + escaped(s.drop_first()),
{
    reveal_strlit("\\\\");
    reveal_strlit("\\'");
    assert("\\\\"@ =~= seq!['\\', '\\']);
    assert("\\'"@ =~= seq!['\\', '\'']);
    let one = seq![s[0]];
    assert(s =~= one + s.drop_first());
    lemma_replaced_splits(one, s.drop_first(), '\\', "\\\\"@);
    let once = text::replaced(one, '\\', "\\\\"@);
    lemma_replaced_splits(once, text::replaced(s.drop_first(), '\\', "\\\\"@), '\'', "\\'"@);
    assert(one.drop_last() =~= Seq::<char>::empty());
    reveal_with_fuel(crate::text::replaced, 3);
    if s[0] == '\\' {
        assert(once =~= seq!['\\', '\\']);
        assert(once.drop_last() =~= seq!['\\']);
        assert(once.drop_last().drop_last() =~= Seq::<char>::empty());
        assert(text::replaced(once, '\'', "\\'"@) =~= escaped_char(s[0]));
    } else {
        assert(once =~= one);
        assert(text::replaced(once, '\'', "\\'"@) =~= escaped_char(s[0]));
    }
}

/// What a literal stands for: a backslash gives the character behind it.
pub open spec fn unescaped(s: Seq<char>) -> Seq<char>
    decreases s.len(),
{
    if s.len() == 0 {
        Seq::empty()
    } else if s[0] == '\\' && s.len() > 1 {
        seq![s[1]] + unescaped(s.skip(2))
    } else {
        seq![s[0]] + unescaped(s.drop_first())
    }
}

/// Whether a literal would end inside of the text: at a quote that no backslash stands
/// before, or after a backslash that takes the closing quote away.
pub open spec fn ends_early(s: Seq<char>) -> bool
    decreases s.len(),
{
    if s.len() == 0 {
        false
    } else if s[0] == '\\' {
        s.len() == 1 || ends_early(s.skip(2))
    } else {
        s[0] == '\'' || ends_early(s.drop_first())
    }
}

/// A text that is escaped stands for itself inside of a literal, and the literal does
/// not end inside of it.
pub proof fn law_escaped_text_is_literal(s: Seq<char>)
    ensures
        unescaped(escaped(s)) == s,
        !ends_early(escaped(s)),
    decreases s.len(),
{
    if s.len() == 0 {
        assert(escaped(s) =~= Seq::<char>::empty());
        assert(unescaped(escaped(s)) =~= s);
    } else {
        lemma_escaped_first(s);
        let rest = s.drop_first();
        law_escaped_text_is_literal(rest);
        let e = escaped(s);
        assert(s =~= seq![s[0]] + rest);
        if s[0] == '\\' || s[0] == '\'' {
            assert(e[0] == '\\');
            assert(e[1] == s[0]);
            assert(e.skip(2) =~= escaped(rest));
        } else {
            assert(e[0] == s[0]);
            assert(e.drop_first() =~= escaped(rest));
        }
    }
}

/// The checks that a file's checks stand for.
pub open spec fn checks_of(checks: Seq<TomlCheck>) -> Seq<AssertionCheck> {
    checks.map_values(|c: TomlCheck| c.check())
}

/// The checks of an assertion file: the single one first, then the others; where
/// there is none, that the command ended with 0.
pub open spec fn all_checks(assertion: TomlAssertion) -> Seq<AssertionCheck> {
    let first: Seq<AssertionCheck> = match assertion.check {
        Some(c) => seq![c.check()],
        None => seq![],
    };
    let all = first + checks_of(assertion.checks@);
    if all.len() == 0 {
        seq![AssertionCheck::ExitCode { expected: 0 }]
    } else {
        all
    }
}

impl TomlAssertionConfig {
    /// The assertion that a file describes.
    pub open spec fn descriptor(self) -> AssertionView {
        AssertionView {
            id: self.assertion.id@,
            name: self.assertion.name@,
            description: self.assertion.description@,
            category: self.assertion.category@,
            checks: all_checks(self.assertion),
        }
    }

    /// The assertion that a file describes. It always has a check.
    pub fn into_descriptor(self) -> (r: AssertionDescriptor)
        ensures
            r@ == self.descriptor(),
            r.checks@.len() > 0,
            r.id == self.assertion.id,
            r.name == self.assertion.name,
            r.description == self.assertion.description,
            r.category == self.assertion.category,
    {
        let assertion = self.assertion;
        let mut checks: Vec<AssertionCheck> = Vec::new();
        match assertion.check {
            Some(c) => {
                checks.push(c.into_assertion_check());
            },
            None => {},
        }
        let ghost first = checks@;
        let ghost all = assertion.checks@;
        assert(checks_of(all.take(0)) =~= seq![]);
        for check in it: assertion.checks
            invariant
                it.seq() == all,
                checks@ == first + checks_of(all.take(it.index() as int)),
        {
            checks.push(check.into_assertion_check());
            proof {
                let i = it.index() as int;
                assert(checks_of(all.take(i + 1)) =~= checks_of(all.take(i)).push(check.check()));
                assert(checks@ =~= first + checks_of(all.take(i + 1)));
            }
        }
        assert(all.take(all.len() as int) =~= all);
        if checks.len() == 0 {
            checks.push(AssertionCheck::ExitCode { expected: 0 });
        }
        assert(checks@ =~= all_checks(self.assertion));
        AssertionDescriptor {
            id: assertion.id,
            name: assertion.name,
            description: assertion.description,
            category: assertion.category,
            checks,
        }
    }
}

/// What goes wrong with assertion files.
#[derive(Debug)]
pub enum AssertionParserError {
    ReadDir(String),
    TomlParse(String),
    NotFound(String),
}

impl AssertionParserError {
    /// The error in words.
    pub open spec fn text(self) -> Seq<char> {
        match self {
            AssertionParserError::ReadDir(e) => "Failed to read directory: "@ + e@,
            AssertionParserError::TomlParse(e) => "Failed to parse TOML: "@ + e@,
            AssertionParserError::NotFound(id) => "Assertion '"@ + id@ + "' not found"@,
        }
    }

    /// The error in words.
    pub fn message(&self) -> (r: String)
        ensures
            r@ == self.text(),
            *self matches AssertionParserError::ReadDir(e) ==> r@ == "Failed to read directory: "@ + e@,
            *self matches AssertionParserError::TomlParse(e) ==> r@ == "Failed to parse TOML: "@ + e@,
            *self matches AssertionParserError::NotFound(id) ==> r@ == "Assertion '"@ + id@ + "' not found"@,
    {
        match self {
            AssertionParserError::ReadDir(e) => concat2("Failed to read directory: ", e.as_str()),
            AssertionParserError::TomlParse(e) => concat2("Failed to parse TOML: ", e.as_str()),
            AssertionParserError::NotFound(id) => concat3(
                "Assertion '",
                id.as_str(),
                "' not found",
            ),
        }
    }
}

/// How many of the files could be read.
pub open spec fn readable(files: Seq<Option<TomlAssertionConfig>>) -> nat
    decreases files.len(),
{
    if files.len() == 0 {
        0
    } else {
        readable(files.drop_last()) + (if files.last() is Some {
            1nat
        } else {
            0nat
        })
    }
}

/// The assertions after files were gone through: a later one replaces an earlier one
/// of the same identifier.
pub open spec fn loaded_over(
    start: Map<Seq<char>, AssertionView>,
    files: Seq<Option<TomlAssertionConfig>>,
) -> Map<Seq<char>, AssertionView>
    decreases files.len(),
{
    if files.len() == 0 {
        start
    } else {
        let before = loaded_over(start, files.drop_last());
        match files.last() {
            Some(f) => before.insert(f.assertion.id@, f.descriptor()),
            None => before,
        }
    }
}

/// The assertions that are loaded.
pub struct AssertionRegistry {
    assertions: Assoc<AssertionDescriptor>,
}

impl AssertionRegistry {
    pub closed spec fn wf(self) -> bool {
        self.assertions.wf()
    }

    /// The assertions by identifier.
    pub closed spec fn view(self) -> Map<Seq<char>, AssertionView> {
        Map::new(
            |k: Seq<char>| self.assertions@.contains_key(k),
            |k: Seq<char>| self.assertions@[k]@,
        )
    }

    /// The identifiers in the order in which the assertions are listed.
    pub closed spec fn ids(self) -> Seq<Seq<char>> {
        self.assertions.rows().map_values(|e: Entry<AssertionDescriptor>| e.key@)
    }

    /// Every assertion is listed once.
    pub proof fn law_each_assertion_is_listed_once(self)
        requires
            self.wf(),
        ensures
            self.ids().no_duplicates(),
            forall|k: Seq<char>| #[trigger] self@.contains_key(k) <==> self.ids().contains(k),
    {
        self.assertions.lemma_rows();
        assert forall|k: Seq<char>| #[trigger] self@.contains_key(k) implies self.ids().contains(
            k,
        ) by {
            let i = choose|i: int|
                0 <= i < self.assertions.rows().len() && (
                #[trigger] self.assertions.rows()[i]).key@ == k;
            assert(self.ids()[i] == k);
        }
        assert forall|k: Seq<char>| self.ids().contains(k) implies #[trigger] self@.contains_key(
            k,
        ) by {
            let i = choose|i: int| 0 <= i < self.ids().len() && self.ids()[i] == k;
            assert(self.assertions@.contains_key(self.assertions.rows()[i].key@));
        }
    }

    /// A registry without assertions.
    pub fn new() -> (r: Self)
        ensures
            r.wf(),
            r@ == Map::<Seq<char>, AssertionView>::empty(),
    {
        let r = AssertionRegistry { assertions: Assoc::new() };
        assert(r@ =~= Map::<Seq<char>, AssertionView>::empty());
        r
    }

    /// Keeps the assertions of the files of a directory. Those that could not be read
    /// are passed over. Returns how many were read.
    pub fn load_from_dir(&mut self, files: Vec<Option<TomlAssertionConfig>>) -> (r: usize)
        requires
            old(self).wf(),
        ensures
            final(self).wf(),
            r == readable(files@),
            final(self)@ == loaded_over(old(self)@, files@),
            forall|i: int|
                0 <= i < files@.len() && (#[trigger] files@[i]) is Some && (forall|j: int|
                    i < j < files@.len() && (#[trigger] files@[j]) is Some
                        ==> files@[j]->0.assertion.id@ != files@[i]->0.assertion.id@) ==> {
                    let id = files@[i]->0.assertion.id@;
                    final(self)@.contains_key(id) && final(self)@[id] == files@[i]->0.descriptor()
                },
            forall|id: Seq<char>|
                (forall|j: int|
                    0 <= j < files@.len() && (#[trigger] files@[j]) is Some
                        ==> files@[j]->0.assertion.id@ != id) ==> (#[trigger] final(self)@.contains_key(id)
                    <==> old(self)@.contains_key(id)) && (old(self)@.contains_key(id)
                    ==> final(self)@[id] == old(self)@[id]),
    {
        let total: usize = files.len();
        let ghost all = files@;
        let mut loaded: usize = 0;
        assert(all.take(0) =~= seq![]);
        for file in it: files
            invariant
                it.seq() == all,
                total == all.len(),
                self.wf(),
                loaded <= it.index(),
                loaded == readable(all.take(it.index() as int)),
                self@ == loaded_over(old(self)@, all.take(it.index() as int)),
        {
            proof {
                let i = it.index() as int;
                assert(all.take(i + 1).drop_last() =~= all.take(i));
                assert(all.take(i + 1).last() == file);
            }
            match file {
                Some(config) => {
                    let ghost before = self@;
                    let descriptor = config.into_descriptor();
                    let _ = self.assertions.insert(descriptor.id.clone(), descriptor);
                    assert(self@ =~= before.insert(config.assertion.id@, config.descriptor()));
                    loaded = loaded + 1;
                },
                None => {},
            }
        }
        assert(all.take(all.len() as int) =~= all);
        proof {
            assert forall|i: int|
                0 <= i < all.len() && (#[trigger] all[i]) is Some && (forall|j: int|
                    i < j < all.len() && (#[trigger] all[j]) is Some
                        ==> all[j]->0.assertion.id@ != all[i]->0.assertion.id@) implies {
                let id = all[i]->0.assertion.id@;
                self@.contains_key(id) && self@[id] == all[i]->0.descriptor()
            } by {
                law_last_file_wins(old(self)@, all, i);
            }
            assert forall|id: Seq<char>|
                (forall|j: int|
                    0 <= j < all.len() && (#[trigger] all[j]) is Some ==> all[j]->0.assertion.id@
                        != id) implies (#[trigger] self@.contains_key(id) <==> old(
                self,
            )@.contains_key(id)) && (old(self)@.contains_key(id) ==> self@[id] == old(
                self,
            )@[id]) by {
                law_other_assertions_stay(old(self)@, all, id);
            }
        }
        loaded
    }

    /// The assertion of an identifier.
    pub fn get(&self, id: &str) -> (r: Option<&AssertionDescriptor>)
        requires
            self.wf(),
        ensures
            match r {
                Some(d) => self@.contains_key(id@) && self@[id@] == d@,
                None => !self@.contains_key(id@),
            },
    {
        self.assertions.get(id)
    }

    /// All assertions.
    pub fn list(&self) -> (r: Vec<AssertionDescriptor>)
        requires
            self.wf(),
        ensures
            r@.len() == self.ids().len(),
            forall|i: int| 0 <= i < r@.len() ==> (#[trigger] r@[i])@ == self@[self.ids()[i]],
    {
        let mut out: Vec<AssertionDescriptor> = Vec::new();
        let mut i: usize = 0;
        proof {
            self.assertions.lemma_rows();
        }
        while i < self.assertions.len()
            invariant
                self.wf(),
                i <= self.assertions.rows().len(),
                out@.len() == i,
                forall|j: int|
                    0 <= j < i ==> (#[trigger] out@[j])@ == self.assertions.rows()[j].value@,
            decreases self.assertions.rows().len() - i,
        {
            out.push(self.assertions.value_at(i).duplicate());
            i = i + 1;
        }
        assert forall|j: int| 0 <= j < out@.len() implies (#[trigger] out@[j])@
            == self@[self.ids()[j]] by {
            assert(self.ids()[j] == self.assertions.rows()[j].key@);
        }
        out
    }

    /// The number of assertions.
    pub fn len(&self) -> (r: usize)
        ensures
            r == self.ids().len(),
    {
        self.assertions.len()
    }

    /// Whether there is no assertion.
    pub fn is_empty(&self) -> (r: bool)
        ensures
            r == (self.ids().len() == 0),
    {
        self.assertions.len() == 0
    }
}

impl Default for AssertionRegistry {
    fn default() -> (r: Self)
        ensures
            r.wf(),
            r@ == Map::<Seq<char>, AssertionView>::empty(),
    {
        Self::new()
    }
}

/// Every loaded assertion has a check.
pub proof fn law_loaded_assertions_have_checks(
    start: Map<Seq<char>, AssertionView>,
    files: Seq<Option<TomlAssertionConfig>>,
    id: Seq<char>,
)
    requires
        forall|k: Seq<char>| #[trigger] start.contains_key(k) ==> start[k].checks.len() > 0,
        loaded_over(start, files).contains_key(id),
    ensures
        loaded_over(start, files)[id].checks.len() > 0,
    decreases files.len(),
{
    if files.len() > 0 {
        let before = loaded_over(start, files.drop_last());
        if before.contains_key(id) {
            law_loaded_assertions_have_checks(start, files.drop_last(), id);
        }
    }
}

/// Of several files with one identifier the last is kept, whatever the registry held under it
/// before.
pub proof fn law_last_file_wins(
    start: Map<Seq<char>, AssertionView>,
    files: Seq<Option<TomlAssertionConfig>>,
    i: int,
)
    requires
        0 <= i < files.len(),
        files[i] is Some,
        forall|j: int|
            i < j < files.len() && (#[trigger] files[j]) is Some ==> files[j]->0.assertion.id@
                != files[i]->0.assertion.id@,
    ensures
        ({
            let written = files[i]->0.assertion;
            let kept = loaded_over(start, files)[written.id@];
            &&& loaded_over(start, files).contains_key(written.id@)
            &&& kept == files[i]->0.descriptor()
            &&& kept.id == written.id@
            &&& kept.name == written.name@
            &&& kept.description == written.description@
            &&& kept.category == written.category@
        }),
    decreases files.len(),
{
    if i < files.len() - 1 {
        let f = files.drop_last();
        assert forall|j: int| i < j < f.len() && (#[trigger] f[j]) is Some implies f[j]->0.assertion.id@
            != f[i]->0.assertion.id@ by {
            assert(f[j] == files[j]);
        }
        law_last_file_wins(start, f, i);
        assert(files.last() == files[files.len() - 1]);
    }
}

/// Files change nothing of an assertion that none of them has.
pub proof fn law_other_assertions_stay(
    start: Map<Seq<char>, AssertionView>,
    files: Seq<Option<TomlAssertionConfig>>,
    id: Seq<char>,
)
    requires
        forall|j: int|
            0 <= j < files.len() && (#[trigger] files[j]) is Some ==> files[j]->0.assertion.id@
                != id,
    ensures
        loaded_over(start, files).contains_key(id) == start.contains_key(id),
        start.contains_key(id) ==> loaded_over(start, files)[id] == start[id],
    decreases files.len(),
{
    if files.len() > 0 {
        let f = files.drop_last();
        assert forall|j: int| 0 <= j < f.len() && (#[trigger] f[j]) is Some implies f[j]->0.assertion.id@
            != id by {
            assert(f[j] == files[j]);
        }
        law_other_assertions_stay(start, f, id);
        assert(files.last() == files[files.len() - 1]);
    }
}

/// The files that are counted are those that could be read.
pub proof fn law_readable_files_are_counted(files: Seq<Option<TomlAssertionConfig>>)
    ensures
        readable(files) == files.filter(|f: Option<TomlAssertionConfig>| f is Some).len(),
    decreases files.len(),
{
    reveal(Seq::filter);
    if files.len() > 0 {
        law_readable_files_are_counted(files.drop_last());
    }
}

/// The checks of an assertion are the single one of its file, where there is one, and behind
/// it the listed ones in their order. Only where a file has neither does it stand for the
/// check that the command ended with 0.
pub proof fn law_checks_come_from_the_file(assertion: TomlAssertion)
    ensures
        ({
            let all = all_checks(assertion);
            let first: int = if assertion.check is Some {
                1
            } else {
                0
            };
            &&& first + assertion.checks@.len() > 0 ==> {
                &&& all.len() == first + assertion.checks@.len()
                &&& assertion.check is Some ==> all[0].written() == assertion.check->0
                &&& forall|i: int|
                    0 <= i < assertion.checks@.len() ==> all[first + i].written()
                        == #[trigger] assertion.checks@[i]
            }
            &&& first + assertion.checks@.len() == 0 ==> all.len() == 1 && all[0] == (
            AssertionCheck::ExitCode { expected: 0 })
        }),
{
    let all = all_checks(assertion);
    let first: int = if assertion.check is Some {
        1
    } else {
        0
    };
    assert forall|i: int| 0 <= i < assertion.checks@.len() implies all[first + i].written()
        == #[trigger] assertion.checks@[i] by {
        assert(all[first + i] == checks_of(assertion.checks@)[i]);
    }
}

} // verus!
