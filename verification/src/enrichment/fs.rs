//! The commands by which enrichers read files inside of a sandbox.
use vstd::prelude::*;

use crate::domain::{CommandResult, CommandSpec};
use crate::text;
use crate::text::{
    chars_of, concat3, concat4, concat5, contains, from_utf8_lossy, lines, replace_char,
    slice_string, starts_with, trim_end_matches,
};

verus! {

/// What goes wrong when files are read.
#[derive(Debug)]
pub enum EnrichmentError {
    FileSystem(String),
    Recorder(String),
}

/// Whether `char::is_alphanumeric` holds of a character: whether Unicode counts it
/// among the letters or the numbers.
pub uninterp spec fn alphanumeric(c: char) -> bool;

/// `char::is_alphanumeric`.
#[verifier::external_body]
fn char_is_alphanumeric(c: char) -> (r: bool)
    ensures
        r == alphanumeric(c),
{
    c.is_alphanumeric()
}

/// Whether a character stands for more than itself in a shell.
pub open spec fn dangerous(c: char) -> bool {
    c == ';' || c == '|' || c == '$' || c == '`' || c == '\n' || c == '\r' || c == '\x00'
}

/// Whether a character is a letter or a digit.
pub open spec fn letter_or_digit(c: char) -> bool {
    if (c as u32) < 128 {
        'a' <= c <= 'z' || 'A' <= c <= 'Z' || '0' <= c <= '9'
    } else {
        alphanumeric(c)
    }
}

fn is_letter_or_digit(c: char) -> (r: bool)
    ensures
        r == letter_or_digit(c),
        (c as u32) < 128 ==> (r <==> 'a' <= c <= 'z' || 'A' <= c <= 'Z' || '0' <= c <= '9'),
        (c as u32) >= 128 ==> r == alphanumeric(c),
{
    if (c as u32) < 128 {
        ('a' <= c && c <= 'z') || ('A' <= c && c <= 'Z') || ('0' <= c && c <= '9')
    } else {
        char_is_alphanumeric(c)
    }
}

/// Whether a character may stand in a glob pattern.
pub open spec fn allowed(c: char) -> bool {
    letter_or_digit(c) || c == '-' || c == '_' || c == '.' || c == '*' || c == '/' || c == ' '
}

/// A command that is run as it stands.
pub open spec fn is_plain_command(c: CommandSpec, text: Seq<char>) -> bool {
    &&& c.command@ == text
    &&& c.args@.len() == 0
    &&& c.working_dir is None
    &&& c.env_vars@.len() == 0
    &&& c.timeout_ms is None
}

fn plain_command(command: String) -> (r: CommandSpec)
    ensures
        is_plain_command(r, command@),
        r.command == command,
        r.args@.len() == 0 && r.env_vars@.len() == 0,
        r.working_dir is None && r.timeout_ms is None,
{
    CommandSpec {
        command,
        args: Vec::new(),
        working_dir: None,
        env_vars: Vec::new(),
        timeout_ms: None,
    }
}

/// A text without the pairs of stars that it holds, taken from the left.
pub open spec fn without_double_stars(s: Seq<char>) -> Seq<char>
    decreases s.len(),
{
    if s.len() == 0 {
        Seq::empty()
    } else if s.len() >= 2 && s[0] == '*' && s[1] == '*' {
        without_double_stars(s.skip(2))
    } else {
        seq![s[0]] + without_double_stars(s.skip(1))
    }
}

fn remove_double_stars(s: &str) -> (r: String)
    ensures
        r@ == without_double_stars(s@),
{
    let cs = chars_of(s);
    let mut out = String::new();
    let mut i: usize = 0;
    assert(cs@.skip(0) =~= cs@);
    assert(Seq::<char>::empty() + without_double_stars(cs@) =~= without_double_stars(cs@));
    while i < cs.len()
        invariant
            i <= cs@.len(),
            out@ + without_double_stars(cs@.skip(i as int)) == without_double_stars(cs@),
        decreases cs@.len() - i,
    {
        let ghost rest = cs@.skip(i as int);
        if cs.len() - i >= 2 && cs[i] == '*' && cs[i + 1] == '*' {
            assert(rest.skip(2) =~= cs@.skip(i + 2));
            i = i + 2;
        } else {
            let ghost before = out@;
            out.push(cs[i]);
            proof {
                assert(rest.skip(1) =~= cs@.skip(i + 1));
                assert(out@ + without_double_stars(cs@.skip(i + 1)) =~= before + (seq![rest[0]]
                    + without_double_stars(rest.skip(1))));
            }
            i = i + 1;
        }
    }
    assert(cs@.skip(i as int) =~= Seq::<char>::empty());
    assert(out@ + without_double_stars(cs@.skip(i as int)) =~= out@);
    out
}

/// The position of the last slash, or -1 where there is none.
pub open spec fn last_slash(s: Seq<char>) -> int
    decreases s.len(),
{
    if s.len() == 0 {
        -1
    } else if s.last() == '/' {
        s.len() - 1
    } else {
        last_slash(s.drop_last())
    }
}

proof fn lemma_last_slash(s: Seq<char>)
    ensures
        -1 <= last_slash(s) < s.len(),
        last_slash(s) >= 0 ==> s[last_slash(s)] == '/',
    decreases s.len(),
{
    if s.len() > 0 && s.last() != '/' {
        lemma_last_slash(s.drop_last());
    }
}

fn rfind_slash(cs: &Vec<char>) -> (r: Option<usize>)
    ensures
        match r {
            Some(i) => i < cs@.len() && last_slash(cs@) == i,
            None => last_slash(cs@) == -1,
        },
{
    let mut i: usize = cs.len();
    assert(cs@.take(i as int) =~= cs@);
    while i > 0
        invariant
            i <= cs@.len(),
            last_slash(cs@) == last_slash(cs@.take(i as int)),
        decreases i,
    {
        proof {
            assert(cs@.take(i as int).drop_last() =~= cs@.take(i - 1));
            assert(cs@.take(i as int).last() == cs@[i - 1]);
        }
        if cs[i - 1] == '/' {
            return Some(i - 1);
        }
        i = i - 1;
    }
    None
}

/// A pattern without a leading `**/`, which stands for the directory itself.
pub open spec fn working_pattern(pattern: Seq<char>) -> Seq<char> {
    if text::has_prefix(pattern, "**/"@) {
        pattern.skip(3)
    } else {
        pattern
    }
}

/// The directory part of a pattern.
pub open spec fn directory_part(pattern: Seq<char>) -> Seq<char> {
    let w = working_pattern(pattern);
    if last_slash(w) > 0 {
        w.take(last_slash(w))
    } else {
        "."@
    }
}

/// The name part of a pattern.
pub open spec fn name_part(pattern: Seq<char>) -> Seq<char> {
    let w = working_pattern(pattern);
    w.skip(last_slash(w) + 1)
}

/// The directory in which a pattern is looked for.
pub open spec fn search_directory(pattern: Seq<char>) -> Seq<char> {
    let d = text::trim_end_matches_of(without_double_stars(directory_part(pattern)), '/');
    if d.len() == 0 {
        "."@
    } else {
        d
    }
}

/// Whether a pattern could lead out of the directory: it is an absolute path, or its
/// directory goes up.
pub open spec fn leads_out(pattern: Seq<char>) -> bool {
    text::has_prefix(pattern, "/"@) || text::contains_text(search_directory(pattern), ".."@) || text::has_prefix(
        search_directory(pattern),
        "/"@,
    )
}

/// A text for a place between single quotes.
pub open spec fn quoted(s: Seq<char>) -> Seq<char> {
    text::replaced(s, '\'', "'\\''"@)
}

/// The command that looks for a pattern.
pub open spec fn find_text(pattern: Seq<char>) -> Seq<char> {
    "find "@ + quoted(search_directory(pattern)) + " -name '"@ + quoted(name_part(pattern))
        + "' 2>/dev/null"@
}

/// Reads files inside of a sandbox.
#[derive(Debug)]
pub struct SandboxFileSystem {
    pub sandbox_id: String,
}

impl SandboxFileSystem {
    /// Reads files inside of the given sandbox.
    pub fn new(sandbox_id: String) -> (r: Self)
        ensures
            r.sandbox_id == sandbox_id,
    {
        SandboxFileSystem { sandbox_id }
    }

    /// Whether a path holds a character that stands for more than itself in a shell.
    pub fn is_dangerous_path(path: &str) -> (r: bool)
        ensures
            r == exists|i: int| 0 <= i < path@.len() && dangerous(#[trigger] path@[i]),
            r <==> path@.contains(';') || path@.contains('|') || path@.contains('$')
                || path@.contains('`') || path@.contains('\n') || path@.contains('\r')
                || path@.contains('\x00'),
    {
        proof {
            assert forall|i: int| 0 <= i < path@.len() implies path@.contains(
                #[trigger] path@[i],
            ) by {}
        }
        let cs = chars_of(path);
        let mut i: usize = 0;
        while i < cs.len()
            invariant
                i <= cs@.len(),
                cs@ == path@,
                forall|j: int| 0 <= j < i ==> !dangerous(#[trigger] path@[j]),
            decreases cs@.len() - i,
        {
            let c = cs[i];
            if c == ';' || c == '|' || c == '$' || c == '`' || c == '\n' || c == '\r' || c
                == '\x00' {
                assert(dangerous(path@[i as int]));
                return true;
            }
            i = i + 1;
        }
        false
    }

    /// Whether a text may be a glob pattern: it is not empty, and holds nothing but
    /// letters, digits, `-`, `_`, `.`, `*`, `/` and spaces.
    pub fn is_valid_glob_pattern(pattern: &str) -> (r: bool)
        ensures
            r == (pattern@.len() > 0 && forall|i: int|
                0 <= i < pattern@.len() ==> allowed(#[trigger] pattern@[i])),
            r <==> pattern@.len() > 0 && forall|i: int|
                0 <= i < pattern@.len() ==> {
                    let c = #[trigger] pattern@[i];
                    ||| c == '-' || c == '_' || c == '.' || c == '*' || c == '/' || c == ' '
                    ||| (c as u32) < 128 && ('a' <= c <= 'z' || 'A' <= c <= 'Z' || '0' <= c <= '9')
                    ||| (c as u32) >= 128 && alphanumeric(c)
                },
    {
        let cs = chars_of(pattern);
        if cs.len() == 0 {
            return false;
        }
        let mut i: usize = 0;
        while i < cs.len()
            invariant
                i <= cs@.len(),
                cs@ == pattern@,
                forall|j: int| 0 <= j < i ==> allowed(#[trigger] pattern@[j]),
            decreases cs@.len() - i,
        {
            let c = cs[i];
            if !(is_letter_or_digit(c) || c == '-' || c == '_' || c == '.' || c == '*' || c
                == '/' || c == ' ') {
                assert(!allowed(pattern@[i as int]));
                return false;
            }
            i = i + 1;
        }
        true
    }

    /// The command that looks for a pattern, which must not lead out of the directory.
    pub fn glob_to_find_command(pattern: &str) -> (r: Result<CommandSpec, EnrichmentError>)
        ensures
            match r {
                Ok(c) => !leads_out(pattern@) && is_plain_command(c, find_text(pattern@)),
                Err(EnrichmentError::FileSystem(m)) => leads_out(pattern@) && m@
                    == "path traversal not allowed in glob pattern"@,
                Err(_) => false,
            },
    {
        let all = chars_of(pattern);
        proof {
            reveal_strlit("**/");
        }
        let w: Vec<char> = if starts_with(pattern, "**/") {
            chars_of(slice_string(all.as_slice(), 3, all.len()).as_str())
        } else {
            chars_of(pattern)
        };
        assert(w@ =~= working_pattern(pattern@));
        proof {
            lemma_last_slash(w@);
        }
        let slash = rfind_slash(&w);
        let dir: String = match slash {
            Some(i) => if i > 0 {
                slice_string(w.as_slice(), 0, i)
            } else {
                ".".to_owned()
            },
            None => ".".to_owned(),
        };
        assert(dir@ =~= directory_part(pattern@));
        let name: String = match slash {
            Some(i) => slice_string(w.as_slice(), i + 1, w.len()),
            None => slice_string(w.as_slice(), 0, w.len()),
        };
        assert(name@ =~= name_part(pattern@));
        let stripped = remove_double_stars(dir.as_str());
        let trimmed = trim_end_matches(stripped.as_str(), '/');
        let search: String = if chars_of(trimmed.as_str()).len() == 0 {
            ".".to_owned()
        } else {
            trimmed
        };
        if starts_with(pattern, "/") || contains(search.as_str(), "..") || starts_with(
            search.as_str(),
            "/",
        ) {
            return Err(
                EnrichmentError::FileSystem(
                    "path traversal not allowed in glob pattern".to_owned(),
                ),
            );
        }
        let escaped_dir = replace_char(search.as_str(), '\'', "'\\''");
        let escaped_name = replace_char(name.as_str(), '\'', "'\\''");
        Ok(
            plain_command(
                concat5(
                    "find ",
                    escaped_dir.as_str(),
                    " -name '",
                    escaped_name.as_str(),
                    "' 2>/dev/null",
                ),
            ),
        )
    }

    /// The command that reads a file. A dangerous path is refused.
    pub fn read_command(path: &str) -> (r: Result<CommandSpec, EnrichmentError>)
        ensures
            match r {
                Ok(c) => {
                    &&& forall|i: int| 0 <= i < path@.len() ==> !dangerous(#[trigger] path@[i])
                    &&& is_plain_command(c, "cat '"@ + quoted(path@) + "'"@)
                },
                Err(EnrichmentError::FileSystem(m)) => {
                    &&& exists|i: int| 0 <= i < path@.len() && dangerous(#[trigger] path@[i])
                    &&& m@ == "unsafe path"@
                },
                Err(_) => false,
            },
    {
        if Self::is_dangerous_path(path) {
            return Err(EnrichmentError::FileSystem("unsafe path".to_owned()));
        }
        let escaped = replace_char(path, '\'', "'\\''");
        Ok(plain_command(concat3("cat '", escaped.as_str(), "'")))
    }

    /// The text of a file, from what became of the command that reads it.
    pub fn read_to_string(path: &str, outcome: Result<CommandResult, String>) -> (r: Result<
        String,
        EnrichmentError,
    >)
        ensures
            match outcome {
                Err(e) => r == Err::<String, EnrichmentError>(EnrichmentError::FileSystem(e)),
                Ok(result) => if result.exit_code == 0 {
                    r matches Ok(text) && text@ == text::utf8_lossy(result.stdout@)
                } else {
                    &&& r matches Err(EnrichmentError::FileSystem(m))
                    &&& m@ == "cat "@ + path@ + " failed: "@ + text::utf8_lossy(result.stderr@)
                },
            },
    {
        match outcome {
            Err(e) => Err(EnrichmentError::FileSystem(e)),
            Ok(result) => if result.exit_code != 0 {
                let stderr = from_utf8_lossy(result.stderr.as_slice());
                Err(
                    EnrichmentError::FileSystem(
                        concat4("cat ", path, " failed: ", stderr.as_str()),
                    ),
                )
            } else {
                Ok(from_utf8_lossy(result.stdout.as_slice()))
            },
        }
    }

    /// The command that looks for files. A text that is no glob pattern is refused.
    pub fn glob_command(pattern: &str) -> (r: Result<CommandSpec, EnrichmentError>)
        ensures
            match r {
                Ok(c) => {
                    &&& is_glob(pattern@)
                    &&& !leads_out(pattern@)
                    &&& is_plain_command(c, find_text(pattern@))
                },
                Err(EnrichmentError::FileSystem(m)) => if is_glob(pattern@) {
                    leads_out(pattern@) && m@ == "path traversal not allowed in glob pattern"@
                } else {
                    m@ == "invalid glob pattern"@
                },
                Err(_) => false,
            },
    {
        if !Self::is_valid_glob_pattern(pattern) {
            return Err(EnrichmentError::FileSystem("invalid glob pattern".to_owned()));
        }
        Self::glob_to_find_command(pattern)
    }

    /// The files that were found, from what became of the command that looks for them.
    /// There are none where it failed.
    pub fn glob(outcome: Result<CommandResult, String>) -> (r: Result<
        Vec<String>,
        EnrichmentError,
    >)
        ensures
            match outcome {
                Err(e) => r == Err::<Vec<String>, EnrichmentError>(EnrichmentError::FileSystem(e)),
                Ok(result) => {
                    &&& r matches Ok(paths)
                    &&& text::texts(paths@) == (if result.exit_code == 0 {
                        non_empty(text::lines_of(text::utf8_lossy(result.stdout@)))
                    } else {
                        Seq::empty()
                    })
                },
            },
    {
        match outcome {
            Err(e) => Err(EnrichmentError::FileSystem(e)),
            Ok(result) => {
                let mut paths: Vec<String> = Vec::new();
                assert(text::texts(paths@) =~= Seq::<Seq<char>>::empty());
                if result.exit_code != 0 {
                    return Ok(paths);
                }
                let all = lines(from_utf8_lossy(result.stdout.as_slice()).as_str());
                let ghost found = text::texts(all@);
                let mut i: usize = 0;
                assert(found.take(0) =~= seq![]);
                while i < all.len()
                    invariant
                        i <= all@.len(),
                        found == text::texts(all@),
                        text::texts(paths@) == non_empty(found.take(i as int)),
                    decreases all@.len() - i,
                {
                    proof {
                        assert(found.take(i + 1).drop_last() =~= found.take(i as int));
                        assert(found.take(i + 1).last() == found[i as int]);
                    }
                    if chars_of(all[i].as_str()).len() != 0 {
                        let ghost before = paths@;
                        paths.push(all[i].clone());
                        assert(text::texts(paths@) =~= text::texts(before).push(found[i as int]));
                    }
                    i = i + 1;
                }
                assert(found.take(i as int) =~= found);
                Ok(paths)
            },
        }
    }
}

/// Whether a text may be a glob pattern.
pub open spec fn is_glob(pattern: Seq<char>) -> bool {
    pattern.len() > 0 && forall|i: int| 0 <= i < pattern.len() ==> allowed(#[trigger] pattern[i])
}

/// The texts that are not empty.
pub open spec fn non_empty(all: Seq<Seq<char>>) -> Seq<Seq<char>>
    decreases all.len(),
{
    if all.len() == 0 {
        Seq::empty()
    } else if all.last().len() == 0 {
        non_empty(all.drop_last())
    } else {
        non_empty(all.drop_last()).push(all.last())
    }
}

proof fn lemma_nothing_to_quote(s: Seq<char>)
    requires
        forall|i: int| 0 <= i < s.len() ==> #[trigger] s[i] != '\'',
    ensures
        quoted(s) == s,
    decreases s.len(),
{
    if s.len() > 0 {
        let front = s.drop_last();
        assert forall|i: int| 0 <= i < front.len() implies #[trigger] front[i] != '\'' by {
            assert(s[i] != '\'');
        }
        lemma_nothing_to_quote(front);
        assert(s[s.len() - 1] != '\'');
        assert(quoted(s) =~= s);
    } else {
        assert(quoted(s) =~= s);
    }
}

proof fn lemma_stars_kept(s: Seq<char>)
    ensures
        forall|i: int|
            0 <= i < without_double_stars(s).len() ==> s.contains(
                #[trigger] without_double_stars(s)[i],
            ),
    decreases s.len(),
{
    if s.len() >= 2 && s[0] == '*' && s[1] == '*' {
        let rest = s.skip(2);
        lemma_stars_kept(rest);
        assert forall|i: int| 0 <= i < without_double_stars(s).len() implies s.contains(
            #[trigger] without_double_stars(s)[i],
        ) by {
            let c = without_double_stars(rest)[i];
            assert(rest.contains(c));
            let j = choose|j: int| 0 <= j < rest.len() && rest[j] == c;
            assert(s[j + 2] == c);
        }
    } else if s.len() > 0 {
        let rest = s.skip(1);
        lemma_stars_kept(rest);
        assert forall|i: int| 0 <= i < without_double_stars(s).len() implies s.contains(
            #[trigger] without_double_stars(s)[i],
        ) by {
            if i == 0 {
                assert(s[0] == without_double_stars(s)[0]);
            } else {
                let c = without_double_stars(rest)[i - 1];
                assert(rest.contains(c));
                let j = choose|j: int| 0 <= j < rest.len() && rest[j] == c;
                assert(s[j + 1] == c);
                assert(without_double_stars(s)[i] == c);
            }
        }
    }
}

proof fn lemma_trim_end_prefix(s: Seq<char>, c: char)
    ensures
        text::trim_end_matches_of(s, c).len() <= s.len(),
        text::trim_end_matches_of(s, c) == s.take(text::trim_end_matches_of(s, c).len() as int),
    decreases s.len(),
{
    if s.len() > 0 && s.last() == c {
        lemma_trim_end_prefix(s.drop_last(), c);
        let n = text::trim_end_matches_of(s, c).len() as int;
        assert(s.drop_last().take(n) =~= s.take(n));
    } else {
        assert(s.take(s.len() as int) =~= s);
    }
}

/// The command for a glob pattern looks only below the directory: its start holds no
/// `..` and is no absolute path. Of the directory and the name it holds nothing but
/// characters that a glob pattern may hold, none of which is dangerous or ends the
/// quotes.
pub proof fn law_glob_stays_inside(pattern: Seq<char>)
    requires
        is_glob(pattern),
        !leads_out(pattern),
    ensures
        find_text(pattern) == "find "@ + search_directory(pattern) + " -name '"@ + name_part(
            pattern,
        ) + "' 2>/dev/null"@,
        !text::contains_text(search_directory(pattern), ".."@),
        !text::has_prefix(search_directory(pattern), "/"@),
        forall|i: int|
            0 <= i < search_directory(pattern).len() ==> allowed(
                #[trigger] search_directory(pattern)[i],
            ),
        forall|i: int|
            0 <= i < name_part(pattern).len() ==> allowed(#[trigger] name_part(pattern)[i]),
{
    reveal_strlit("**/");
    reveal_strlit(".");
    let w = working_pattern(pattern);
    lemma_last_slash(w);
    assert forall|i: int| 0 <= i < w.len() implies allowed(#[trigger] w[i]) by {
        if text::has_prefix(pattern, "**/"@) {
            assert(w[i] == pattern[i + 3]);
        }
    }
    let name = name_part(pattern);
    assert forall|i: int| 0 <= i < name.len() implies allowed(#[trigger] name[i]) by {
        assert(name[i] == w[i + last_slash(w) + 1]);
    }
    let dir = directory_part(pattern);
    assert forall|i: int| 0 <= i < dir.len() implies allowed(#[trigger] dir[i]) by {
        if last_slash(w) > 0 {
            assert(dir[i] == w[i]);
        } else {
            assert(dir[i] == '.');
        }
    }
    let bare = without_double_stars(dir);
    lemma_stars_kept(dir);
    assert forall|i: int| 0 <= i < bare.len() implies allowed(#[trigger] bare[i]) by {
        assert(dir.contains(bare[i]));
        let j = choose|j: int| 0 <= j < dir.len() && dir[j] == bare[i];
        assert(allowed(dir[j]));
    }
    lemma_trim_end_prefix(bare, '/');
    let search = search_directory(pattern);
    assert forall|i: int| 0 <= i < search.len() implies allowed(#[trigger] search[i]) by {
        let d = text::trim_end_matches_of(bare, '/');
        if d.len() > 0 {
            assert(search[i] == bare[i]);
        } else {
            assert(search[i] == '.');
        }
    }
    assert forall|i: int| 0 <= i < search.len() implies #[trigger] search[i] != '\'' by {
        assert(allowed(search[i]));
    }
    assert forall|i: int| 0 <= i < name.len() implies #[trigger] name[i] != '\'' by {
        assert(allowed(name[i]));
    }
    lemma_nothing_to_quote(search);
    lemma_nothing_to_quote(name);
}

/// The paths that were found are the lines that are not empty, in their order.
pub proof fn law_empty_lines_are_dropped(all: Seq<Seq<char>>)
    ensures
        non_empty(all) == all.filter(|line: Seq<char>| line.len() > 0),
    decreases all.len(),
{
    reveal(Seq::filter);
    if all.len() > 0 {
        law_empty_lines_are_dropped(all.drop_last());
    }
}

/// Two stars in a row are taken out, wherever they come up from the left, and every other
/// character stays.
pub proof fn law_double_stars_are_taken_out(c: char, rest: Seq<char>)
    ensures
        without_double_stars(seq!['*', '*'] + rest) == without_double_stars(rest),
        c != '*' ==> without_double_stars(seq![c] + rest) == seq![c] + without_double_stars(rest),
        rest.len() == 0 || rest[0] != '*' ==> without_double_stars(seq!['*'] + rest) == seq!['*']
            + without_double_stars(rest),
        without_double_stars(Seq::empty()).len() == 0,
{
    assert((seq!['*', '*'] + rest).skip(2) =~= rest);
    assert((seq![c] + rest).skip(1) =~= rest);
    assert((seq!['*'] + rest).skip(1) =~= rest);
}

proof fn lemma_no_stars(s: Seq<char>)
    requires
        !s.contains('*'),
    ensures
        without_double_stars(s) == s,
    decreases s.len(),
{
    if s.len() > 0 {
        let rest = s.skip(1);
        assert(s.contains(s[0]));
        assert(!rest.contains('*')) by {
            if rest.contains('*') {
                let i = choose|i: int| 0 <= i < rest.len() && rest[i] == '*';
                assert(s[i + 1] == '*');
            }
        }
        lemma_no_stars(rest);
        assert(seq![s[0]] + rest =~= s);
    }
}

proof fn lemma_slash_before_name(dir: Seq<char>, name: Seq<char>)
    requires
        !name.contains('/'),
    ensures
        last_slash(dir + seq!['/'] + name) == dir.len(),
        last_slash(name) == -1,
    decreases name.len(),
{
    let all = dir + seq!['/'] + name;
    if name.len() == 0 {
        assert(all.last() == '/');
    } else {
        let front = name.drop_last();
        assert(name.contains(name[name.len() - 1]));
        assert(!front.contains('/')) by {
            if front.contains('/') {
                let i = choose|i: int| 0 <= i < front.len() && front[i] == '/';
                assert(name[i] == '/');
            }
        }
        lemma_slash_before_name(dir, front);
        assert(all.drop_last() =~= dir + seq!['/'] + front);
        assert(all.last() == name.last());
    }
}

/// A pattern is split at its last slash: the name is looked for in the directory before it.
/// A pattern without a slash is looked for right here, and so is one behind a leading `**/`.
/// A directory that goes up is refused.
pub proof fn law_pattern_is_split_at_its_last_slash(dir: Seq<char>, name: Seq<char>)
    requires
        dir.len() > 0,
        !dir.contains('*') && !dir.contains('\''),
        dir.last() != '/',
        !name.contains('/') && !name.contains('\''),
    ensures
        find_text(dir + seq!['/'] + name) == "find "@ + dir + " -name '"@ + name
            + "' 2>/dev/null"@,
        find_text(name) == "find "@ + "."@ + " -name '"@ + name + "' 2>/dev/null"@,
        find_text("**/"@ + name) == find_text(name),
        text::contains_text(dir, ".."@) ==> leads_out(dir + seq!['/'] + name),
        leads_out("/"@ + name),
        !leads_out(name),
{
    reveal_strlit("**/");
    reveal_strlit(".");
    reveal_strlit("..");
    reveal_strlit("/");
    let whole = dir + seq!['/'] + name;
    assert(dir.contains(dir[0]));
    assert(whole[0] == dir[0]);
    assert(!text::has_prefix(whole, "**/"@)) by {
        if text::has_prefix(whole, "**/"@) {
            assert(whole.take(3)[0] == '*');
        }
    }
    lemma_slash_before_name(dir, name);
    assert(whole.take(dir.len() as int) =~= dir);
    assert(whole.skip((dir.len() + 1) as int) =~= name);
    lemma_no_stars(dir);
    assert(text::trim_end_matches_of(dir, '/') == dir);
    assert forall|i: int| 0 <= i < dir.len() implies #[trigger] dir[i] != '\'' by {
        assert(dir.contains(dir[i]));
    }
    assert forall|i: int| 0 <= i < name.len() implies #[trigger] name[i] != '\'' by {
        assert(name.contains(name[i]));
    }
    lemma_nothing_to_quote(dir);
    lemma_nothing_to_quote(name);
    // The name alone.
    assert(!text::has_prefix(name, "**/"@)) by {
        if text::has_prefix(name, "**/"@) {
            assert(name.take(3)[2] == '/');
            assert(name[2] == '/');
            assert(name.contains('/'));
        }
    }
    let here = "."@;
    assert(!here.contains('*')) by {
        if here.contains('*') {
            let i = choose|i: int| 0 <= i < here.len() && here[i] == '*';
        }
    }
    lemma_no_stars(here);
    assert(here.last() == '.');
    assert(text::trim_end_matches_of(here, '/') == here);
    lemma_nothing_to_quote(here);
    assert(name.skip(0) =~= name);
    // The name behind two stars.
    let starred = "**/"@ + name;
    assert(starred.take(3) =~= "**/"@);
    assert(starred.skip(3) =~= name);
    // What leads out.
    assert(("/"@ + name).take(1) =~= "/"@);
    assert(!text::has_prefix(name, "/"@)) by {
        if text::has_prefix(name, "/"@) {
            assert(name.take(1)[0] == '/');
            assert(name.contains(name[0]));
        }
    }
    assert(search_directory(name) == here);
    assert(!text::contains_text(here, ".."@));
    assert(!text::has_prefix(here, "/"@)) by {
        if text::has_prefix(here, "/"@) {
            assert(here.take(1)[0] == '/');
        }
    }
}

/// In a quoted text each quote is closed, written for itself and opened again, and nothing
/// else is changed.
pub proof fn law_quotes_are_written_for_themselves(a: Seq<char>, b: Seq<char>)
    ensures
        quoted(a + seq!['\''] + b) == quoted(a) + seq!['\'', '\\', '\'', '\''] + quoted(b),
        !a.contains('\'') ==> quoted(a) == a,
{
    reveal_strlit("'\\''");
    assert("'\\''"@ =~= seq!['\'', '\\', '\'', '\'']);
    text::law_replacement_goes_character_by_character(a, b, '\'', "'\\''"@);
}

} // verus!
