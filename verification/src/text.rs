//! Text as a sequence of characters: the string operations that the other modules
//! build their messages, conditions and parsers from.
use vstd::prelude::*;

verus! {

/// `String::push` appends one character at the end.
pub assume_specification[ String::push ](s: &mut String, c: char)
    ensures
        final(s)@ == old(s)@.push(c),
;

/// The characters with the Unicode property `White_Space`.
pub open spec fn whitespace(c: char) -> bool {
    ||| '\u{9}' <= c <= '\u{d}'
    ||| c == ' '
    ||| c == '\u{85}'
    ||| c == '\u{a0}'
    ||| c == '\u{1680}'
    ||| '\u{2000}' <= c <= '\u{200a}'
    ||| c == '\u{2028}'
    ||| c == '\u{2029}'
    ||| c == '\u{202f}'
    ||| c == '\u{205f}'
    ||| c == '\u{3000}'
}

/// `char::is_whitespace`: whether the character has the Unicode property `White_Space`.
#[verifier::external_body]
fn char_is_whitespace(c: char) -> (r: bool)
    ensures
        r == whitespace(c),
{
    c.is_whitespace()
}

/// `str::to_lowercase` by the Unicode case mapping it applies.
pub uninterp spec fn lowercase(s: Seq<char>) -> Seq<char>;

/// `str::to_lowercase`: the lowercase equivalent of the text.
#[verifier::external_body]
pub(crate) fn to_lowercase(s: &str) -> (r: String)
    ensures
        r@ == lowercase(s@),
{
    s.to_lowercase()
}

/// `String::from_utf8_lossy`: the text that the bytes hold, with a replacement
/// character for each stretch that is not UTF-8.
pub uninterp spec fn utf8_lossy(bytes: Seq<u8>) -> Seq<char>;

/// `String::from_utf8_lossy`, as an owned string.
#[verifier::external_body]
pub(crate) fn from_utf8_lossy(bytes: &[u8]) -> (r: String)
    ensures
        r@ == utf8_lossy(bytes@),
{
    String::from_utf8_lossy(bytes).into_owned()
}

/// Equality of two texts.
pub fn str_eq(a: &str, b: &str) -> (r: bool)
    ensures
        r == (a@ == b@),
{
    let x: String = a.to_owned();
    let y: String = b.to_owned();
    x == y
}

/// The characters of a text.
pub fn chars_of(s: &str) -> (r: Vec<char>)
    ensures
        r@ == s@,
{
    let mut out: Vec<char> = Vec::new();
    for c in it: s.chars()
        invariant
            out@ == it.seq().take(it.index() as int),
            it.seq() == s@,
    {
        out.push(c);
    }
    out
}

/// The text made of the given characters.
pub fn string_of(cs: &[char]) -> (r: String)
    ensures
        r@ == cs@,
{
    let mut out = String::new();
    let mut i: usize = 0;
    while i < cs.len()
        invariant
            i <= cs@.len(),
            out@ == cs@.take(i as int),
        decreases cs@.len() - i,
    {
        out.push(cs[i]);
        i = i + 1;
    }
    assert(cs@.take(i as int) == cs@);
    out
}

/// The character of a decimal digit.
pub open spec fn digit_char(d: nat) -> char {
    (48 + d) as char
}

/// A natural number in decimal, without leading zeros.
pub open spec fn decimal(n: nat) -> Seq<char>
    decreases n,
{
    if n < 10 {
        seq![digit_char(n)]
    } else {
        decimal(n / 10).push(digit_char(n % 10))
    }
}

/// An integer in decimal, with a minus sign in front of a negative one.
pub open spec fn integer_text(i: int) -> Seq<char> {
    if i < 0 {
        seq!['-'] + decimal((-i) as nat)
    } else {
        decimal(i as nat)
    }
}

/// Appends a number in decimal.
pub fn push_decimal(out: &mut String, n: u64)
    ensures
        final(out)@ == old(out)@ + decimal(n as nat),
    decreases n,
{
    if n >= 10 {
        push_decimal(out, n / 10);
    }
    let d: u8 = (n % 10) as u8;
    out.push((48u8 + d) as char);
    assert(out@ =~= old(out)@ + decimal(n as nat));
}

/// A number in decimal.
pub fn decimal_string(n: u64) -> (r: String)
    ensures
        r@ == decimal(n as nat),
{
    let mut out = String::new();
    push_decimal(&mut out, n);
    assert(out@ =~= decimal(n as nat));
    out
}

/// A signed number in decimal.
pub fn integer_string(i: i64) -> (r: String)
    ensures
        r@ == integer_text(i as int),
        i >= 0 ==> r@ == decimal(i as nat),
        i < 0 ==> r@ == seq!['-'] + decimal((-i) as nat),
{
    let mut out = String::new();
    if i < 0 {
        out.push('-');
        let magnitude: u64 = (-(i as i128)) as u64;
        push_decimal(&mut out, magnitude);
    } else {
        push_decimal(&mut out, i as u64);
    }
    assert(out@ =~= integer_text(i as int));
    out
}

/// Two texts, one after the other.
pub fn concat2(a: &str, b: &str) -> (r: String)
    ensures
        r@ == a@ + b@,
{
    let mut out = a.to_owned();
    out.append(b);
    out
}

/// Three texts, one after the other.
pub fn concat3(a: &str, b: &str, c: &str) -> (r: String)
    ensures
        r@ == a@ + b@ + c@,
{
    let mut out = concat2(a, b);
    out.append(c);
    out
}

/// Four texts one behind the other.
pub fn concat4(a: &str, b: &str, c: &str, d: &str) -> (r: String)
    ensures
        r@ == a@ + b@ + c@ + d@,
{
    let mut r = concat3(a, b, c);
    r.append(d);
    r
}

/// Five texts, one after the other.
pub fn concat5(a: &str, b: &str, c: &str, d: &str, e: &str) -> (r: String)
    ensures
        r@ == a@ + b@ + c@ + d@ + e@,
{
    let mut out = concat3(a, b, c);
    out.append(d);
    out.append(e);
    out
}

/// Whether `s` starts with `p`.
pub open spec fn has_prefix(s: Seq<char>, p: Seq<char>) -> bool {
    p.len() <= s.len() && s.take(p.len() as int) == p
}

/// The text without the leading copies of `p`.
pub open spec fn trim_start_text_of(s: Seq<char>, p: Seq<char>) -> Seq<char>
    decreases s.len(),
{
    if p.len() > 0 && has_prefix(s, p) {
        trim_start_text_of(s.skip(p.len() as int), p)
    } else {
        s
    }
}

/// `str::trim_start_matches` with a text that is not empty.
pub fn trim_start_text(s: &str, p: &str) -> (r: String)
    requires
        p@.len() > 0,
    ensures
        r@ == trim_start_text_of(s@, p@),
{
    let cs = chars_of(s);
    let ps = chars_of(p);
    let mut i: usize = 0;
    assert(s@.skip(0) =~= s@);
    while ps.len() <= cs.len() - i && matches_at(cs.as_slice(), ps.as_slice(), i)
        invariant
            cs@ == s@,
            ps@ == p@,
            p@.len() > 0,
            i <= cs@.len(),
            trim_start_text_of(s@, p@) == trim_start_text_of(s@.skip(i as int), p@),
        decreases cs@.len() - i,
    {
        proof {
            let rest = s@.skip(i as int);
            assert(rest.take(p@.len() as int) =~= p@);
            assert(rest.skip(p@.len() as int) =~= s@.skip(i + p@.len()));
        }
        i = i + ps.len();
    }
    proof {
        let rest = s@.skip(i as int);
        if has_prefix(rest, p@) {
            assert(s@.subrange(i as int, i + p@.len()) =~= rest.take(p@.len() as int));
        }
        assert(rest =~= cs@.subrange(i as int, cs@.len() as int));
    }
    slice_string(cs.as_slice(), i, cs.len())
}

/// The text without the characters `c` at both ends.
pub open spec fn trim_matches_of(s: Seq<char>, c: char) -> Seq<char> {
    trim_end_matches_of(trim_start_matches_of(s, c), c)
}

/// `str::trim_matches` with a character.
pub fn trim_matches(s: &str, c: char) -> (r: String)
    ensures
        r@ == trim_matches_of(s@, c),
{
    let start = trim_start_matches(s, c);
    trim_end_matches(start.as_str(), c)
}

/// Whether `p` stands in `s` at position `i`.
pub open spec fn stands_at(s: Seq<char>, p: Seq<char>, i: int) -> bool {
    0 <= i && i + p.len() <= s.len() && s.subrange(i, i + p.len()) == p
}

/// Whether `p` stands somewhere in `s`.
pub open spec fn contains_text(s: Seq<char>, p: Seq<char>) -> bool {
    exists|i: int| stands_at(s, p, i)
}

/// Whether `p` stands in `s` at position `i`.
fn matches_at(s: &[char], p: &[char], i: usize) -> (r: bool)
    requires
        i + p@.len() <= s@.len(),
    ensures
        r == stands_at(s@, p@, i as int),
{
    let n: usize = s.len();
    let mut k: usize = 0;
    while k < p.len()
        invariant
            k <= p@.len(),
            i + p@.len() <= s@.len(),
            n == s@.len(),
            forall|j: int| 0 <= j < k ==> s@[i + j] == p@[j],
        decreases p@.len() - k,
    {
        if s[i + k] != p[k] {
            proof {
                assert(s@.subrange(i as int, i + p@.len())[k as int] != p@[k as int]);
            }
            return false;
        }
        k = k + 1;
    }
    assert(s@.subrange(i as int, i + p@.len()) =~= p@);
    true
}

/// `str::starts_with` on a text.
pub fn starts_with(s: &str, p: &str) -> (r: bool)
    ensures
        r == has_prefix(s@, p@),
{
    let cs = chars_of(s);
    let ps = chars_of(p);
    if ps.len() > cs.len() {
        return false;
    }
    assert(s@.subrange(0int, 0int + p@.len()) =~= s@.take(p@.len() as int));
    matches_at(cs.as_slice(), ps.as_slice(), 0)
}

/// `str::contains` on a text.
pub fn contains(s: &str, p: &str) -> (r: bool)
    ensures
        r == contains_text(s@, p@),
{
    let cs = chars_of(s);
    let ps = chars_of(p);
    if ps.len() > cs.len() {
        return false;
    }
    let last: usize = cs.len() - ps.len();
    let mut i: usize = 0;
    while i <= last
        invariant
            cs@ == s@,
            ps@ == p@,
            last == cs@.len() - ps@.len(),
            i <= last + 1,
            forall|j: int| 0 <= j < i ==> !stands_at(s@, p@, j),
        decreases last + 1 - i,
    {
        if matches_at(cs.as_slice(), ps.as_slice(), i) {
            return true;
        }
        if i == last {
            assert(forall|j: int| !stands_at(s@, p@, j));
            return false;
        }
        i = i + 1;
    }
    false
}

/// Whether the character stands in the text.
pub open spec fn has_char(s: Seq<char>, c: char) -> bool {
    s.contains(c)
}

/// `str::contains` on a character.
pub fn contains_char(s: &str, c: char) -> (r: bool)
    ensures
        r == has_char(s@, c),
        r <==> exists|i: int| 0 <= i < s@.len() && #[trigger] s@[i] == c,
{
    let cs = chars_of(s);
    let mut i: usize = 0;
    while i < cs.len()
        invariant
            i <= cs@.len(),
            cs@ == s@,
            forall|j: int| 0 <= j < i ==> s@[j] != c,
        decreases cs@.len() - i,
    {
        if cs[i] == c {
            assert(s@[i as int] == c);
            return true;
        }
        i = i + 1;
    }
    false
}

/// The text with each `c` replaced by `by`.
pub open spec fn replaced(s: Seq<char>, c: char, by: Seq<char>) -> Seq<char>
    decreases s.len(),
{
    if s.len() == 0 {
        seq![]
    } else {
        replaced(s.drop_last(), c, by) + (if s.last() == c {
            by
        } else {
            seq![s.last()]
        })
    }
}

/// `str::replace` of a character by a text.
pub fn replace_char(s: &str, c: char, by: &str) -> (r: String)
    ensures
        r@ == replaced(s@, c, by@),
{
    let cs = chars_of(s);
    let mut out = String::new();
    let mut i: usize = 0;
    assert(cs@.take(0) =~= seq![]);
    while i < cs.len()
        invariant
            i <= cs@.len(),
            out@ == replaced(cs@.take(i as int), c, by@),
        decreases cs@.len() - i,
    {
        proof {
            let t = cs@.take(i + 1);
            assert(t.drop_last() =~= cs@.take(i as int));
            assert(t.last() == cs@[i as int]);
        }
        if cs[i] == c {
            out.append(by);
        } else {
            out.push(cs[i]);
            assert(out@ =~= replaced(cs@.take(i as int), c, by@) + seq![cs@[i as int]]);
        }
        i = i + 1;
    }
    assert(cs@.take(i as int) =~= cs@);
    out
}

/// The position of the first `d`, or the length where there is none.
pub open spec fn first_position(s: Seq<char>, d: char) -> int
    decreases s.len(),
{
    if s.len() == 0 || s[0] == d {
        0
    } else {
        1 + first_position(s.drop_first(), d)
    }
}

/// Where the first `d` stands, told by what stands before it.
pub proof fn lemma_first_position(s: Seq<char>, d: char, i: int)
    requires
        0 <= i <= s.len(),
        forall|j: int| 0 <= j < i ==> s[j] != d,
        i == s.len() || s[i] == d,
    ensures
        first_position(s, d) == i,
    decreases s.len(),
{
    if i > 0 {
        let t = s.drop_first();
        assert forall|j: int| 0 <= j < i - 1 implies t[j] != d by {
            assert(t[j] == s[j + 1]);
        }
        lemma_first_position(t, d, i - 1);
    }
}

/// The first `d` at or behind `from`, or the length where there is none.
fn find_from(cs: &[char], d: char, from: usize) -> (r: usize)
    requires
        from <= cs@.len(),
    ensures
        from <= r <= cs@.len(),
        r - from == first_position(cs@.skip(from as int), d),
        r < cs@.len() ==> cs@[r as int] == d,
        forall|j: int| from <= j < r ==> cs@[j] != d,
{
    let mut i: usize = from;
    while i < cs.len() && cs[i] != d
        invariant
            from <= i <= cs@.len(),
            forall|j: int| from <= j < i ==> cs@[j] != d,
        decreases cs@.len() - i,
    {
        i = i + 1;
    }
    proof {
        let rest = cs@.skip(from as int);
        lemma_first_position(rest, d, i - from);
    }
    i
}

/// A part of the characters.
pub fn slice_string(cs: &[char], from: usize, to: usize) -> (r: String)
    requires
        from <= to <= cs@.len(),
    ensures
        r@ == cs@.subrange(from as int, to as int),
{
    let mut out = String::new();
    let mut i: usize = from;
    while i < to
        invariant
            from <= i <= to <= cs@.len(),
            out@ == cs@.subrange(from as int, i as int),
        decreases to - i,
    {
        out.push(cs[i]);
        i = i + 1;
        assert(out@ =~= cs@.subrange(from as int, i as int));
    }
    out
}

/// The pieces of a text between the separators, as `str::split` gives them.
pub open spec fn pieces(s: Seq<char>, d: char) -> Seq<Seq<char>>
    decreases s.len(),
    via pieces_decreases
{
    let i = first_position(s, d);
    if i >= s.len() {
        seq![s]
    } else {
        seq![s.take(i)] + pieces(s.skip(i + 1), d)
    }
}

#[via_fn]
proof fn pieces_decreases(s: Seq<char>, d: char) {
    lemma_position_bounds(s, d);
}

proof fn lemma_position_bounds(s: Seq<char>, d: char)
    ensures
        0 <= first_position(s, d) <= s.len(),
    decreases s.len(),
{
    if s.len() > 0 && s[0] != d {
        lemma_position_bounds(s.drop_first(), d);
    }
}

/// The texts that a list of strings holds.
pub open spec fn texts(v: Seq<String>) -> Seq<Seq<char>> {
    v.map_values(|s: String| s@)
}

/// The texts of a list with one string more.
pub proof fn lemma_texts_push(v: Seq<String>, s: String)
    ensures
        texts(v.push(s)) == texts(v).push(s@),
{
    assert(texts(v.push(s)) =~= texts(v).push(s@));
}

/// `str::split` at a character.
pub fn split_on(s: &str, d: char) -> (r: Vec<String>)
    ensures
        texts(r@) == pieces(s@, d),
{
    let cs = chars_of(s);
    let mut out: Vec<String> = Vec::new();
    let mut from: usize = 0;
    assert(texts(out@) + pieces(cs@.skip(0), d) =~= pieces(s@, d)) by {
        assert(cs@.skip(0) =~= s@);
    }
    loop
        invariant
            from <= cs@.len(),
            texts(out@) + pieces(cs@.skip(from as int), d) == pieces(s@, d),
        decreases cs@.len() - from,
    {
        let at = find_from(cs.as_slice(), d, from);
        let piece = slice_string(cs.as_slice(), from, at);
        let ghost rest = cs@.skip(from as int);
        proof {
            lemma_texts_push(out@, piece);
            assert(rest.take(at - from) =~= cs@.subrange(from as int, at as int));
        }
        out.push(piece);
        if at >= cs.len() {
            assert(rest.take(at - from) =~= rest);
            assert(texts(out@) =~= pieces(s@, d));
            return out;
        }
        proof {
            assert(rest.skip(at - from + 1) =~= cs@.skip(at + 1));
            assert(texts(out@) + pieces(cs@.skip(at + 1), d) =~= pieces(s@, d));
        }
        from = at + 1;
    }
}

/// A line without the carriage return that ends it.
pub open spec fn without_cr(line: Seq<char>) -> Seq<char> {
    if line.len() > 0 && line.last() == '\r' {
        line.drop_last()
    } else {
        line
    }
}

/// The lines of a text, as `str::lines` gives them: each ends in a line feed, with
/// or without a carriage return in front of it; the last one may end with the text.
pub open spec fn lines_of(s: Seq<char>) -> Seq<Seq<char>>
    decreases s.len(),
    via lines_decreases
{
    let i = first_position(s, '\n');
    if s.len() == 0 {
        seq![]
    } else if i >= s.len() {
        seq![s]
    } else {
        seq![without_cr(s.take(i))] + lines_of(s.skip(i + 1))
    }
}

#[via_fn]
proof fn lines_decreases(s: Seq<char>) {
    lemma_position_bounds(s, '\n');
}

/// `str::lines`.
pub fn lines(s: &str) -> (r: Vec<String>)
    ensures
        texts(r@) == lines_of(s@),
{
    let cs = chars_of(s);
    let mut out: Vec<String> = Vec::new();
    let mut from: usize = 0;
    assert(texts(out@) + lines_of(cs@.skip(0)) =~= lines_of(s@)) by {
        assert(cs@.skip(0) =~= s@);
    }
    while from < cs.len()
        invariant
            from <= cs@.len(),
            texts(out@) + lines_of(cs@.skip(from as int)) == lines_of(s@),
        decreases cs@.len() - from,
    {
        let at = find_from(cs.as_slice(), '\n', from);
        let ghost rest = cs@.skip(from as int);
        let ghost raw = rest.take(at - from);
        assert(raw =~= cs@.subrange(from as int, at as int));
        if at >= cs.len() {
            let line = slice_string(cs.as_slice(), from, at);
            proof {
                lemma_texts_push(out@, line);
                assert(raw =~= rest);
            }
            out.push(line);
            assert(texts(out@) =~= lines_of(s@));
            return out;
        }
        let mut to: usize = at;
        if at > from && cs[at - 1] == '\r' {
            to = at - 1;
        }
        let line = slice_string(cs.as_slice(), from, to);
        proof {
            assert(line@ =~= without_cr(raw));
            lemma_texts_push(out@, line);
            assert(rest.skip(at - from + 1) =~= cs@.skip(at + 1));
        }
        out.push(line);
        assert(texts(out@) + lines_of(cs@.skip(at + 1)) =~= lines_of(s@));
        from = at + 1;
    }
    assert(texts(out@) =~= lines_of(s@));
    out
}

/// How many characters at the start are not white space.
pub open spec fn leading_word(s: Seq<char>) -> int
    decreases s.len(),
{
    if s.len() == 0 || whitespace(s[0]) {
        0
    } else {
        1 + leading_word(s.drop_first())
    }
}

/// A text without the white space that it starts with.
pub open spec fn trim_start_of(s: Seq<char>) -> Seq<char>
    decreases s.len(),
{
    if s.len() == 0 || !whitespace(s[0]) {
        s
    } else {
        trim_start_of(s.drop_first())
    }
}

/// A text without the white space that it ends with.
pub open spec fn trim_end_of(s: Seq<char>) -> Seq<char>
    decreases s.len(),
{
    if s.len() == 0 || !whitespace(s.last()) {
        s
    } else {
        trim_end_of(s.drop_last())
    }
}

/// A text without the white space around it, as `str::trim` gives it.
pub open spec fn trimmed(s: Seq<char>) -> Seq<char> {
    trim_end_of(trim_start_of(s))
}

/// `str::trim`.
pub fn trim(s: &str) -> (r: String)
    ensures
        r@ == trimmed(s@),
{
    let cs = chars_of(s);
    let mut from: usize = 0;
    let mut to: usize = cs.len();
    assert(cs@.skip(0) =~= s@);
    while from < cs.len() && char_is_whitespace(cs[from])
        invariant
            from <= cs@.len(),
            trim_start_of(cs@.skip(from as int)) == trim_start_of(s@),
        decreases cs@.len() - from,
    {
        assert(cs@.skip(from as int).drop_first() =~= cs@.skip(from + 1));
        from = from + 1;
    }
    let ghost head = cs@.skip(from as int);
    assert(head == trim_start_of(s@));
    assert(cs@.subrange(from as int, to as int) =~= head);
    while from < to && char_is_whitespace(cs[to - 1])
        invariant
            from <= to <= cs@.len(),
            head == cs@.skip(from as int),
            trim_end_of(cs@.subrange(from as int, to as int)) == trim_end_of(head),
        decreases to,
    {
        assert(cs@.subrange(from as int, to as int).drop_last() =~= cs@.subrange(from as int, to - 1));
        to = to - 1;
    }
    slice_string(cs.as_slice(), from, to)
}

/// The words of a text, as `str::split_whitespace` gives them: the longest stretches
/// without white space.
pub open spec fn words_of(s: Seq<char>) -> Seq<Seq<char>>
    decreases s.len(),
    via words_decreases
{
    let t = trim_start_of(s);
    let n = leading_word(t);
    if t.len() == 0 {
        seq![]
    } else {
        seq![t.take(n)] + words_of(t.skip(n))
    }
}

#[via_fn]
proof fn words_decreases(s: Seq<char>) {
    let t = trim_start_of(s);
    lemma_trim_start(s);
    lemma_leading_word(t);
}

proof fn lemma_trim_start(s: Seq<char>)
    ensures
        trim_start_of(s).len() <= s.len(),
        trim_start_of(s).len() > 0 ==> !whitespace(trim_start_of(s)[0]),
    decreases s.len(),
{
    if s.len() > 0 && whitespace(s[0]) {
        lemma_trim_start(s.drop_first());
    }
}

proof fn lemma_leading_word(s: Seq<char>)
    ensures
        0 <= leading_word(s) <= s.len(),
        s.len() > 0 && !whitespace(s[0]) ==> leading_word(s) > 0,
    decreases s.len(),
{
    if s.len() > 0 && !whitespace(s[0]) {
        lemma_leading_word(s.drop_first());
    }
}

/// `str::split_whitespace`.
pub fn words(s: &str) -> (r: Vec<String>)
    ensures
        texts(r@) == words_of(s@),
{
    let cs = chars_of(s);
    let mut out: Vec<String> = Vec::new();
    let mut from: usize = 0;
    assert(texts(out@) + words_of(cs@.skip(0)) =~= words_of(s@)) by {
        assert(cs@.skip(0) =~= s@);
    }
    while from < cs.len()
        invariant
            from <= cs@.len(),
            texts(out@) + words_of(cs@.skip(from as int)) == words_of(s@),
        decreases cs@.len() - from,
    {
        let ghost rest = cs@.skip(from as int);
        let mut start: usize = from;
        while start < cs.len() && char_is_whitespace(cs[start])
            invariant
                from <= start <= cs@.len(),
                trim_start_of(cs@.skip(start as int)) == trim_start_of(rest),
            decreases cs@.len() - start,
        {
            assert(cs@.skip(start as int).drop_first() =~= cs@.skip(start + 1));
            start = start + 1;
        }
        let ghost t = cs@.skip(start as int);
        assert(t == trim_start_of(rest));
        if start == cs.len() {
            assert(texts(out@) =~= words_of(s@));
            return out;
        }
        let mut end: usize = start;
        while end < cs.len() && !char_is_whitespace(cs[end])
            invariant
                start <= end <= cs@.len(),
                t == cs@.skip(start as int),
                leading_word(t) == (end - start) + leading_word(cs@.skip(end as int)),
            decreases cs@.len() - end,
        {
            assert(cs@.skip(end as int).drop_first() =~= cs@.skip(end + 1));
            end = end + 1;
        }
        let word = slice_string(cs.as_slice(), start, end);
        proof {
            lemma_leading_word(t);
            assert(t.take(end - start) =~= word@);
            assert(t.skip(end - start) =~= cs@.skip(end as int));
            lemma_texts_push(out@, word);
        }
        out.push(word);
        assert(texts(out@) + words_of(cs@.skip(end as int)) =~= words_of(s@));
        from = end;
    }
    assert(cs@.skip(from as int) =~= seq![]);
    assert(texts(out@) =~= words_of(s@));
    out
}

/// A text without the copies of `c` that it starts with.
pub open spec fn trim_start_matches_of(s: Seq<char>, c: char) -> Seq<char>
    decreases s.len(),
{
    if s.len() == 0 || s[0] != c {
        s
    } else {
        trim_start_matches_of(s.drop_first(), c)
    }
}

/// `str::trim_start_matches` of a character.
pub fn trim_start_matches(s: &str, c: char) -> (r: String)
    ensures
        r@ == trim_start_matches_of(s@, c),
{
    let cs = chars_of(s);
    let mut from: usize = 0;
    assert(cs@.skip(0) =~= s@);
    while from < cs.len() && cs[from] == c
        invariant
            from <= cs@.len(),
            trim_start_matches_of(cs@.skip(from as int), c) == trim_start_matches_of(s@, c),
        decreases cs@.len() - from,
    {
        assert(cs@.skip(from as int).drop_first() =~= cs@.skip(from + 1));
        from = from + 1;
    }
    assert(cs@.subrange(from as int, cs@.len() as int) =~= cs@.skip(from as int));
    slice_string(cs.as_slice(), from, cs.len())
}

/// A text without the copies of `c` that it ends with.
pub open spec fn trim_end_matches_of(s: Seq<char>, c: char) -> Seq<char>
    decreases s.len(),
{
    if s.len() == 0 || s.last() != c {
        s
    } else {
        trim_end_matches_of(s.drop_last(), c)
    }
}

/// `str::trim_end_matches` of a character.
pub fn trim_end_matches(s: &str, c: char) -> (r: String)
    ensures
        r@ == trim_end_matches_of(s@, c),
{
    let cs = chars_of(s);
    let mut to: usize = cs.len();
    assert(cs@.take(to as int) =~= s@);
    while to > 0 && cs[to - 1] == c
        invariant
            to <= cs@.len(),
            trim_end_matches_of(cs@.take(to as int), c) == trim_end_matches_of(s@, c),
        decreases to,
    {
        assert(cs@.take(to as int).drop_last() =~= cs@.take(to - 1));
        to = to - 1;
    }
    assert(cs@.subrange(0, to as int) =~= cs@.take(to as int));
    slice_string(cs.as_slice(), 0, to)
}

/// The texts one after the other, with a separator between each two.
pub open spec fn joined(parts: Seq<Seq<char>>, sep: Seq<char>) -> Seq<char>
    decreases parts.len(),
{
    if parts.len() == 0 {
        seq![]
    } else if parts.len() == 1 {
        parts[0]
    } else {
        joined(parts.drop_last(), sep) + sep + parts.last()
    }
}

/// `[String]::join`.
pub fn join(parts: &Vec<String>, sep: &str) -> (r: String)
    ensures
        r@ == joined(texts(parts@), sep@),
        parts@.len() == 0 ==> r@.len() == 0,
        parts@.len() == 1 ==> r@ == parts@[0]@,
        parts@.len() == 2 ==> r@ == parts@[0]@ + sep@ + parts@[1]@,
{
    proof {
        if parts@.len() == 2 {
            let all = texts(parts@);
            assert(all.drop_last() =~= seq![parts@[0]@]);
            assert(joined(all.drop_last(), sep@) == parts@[0]@);
        }
    }
    let mut out = String::new();
    let mut i: usize = 0;
    assert(texts(parts@).take(0) =~= seq![]);
    while i < parts.len()
        invariant
            i <= parts@.len(),
            out@ == joined(texts(parts@).take(i as int), sep@),
        decreases parts@.len() - i,
    {
        proof {
            let t = texts(parts@).take(i + 1);
            assert(t.drop_last() =~= texts(parts@).take(i as int));
            assert(t.last() == parts@[i as int]@);
        }
        if i > 0 {
            out.append(sep);
        }
        out.append(parts[i].as_str());
        assert(out@ =~= joined(texts(parts@).take(i + 1), sep@));
        i = i + 1;
    }
    assert(texts(parts@).take(i as int) =~= texts(parts@));
    out
}

/// A copy of a text that may be missing.
pub fn clone_option(text: &Option<String>) -> (r: Option<String>)
    ensures
        r == *text,
{
    match text {
        Some(s) => Some(s.clone()),
        None => None,
    }
}

/// The strings of a list, one for one.
pub fn clone_strings(v: &Vec<String>) -> (r: Vec<String>)
    ensures
        r@ == v@,
{
    let mut out: Vec<String> = Vec::new();
    let mut i: usize = 0;
    while i < v.len()
        invariant
            i <= v@.len(),
            out@ == v@.take(i as int),
        decreases v@.len() - i,
    {
        out.push(v[i].clone());
        i = i + 1;
        assert(out@ =~= v@.take(i as int));
    }
    assert(v@.take(i as int) =~= v@);
    out
}

/// The value of a decimal digit.
pub open spec fn digit_value(c: char) -> Option<nat> {
    if '0' <= c && c <= '9' {
        Some((c as nat - 48) as nat)
    } else {
        None
    }
}

/// The number that a row of decimal digits stands for; none where another character
/// stands among them.
pub open spec fn digits_value(s: Seq<char>) -> Option<nat>
    decreases s.len(),
{
    if s.len() == 0 {
        Some(0)
    } else {
        match (digits_value(s.drop_last()), digit_value(s.last())) {
            (Some(n), Some(d)) => Some(10 * n + d),
            _ => None,
        }
    }
}

/// The digits behind an optional plus sign.
pub open spec fn unsigned_body(s: Seq<char>) -> Seq<char> {
    if s.len() > 0 && s[0] == '+' {
        s.drop_first()
    } else {
        s
    }
}

/// The number that a text stands for where it is an optional plus sign and at least
/// one digit and the number is at most `max`: what `str::parse` gives for an
/// unsigned integer type with that maximum.
pub open spec fn unsigned_value(s: Seq<char>, max: nat) -> Option<nat> {
    let body = unsigned_body(s);
    match digits_value(body) {
        Some(n) if body.len() > 0 && n <= max => Some(n),
        _ => None,
    }
}

proof fn lemma_digits_none(s: Seq<char>, i: int)
    requires
        0 <= i <= s.len(),
        digits_value(s.take(i)) is None,
    ensures
        digits_value(s) is None,
    decreases s.len() - i,
{
    if i < s.len() {
        assert(s.take(i + 1).drop_last() =~= s.take(i));
        lemma_digits_none(s, i + 1);
    } else {
        assert(s.take(i) =~= s);
    }
}

proof fn lemma_digits_grow(s: Seq<char>, i: int, bound: nat)
    requires
        0 <= i <= s.len(),
        digits_value(s.take(i)) matches Some(n) ==> n > bound,
    ensures
        digits_value(s) matches Some(n) ==> n > bound,
    decreases s.len() - i,
{
    if i < s.len() {
        assert(s.take(i + 1).drop_last() =~= s.take(i));
        lemma_digits_grow(s, i + 1, bound);
    } else {
        assert(s.take(i) =~= s);
    }
}

/// `str::parse` for an unsigned integer type whose maximum is `max`.
pub fn parse_unsigned(s: &str, max: u64) -> (r: Option<u64>)
    ensures
        match unsigned_value(s@, max as nat) {
            Some(n) => r is Some && r->0 == n,
            None => r is None,
        },
{
    let cs = chars_of(s);
    let mut from: usize = 0;
    if cs.len() > 0 && cs[0] == '+' {
        from = 1;
    }
    let ghost body = unsigned_body(s@);
    assert(body =~= cs@.skip(from as int));
    if from == cs.len() {
        return None;
    }
    let mut n: u64 = 0;
    let mut i: usize = from;
    assert(body.take(0) =~= seq![]);
    while i < cs.len()
        invariant
            from <= i <= cs@.len(),
            from <= 1,
            body == cs@.skip(from as int),
            body == unsigned_body(s@),
            n <= max,
            digits_value(body.take(i - from)) == Some(n as nat),
        decreases cs@.len() - i,
    {
        let c = cs[i];
        proof {
            let t = body.take(i + 1 - from);
            assert(t.drop_last() =~= body.take(i - from));
            assert(t.last() == c);
        }
        if !('0' <= c && c <= '9') {
            proof {
                lemma_digits_none(body, i + 1 - from);
            }
            return None;
        }
        let d: u64 = (c as u32 - 48) as u64;
        let wide: u128 = 10 * (n as u128) + d as u128;
        if wide > max as u128 {
            proof {
                lemma_digits_grow(body, i + 1 - from, max as nat);
            }
            return None;
        }
        n = wide as u64;
        i = i + 1;
    }
    assert(body.take(i - from) =~= body);
    Some(n)
}

/// Where a path leads from a directory: an absolute one stands for itself, another
/// one follows the directory behind a separator.
pub open spec fn joined_path(base: Seq<char>, rel: Seq<char>) -> Seq<char> {
    if rel.len() > 0 && rel[0] == '/' {
        rel
    } else if base.len() == 0 || base.last() == '/' {
        base + rel
    } else {
        base + "/"@ + rel
    }
}

/// `Path::join` on paths whose separator is the slash.
pub fn join_path(base: &str, rel: &str) -> (r: String)
    ensures
        r@ == joined_path(base@, rel@),
        rel@.len() > 0 && rel@[0] == '/' ==> r@ == rel@,
        (rel@.len() == 0 || rel@[0] != '/') && base@.len() > 0 && base@.last() != '/' ==> r@ == base@
            + "/"@ + rel@,
        (rel@.len() == 0 || rel@[0] != '/') && (base@.len() == 0 || base@.last() == '/') ==> r@
            == base@ + rel@,
{
    let bs = chars_of(base);
    let rs = chars_of(rel);
    if rs.len() > 0 && rs[0] == '/' {
        return rel.to_owned();
    }
    if bs.len() == 0 || bs[bs.len() - 1] == '/' {
        return concat2(base, rel);
    }
    concat3(base, "/", rel)
}

/// A number in decimal is read back as the number, and has no zero in front unless it is zero.
pub proof fn law_decimal_reads_back(n: nat, max: nat)
    ensures
        digits_value(decimal(n)) == Some(n),
        decimal(n).len() > 0,
        n > 0 ==> decimal(n)[0] != '0',
        n <= max ==> unsigned_value(decimal(n), max) == Some(n),
        n > max ==> unsigned_value(decimal(n), max) is None,
    decreases n,
{
    if n < 10 {
        let s = decimal(n);
        assert(s.drop_last() =~= seq![]);
        assert(digits_value(s.drop_last()) == Some(0nat));
        assert(s[0] != '+');
    } else {
        law_decimal_reads_back(n / 10, max);
        let s = decimal(n);
        assert(s.drop_last() =~= decimal(n / 10));
        assert(s[0] == decimal(n / 10)[0]);
        lemma_decimal_first(n);
    }
}

proof fn lemma_decimal_first(n: nat)
    ensures
        decimal(n).len() > 0,
        '0' <= decimal(n)[0] <= '9',
    decreases n,
{
    if n >= 10 {
        lemma_decimal_first(n / 10);
        assert(decimal(n)[0] == decimal(n / 10)[0]);
    }
}

/// Trimming takes away white space only, and all of it that stands at either end: the text
/// that is left runs from the first to the second of the positions given.
pub proof fn law_trim_takes_the_white_space_around(s: Seq<char>) -> (at: (int, int))
    ensures
        0 <= at.0 <= at.1 <= s.len(),
        trimmed(s) == s.subrange(at.0, at.1),
        forall|i: int| 0 <= i < at.0 || at.1 <= i < s.len() ==> whitespace(#[trigger] s[i]),
        at.0 < at.1 ==> !whitespace(s[at.0]) && !whitespace(s[at.1 - 1]),
{
    let from = lemma_trim_start_from(s);
    let head = s.skip(from);
    let to = lemma_trim_end_to(head);
    assert(head.take(to) =~= s.subrange(from, from + to));
    assert forall|i: int| 0 <= i < from || from + to <= i < s.len() implies whitespace(
        #[trigger] s[i],
    ) by {
        if i >= from + to {
            assert(head[i - from] == s[i]);
        }
    }
    if 0 < to {
        assert(head[0] == s[from]);
        assert(head[to - 1] == s[from + to - 1]);
    }
    (from, from + to)
}

proof fn lemma_trim_start_from(s: Seq<char>) -> (from: int)
    ensures
        0 <= from <= s.len(),
        trim_start_of(s) == s.skip(from),
        forall|i: int| 0 <= i < from ==> whitespace(#[trigger] s[i]),
        from < s.len() ==> !whitespace(s[from]),
    decreases s.len(),
{
    if s.len() == 0 || !whitespace(s[0]) {
        assert(s.skip(0) =~= s);
        0
    } else {
        let rest = s.drop_first();
        let from = lemma_trim_start_from(rest);
        assert(rest.skip(from) =~= s.skip(from + 1));
        assert forall|i: int| 0 <= i < from + 1 implies whitespace(#[trigger] s[i]) by {
            if i > 0 {
                assert(rest[i - 1] == s[i]);
            }
        }
        if from < rest.len() {
            assert(rest[from] == s[from + 1]);
        }
        from + 1
    }
}

proof fn lemma_trim_end_to(s: Seq<char>) -> (to: int)
    ensures
        0 <= to <= s.len(),
        trim_end_of(s) == s.take(to),
        forall|i: int| to <= i < s.len() ==> whitespace(#[trigger] s[i]),
        to > 0 ==> !whitespace(s[to - 1]),
    decreases s.len(),
{
    if s.len() == 0 || !whitespace(s.last()) {
        assert(s.take(s.len() as int) =~= s);
        s.len() as int
    } else {
        let rest = s.drop_last();
        let to = lemma_trim_end_to(rest);
        assert(rest.take(to) =~= s.take(to));
        assert forall|i: int| to <= i < s.len() implies whitespace(#[trigger] s[i]) by {
            if i < rest.len() {
                assert(rest[i] == s[i]);
            }
        }
        to
    }
}

/// Trimming a character off both ends leaves the stretch from the first to the second of the
/// positions given: what stands outside is that character, what stands at its ends is not.
pub proof fn law_trim_takes_the_character_around(s: Seq<char>, c: char) -> (at: (int, int))
    ensures
        0 <= at.0 <= at.1 <= s.len(),
        trim_matches_of(s, c) == s.subrange(at.0, at.1),
        forall|i: int| 0 <= i < at.0 || at.1 <= i < s.len() ==> #[trigger] s[i] == c,
        at.0 < at.1 ==> s[at.0] != c && s[at.1 - 1] != c,
{
    let from = lemma_trim_start_matches_from(s, c);
    let head = s.skip(from);
    let to = lemma_trim_end_matches_to(head, c);
    assert(head.take(to) =~= s.subrange(from, from + to));
    assert forall|i: int| 0 <= i < from || from + to <= i < s.len() implies #[trigger] s[i]
        == c by {
        if i >= from + to {
            assert(head[i - from] == s[i]);
        }
    }
    if 0 < to {
        assert(head[0] == s[from]);
        assert(head[to - 1] == s[from + to - 1]);
    }
    (from, from + to)
}

/// How many copies of a character stand at the start of a text, and are taken off it there.
pub proof fn lemma_trim_start_matches_from(s: Seq<char>, c: char) -> (from: int)
    ensures
        0 <= from <= s.len(),
        trim_start_matches_of(s, c) == s.skip(from),
        forall|i: int| 0 <= i < from ==> #[trigger] s[i] == c,
        from < s.len() ==> s[from] != c,
    decreases s.len(),
{
    if s.len() == 0 || s[0] != c {
        assert(s.skip(0) =~= s);
        0
    } else {
        let rest = s.drop_first();
        let from = lemma_trim_start_matches_from(rest, c);
        assert(rest.skip(from) =~= s.skip(from + 1));
        assert forall|i: int| 0 <= i < from + 1 implies #[trigger] s[i] == c by {
            if i > 0 {
                assert(rest[i - 1] == s[i]);
            }
        }
        if from < rest.len() {
            assert(rest[from] == s[from + 1]);
        }
        from + 1
    }
}

/// Where the copies of a character at the end of a text begin, which are taken off it there.
pub proof fn lemma_trim_end_matches_to(s: Seq<char>, c: char) -> (to: int)
    ensures
        0 <= to <= s.len(),
        trim_end_matches_of(s, c) == s.take(to),
        forall|i: int| to <= i < s.len() ==> #[trigger] s[i] == c,
        to > 0 ==> s[to - 1] != c,
    decreases s.len(),
{
    if s.len() == 0 || s.last() != c {
        assert(s.take(s.len() as int) =~= s);
        s.len() as int
    } else {
        let rest = s.drop_last();
        let to = lemma_trim_end_matches_to(rest, c);
        assert(rest.take(to) =~= s.take(to));
        assert forall|i: int| to <= i < s.len() implies #[trigger] s[i] == c by {
            if i < rest.len() {
                assert(rest[i] == s[i]);
            }
        }
        to
    }
}

/// One more copy of a text in front changes nothing of what is left once the copies in front
/// are taken off, and a text that does not start with it stays as it is.
pub proof fn law_leading_copies_are_taken_off(s: Seq<char>, p: Seq<char>)
    requires
        p.len() > 0,
    ensures
        trim_start_text_of(p + s, p) == trim_start_text_of(s, p),
        !has_prefix(s, p) ==> trim_start_text_of(s, p) == s,
{
    assert((p + s).take(p.len() as int) =~= p);
    assert((p + s).skip(p.len() as int) =~= s);
}

/// The pieces of a text hold none of the separators, and with one between each two they are
/// the text again.
pub proof fn law_pieces_join_to_the_text(s: Seq<char>, d: char)
    ensures
        pieces(s, d).len() > 0,
        forall|i: int| 0 <= i < pieces(s, d).len() ==> !(#[trigger] pieces(s, d)[i]).contains(d),
        joined(pieces(s, d), seq![d]) == s,
    decreases s.len(),
{
    let i = lemma_first_is_first(s, d);
    if i >= s.len() {
        assert(!s.contains(d));
    } else {
        let head = s.take(i);
        let rest = s.skip(i + 1);
        law_pieces_join_to_the_text(rest, d);
        let tail = pieces(rest, d);
        let all = seq![head] + tail;
        assert forall|k: int| 0 <= k < all.len() implies !(#[trigger] all[k]).contains(d) by {
            if k > 0 {
                assert(all[k] == tail[k - 1]);
            }
        }
        lemma_joined_first(head, tail, seq![d]);
        assert(head + seq![d] + rest =~= s);
    }
}

/// Where the first `d` stands.
pub proof fn lemma_first_is_first(s: Seq<char>, d: char) -> (i: int)
    ensures
        i == first_position(s, d),
        0 <= i <= s.len(),
        i < s.len() ==> s[i] == d,
        forall|j: int| 0 <= j < i ==> #[trigger] s[j] != d,
    decreases s.len(),
{
    if s.len() == 0 || s[0] == d {
        0
    } else {
        let rest = s.drop_first();
        let i = lemma_first_is_first(rest, d);
        assert forall|j: int| 0 <= j < i + 1 implies #[trigger] s[j] != d by {
            if j > 0 {
                assert(rest[j - 1] == s[j]);
            }
        }
        if i < rest.len() {
            assert(rest[i] == s[i + 1]);
        }
        i + 1
    }
}

proof fn lemma_joined_first(head: Seq<char>, tail: Seq<Seq<char>>, sep: Seq<char>)
    requires
        tail.len() > 0,
    ensures
        joined(seq![head] + tail, sep) == head + sep + joined(tail, sep),
    decreases tail.len(),
{
    let all = seq![head] + tail;
    if tail.len() == 1 {
        assert(all.drop_last() =~= seq![head]);
        assert(joined(all.drop_last(), sep) == head);
    } else {
        assert(all.drop_last() =~= seq![head] + tail.drop_last());
        assert(all.last() == tail.last());
        lemma_joined_first(head, tail.drop_last(), sep);
        assert(head + sep + joined(tail.drop_last(), sep) + sep + tail.last() =~= head + sep + (
        joined(tail.drop_last(), sep) + sep + tail.last()));
    }
}

/// A text is taken apart at its line feeds: what stands before the first of them is the first
/// line, without the carriage return that may end it, and the rest gives the other lines. A
/// text without a line feed is a line of its own, and an empty text has no line.
pub proof fn law_lines_end_at_line_feeds(line: Seq<char>, rest: Seq<char>)
    requires
        !line.contains('\n'),
    ensures
        line.len() == 0 || line.last() != '\r' ==> lines_of(line + seq!['\n'] + rest) == seq![line]
            + lines_of(rest),
        lines_of(line + seq!['\r', '\n'] + rest) == seq![line] + lines_of(rest),
        line.len() > 0 ==> lines_of(line) == seq![line],
        line.len() == 0 ==> lines_of(line).len() == 0,
{
    let plain = line + seq!['\n'] + rest;
    let n = line.len() as int;
    assert forall|j: int| 0 <= j < n implies plain[j] != '\n' by {
        assert(line.contains(line[j]));
    }
    lemma_first_position(plain, '\n', n);
    assert(plain.take(n) =~= line);
    assert(plain.skip(n + 1) =~= rest);
    let returned = line + seq!['\r', '\n'] + rest;
    assert forall|j: int| 0 <= j < n + 1 implies returned[j] != '\n' by {
        if j < n {
            assert(line.contains(line[j]));
        }
    }
    lemma_first_position(returned, '\n', n + 1);
    assert(returned.take(n + 1) =~= line.push('\r'));
    assert(line.push('\r').drop_last() =~= line);
    assert(returned.skip(n + 2) =~= rest);
    assert forall|j: int| 0 <= j < n implies line[j] != '\n' by {
        assert(line.contains(line[j]));
    }
    lemma_first_position(line, '\n', n);
}

/// White space in front of a text changes none of its words. A stretch without white space at
/// its start, up to white space or the end, is its first word, and the rest gives the others.
pub proof fn law_words_stand_between_white_space(c: char, word: Seq<char>, rest: Seq<char>)
    requires
        whitespace(c),
        word.len() > 0,
        forall|i: int| 0 <= i < word.len() ==> !whitespace(#[trigger] word[i]),
        rest.len() == 0 || whitespace(rest[0]),
    ensures
        words_of(word + rest) == seq![word] + words_of(rest),
        words_of(seq![c] + rest) == words_of(rest),
        words_of(seq![c] + word + rest) == words_of(word + rest),
        words_of(Seq::<char>::empty()).len() == 0,
{
    let all = word + rest;
    assert(all[0] == word[0]);
    assert(trim_start_of(all) == all);
    lemma_word_in_front(word, rest);
    assert(all.take(word.len() as int) =~= word);
    assert(all.skip(word.len() as int) =~= rest);
    let spaced = seq![c] + rest;
    assert(spaced.drop_first() =~= rest);
    assert(trim_start_of(spaced) == trim_start_of(rest));
    let both = seq![c] + word + rest;
    assert(both.drop_first() =~= all);
    assert(both[0] == c);
    assert(trim_start_of(both) == trim_start_of(all));
}

proof fn lemma_word_in_front(word: Seq<char>, rest: Seq<char>)
    requires
        forall|i: int| 0 <= i < word.len() ==> !whitespace(#[trigger] word[i]),
        rest.len() == 0 || whitespace(rest[0]),
    ensures
        leading_word(word + rest) == word.len(),
    decreases word.len(),
{
    let all = word + rest;
    if word.len() > 0 {
        let tail = word.drop_first();
        assert forall|i: int| 0 <= i < tail.len() implies !whitespace(#[trigger] tail[i]) by {
            assert(tail[i] == word[i + 1]);
        }
        assert(all[0] == word[0]);
        assert(all.drop_first() =~= tail + rest);
        lemma_word_in_front(tail, rest);
    } else {
        assert(all =~= rest);
    }
}

/// A replacement puts the new text where the character stood and leaves everything else: what
/// stands before and behind is replaced on its own, and a text without the character stays.
pub proof fn law_replacement_goes_character_by_character(
    a: Seq<char>,
    b: Seq<char>,
    c: char,
    by: Seq<char>,
)
    ensures
        replaced(a + seq![c] + b, c, by) == replaced(a, c, by) + by + replaced(b, c, by),
        !a.contains(c) ==> replaced(a, c, by) == a,
{
    lemma_replaced_parts(a + seq![c], b, c, by);
    assert((a + seq![c]).drop_last() =~= a);
    if !a.contains(c) {
        lemma_nothing_replaced(a, c, by);
    }
}

proof fn lemma_replaced_parts(a: Seq<char>, b: Seq<char>, c: char, by: Seq<char>)
    ensures
        replaced(a + b, c, by) == replaced(a, c, by) + replaced(b, c, by),
    decreases b.len(),
{
    if b.len() == 0 {
        assert(a + b =~= a);
        assert(replaced(a, c, by) + replaced(b, c, by) =~= replaced(a, c, by));
    } else {
        lemma_replaced_parts(a, b.drop_last(), c, by);
        assert((a + b).drop_last() =~= a + b.drop_last());
        assert((a + b).last() == b.last());
        let one = if b.last() == c {
            by
        } else {
            seq![b.last()]
        };
        assert(replaced(a, c, by) + replaced(b.drop_last(), c, by) + one =~= replaced(a, c, by) + (
        replaced(b.drop_last(), c, by) + one));
    }
}

proof fn lemma_nothing_replaced(a: Seq<char>, c: char, by: Seq<char>)
    requires
        !a.contains(c),
    ensures
        replaced(a, c, by) == a,
    decreases a.len(),
{
    if a.len() > 0 {
        let front = a.drop_last();
        assert(a.contains(a[a.len() - 1]));
        assert(!front.contains(c)) by {
            if front.contains(c) {
                let i = choose|i: int| 0 <= i < front.len() && front[i] == c;
                assert(a[i] == c);
            }
        }
        lemma_nothing_replaced(front, c, by);
        assert(front + seq![a.last()] =~= a);
    }
}

/// A text stands in another where the other is made of it, something before and something
/// behind; and where it stands in another, the other is so made.
pub proof fn law_contained_text_has_a_place(
    s: Seq<char>,
    p: Seq<char>,
    a: Seq<char>,
    b: Seq<char>,
)
    ensures
        contains_text(a + p + b, p),
        contains_text(s, p) ==> exists|x: Seq<char>, y: Seq<char>| s == #[trigger] (x + p + y),
        has_prefix(p + b, p),
        has_prefix(s, p) ==> exists|y: Seq<char>| s == #[trigger] (p + y),
{
    let made = a + p + b;
    assert(made.subrange(a.len() as int, (a.len() + p.len()) as int) =~= p);
    assert(stands_at(made, p, a.len() as int));
    if contains_text(s, p) {
        let i = choose|i: int| stands_at(s, p, i);
        let x = s.take(i);
        let y = s.skip(i + p.len());
        assert forall|k: int| 0 <= k < p.len() implies s[i + k] == #[trigger] p[k] by {
            assert(s.subrange(i, i + p.len())[k] == s[i + k]);
        }
        assert(s =~= x + p + y);
    }
    assert((p + b).take(p.len() as int) =~= p);
    if has_prefix(s, p) {
        let y = s.skip(p.len() as int);
        assert forall|k: int| 0 <= k < p.len() implies s[k] == #[trigger] p[k] by {
            assert(s.take(p.len() as int)[k] == s[k]);
        }
        assert(s =~= p + y);
    }
}

/// One more text behind others stands behind them and the separator.
pub proof fn law_joined_behind_the_separator(
    parts: Seq<Seq<char>>,
    part: Seq<char>,
    sep: Seq<char>,
)
    ensures
        parts.len() > 0 ==> joined(parts.push(part), sep) == joined(parts, sep) + sep + part,
        joined(seq![part], sep) == part,
        joined(Seq::empty(), sep).len() == 0,
{
    assert(parts.push(part).drop_last() =~= parts);
}

/// A number is written in digits, at least one of them, with at most one plus sign in front,
/// which changes nothing of it; each digit behind a number counts it ten times.
pub proof fn law_numbers_are_written_in_digits(s: Seq<char>, max: nat, c: char)
    ensures
        unsigned_value(Seq::empty(), max) is None,
        s.len() > 0 && s[0] != '+' ==> unsigned_value(seq!['+'] + s, max) == unsigned_value(s, max),
        (exists|i: int|
            0 <= i < s.len() && !('0' <= #[trigger] s[i] <= '9') && (i > 0 || s[0] != '+'))
            ==> unsigned_value(s, max) is None,
        unsigned_value(s, max) is Some ==> unsigned_value(s, max)->0 <= max,
        digits_value(s) is Some && '0' <= c <= '9' ==> digits_value(s.push(c)) == Some(
            (10 * digits_value(s)->0 + (c as nat - '0' as nat)) as nat,
        ),
{
    assert((seq!['+'] + s).drop_first() =~= s);
    if exists|i: int|
        0 <= i < s.len() && !('0' <= #[trigger] s[i] <= '9') && (i > 0 || s[0] != '+') {
        let i = choose|i: int|
            0 <= i < s.len() && !('0' <= #[trigger] s[i] <= '9') && (i > 0 || s[0] != '+');
        if s[0] == '+' {
            assert(s.drop_first()[i - 1] == s[i]);
            lemma_no_digit(s.drop_first(), i - 1);
        } else {
            lemma_no_digit(s, i);
        }
    }
    assert(s.push(c).drop_last() =~= s);
}

proof fn lemma_no_digit(s: Seq<char>, i: int)
    requires
        0 <= i < s.len(),
        !('0' <= s[i] <= '9'),
    ensures
        digits_value(s) is None,
    decreases s.len(),
{
    if i < s.len() - 1 {
        lemma_no_digit(s.drop_last(), i);
    }
}

} // verus!
