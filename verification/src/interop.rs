//! The calls into other crates, with what each is taken to do: patterns, JSON texts,
//! points in time, identifiers and archives.
use vstd::prelude::*;

use crate::domain::{Pair, Timestamp};
use crate::text;

verus! {

/// Why `regex::Regex::new` refuses a pattern; none where it takes it.
pub uninterp spec fn regex_error(pattern: Seq<char>) -> Option<Seq<char>>;

/// `regex::Regex::new`: whether the pattern compiles, and the text of the error where
/// it does not.
#[verifier::external_body]
pub(crate) fn check_regex(pattern: &str) -> (r: Result<(), String>)
    ensures
        (r is Ok) == (regex_error(pattern@) is None),
        r matches Err(e) ==> regex_error(pattern@) == Some(e@),
{
    match regex::Regex::new(pattern) {
        Ok(_) => Ok(()),
        Err(e) => Err(e.to_string()),
    }
}

/// Whether `regex::Regex::is_match` finds the pattern in the text; none where the
/// pattern does not compile.
pub uninterp spec fn regex_finds(pattern: Seq<char>, text: Seq<char>) -> Option<bool>;

/// `regex::Regex::is_match` on a pattern that `regex::Regex::new` takes. It answers
/// exactly for the patterns that compile.
#[verifier::external_body]
pub(crate) fn regex_matches(pattern: &str, text: &str) -> (r: Option<bool>)
    ensures
        r == regex_finds(pattern@, text@),
        (r is Some) == (regex_error(pattern@) is None),
{
    regex::Regex::new(pattern).ok().map(|re| re.is_match(text))
}

/// The strings that `serde_json::from_str` reads from a JSON list of strings.
pub uninterp spec fn json_strings(text: Seq<char>) -> Option<Seq<Seq<char>>>;

/// `serde_json::from_str` to a list of strings; none where the text is not one.
#[verifier::external_body]
pub(crate) fn parse_strings(text: &str) -> (r: Option<Vec<String>>)
    ensures
        match r {
            Some(v) => json_strings(text@) == Some(text::texts(v@)),
            None => json_strings(text@) is None,
        },
{
    serde_json::from_str(text).ok()
}

/// The JSON text that `serde_json::to_string` writes for a list of strings.
pub uninterp spec fn strings_text(strings: Seq<Seq<char>>) -> Seq<char>;

/// `serde_json::to_string` of a list of strings. It does not fail on strings, and
/// reading the text gives the same strings back.
#[verifier::external_body]
pub(crate) fn write_strings(strings: &Vec<String>) -> (r: String)
    ensures
        r@ == strings_text(text::texts(strings@)),
        json_strings(r@) == Some(text::texts(strings@)),
{
    serde_json::to_string(strings).expect("a list of strings is always JSON")
}

/// Whether `serde_json::from_str` reads the text as a JSON value.
pub uninterp spec fn json_readable(text: Seq<char>) -> bool;

/// `serde_json::from_str` to a value: whether the text is one.
#[verifier::external_body]
pub(crate) fn is_json(text: &str) -> (r: bool)
    ensures
        r == json_readable(text@),
{
    serde_json::from_str::<serde_json::Value>(text).is_ok()
}

/// The text under a name in the object that a JSON text holds, as
/// `serde_json::from_str`, `Value::get` and `Value::as_str` find it.
pub uninterp spec fn json_text_member(text: Seq<char>, name: Seq<char>) -> Option<Seq<char>>;

/// `serde_json::from_str` to a value, then the text under a name; none where the text
/// is not JSON, is no object, has no such member or holds no text there.
#[verifier::external_body]
pub(crate) fn parse_text_member(text: &str, name: &str) -> (r: Option<String>)
    ensures
        match r {
            Some(s) => json_text_member(text@, name@) == Some(s@),
            None => json_text_member(text@, name@) is None,
        },
{
    let value: serde_json::Value = serde_json::from_str(text).ok()?;
    value.get(name).and_then(|v| v.as_str()).map(|s| s.to_owned())
}

/// The texts by name that a list of pairs stands for. A later pair replaces an
/// earlier one of the same name.
pub open spec fn pairs_map(pairs: Seq<Pair>) -> Map<Seq<char>, Seq<char>>
    decreases pairs.len(),
{
    if pairs.len() == 0 {
        Map::empty()
    } else {
        pairs_map(pairs.drop_last()).insert(pairs.last().key@, pairs.last().value@)
    }
}

/// The texts by name that `serde_json::from_str` reads from a JSON object, or the
/// text of its error.
pub uninterp spec fn json_text_map(text: Seq<char>) -> Result<
    Map<Seq<char>, Seq<char>>,
    Seq<char>,
>;

/// `serde_json::from_str` to a map of strings. The order of the pairs is left open.
#[verifier::external_body]
pub(crate) fn parse_text_map(text: &str) -> (r: Result<Vec<Pair>, String>)
    ensures
        match r {
            Ok(v) => json_text_map(text@) matches Ok(m) && m == pairs_map(v@),
            Err(e) => json_text_map(text@) matches Err(m) && m == e@,
        },
{
    match serde_json::from_str::<std::collections::HashMap<String, String>>(text) {
        Ok(m) => Ok(m.into_iter().map(|(key, value)| Pair { key, value }).collect()),
        Err(e) => Err(e.to_string()),
    }
}

/// Whether a JSON text is read as the texts by name that the pairs stand for.
pub open spec fn reads_as_pairs(text: Seq<char>, pairs: Seq<Pair>) -> bool {
    match json_text_map(text) {
        Ok(m) => m == pairs_map(pairs),
        Err(_) => false,
    }
}

/// `serde_json::to_string` of a map of strings. The order of the members is left open;
/// reading the text gives the same map back.
#[verifier::external_body]
pub(crate) fn write_text_map(pairs: &Vec<Pair>) -> (r: String)
    ensures
        reads_as_pairs(r@, pairs@),
{
    let map: std::collections::HashMap<&String, &String> =
        pairs.iter().map(|p| (&p.key, &p.value)).collect();
    serde_json::to_string(&map).expect("a map of strings is always JSON")
}

/// The point in time that `chrono::DateTime::parse_from_rfc3339` reads, as seconds and
/// nanoseconds in UTC, or the text of its error.
pub uninterp spec fn rfc3339_value(text: Seq<char>) -> Result<(i64, u32), Seq<char>>;

/// `chrono::DateTime::parse_from_rfc3339`, taken to UTC.
#[verifier::external_body]
pub(crate) fn parse_rfc3339(text: &str) -> (r: Result<Timestamp, String>)
    ensures
        match r {
            Ok(t) => rfc3339_value(text@) matches Ok(v) && v == (t.secs, t.nanos),
            Err(e) => rfc3339_value(text@) matches Err(m) && m == e@,
        },
{
    match chrono::DateTime::parse_from_rfc3339(text) {
        Ok(t) => Ok(Timestamp { secs: t.timestamp(), nanos: t.timestamp_subsec_nanos() }),
        Err(e) => Err(e.to_string()),
    }
}

/// The point in time that `str::parse` reads as a `chrono::DateTime<Utc>`, as seconds and
/// nanoseconds; none where the text is not one.
pub uninterp spec fn time_value(text: Seq<char>) -> Option<(i64, u32)>;

/// `str::parse` to a `chrono::DateTime<Utc>`, which takes more texts than
/// `chrono::DateTime::parse_from_rfc3339` does.
#[verifier::external_body]
pub(crate) fn parse_time(text: &str) -> (r: Option<Timestamp>)
    ensures
        match r {
            Some(t) => time_value(text@) == Some((t.secs, t.nanos)),
            None => time_value(text@) is None,
        },
{
    let time: chrono::DateTime<chrono::Utc> = text.parse().ok()?;
    Some(Timestamp { secs: time.timestamp(), nanos: time.timestamp_subsec_nanos() })
}

/// The text that `chrono::DateTime::to_rfc3339` writes for a point in time in UTC; none
/// where the point lies outside of what `chrono` can hold.
pub uninterp spec fn rfc3339_text(secs: i64, nanos: u32) -> Option<Seq<char>>;

/// Whether a point in time lies in the years 0 to 9999 and inside of its second.
pub open spec fn four_digit_year(t: Timestamp) -> bool {
    -62_167_219_200 <= t.secs < 253_402_300_800 && t.nanos < 1_000_000_000
}

/// Whether a text is read as the point in time.
pub open spec fn reads_as_time(text: Seq<char>, t: Timestamp) -> bool {
    match rfc3339_value(text) {
        Ok(v) => v == (t.secs, t.nanos),
        Err(_) => false,
    }
}

/// Whether a text is read as the point in time by the lenient reader.
pub open spec fn reads_leniently(text: Seq<char>, t: Timestamp) -> bool {
    time_value(text) == Some((t.secs, t.nanos))
}

/// `chrono::DateTime::from_timestamp` and `to_rfc3339`. In the years 0 to 9999 the text
/// exists, and both `chrono::DateTime::parse_from_rfc3339` and `str::parse` give the same point
/// in time back.
#[verifier::external_body]
pub(crate) fn write_rfc3339(t: Timestamp) -> (r: Option<String>)
    ensures
        match r {
            Some(s) => rfc3339_text(t.secs, t.nanos) == Some(s@),
            None => rfc3339_text(t.secs, t.nanos) is None,
        },
        four_digit_year(t) ==> match r {
            Some(s) => reads_as_time(s@, t) && reads_leniently(s@, t),
            None => false,
        },
{
    chrono::DateTime::from_timestamp(t.secs, t.nanos).map(|t| t.to_rfc3339())
}

/// Whether a character is a digit of a number to the base sixteen, in lower case.
pub open spec fn hex_digit(c: char) -> bool {
    '0' <= c <= '9' || 'a' <= c <= 'f'
}

/// Whether a text has the form of a random identifier: digits to the base sixteen in groups
/// of 8, 4, 4, 4 and 12 with dashes between them, of which two tell the version and the
/// variant.
pub open spec fn uuid_form(s: Seq<char>) -> bool {
    &&& s.len() == 36
    &&& s[8] == '-' && s[13] == '-' && s[18] == '-' && s[23] == '-'
    &&& s[14] == '4'
    &&& s[19] == '8' || s[19] == '9' || s[19] == 'a' || s[19] == 'b'
    &&& forall|i: int|
        0 <= i < 36 && i != 8 && i != 13 && i != 18 && i != 23 ==> hex_digit(#[trigger] s[i])
}

/// `uuid::Uuid::new_v4`, in its hyphenated form in lower case. Which identifier comes is left
/// to chance; that two differ is likely and is not claimed.
#[verifier::external_body]
pub(crate) fn new_uuid() -> (r: String)
    ensures
        uuid_form(r@),
{
    uuid::Uuid::new_v4().to_string()
}

/// The archive that the `tar` crate writes for one file; none where it refuses the path.
pub uninterp spec fn tar_file(path: Seq<char>, mode: u32, content: Seq<u8>) -> Option<Seq<u8>>;

/// `tar::Builder::append_data` with a GNU header of the given size, mode and path, then
/// `tar::Builder::into_inner`, which ends the archive.
#[verifier::external_body]
pub(crate) fn write_tar(path: &str, mode: u32, content: &[u8]) -> (r: Option<Vec<u8>>)
    ensures
        match r {
            Some(v) => tar_file(path@, mode, content@) == Some(v@),
            None => tar_file(path@, mode, content@) is None,
        },
{
    let mut archive = tar::Builder::new(Vec::new());
    let mut header = tar::Header::new_gnu();
    header.set_size(content.len() as u64);
    header.set_mode(mode);
    header.set_path(path).ok()?;
    archive.append_data(&mut header, path, content).ok()?;
    archive.into_inner().ok()
}

/// Under a name stands the text of the last pair of that name, and nothing where no pair has
/// it.
pub proof fn law_last_pair_counts(pairs: Seq<Pair>, key: Seq<char>, i: int)
    requires
        -1 <= i < pairs.len(),
        i >= 0 ==> pairs[i].key@ == key,
        forall|j: int| i < j < pairs.len() ==> (#[trigger] pairs[j]).key@ != key,
    ensures
        pairs_map(pairs).contains_key(key) <==> i >= 0,
        i >= 0 ==> pairs_map(pairs)[key] == pairs[i].value@,
    decreases pairs.len(),
{
    if pairs.len() > 0 && i < pairs.len() - 1 {
        let front = pairs.drop_last();
        assert(pairs[pairs.len() - 1].key@ != key);
        assert forall|j: int| i < j < front.len() implies (#[trigger] front[j]).key@ != key by {
            assert(front[j] == pairs[j]);
        }
        law_last_pair_counts(front, key, i);
    }
}

} // verus!
