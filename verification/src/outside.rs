//! The calls into other crates that the parsers of this library rest on.
//!
//! Nothing in this file is proved. Each function makes one call into
//! another crate, or into std where its contract is not known otherwise,
//! and hands the answer on; each `uninterp` function is the name under
//! which the verified code speaks of such an answer or of what a document
//! holds.

use crate::text::optional_text;
use nparse::KVStrToJson;
use vstd::prelude::*;
use vstd::utf8::{decode_utf8, valid_utf8};

verus! {

/// The error that `regex::Regex::new` reports for a pattern it does not accept.
#[verifier::external_type_specification]
#[verifier::external_body]
pub struct ExRegexError(regex::Error);

/// The error that `ini::Ini::load_from_str` reports, with the place it stopped at.
#[verifier::external_type_specification]
#[verifier::external_body]
pub struct ExIniParseError(ini::ParseError);

/// The document that `ini::Ini::load_from_str` makes of an INI text.
#[verifier::external_type_specification]
#[verifier::external_body]
pub struct ExIni(ini::Ini);

/// The error that `String::from_utf8` of std reports for bytes that are no UTF-8.
#[verifier::external_type_specification]
#[verifier::external_body]
pub struct ExFromUtf8Error(std::string::FromUtf8Error);

/// `String::from_utf8` of std: the text that the bytes encode, or an error
/// where they are not valid UTF-8.
#[verifier::external_body]
pub(crate) fn string_from_utf8(bytes: Vec<u8>) -> (r: Result<String, std::string::FromUtf8Error>)
    ensures
        r is Ok <==> valid_utf8(bytes@),
        r matches Ok(text) ==> text@ == decode_utf8(bytes@),
{
    String::from_utf8(bytes)
}

/// The document that `nparse` makes of a listing of `Key: value` lines.
#[verifier::external_type_specification]
#[verifier::external_body]
pub struct ExJsonValue(serde_json::Value);

/// What a JSON value holds as texts: where it is an object, each of its
/// members whose value is a string, by the name of the member; nothing
/// where it is no object.
pub uninterp spec fn json_texts(value: serde_json::Value) -> Map<Seq<char>, Seq<char>>;

/// What nparse's `kv_str_to_json` makes of a listing of `Key: value` lines,
/// as the texts of the document that it returns; `None` where it reports
/// an error.
pub uninterp spec fn kv_document(text: Seq<char>) -> Option<Map<Seq<char>, Seq<char>>>;

/// `nparse::KVStrToJson::kv_str_to_json`: the document of a listing, or the
/// message of the parser where it gives up.
#[verifier::external_body]
pub(crate) fn kv_str_to_json(text: &str) -> (r: Result<serde_json::Value, String>)
    ensures
        r is Err ==> kv_document(text@) is None,
        r matches Ok(document) ==> kv_document(text@) == Some(json_texts(document)),
{
    text.to_string().kv_str_to_json()
}

/// The value under `key`, where the texts hold one.
pub open spec fn text_at(texts: Map<Seq<char>, Seq<char>>, key: Seq<char>) -> Option<Seq<char>> {
    if texts.contains_key(key) {
        Some(texts[key])
    } else {
        None
    }
}

/// The index of `serde_json::Value` by a key, then `Value::as_str`: the
/// string that the member `key` holds. The index gives `Null` for a missing
/// member and for a value that is no object, and `as_str` gives `None` for
/// anything but a string, so no input makes it panic.
#[verifier::external_body]
pub(crate) fn json_text(value: &serde_json::Value, key: &str) -> (r: Option<String>)
    ensures
        optional_text(r) == text_at(json_texts(*value), key@),
{
    value[key].as_str().map(|s| s.to_string())
}

/// What the capture group `group` of the regular expression `pattern`
/// holds at the leftmost match in `text`: `None` where the regex crate
/// rejects the pattern, `Some(None)` where nothing matches, where the
/// pattern has no such group, or where the group took no part in the match.
pub uninterp spec fn regex_group(pattern: Seq<char>, text: Seq<char>, group: usize) -> Option<
    Option<Seq<char>>,
>;

/// Compiles `pattern` with `regex::Regex::new`, searches `text` with
/// `Regex::captures` and copies what `Captures::get` gives for `group`. A
/// rejected pattern comes back as the error of the crate; none of the
/// three calls panics.
#[verifier::external_body]
pub(crate) fn regex_capture(pattern: &str, text: &str, group: usize) -> (r: Result<
    Option<String>,
    regex::Error,
>)
    ensures
        r is Err ==> regex_group(pattern@, text@, group) is None,
        r matches Ok(found) ==> regex_group(pattern@, text@, group) == Some(optional_text(found)),
{
    let re = regex::Regex::new(pattern)?;
    Ok(re.captures(text).and_then(|c| c.get(group)).map(|m| m.as_str().to_string()))
}

/// What an INI document holds: for each of its named sections, by name,
/// the keys of the section with their values; of two sections of one name
/// the first, and of two values of one key the first.
pub uninterp spec fn ini_sections(ini: ini::Ini) -> Map<Seq<char>, Map<Seq<char>, Seq<char>>>;

/// What rust-ini's `Ini::load_from_str` makes of a text, as the sections of
/// the document that it returns; `None` where it reports an error.
pub uninterp spec fn parsed_ini(contents: Seq<char>) -> Option<
    Map<Seq<char>, Map<Seq<char>, Seq<char>>>,
>;

/// `ini::Ini::load_from_str`: the document that a text holds, or the error
/// of the parser with the place where it gave up.
#[verifier::external_body]
pub(crate) fn load_ini(contents: &str) -> (r: Result<ini::Ini, ini::ParseError>)
    ensures
        r is Err ==> parsed_ini(contents@) is None,
        r matches Ok(ini) ==> parsed_ini(contents@) == Some(ini_sections(ini)),
{
    ini::Ini::load_from_str(contents)
}

/// `ini::Ini::section`: whether the document has a section of this name.
#[verifier::external_body]
pub(crate) fn ini_has_section(ini: &ini::Ini, section: &str) -> (r: bool)
    ensures
        r == ini_sections(*ini).contains_key(section@),
{
    ini.section(Some(section)).is_some()
}

/// The value of `key` in the section `section`, where the sections hold both.
pub open spec fn section_value(
    sections: Map<Seq<char>, Map<Seq<char>, Seq<char>>>,
    section: Seq<char>,
    key: Seq<char>,
) -> Option<Seq<char>> {
    if sections.contains_key(section) && sections[section].contains_key(key) {
        Some(sections[section][key])
    } else {
        None
    }
}

/// `ini::Ini::get_from`: the value of `key` in the section `section`, where
/// the document has both.
#[verifier::external_body]
pub(crate) fn ini_get(ini: &ini::Ini, section: &str, key: &str) -> (r: Option<String>)
    ensures
        optional_text(r) == section_value(ini_sections(*ini), section@, key@),
{
    ini.get_from(Some(section), key).map(|s| s.to_string())
}

} // verus!
