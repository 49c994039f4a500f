//! Functions of other crates that the rest of the crate calls, with the contracts
//! that Verus takes on trust.
#[allow(unused_imports)]
use crate::settings::{distinct_keys, entries_map};
#[allow(unused_imports)]
use crate::text::hex_padded;
use std::collections::HashMap;
use vstd::prelude::*;

verus! {

/// What `serde_json::from_str` makes of a text that is to hold a JSON object whose
/// values are strings: the map, or the text of the error.
pub uninterp spec fn json_string_map(text: Seq<char>) -> Result<
    Map<Seq<char>, Seq<char>>,
    Seq<char>,
>;

/// `serde_json::from_str` into a `HashMap` of strings. The entries come in no
/// particular order, each key once; an error is handed out as its text. Map and
/// error depend on the argument alone.
#[verifier::external_body]
pub(crate) fn parse_string_map(text: &str) -> (res: Result<Vec<(String, String)>, String>)
    ensures
        match res {
            Ok(entries) => {
                &&& json_string_map(text@) matches Ok(map)
                &&& map == entries_map(entries@)
                &&& distinct_keys(entries@)
            },
            Err(error) => json_string_map(text@) matches Err(cause) && cause == error@,
        },
{
    match serde_json::from_str::<HashMap<String, String>>(text) {
        Ok(map) => Ok(map.into_iter().collect()),
        Err(error) => Err(error.to_string()),
    }
}

/// How a character is written in a JSON string.
pub open spec fn json_char(c: char) -> Seq<char> {
    let code = c as u32;
    if c == '"' || c == '\\' {
        seq!['\\', c]
    } else if code == 0x08 {
        seq!['\\', 'b']
    } else if code == 0x09 {
        seq!['\\', 't']
    } else if code == 0x0a {
        seq!['\\', 'n']
    } else if code == 0x0c {
        seq!['\\', 'f']
    } else if code == 0x0d {
        seq!['\\', 'r']
    } else if code < 0x20 {
        seq!['\\', 'u'] + hex_padded(code as nat, 4)
    } else {
        seq![c]
    }
}

/// How a text is written between the quotes of a JSON string.
pub open spec fn json_chars(text: Seq<char>) -> Seq<char> {
    text.map_values(|c: char| json_char(c)).flatten()
}

/// A text as a JSON string.
pub open spec fn json_string(text: Seq<char>) -> Seq<char> {
    seq!['"'] + json_chars(text) + seq!['"']
}

/// The line for a key and a value in a JSON object.
pub open spec fn json_line(entry: (Seq<char>, Seq<char>)) -> Seq<char> {
    "  "@ + json_string(entry.0) + ": "@ + json_string(entry.1)
}

/// The lines for the given entries, with a comma after each but the last.
pub open spec fn json_lines(entries: Seq<(Seq<char>, Seq<char>)>) -> Seq<char>
    decreases entries.len(),
{
    if entries.len() == 0 {
        Seq::empty()
    } else if entries.len() == 1 {
        json_line(entries[0])
    } else {
        json_lines(entries.drop_last()) + ",\n"@ + json_line(entries.last())
    }
}

/// A JSON object with the given entries in the given order, one a line.
pub open spec fn json_object(entries: Seq<(Seq<char>, Seq<char>)>) -> Seq<char> {
    if entries.len() == 0 {
        "{}"@
    } else {
        "{\n"@ + json_lines(entries) + "\n}"@
    }
}

/// Whether `entries` are those of `map`, each once.
pub open spec fn lists(
    entries: Seq<(Seq<char>, Seq<char>)>,
    map: Map<Seq<char>, Seq<char>>,
) -> bool {
    &&& forall|i: int, j: int|
        0 <= i < j < entries.len() ==> #[trigger] entries[i].0 != #[trigger] entries[j].0
    &&& forall|i: int|
        0 <= i < entries.len() ==> map.dom().contains(#[trigger] entries[i].0) && map[entries[i].0]
            == entries[i].1
    &&& forall|key: Seq<char>| #[trigger]
        map.dom().contains(key) ==> exists|i: int|
            0 <= i < entries.len() && #[trigger] entries[i].0 == key
}

/// Whether `text` is `map` as a JSON object, one entry a line, in some order.
pub open spec fn is_pretty(text: Seq<char>, map: Map<Seq<char>, Seq<char>>) -> bool {
    exists|entries: Seq<(Seq<char>, Seq<char>)>| #[trigger]
        lists(entries, map) && text == json_object(entries)
}

/// `serde_json::to_string_pretty` of a `HashMap` of strings. It fails only for keys
/// that are not strings or for values that refuse, and here is neither. The text is an
/// object with one entry a line, indented by two spaces, and no line feed at its end;
/// the order of the entries is left open. Parsing the text gives the map back.
#[verifier::external_body]
pub(crate) fn render_string_map(entries: &Vec<(String, String)>) -> (res: Result<String, String>)
    requires
        distinct_keys(entries@),
    ensures
        match res {
            Ok(text) => {
                &&& json_string_map(text@) matches Ok(map)
                &&& map == entries_map(entries@)
                &&& is_pretty(text@, map)
            },
            Err(_) => false,
        },
{
    let map: HashMap<String, String> = entries.iter().cloned().collect();
    match serde_json::to_string_pretty(&map) {
        Ok(text) => Ok(text),
        Err(error) => Err(error.to_string()),
    }
}

/// What `Url::parse` makes of a text: the serialization of the URL, or the text of
/// the error.
pub uninterp spec fn parsed_url(text: Seq<char>) -> Result<Seq<char>, Seq<char>>;

/// `url::Url::parse`. The URL is handed out as its serialization, an error as its
/// text; both depend on the argument alone.
#[verifier::external_body]
pub(crate) fn parse_url(text: &str) -> (res: Result<String, String>)
    ensures
        match res {
            Ok(uri) => parsed_url(text@) matches Ok(serialization) && serialization == uri@,
            Err(error) => parsed_url(text@) matches Err(cause) && cause == error@,
        },
{
    match url::Url::parse(text) {
        Ok(uri) => Ok(String::from(uri)),
        Err(error) => Err(error.to_string()),
    }
}

/// The text of an HTTP status: its number and its reason.
pub uninterp spec fn http_status_text(code: u16) -> Seq<char>;

/// `reqwest::StatusCode`, shown as text. A status code lies between 100 and 999; the
/// text depends on the number alone.
#[verifier::external_body]
pub(crate) fn status_text(code: u16) -> (text: String)
    requires
        100 <= code <= 999,
    ensures
        text@ == http_status_text(code),
{
    reqwest::StatusCode::from_u16(code).unwrap().to_string()
}

} // verus!
