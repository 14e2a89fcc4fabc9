//! Reading JSON text with `serde_json`.
//!
//! Two questions are put to the parser, and each answer depends on the text alone:
//! what the members of an object are, and what a string literal says.
use std::collections::BTreeMap;
use vstd::prelude::*;

verus! {

/// What `serde_json` makes of `text` read as an object: its members in the order
/// of their keys, each key with the JSON text of its value as it stands in `text`;
/// of members with the same key the last one counts. `None` where `text` is not
/// one JSON object, white space around it aside.
pub uninterp spec fn json_object(text: Seq<char>) -> Option<Seq<(Seq<char>, Seq<char>)>>;

/// What `serde_json` makes of `text` read as a string: the text that the literal
/// stands for, escapes resolved. `None` where `text` is not one JSON string, white
/// space around it aside.
pub uninterp spec fn json_string(text: Seq<char>) -> Option<Seq<char>>;

/// The texts of a list of pairs.
pub open spec fn pairs_view(pairs: Seq<(String, String)>) -> Seq<(Seq<char>, Seq<char>)> {
    pairs.map_values(|p: (String, String)| (p.0@, p.1@))
}

/// Calls `serde_json::from_str` for a map from `String` to raw values
/// (`serde_json::value::RawValue`, whose `get` is the JSON text of the value). The
/// answer is named `json_object`; an error of the parser is answered with `None`.
/// A text that is read as an object holds an opening brace.
#[verifier::external_body]
pub(crate) fn object_members(text: &str) -> (members: Option<Vec<(String, String)>>)
    ensures
        match members {
            Some(pairs) => json_object(text@) == Some(pairs_view(pairs@)) && text@.contains('{'),
            None => json_object(text@) is None,
        },
{
    let parsed: Result<BTreeMap<String, Box<serde_json::value::RawValue>>, serde_json::Error> =
        serde_json::from_str(text);
    match parsed {
        Ok(map) => Some(map.into_iter().map(|(k, v)| (k, v.get().to_owned())).collect()),
        Err(_) => None,
    }
}

/// Calls `serde_json::from_str` for a `String`. The answer is named `json_string`;
/// an error of the parser is answered with `None`.
#[verifier::external_body]
pub(crate) fn string_value(text: &str) -> (value: Option<String>)
    ensures
        match value {
            Some(s) => json_string(text@) == Some(s@),
            None => json_string(text@) is None,
        },
{
    serde_json::from_str::<String>(text).ok()
}

} // verus!
