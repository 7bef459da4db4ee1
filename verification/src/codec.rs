//! The codec boundary: the bulk (de)serialization of a whole store,
//! delegated to `serde_json` and trusted through the contracts below.

use vstd::prelude::*;

use crate::store::map_of_pairs;

verus! {

/// The pretty-printed JSON object text that `serde_json` produces for a
/// string-to-string mapping. The text is a function of the mapping
/// alone: the entries are serialized in ascending key order.
pub uninterp spec fn json_object_text(m: Map<Seq<char>, Seq<char>>) -> Seq<char>;

/// The string-to-string mapping that `serde_json` parses out of a text,
/// or `None` when the text is not a JSON object of string values. The
/// outcome is a function of the text alone.
pub uninterp spec fn json_object_of(t: Seq<char>) -> Option<Map<Seq<char>, Seq<char>>>;

/// Relies on `serde_json::to_string_pretty` applied to a
/// `BTreeMap<&str, &str>`: serialization of a string-keyed map of
/// strings cannot fail (its documentation owes an error only for a
/// failing `Serialize` impl or non-string keys), the output is
/// determined by the entries alone (a `BTreeMap` iterates in key
/// order), and `serde_json::from_str` parses the produced object text
/// back to the same entries.
#[verifier::external_body]
pub(crate) fn encode_entries(entries: &Vec<(String, String)>) -> (r: String)
    requires
        crate::store::distinct_keys(entries@),
    ensures
        r@ == json_object_text(map_of_pairs(entries@)),
        json_object_of(r@) == Some(map_of_pairs(entries@)),
{
    let m: std::collections::BTreeMap<&str, &str> =
        entries.iter().map(|e| (e.0.as_str(), e.1.as_str())).collect();
    serde_json::to_string_pretty(&m).unwrap_or_default()
}

/// Relies on `serde_json::from_str::<HashMap<String, String>>`: it
/// succeeds exactly on texts holding a JSON object of string values,
/// the parsed mapping (with its necessarily unique keys) is a function
/// of the text alone, and the error's message names the cause. The
/// order of the returned entries is whatever the `HashMap` iteration
/// gave and is not stated.
#[verifier::external_body]
pub(crate) fn decode_entries(text: &str) -> (r: Result<Vec<(String, String)>, String>)
    ensures
        r is Ok <==> json_object_of(text@) is Some,
        r is Ok ==> crate::store::distinct_keys(r->Ok_0@),
        r is Ok ==> map_of_pairs(r->Ok_0@) == json_object_of(text@)->0,
{
    match serde_json::from_str::<std::collections::HashMap<String, String>>(text) {
        Ok(m) => Ok(m.into_iter().collect()),
        Err(e) => Err(e.to_string()),
    }
}

} // verus!
