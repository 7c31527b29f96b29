//! The codec of the features column of `versions.csv`: a JSON object that
//! maps each feature to the list of what it enables.

use vstd::prelude::*;
use crate::error::{ErrorKind, Expected, Invalid};
use crate::record::invalid_if;
use crate::text::{bytes_of, precedes};

verus! {

/// The value of a list of features: each name with what it enables.
pub open spec fn features_view(features: Seq<(String, Vec<String>)>) -> Seq<
    (Seq<char>, Seq<Seq<char>>),
> {
    features.map_values(|f: (String, Vec<String>)| (f.0@, f.1@.map_values(|s: String| s@)))
}

/// Whether the names of `features` stand in ascending order, so that none
/// stands twice.
pub open spec fn in_order(features: Seq<(Seq<char>, Seq<Seq<char>>)>) -> bool {
    forall|i: int, j: int|
        #![trigger features[i], features[j]]
        0 <= i < j < features.len() ==> precedes(bytes_of(features[i].0), bytes_of(features[j].0))
}

/// What serde_json reads in `text` as an object of string lists, its
/// entries in the order of their keys; `None` where it reports an error.
pub uninterp spec fn json_features(text: Seq<char>) -> Option<Seq<(Seq<char>, Seq<Seq<char>>)>>;

/// `serde_json::from_str` for a `BTreeMap` from strings to lists of
/// strings: the entries of the map as the map hands them out, which is in
/// the ascending order of their keys, or the parser's message.
#[verifier::external_body]
fn parse_features(text: &str) -> (r: Result<Vec<(String, Vec<String>)>, String>)
    ensures
        match r {
            Ok(features) => json_features(text@) == Some(features_view(features@)),
            Err(_) => json_features(text@) is None,
        },
        r matches Ok(features) ==> in_order(features_view(features@)),
{
    match ::serde_json::from_str::<std::collections::BTreeMap<String, Vec<String>>>(text) {
        Ok(map) => Ok(map.into_iter().collect()),
        Err(e) => Err(e.to_string()),
    }
}

/// Settles the features of a cell of which the parser gave `parsed`.
pub fn features_from(parsed: Result<Vec<(String, Vec<String>)>, String>) -> (r: Result<
    Vec<(String, Vec<String>)>,
    Invalid,
>)
    ensures
        match (parsed, r) {
            (Ok(features), Ok(same)) => same == features,
            (Err(message), Err(e)) => e.expected == Expected::Features && e.detail@ == message@,
            _ => false,
        },
{
    match parsed {
        Ok(features) => Ok(features),
        Err(message) => Err(Invalid { expected: Expected::Features, detail: message }),
    }
}

/// Decodes a features cell. The names of the features come out in
/// ascending order, each once.
pub fn de(text: &str) -> (r: Result<Vec<(String, Vec<String>)>, Invalid>)
    ensures
        match r {
            Ok(features) => json_features(text@) == Some(features_view(features@)) && in_order(
                features_view(features@),
            ),
            Err(e) => json_features(text@) is None && e.expected == Expected::Features,
        },
{
    features_from(parse_features(text))
}

/// The fault of the features cell `cell` of column `k`.
pub open spec fn fault(cell: Seq<char>, k: int) -> Option<ErrorKind> {
    invalid_if(json_features(cell) is None, k, Expected::Features)
}

} // verus!
