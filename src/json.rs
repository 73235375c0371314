use vstd::prelude::*;

use crate::settings::synonym_keys;

verus! {

#[verifier::external_type_specification]
#[verifier::external_body]
pub struct ExJsonError(serde_json::Error);

/// The JSON text serde_json writes for a string: the characters quoted and
/// escaped.
pub uninterp spec fn quoted(s: Seq<char>) -> Seq<u8>;

/// The compact JSON text serde_json writes back for the JSON value in `b`, or
/// `None` where `b` holds no JSON value.
pub uninterp spec fn value_text(b: Seq<u8>) -> Option<Seq<u8>>;

/// The members of the JSON object in `b`, in the order in which they stand,
/// each value as compact JSON text; `None` where `b` holds no JSON object.
pub uninterp spec fn object_entries(b: Seq<u8>) -> Option<Seq<(Seq<char>, Seq<u8>)>>;

/// What serde_json reads from `b` as an optional list of strings: `Some(None)`
/// for `null`; `None` where `b` holds neither.
pub uninterp spec fn string_list_of(b: Seq<u8>) -> Option<Option<Seq<Seq<char>>>>;

/// What serde_json reads from `b` as an optional map from strings to lists of
/// strings, in the order in which the words first stand: `Some(None)` for
/// `null`; `None` where `b` holds neither.
pub uninterp spec fn synonyms_of(b: Seq<u8>) -> Option<Option<Seq<(Seq<char>, Seq<Seq<char>>)>>>;

/// What serde_json reads from `b` as an optional string: `Some(None)` for
/// `null`; `None` where `b` holds neither.
pub uninterp spec fn opt_string_of(b: Seq<u8>) -> Option<Option<Seq<char>>>;

/// Bytes are their own deep view.
pub proof fn lemma_bytes_deep_view(b: Vec<u8>)
    ensures
        b.deep_view() == b@,
{
    assert(b.deep_view() =~= b@);
}

/// Relies on serde_json::to_vec: a `str` is written as one JSON string, which
/// cannot fail.
#[verifier::external_body]
pub(crate) fn quote(s: &str) -> (r: Vec<u8>)
    ensures
        r@ == quoted(s@),
{
    match serde_json::to_vec(s) {
        Ok(v) => v,
        Err(_) => Vec::new(),
    }
}

/// Relies on serde_json::from_slice into a `serde_json::Value`, written back
/// with the value's compact `Display`.
#[verifier::external_body]
pub(crate) fn reencode_value(b: &[u8]) -> (r: Result<Vec<u8>, serde_json::Error>)
    ensures
        r is Ok <==> value_text(b@) is Some,
        r is Ok ==> Some(r->Ok_0@) == value_text(b@),
{
    serde_json::from_slice::<serde_json::Value>(b).map(|v| v.to_string().into_bytes())
}

/// Relies on serde_json::from_slice into a `serde_json::Map`, which, with the
/// `preserve_order` feature, keeps the members in the order they are read; each
/// value is written back with its compact `Display`.
#[verifier::external_body]
pub(crate) fn parse_object(b: &[u8]) -> (r: Result<Vec<(String, Vec<u8>)>, serde_json::Error>)
    ensures
        r is Ok <==> object_entries(b@) is Some,
        r is Ok ==> Some(r->Ok_0.deep_view()) == object_entries(b@),
{
    serde_json::from_slice::<serde_json::Map<String, serde_json::Value>>(b).map(
        |m| m.into_iter().map(|(k, v)| (k, v.to_string().into_bytes())).collect(),
    )
}

/// Relies on serde_json::from_slice into an `Option<Vec<String>>`.
#[verifier::external_body]
pub(crate) fn parse_string_list(b: &[u8]) -> (r: Result<Option<Vec<String>>, serde_json::Error>)
    ensures
        r is Ok <==> string_list_of(b@) is Some,
        r is Ok ==> match r->Ok_0 {
            Some(v) => string_list_of(b@) == Some(Some(v.deep_view())),
            None => string_list_of(b@) == Some(None::<Seq<Seq<char>>>),
        },
{
    serde_json::from_slice::<Option<Vec<String>>>(b)
}

/// Relies on serde_json::from_slice into an `Option<IndexMap<String, Vec<String>>>`
/// (indexmap's `serde` feature), whose entries are then taken in the map's
/// order; a map holds each word once.
#[verifier::external_body]
pub(crate) fn parse_synonyms(b: &[u8]) -> (r: Result<Option<Vec<(String, Vec<String>)>>, serde_json::Error>)
    ensures
        r is Ok <==> synonyms_of(b@) is Some,
        r matches Ok(Some(v)) ==> synonym_keys(v.deep_view()).no_duplicates(),
        r is Ok ==> match r->Ok_0 {
            Some(v) => synonyms_of(b@) == Some(Some(v.deep_view())),
            None => synonyms_of(b@) == Some(None::<Seq<(Seq<char>, Seq<Seq<char>>)>>),
        },
{
    serde_json::from_slice::<Option<indexmap::IndexMap<String, Vec<String>>>>(b)
        .map(|o| o.map(|m| m.into_iter().collect()))
}

/// Relies on serde_json::from_slice into an `Option<String>`.
#[verifier::external_body]
pub(crate) fn parse_opt_string(b: &[u8]) -> (r: Result<Option<String>, serde_json::Error>)
    ensures
        r is Ok <==> opt_string_of(b@) is Some,
        r is Ok ==> match r->Ok_0 {
            Some(s) => opt_string_of(b@) == Some(Some(s@)),
            None => opt_string_of(b@) == Some(None::<Seq<char>>),
        },
{
    serde_json::from_slice::<Option<String>>(b)
}

} // verus!
