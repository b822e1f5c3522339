//! The watched links as JSON text, written and read by `serde_json`.

use vstd::prelude::*;

verus! {

/// The error of `serde_json`.
#[verifier::external_type_specification]
#[verifier::external_body]
pub struct ExJsonError(serde_json::Error);

/// The JSON text that `serde_json::to_string` writes for a list of strings:
/// an array of JSON strings.
pub uninterp spec fn json_of_links(links: Seq<Seq<char>>) -> Seq<char>;

/// The list of strings that `serde_json::from_slice` reads from the bytes of
/// a text, or `None` where it does not read the text as an array of strings.
pub uninterp spec fn links_of_json(text: Seq<char>) -> Option<Seq<Seq<char>>>;

/// The links as JSON text.
///
/// Trusted: the body calls `serde_json::to_string` on the list. What it
/// writes depends on the strings alone. It always writes: for a list of
/// strings the serializer fails only where its writer fails, and it writes
/// into a `Vec<u8>`, which takes every byte.
#[verifier::external_body]
pub(crate) fn to_json(links: &Vec<String>) -> (r: Result<String, serde_json::Error>)
    ensures
        r is Ok,
        r matches Ok(text) ==> text@ == json_of_links(links.deep_view()),
{
    serde_json::to_string(links)
}

/// The links that a JSON text holds.
///
/// Trusted: the body calls `serde_json::from_slice` for a `Vec<String>` on
/// the bytes of the text. What it reads, and whether it reads anything,
/// depends on the text alone.
#[verifier::external_body]
pub(crate) fn from_json(text: &str) -> (r: Result<Vec<String>, serde_json::Error>)
    ensures
        match r {
            Ok(links) => links_of_json(text@) == Some(links.deep_view()),
            Err(_) => links_of_json(text@) is None,
        },
{
    serde_json::from_slice(text.as_bytes())
}

} // verus!
