//! What a reader of the pool is given: the current generation as a JSON
//! array of strings.

use crate::store::PoolStore;
use vstd::prelude::*;

verus! {

/// What `serde_json::to_string` makes of a list of strings: the JSON text,
/// or nothing if it reports an error.
pub uninterp spec fn json_text(list: Seq<Seq<char>>) -> Option<Seq<char>>;

/// Why a pool could not be rendered.
#[derive(Clone, Copy, Debug, PartialEq, Eq, Structural)]
pub enum AccessError {
    /// The encoder reported an error.
    Encoding,
}

/// Encodes `list` with `serde_json::to_string`. The contract only names
/// the result: the same list gives the same text, or the same failure.
#[verifier::external_body]
fn encode(list: &Vec<String>) -> (text: Option<String>)
    ensures
        text.deep_view() == json_text(list.deep_view()),
{
    serde_json::to_string(list).ok()
}

/// The response for what the encoder gave: its text, or the error.
pub open spec fn response(encoded: Option<Seq<char>>) -> Result<Seq<char>, AccessError> {
    match encoded {
        Some(text) => Ok(text),
        None => Err(AccessError::Encoding),
    }
}

/// A response as a mathematical value.
pub open spec fn response_view(body: Result<String, AccessError>) -> Result<
    Seq<char>,
    AccessError,
> {
    match body {
        Ok(text) => Ok(text@),
        Err(e) => Err(e),
    }
}

/// The response for what the encoder gave.
pub fn response_of(encoded: Option<String>) -> (body: Result<String, AccessError>)
    ensures
        response_view(body) == response(encoded.deep_view()),
{
    match encoded {
        Some(text) => Ok(text),
        None => Err(AccessError::Encoding),
    }
}

/// The body that a reader is given: the current generation of `store`,
/// whole, as a JSON array of strings. Before the first generation this is
/// the encoding of the empty list.
pub fn pool_response(store: &PoolStore) -> (body: Result<String, AccessError>)
    ensures
        response_view(body) == response(json_text(store@.pool)),
{
    response_of(encode(store.current().endpoints()))
}

} // verus!
