//! Reading one string out of JSON text.
//!
//! The backend's wire protocol answers with JSON bodies, and the prompt
//! preprocessor can splice strings out of JSON files.  Both need exactly one
//! operation: fetch the string a JSON pointer addresses.  Decoding the JSON
//! is serde_json's work and is taken on trust; what it returns is named by
//! an uninterpreted function of the document text.

use vstd::prelude::*;

verus! {

/// The document is valid UTF-8 and parses as JSON.  Named result of
/// `serde_json::from_str::<Value>` succeeding on the text.
pub uninterp spec fn json_ok(doc: Seq<u8>) -> bool;

/// The string that the JSON pointer addresses in `doc`, UTF-8 encoded;
/// nothing when the path is missing, the value there is not a string, or
/// the pointer itself is not UTF-8.
pub uninterp spec fn json_str_at(doc: Seq<u8>, pointer: Seq<u8>) -> Option<Seq<u8>>;

/// The document holds no readable JSON.
pub struct JsonError;

/// Relies on `serde_json::from_str::<Value>`, `Value::pointer` and
/// `Value::as_str`: fetches the string that `pointer` addresses.
#[verifier::external_body]
pub(crate) fn json_get_pointer_string(doc: &[u8], pointer: &[u8]) -> (r: Result<
    Option<Vec<u8>>,
    JsonError,
>)
    ensures
        r is Ok <==> json_ok(doc@),
        r matches Ok(o) ==> match o {
            Some(v) => json_str_at(doc@, pointer@) == Some(v@),
            None => json_str_at(doc@, pointer@) is None,
        },
{
    let root: serde_json::Value = match std::str::from_utf8(doc).ok().and_then(
        |t| serde_json::from_str(t).ok(),
    ) {
        Some(v) => v,
        None => return Err(JsonError),
    };
    Ok(std::str::from_utf8(pointer).ok().and_then(|p| root.pointer(p)).and_then(
        |v| v.as_str(),
    ).map(|s| s.as_bytes().to_vec()))
}

} // verus!
