//! Reading configuration entries out of YAML text.
//!
//! The prompt files carry their configuration as YAML blocks.  Decoding the
//! YAML itself is serde_yaml's work and is taken on trust here: each reader
//! below parses the document and fetches one entry, and what it returns is
//! named by an uninterpreted function of the document text, so that callers
//! can state exactly which entry each field of theirs came from.  An entry
//! is addressed by a section (the empty section means the top level) and a
//! key within it.
//!
//! All readers of one document agree on whether it is well formed: they
//! succeed exactly when [`yaml_ok`] holds of it, which requires the text to
//! be valid UTF-8 and valid YAML.

use vstd::prelude::*;

verus! {

/// The document is valid UTF-8 and parses as YAML.  Named result of
/// `serde_yaml::from_str::<Value>` succeeding on the text.
pub uninterp spec fn yaml_ok(doc: Seq<u8>) -> bool;

/// The string entry at `section.key` of `doc`, UTF-8 encoded; nothing when
/// the entry is missing or not a string.
pub uninterp spec fn yaml_bytes_at(doc: Seq<u8>, section: Seq<char>, key: Seq<char>) -> Option<
    Seq<u8>,
>;

/// The unsigned integer entry at `section.key` of `doc`.
pub uninterp spec fn yaml_u64_at(doc: Seq<u8>, section: Seq<char>, key: Seq<char>) -> Option<u64>;

/// The signed integer entry at `section.key` of `doc`.
pub uninterp spec fn yaml_i64_at(doc: Seq<u8>, section: Seq<char>, key: Seq<char>) -> Option<i64>;

/// The boolean entry at `section.key` of `doc`.
pub uninterp spec fn yaml_bool_at(doc: Seq<u8>, section: Seq<char>, key: Seq<char>) -> Option<
    bool,
>;

/// The string-sequence entry at `section.key` of `doc`, each element UTF-8
/// encoded; nothing when the entry is missing, not a sequence, or holds a
/// non-string element.
pub uninterp spec fn yaml_bytes_list_at(doc: Seq<u8>, section: Seq<char>, key: Seq<char>) -> Option<
    Seq<Seq<u8>>,
>;

/// The unsigned-integer-sequence entry at `section.key` of `doc`.
pub uninterp spec fn yaml_u64_list_at(doc: Seq<u8>, section: Seq<char>, key: Seq<char>) -> Option<
    Seq<u64>,
>;

/// The scalar entry at `section.key` of `doc`, rendered back to YAML text;
/// how a decimal fraction is read out of it is then the library's own,
/// verified, work.
pub uninterp spec fn yaml_scalar_text_at(doc: Seq<u8>, section: Seq<char>, key: Seq<char>) -> Option<
    Seq<u8>,
>;

/// The document holds no readable configuration.
pub struct YamlError;

/// Relies on `serde_yaml::from_str::<Value>`, `Value::get` and
/// `Value::as_str`: fetches the string entry at `section.key`.
#[verifier::external_body]
pub(crate) fn yaml_get_bytes(doc: &[u8], section: &str, key: &str) -> (r: Result<
    Option<Vec<u8>>,
    YamlError,
>)
    ensures
        r is Ok <==> yaml_ok(doc@),
        r matches Ok(o) ==> match o {
            Some(v) => yaml_bytes_at(doc@, section@, key@) == Some(v@),
            None => yaml_bytes_at(doc@, section@, key@) is None,
        },
{
    let root: serde_yaml::Value = match std::str::from_utf8(doc).ok().and_then(
        |t| serde_yaml::from_str(t).ok(),
    ) {
        Some(v) => v,
        None => return Err(YamlError),
    };
    let cur = if section.is_empty() {
        Some(&root)
    } else {
        root.get(section)
    };
    Ok(cur.and_then(|c| c.get(key)).and_then(|v| v.as_str()).map(|s| s.as_bytes().to_vec()))
}

/// Relies on `serde_yaml::from_str::<Value>`, `Value::get` and
/// `Value::as_u64`: fetches the unsigned integer entry at `section.key`.
#[verifier::external_body]
pub(crate) fn yaml_get_u64(doc: &[u8], section: &str, key: &str) -> (r: Result<Option<u64>, YamlError>)
    ensures
        r is Ok <==> yaml_ok(doc@),
        r matches Ok(o) ==> o == yaml_u64_at(doc@, section@, key@),
{
    let root: serde_yaml::Value = match std::str::from_utf8(doc).ok().and_then(
        |t| serde_yaml::from_str(t).ok(),
    ) {
        Some(v) => v,
        None => return Err(YamlError),
    };
    let cur = if section.is_empty() {
        Some(&root)
    } else {
        root.get(section)
    };
    Ok(cur.and_then(|c| c.get(key)).and_then(|v| v.as_u64()))
}

/// Relies on `serde_yaml::from_str::<Value>`, `Value::get` and
/// `Value::as_i64`: fetches the signed integer entry at `section.key`.
#[verifier::external_body]
pub(crate) fn yaml_get_i64(doc: &[u8], section: &str, key: &str) -> (r: Result<Option<i64>, YamlError>)
    ensures
        r is Ok <==> yaml_ok(doc@),
        r matches Ok(o) ==> o == yaml_i64_at(doc@, section@, key@),
{
    let root: serde_yaml::Value = match std::str::from_utf8(doc).ok().and_then(
        |t| serde_yaml::from_str(t).ok(),
    ) {
        Some(v) => v,
        None => return Err(YamlError),
    };
    let cur = if section.is_empty() {
        Some(&root)
    } else {
        root.get(section)
    };
    Ok(cur.and_then(|c| c.get(key)).and_then(|v| v.as_i64()))
}

/// Relies on `serde_yaml::from_str::<Value>`, `Value::get` and
/// `Value::as_bool`: fetches the boolean entry at `section.key`.
#[verifier::external_body]
pub(crate) fn yaml_get_bool(doc: &[u8], section: &str, key: &str) -> (r: Result<Option<bool>, YamlError>)
    ensures
        r is Ok <==> yaml_ok(doc@),
        r matches Ok(o) ==> o == yaml_bool_at(doc@, section@, key@),
{
    let root: serde_yaml::Value = match std::str::from_utf8(doc).ok().and_then(
        |t| serde_yaml::from_str(t).ok(),
    ) {
        Some(v) => v,
        None => return Err(YamlError),
    };
    let cur = if section.is_empty() {
        Some(&root)
    } else {
        root.get(section)
    };
    Ok(cur.and_then(|c| c.get(key)).and_then(|v| v.as_bool()))
}

/// Relies on `serde_yaml::from_str::<Value>`, `Value::get`,
/// `Value::as_sequence` and `Value::as_str`: fetches the sequence of
/// strings at `section.key`; a non-string element makes the whole entry
/// unusable.
#[verifier::external_body]
pub(crate) fn yaml_get_bytes_list(doc: &[u8], section: &str, key: &str) -> (r: Result<
    Option<Vec<Vec<u8>>>,
    YamlError,
>)
    ensures
        r is Ok <==> yaml_ok(doc@),
        r matches Ok(o) ==> match o {
            Some(v) => yaml_bytes_list_at(doc@, section@, key@) == Some(v.deep_view()),
            None => yaml_bytes_list_at(doc@, section@, key@) is None,
        },
{
    let root: serde_yaml::Value = match std::str::from_utf8(doc).ok().and_then(
        |t| serde_yaml::from_str(t).ok(),
    ) {
        Some(v) => v,
        None => return Err(YamlError),
    };
    let cur = if section.is_empty() {
        Some(&root)
    } else {
        root.get(section)
    };
    Ok(cur.and_then(|c| c.get(key)).and_then(|v| v.as_sequence()).and_then(
        |seq| seq.iter().map(|v| v.as_str().map(|s| s.as_bytes().to_vec())).collect(),
    ))
}

/// Relies on `serde_yaml::from_str::<Value>`, `Value::get`,
/// `Value::as_sequence` and `Value::as_u64`: fetches the sequence of
/// unsigned integers at `section.key`.
#[verifier::external_body]
pub(crate) fn yaml_get_u64_list(doc: &[u8], section: &str, key: &str) -> (r: Result<
    Option<Vec<u64>>,
    YamlError,
>)
    ensures
        r is Ok <==> yaml_ok(doc@),
        r matches Ok(o) ==> match o {
            Some(v) => yaml_u64_list_at(doc@, section@, key@) == Some(v@),
            None => yaml_u64_list_at(doc@, section@, key@) is None,
        },
{
    let root: serde_yaml::Value = match std::str::from_utf8(doc).ok().and_then(
        |t| serde_yaml::from_str(t).ok(),
    ) {
        Some(v) => v,
        None => return Err(YamlError),
    };
    let cur = if section.is_empty() {
        Some(&root)
    } else {
        root.get(section)
    };
    Ok(cur.and_then(|c| c.get(key)).and_then(|v| v.as_sequence()).and_then(
        |seq| seq.iter().map(|v| v.as_u64()).collect(),
    ))
}

/// Relies on `serde_yaml::from_str::<Value>`, `Value::get` and
/// `serde_yaml::to_string`: fetches the entry at `section.key` rendered
/// back to YAML text, so that a decimal fraction can be read from it by
/// verified code.
#[verifier::external_body]
pub(crate) fn yaml_get_scalar_text(doc: &[u8], section: &str, key: &str) -> (r: Result<
    Option<Vec<u8>>,
    YamlError,
>)
    ensures
        r is Ok <==> yaml_ok(doc@),
        r matches Ok(o) ==> match o {
            Some(v) => yaml_scalar_text_at(doc@, section@, key@) == Some(v@),
            None => yaml_scalar_text_at(doc@, section@, key@) is None,
        },
{
    let root: serde_yaml::Value = match std::str::from_utf8(doc).ok().and_then(
        |t| serde_yaml::from_str(t).ok(),
    ) {
        Some(v) => v,
        None => return Err(YamlError),
    };
    let cur = if section.is_empty() {
        Some(&root)
    } else {
        root.get(section)
    };
    Ok(cur.and_then(|c| c.get(key)).and_then(
        |v| serde_yaml::to_string(v).ok().map(|s| s.as_bytes().to_vec()),
    ))
}

} // verus!
