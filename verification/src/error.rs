//! The library's error types.
//!
//! Startup errors live with the startup machine; everything else that can go
//! wrong — unreadable prompt files, unusable wire responses, misspelt
//! commands — is here.

use vstd::prelude::*;

verus! {

/// Why a prompt file, or one of its blocks, could not be read.
#[derive(PartialEq, Eq, Structural, Clone, Copy, Debug)]
pub enum ParseError {
    /// The file has no configuration block.
    NoConfig,
    /// A character block is opened and never closed.
    UnclosedCharTag,
    /// A context block is opened and never closed.
    UnclosedContextTag,
    /// A YAML block cannot be read.
    BadYaml,
    /// An include statement has no end tag.
    MissingIncludeEnd,
    /// An include statement names too few arguments.
    TooFewJsonArgs,
    /// A JSON file cannot be read.
    BadJson,
    /// A JSON pointer addresses no string.
    JsonPointerMissing,
    /// The file has no prompt tag to write a prompt after.
    NoPromptTag,
    /// No character of the wanted name exists.
    NoSuchCharacter,
}

/// Why a command line could not be read.
#[derive(PartialEq, Eq, Structural, Clone, Copy, Debug)]
pub enum CommandError {
    /// The input holds no word.
    Empty,
    /// The char command needs a name after it.
    CharNeedsName,
    /// The swipe command takes nothing, `list`, or a number.
    BadSwipe,
    /// No command of that name exists.
    Unrecognized,
}

/// Why the response history could not serve a request.
#[derive(PartialEq, Eq, Structural, Clone, Copy, Debug)]
pub enum HistoryError {
    /// The current prompt has no recorded responses.
    NoResponses,
    /// The prompt's responses have no entry at that index.
    NoSuchResponse,
}

/// Why a wire response could not be used.
#[derive(PartialEq, Eq, Structural, Clone, Copy, Debug)]
pub enum TransportError {
    /// The response body is not JSON, or carries no result text where the
    /// protocol promises one.
    InvalidResponse,
}

} // verus!
