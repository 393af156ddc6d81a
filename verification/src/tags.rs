//! The markers of the prompt-file format.
//!
//! A prompt file is plain text with tagged blocks in it: a configuration
//! block, an optional prompt section, character blocks, named context
//! blocks, and include statements that the preprocessor resolves.  Each
//! marker is given here twice: as a specification constant (its bytes), and
//! as an executable accessor proved to return exactly those bytes.

use vstd::prelude::*;

verus! {

use vstd::string::StringSliceAdditionalSpecFns;
use vstd::string::is_ascii;

/// The bytes of `<|CONFIG|>`.
pub open spec fn config_tag() -> Seq<u8> {
    seq![60u8, 124u8, 67u8, 79u8, 78u8, 70u8, 73u8, 71u8, 124u8, 62u8]
}

/// The bytes of `<|ENDCONFIG|>`.
pub open spec fn endconfig_tag() -> Seq<u8> {
    seq![60u8, 124u8, 69u8, 78u8, 68u8, 67u8, 79u8, 78u8, 70u8, 73u8, 71u8, 124u8, 62u8]
}

/// The bytes of `<|PROMPT|>`.
pub open spec fn prompt_tag() -> Seq<u8> {
    seq![60u8, 124u8, 80u8, 82u8, 79u8, 77u8, 80u8, 84u8, 124u8, 62u8]
}

/// The bytes of `<|CHAR|>`.
pub open spec fn char_tag() -> Seq<u8> {
    seq![60u8, 124u8, 67u8, 72u8, 65u8, 82u8, 124u8, 62u8]
}

/// The bytes of `<|ENDCHAR|>`.
pub open spec fn endchar_tag() -> Seq<u8> {
    seq![60u8, 124u8, 69u8, 78u8, 68u8, 67u8, 72u8, 65u8, 82u8, 124u8, 62u8]
}

/// The bytes of `<|CONTEXT`, the opening of a named context block.
pub open spec fn context_tag() -> Seq<u8> {
    seq![60u8, 124u8, 67u8, 79u8, 78u8, 84u8, 69u8, 88u8, 84u8]
}

/// The bytes of `<|ENDCONTEXT|>`.
pub open spec fn endcontext_tag() -> Seq<u8> {
    seq![60u8, 124u8, 69u8, 78u8, 68u8, 67u8, 79u8, 78u8, 84u8, 69u8, 88u8, 84u8, 124u8, 62u8]
}

/// The bytes of `|>`, the closing of an open-ended tag.
pub open spec fn end_tag() -> Seq<u8> {
    seq![124u8, 62u8]
}

/// The bytes of `<|INCLUDE`, the opening of a file include statement.
pub open spec fn include_tag() -> Seq<u8> {
    seq![60u8, 124u8, 73u8, 78u8, 67u8, 76u8, 85u8, 68u8, 69u8]
}

/// The bytes of `<|JSON`, the opening of a JSON splice statement.
pub open spec fn include_json_tag() -> Seq<u8> {
    seq![60u8, 124u8, 74u8, 83u8, 79u8, 78u8]
}

/// `<|CONFIG|>`, the opening of the configuration block.
pub fn config_tag_bytes() -> (r: &'static [u8])
    ensures
        r@ == config_tag(),
{
    let t = "<|CONFIG|>";
    proof {
        reveal_strlit("<|CONFIG|>");
        assert(is_ascii(t));
        vstd::string::is_ascii_spec_bytes(t);
        assert(t.spec_bytes() =~= config_tag());
    }
    t.as_bytes()
}

/// `<|ENDCONFIG|>`, the closing of the configuration block.
pub fn endconfig_tag_bytes() -> (r: &'static [u8])
    ensures
        r@ == endconfig_tag(),
{
    let t = "<|ENDCONFIG|>";
    proof {
        reveal_strlit("<|ENDCONFIG|>");
        assert(is_ascii(t));
        vstd::string::is_ascii_spec_bytes(t);
        assert(t.spec_bytes() =~= endconfig_tag());
    }
    t.as_bytes()
}

/// `<|PROMPT|>`, the opening of the prompt section.
pub fn prompt_tag_bytes() -> (r: &'static [u8])
    ensures
        r@ == prompt_tag(),
{
    let t = "<|PROMPT|>";
    proof {
        reveal_strlit("<|PROMPT|>");
        assert(is_ascii(t));
        vstd::string::is_ascii_spec_bytes(t);
        assert(t.spec_bytes() =~= prompt_tag());
    }
    t.as_bytes()
}

/// `<|CHAR|>`, the opening of a character block.
pub fn char_tag_bytes() -> (r: &'static [u8])
    ensures
        r@ == char_tag(),
{
    let t = "<|CHAR|>";
    proof {
        reveal_strlit("<|CHAR|>");
        assert(is_ascii(t));
        vstd::string::is_ascii_spec_bytes(t);
        assert(t.spec_bytes() =~= char_tag());
    }
    t.as_bytes()
}

/// `<|ENDCHAR|>`, the closing of a character block.
pub fn endchar_tag_bytes() -> (r: &'static [u8])
    ensures
        r@ == endchar_tag(),
{
    let t = "<|ENDCHAR|>";
    proof {
        reveal_strlit("<|ENDCHAR|>");
        assert(is_ascii(t));
        vstd::string::is_ascii_spec_bytes(t);
        assert(t.spec_bytes() =~= endchar_tag());
    }
    t.as_bytes()
}

/// `<|CONTEXT`, the opening of a named context block.
pub fn context_tag_bytes() -> (r: &'static [u8])
    ensures
        r@ == context_tag(),
{
    let t = "<|CONTEXT";
    proof {
        reveal_strlit("<|CONTEXT");
        assert(is_ascii(t));
        vstd::string::is_ascii_spec_bytes(t);
        assert(t.spec_bytes() =~= context_tag());
    }
    t.as_bytes()
}

/// `<|ENDCONTEXT|>`, the closing of a named context block.
pub fn endcontext_tag_bytes() -> (r: &'static [u8])
    ensures
        r@ == endcontext_tag(),
{
    let t = "<|ENDCONTEXT|>";
    proof {
        reveal_strlit("<|ENDCONTEXT|>");
        assert(is_ascii(t));
        vstd::string::is_ascii_spec_bytes(t);
        assert(t.spec_bytes() =~= endcontext_tag());
    }
    t.as_bytes()
}

/// `|>`, the closing of an open-ended tag.
pub fn end_tag_bytes() -> (r: &'static [u8])
    ensures
        r@ == end_tag(),
{
    let t = "|>";
    proof {
        reveal_strlit("|>");
        assert(is_ascii(t));
        vstd::string::is_ascii_spec_bytes(t);
        assert(t.spec_bytes() =~= end_tag());
    }
    t.as_bytes()
}

/// `<|INCLUDE`, the opening of a file include statement.
pub fn include_tag_bytes() -> (r: &'static [u8])
    ensures
        r@ == include_tag(),
{
    let t = "<|INCLUDE";
    proof {
        reveal_strlit("<|INCLUDE");
        assert(is_ascii(t));
        vstd::string::is_ascii_spec_bytes(t);
        assert(t.spec_bytes() =~= include_tag());
    }
    t.as_bytes()
}

/// `<|JSON`, the opening of a JSON splice statement.
pub fn include_json_tag_bytes() -> (r: &'static [u8])
    ensures
        r@ == include_json_tag(),
{
    let t = "<|JSON";
    proof {
        reveal_strlit("<|JSON");
        assert(is_ascii(t));
        vstd::string::is_ascii_spec_bytes(t);
        assert(t.spec_bytes() =~= include_json_tag());
    }
    t.as_bytes()
}

} // verus!
