//! The configuration a prompt file carries: who speaks, how to sample, and
//! how the backend pool is laid out.
//!
//! All text is held as UTF-8 bytes.  Sampling parameters that the backend
//! takes as decimal fractions are held in thousandths (`*_milli` fields); a
//! `rep_pen` of 1.1 is stored as 1100.  Every entry missing from the
//! configuration text falls back to its default, and so does an entry of an
//! unusable shape.

use vstd::prelude::*;

verus! {

use crate::error::ParseError;
use crate::num::milli_of_dec;
use crate::num::parse_milli;
use crate::text::trim_newline_right;
use crate::text::trim_newline_right_spec;
use crate::yaml::yaml_bool_at;
use crate::yaml::yaml_bytes_at;
use crate::yaml::yaml_bytes_list_at;
use crate::yaml::yaml_get_bool;
use crate::yaml::yaml_get_bytes;
use crate::yaml::yaml_get_bytes_list;
use crate::yaml::yaml_get_i64;
use crate::yaml::yaml_get_scalar_text;
use crate::yaml::yaml_get_u64;
use crate::yaml::yaml_get_u64_list;
use crate::yaml::yaml_i64_at;
use crate::yaml::yaml_ok;
use crate::yaml::yaml_scalar_text_at;
use crate::yaml::yaml_u64_at;
use crate::yaml::yaml_u64_list_at;

/// One persona a prompt file defines: its name, the text that frames its
/// responses, and the sequences on which its generation stops.
pub struct Character {
    pub name: Vec<u8>,
    pub temporary_prefix: Vec<u8>,
    pub prefix: Vec<u8>,
    pub suffix: Vec<u8>,
    pub stop_sequence: Vec<Vec<u8>>,
    pub definition: Vec<u8>,
}

/// How the backend pool is spawned: which executable, which model, and how
/// many instances on which ports.
pub struct ServerConfig {
    pub executable_file: Vec<u8>,
    pub model_file: Vec<u8>,
    pub context_size: u64,
    pub threads: u64,
    pub blas_batch_size: i64,
    pub blasthreads: Option<u64>,
    pub instances: usize,
    pub port: u16,
    pub custom_args: Vec<Vec<u8>>,
}

/// One generation request as the backend takes it: the prompt text and the
/// sampling configuration.  Only the prompt text ever takes part in
/// routing; the rest rides along opaquely.
pub struct ServerPrompt {
    pub prompt: Vec<u8>,
    pub max_length: u64,
    pub max_context_length: u64,
    pub quiet: bool,
    pub rep_pen_milli: u64,
    pub rep_pen_range: u64,
    pub rep_pen_slope_milli: u64,
    pub sampler_full_determinism: bool,
    pub sampler_order: Vec<u64>,
    pub sampler_seed: u64,
    pub stop_sequence: Vec<Vec<u8>>,
    pub temperature_milli: u64,
    pub tfs_milli: u64,
    pub top_a_milli: u64,
    pub top_k: u64,
    pub top_p_milli: u64,
    pub typical_milli: u64,
}

/// Everything the configuration block of a prompt file sets.
pub struct Config {
    pub user_name: Vec<u8>,
    pub prompt: ServerPrompt,
    pub server: ServerConfig,
}

/// Relies on `rand::random`: a sampler seed drawn fresh for each default
/// request.  Nothing is assumed of the value.
pub assume_specification<T>[ rand::random::<T> ]() -> (r: T)
    where
        rand::distributions::Standard: rand::distributions::Distribution<T>,
;

impl Default for Character {
    /// A character with no name and no framing.
    fn default() -> (r: Character)
        ensures
            r.name@ == Seq::<u8>::empty(),
            r.temporary_prefix@ == Seq::<u8>::empty(),
            r.prefix@ == Seq::<u8>::empty(),
            r.suffix@ == Seq::<u8>::empty(),
            r.stop_sequence@ == Seq::<Vec<u8>>::empty(),
            r.definition@ == Seq::<u8>::empty(),
    {
        Character {
            name: Vec::new(),
            temporary_prefix: Vec::new(),
            prefix: Vec::new(),
            suffix: Vec::new(),
            stop_sequence: Vec::new(),
            definition: Vec::new(),
        }
    }
}

impl Default for ServerConfig {
    /// One instance on port 5001, modest resources, no custom arguments.
    fn default() -> (r: ServerConfig)
        ensures
            r.executable_file@ == Seq::<u8>::empty(),
            r.model_file@ == Seq::<u8>::empty(),
            r.context_size == 1024,
            r.threads == 1,
            r.blas_batch_size == 512,
            r.blasthreads is None,
            r.instances == 1,
            r.port == 5001,
            r.custom_args@ == Seq::<Vec<u8>>::empty(),
    {
        ServerConfig {
            executable_file: Vec::new(),
            model_file: Vec::new(),
            context_size: 1024,
            threads: 1,
            blas_batch_size: 512,
            blasthreads: None,
            instances: 1,
            port: 5001,
            custom_args: Vec::new(),
        }
    }
}

impl Default for ServerPrompt {
    /// The sampling defaults of the Kobold Lite client, with a freshly
    /// drawn sampler seed.
    fn default() -> (r: ServerPrompt)
        ensures
            r.prompt@ == Seq::<u8>::empty(),
            r.max_length == 50,
            r.max_context_length == 1024,
            !r.quiet,
            r.rep_pen_milli == 1100,
            r.rep_pen_range == 320,
            r.rep_pen_slope_milli == 700,
            !r.sampler_full_determinism,
            r.sampler_order@ == seq![6u64, 0u64, 1u64, 3u64, 4u64, 2u64, 5u64],
            r.stop_sequence@ == Seq::<Vec<u8>>::empty(),
            r.temperature_milli == 700,
            r.tfs_milli == 1000,
            r.top_a_milli == 0,
            r.top_k == 0,
            r.top_p_milli == 920,
            r.typical_milli == 1000,
    {
        let mut sampler_order: Vec<u64> = Vec::new();
        sampler_order.push(6);
        sampler_order.push(0);
        sampler_order.push(1);
        sampler_order.push(3);
        sampler_order.push(4);
        sampler_order.push(2);
        sampler_order.push(5);
        proof {
            assert(sampler_order@ =~= seq![6u64, 0u64, 1u64, 3u64, 4u64, 2u64, 5u64]);
        }
        ServerPrompt {
            prompt: Vec::new(),
            max_length: 50,
            max_context_length: 1024,
            quiet: false,
            rep_pen_milli: 1100,
            rep_pen_range: 320,
            rep_pen_slope_milli: 700,
            sampler_full_determinism: false,
            sampler_order,
            sampler_seed: rand::random::<u64>(),
            stop_sequence: Vec::new(),
            temperature_milli: 700,
            tfs_milli: 1000,
            top_a_milli: 0,
            top_k: 0,
            top_p_milli: 920,
            typical_milli: 1000,
        }
    }
}

/// The string entry at `section.key`, or `d` when missing.
pub open spec fn bytes_or(doc: Seq<u8>, section: Seq<char>, key: Seq<char>, d: Seq<u8>) -> Seq<
    u8,
> {
    match yaml_bytes_at(doc, section, key) {
        Some(v) => v,
        None => d,
    }
}

/// The unsigned entry at `section.key`, or `d` when missing.
pub open spec fn u64_or(doc: Seq<u8>, section: Seq<char>, key: Seq<char>, d: u64) -> u64 {
    match yaml_u64_at(doc, section, key) {
        Some(v) => v,
        None => d,
    }
}

/// The signed entry at `section.key`, or `d` when missing.
pub open spec fn i64_or(doc: Seq<u8>, section: Seq<char>, key: Seq<char>, d: i64) -> i64 {
    match yaml_i64_at(doc, section, key) {
        Some(v) => v,
        None => d,
    }
}

/// The boolean entry at `section.key`, or `d` when missing.
pub open spec fn bool_or(doc: Seq<u8>, section: Seq<char>, key: Seq<char>, d: bool) -> bool {
    match yaml_bool_at(doc, section, key) {
        Some(v) => v,
        None => d,
    }
}

/// The string-list entry at `section.key`, or `d` when missing.
pub open spec fn bytes_list_or(
    doc: Seq<u8>,
    section: Seq<char>,
    key: Seq<char>,
    d: Seq<Seq<u8>>,
) -> Seq<Seq<u8>> {
    match yaml_bytes_list_at(doc, section, key) {
        Some(v) => v,
        None => d,
    }
}

/// The unsigned-list entry at `section.key`, or `d` when missing.
pub open spec fn u64_list_or(doc: Seq<u8>, section: Seq<char>, key: Seq<char>, d: Seq<u64>) -> Seq<
    u64,
> {
    match yaml_u64_list_at(doc, section, key) {
        Some(v) => v,
        None => d,
    }
}

/// The entry at `section.key` read as thousandths: its YAML text, less one
/// trailing newline, taken as an unsigned decimal fraction.  Missing or
/// unreadable entries, and values past `u64::MAX` thousandths, fall back to
/// `d`.
pub open spec fn milli_or(doc: Seq<u8>, section: Seq<char>, key: Seq<char>, d: u64) -> u64 {
    match yaml_scalar_text_at(doc, section, key) {
        Some(t) => match milli_of_dec(trim_newline_right_spec(t)) {
            Some(m) => if m <= u64::MAX {
                m as u64
            } else {
                d
            },
            None => d,
        },
        None => d,
    }
}

/// The unsigned entry at `section.key` pressed into a `u16`, or `d` when
/// missing or too large.
pub open spec fn u16_or(doc: Seq<u8>, section: Seq<char>, key: Seq<char>, d: u16) -> u16 {
    match yaml_u64_at(doc, section, key) {
        Some(v) => if v <= u16::MAX {
            v as u16
        } else {
            d
        },
        None => d,
    }
}

/// The unsigned entry at `section.key` pressed into a `usize`, or `d` when
/// missing or too large.
pub open spec fn usize_or(doc: Seq<u8>, section: Seq<char>, key: Seq<char>, d: usize) -> usize {
    match yaml_u64_at(doc, section, key) {
        Some(v) => if v <= usize::MAX {
            v as usize
        } else {
            d
        },
        None => d,
    }
}

/// Reads the string entry at `section.key`, falling back to `d`.
fn read_bytes_or(doc: &[u8], section: &str, key: &str, d: Vec<u8>) -> (r: Result<
    Vec<u8>,
    ParseError,
>)
    ensures
        r is Ok <==> yaml_ok(doc@),
        r matches Ok(v) ==> v@ == bytes_or(doc@, section@, key@, d@),
        r matches Err(e) ==> e == ParseError::BadYaml,
{
    match yaml_get_bytes(doc, section, key) {
        Ok(Some(v)) => Ok(v),
        Ok(None) => Ok(d),
        Err(_) => Err(ParseError::BadYaml),
    }
}

/// Reads the unsigned entry at `section.key`, falling back to `d`.
fn read_u64_or(doc: &[u8], section: &str, key: &str, d: u64) -> (r: Result<u64, ParseError>)
    ensures
        r is Ok <==> yaml_ok(doc@),
        r matches Ok(v) ==> v == u64_or(doc@, section@, key@, d),
        r matches Err(e) ==> e == ParseError::BadYaml,
{
    match yaml_get_u64(doc, section, key) {
        Ok(Some(v)) => Ok(v),
        Ok(None) => Ok(d),
        Err(_) => Err(ParseError::BadYaml),
    }
}

/// Reads the signed entry at `section.key`, falling back to `d`.
fn read_i64_or(doc: &[u8], section: &str, key: &str, d: i64) -> (r: Result<i64, ParseError>)
    ensures
        r is Ok <==> yaml_ok(doc@),
        r matches Ok(v) ==> v == i64_or(doc@, section@, key@, d),
        r matches Err(e) ==> e == ParseError::BadYaml,
{
    match yaml_get_i64(doc, section, key) {
        Ok(Some(v)) => Ok(v),
        Ok(None) => Ok(d),
        Err(_) => Err(ParseError::BadYaml),
    }
}

/// Reads the boolean entry at `section.key`, falling back to `d`.
fn read_bool_or(doc: &[u8], section: &str, key: &str, d: bool) -> (r: Result<bool, ParseError>)
    ensures
        r is Ok <==> yaml_ok(doc@),
        r matches Ok(v) ==> v == bool_or(doc@, section@, key@, d),
        r matches Err(e) ==> e == ParseError::BadYaml,
{
    match yaml_get_bool(doc, section, key) {
        Ok(Some(v)) => Ok(v),
        Ok(None) => Ok(d),
        Err(_) => Err(ParseError::BadYaml),
    }
}

/// Reads the string-list entry at `section.key`, falling back to `d`.
fn read_bytes_list_or(doc: &[u8], section: &str, key: &str, d: Vec<Vec<u8>>) -> (r: Result<
    Vec<Vec<u8>>,
    ParseError,
>)
    ensures
        r is Ok <==> yaml_ok(doc@),
        r matches Ok(v) ==> v.deep_view() == bytes_list_or(doc@, section@, key@, d.deep_view()),
        r matches Err(e) ==> e == ParseError::BadYaml,
{
    match yaml_get_bytes_list(doc, section, key) {
        Ok(Some(v)) => Ok(v),
        Ok(None) => Ok(d),
        Err(_) => Err(ParseError::BadYaml),
    }
}

/// Reads the unsigned-list entry at `section.key`, falling back to `d`.
fn read_u64_list_or(doc: &[u8], section: &str, key: &str, d: Vec<u64>) -> (r: Result<
    Vec<u64>,
    ParseError,
>)
    ensures
        r is Ok <==> yaml_ok(doc@),
        r matches Ok(v) ==> v@ == u64_list_or(doc@, section@, key@, d@),
        r matches Err(e) ==> e == ParseError::BadYaml,
{
    match yaml_get_u64_list(doc, section, key) {
        Ok(Some(v)) => Ok(v),
        Ok(None) => Ok(d),
        Err(_) => Err(ParseError::BadYaml),
    }
}

/// Reads the entry at `section.key` as thousandths, falling back to `d`.
fn read_milli_or(doc: &[u8], section: &str, key: &str, d: u64) -> (r: Result<u64, ParseError>)
    ensures
        r is Ok <==> yaml_ok(doc@),
        r matches Ok(v) ==> v == milli_or(doc@, section@, key@, d),
        r matches Err(e) ==> e == ParseError::BadYaml,
{
    match yaml_get_scalar_text(doc, section, key) {
        Ok(Some(t)) => {
            let trimmed = trim_newline_right(t.as_slice());
            match parse_milli(trimmed) {
                Some(m) => Ok(m),
                None => Ok(d),
            }
        },
        Ok(None) => Ok(d),
        Err(_) => Err(ParseError::BadYaml),
    }
}

/// Reads the unsigned entry at `section.key` as a `u16`, falling back to
/// `d` when missing or too large.
fn read_u16_or(doc: &[u8], section: &str, key: &str, d: u16) -> (r: Result<u16, ParseError>)
    ensures
        r is Ok <==> yaml_ok(doc@),
        r matches Ok(v) ==> v == u16_or(doc@, section@, key@, d),
        r matches Err(e) ==> e == ParseError::BadYaml,
{
    match yaml_get_u64(doc, section, key) {
        Ok(Some(v)) => if v <= u16::MAX as u64 {
            Ok(v as u16)
        } else {
            Ok(d)
        },
        Ok(None) => Ok(d),
        Err(_) => Err(ParseError::BadYaml),
    }
}

/// Reads the unsigned entry at `section.key` as a `usize`, falling back to
/// `d` when missing or too large.
fn read_usize_or(doc: &[u8], section: &str, key: &str, d: usize) -> (r: Result<usize, ParseError>)
    ensures
        r is Ok <==> yaml_ok(doc@),
        r matches Ok(v) ==> v == usize_or(doc@, section@, key@, d),
        r matches Err(e) ==> e == ParseError::BadYaml,
{
    match yaml_get_u64(doc, section, key) {
        Ok(Some(v)) => if v <= usize::MAX as u64 {
            Ok(v as usize)
        } else {
            Ok(d)
        },
        Ok(None) => Ok(d),
        Err(_) => Err(ParseError::BadYaml),
    }
}

/// `c` holds exactly what the character block `doc` sets, with defaults for
/// what it leaves out.
pub open spec fn character_matches_doc(c: Character, doc: Seq<u8>) -> bool {
    &&& c.name@ == bytes_or(doc, ""@, "name"@, Seq::empty())
    &&& c.temporary_prefix@ == bytes_or(doc, ""@, "temporary_prefix"@, Seq::empty())
    &&& c.prefix@ == bytes_or(doc, ""@, "prefix"@, Seq::empty())
    &&& c.suffix@ == bytes_or(doc, ""@, "suffix"@, Seq::empty())
    &&& c.stop_sequence.deep_view() == bytes_list_or(doc, ""@, "stop_sequence"@, Seq::empty())
    &&& c.definition@ == bytes_or(doc, ""@, "definition"@, Seq::empty())
}

impl Character {
    /// Reads one character block.  Succeeds exactly on readable YAML; every
    /// missing entry falls back to the default character's.
    pub fn from_yaml(doc: &[u8]) -> (r: Result<Character, ParseError>)
        ensures
            r is Ok <==> yaml_ok(doc@),
            r matches Ok(c) ==> character_matches_doc(c, doc@),
            r matches Err(e) ==> e == ParseError::BadYaml,
    {
        let name = read_bytes_or(doc, "", "name", Vec::new())?;
        let temporary_prefix = read_bytes_or(doc, "", "temporary_prefix", Vec::new())?;
        let prefix = read_bytes_or(doc, "", "prefix", Vec::new())?;
        let suffix = read_bytes_or(doc, "", "suffix", Vec::new())?;
        let stop_default: Vec<Vec<u8>> = Vec::new();
        proof {
            assert(stop_default.deep_view() =~= Seq::<Seq<u8>>::empty());
        }
        let stop_sequence = read_bytes_list_or(doc, "", "stop_sequence", stop_default)?;
        let definition = read_bytes_or(doc, "", "definition", Vec::new())?;
        Ok(Character { name, temporary_prefix, prefix, suffix, stop_sequence, definition })
    }
}

/// `c` holds exactly what the configuration block `doc` sets, with
/// defaults for what it leaves out.  The sampler seed is pinned only where
/// the block names one; otherwise it was drawn fresh.
pub open spec fn config_matches_doc(c: Config, doc: Seq<u8>) -> bool {
                &&& c.user_name@ == bytes_or(doc, ""@, "user_name"@, Seq::empty())
                &&& c.prompt.prompt@ == bytes_or(doc, "prompt"@, "prompt"@, Seq::empty())
                &&& c.prompt.max_length == u64_or(doc, "prompt"@, "max_length"@, 50)
                &&& c.prompt.max_context_length == u64_or(
                    doc,
                    "prompt"@,
                    "max_context_length"@,
                    1024,
                )
                &&& c.prompt.quiet == bool_or(doc, "prompt"@, "quiet"@, false)
                &&& c.prompt.rep_pen_milli == milli_or(doc, "prompt"@, "rep_pen"@, 1100)
                &&& c.prompt.rep_pen_range == u64_or(doc, "prompt"@, "rep_pen_range"@, 320)
                &&& c.prompt.rep_pen_slope_milli == milli_or(
                    doc,
                    "prompt"@,
                    "rep_pen_slope"@,
                    700,
                )
                &&& c.prompt.sampler_full_determinism == bool_or(
                    doc,
                    "prompt"@,
                    "sampler_full_determinism"@,
                    false,
                )
                &&& c.prompt.sampler_order@ == u64_list_or(
                    doc,
                    "prompt"@,
                    "sampler_order"@,
                    seq![6u64, 0u64, 1u64, 3u64, 4u64, 2u64, 5u64],
                )
                &&& (yaml_u64_at(doc, "prompt"@, "sampler_seed"@) matches Some(s)
                    ==> c.prompt.sampler_seed == s)
                &&& c.prompt.stop_sequence.deep_view() == bytes_list_or(
                    doc,
                    "prompt"@,
                    "stop_sequence"@,
                    Seq::empty(),
                )
                &&& c.prompt.temperature_milli == milli_or(doc, "prompt"@, "temperature"@, 700)
                &&& c.prompt.tfs_milli == milli_or(doc, "prompt"@, "tfs"@, 1000)
                &&& c.prompt.top_a_milli == milli_or(doc, "prompt"@, "top_a"@, 0)
                &&& c.prompt.top_k == u64_or(doc, "prompt"@, "top_k"@, 0)
                &&& c.prompt.top_p_milli == milli_or(doc, "prompt"@, "top_p"@, 920)
                &&& c.prompt.typical_milli == milli_or(doc, "prompt"@, "typical"@, 1000)
                &&& c.server.executable_file@ == bytes_or(
                    doc,
                    "server"@,
                    "executable_file"@,
                    Seq::empty(),
                )
                &&& c.server.model_file@ == bytes_or(doc, "server"@, "model_file"@, Seq::empty())
                &&& c.server.context_size == u64_or(doc, "server"@, "context_size"@, 1024)
                &&& c.server.threads == u64_or(doc, "server"@, "threads"@, 1)
                &&& c.server.blas_batch_size == i64_or(doc, "server"@, "blas_batch_size"@, 512)
                &&& c.server.blasthreads == yaml_u64_at(doc, "server"@, "blasthreads"@)
                &&& c.server.instances == usize_or(doc, "server"@, "instances"@, 1)
                &&& c.server.port == u16_or(doc, "server"@, "port"@, 5001)
                &&& c.server.custom_args.deep_view() == bytes_list_or(
                    doc,
                    "server"@,
                    "custom_args"@,
                    Seq::empty(),
                )
    }

impl Config {
    /// Reads the configuration block of a prompt file.  Succeeds exactly on
    /// readable YAML.  The user name sits at the top level, the sampling
    /// configuration under `prompt`, the pool layout under `server`; every
    /// missing entry falls back to its default, and the sampler seed of a
    /// configuration that names none is drawn fresh.
    pub fn from_yaml(doc: &[u8]) -> (r: Result<Config, ParseError>)
        ensures
            r is Ok <==> yaml_ok(doc@),
            r matches Ok(c) ==> config_matches_doc(c, doc@),
            r matches Err(e) ==> e == ParseError::BadYaml,
    {
        let user_name = read_bytes_or(doc, "", "user_name", Vec::new())?;
        let defaults = ServerPrompt::default();
        let mut order_default: Vec<u64> = Vec::new();
        order_default.push(6);
        order_default.push(0);
        order_default.push(1);
        order_default.push(3);
        order_default.push(4);
        order_default.push(2);
        order_default.push(5);
        proof {
            assert(order_default@ =~= seq![6u64, 0u64, 1u64, 3u64, 4u64, 2u64, 5u64]);
        }
        let stop_default: Vec<Vec<u8>> = Vec::new();
        let args_default: Vec<Vec<u8>> = Vec::new();
        proof {
            assert(stop_default.deep_view() =~= Seq::<Seq<u8>>::empty());
            assert(args_default.deep_view() =~= Seq::<Seq<u8>>::empty());
        }
        let seed = match yaml_get_u64(doc, "prompt", "sampler_seed") {
            Ok(Some(s)) => s,
            Ok(None) => defaults.sampler_seed,
            Err(_) => {
                return Err(ParseError::BadYaml);
            },
        };
        let prompt = ServerPrompt {
            prompt: read_bytes_or(doc, "prompt", "prompt", Vec::new())?,
            max_length: read_u64_or(doc, "prompt", "max_length", 50)?,
            max_context_length: read_u64_or(doc, "prompt", "max_context_length", 1024)?,
            quiet: read_bool_or(doc, "prompt", "quiet", false)?,
            rep_pen_milli: read_milli_or(doc, "prompt", "rep_pen", 1100)?,
            rep_pen_range: read_u64_or(doc, "prompt", "rep_pen_range", 320)?,
            rep_pen_slope_milli: read_milli_or(doc, "prompt", "rep_pen_slope", 700)?,
            sampler_full_determinism: read_bool_or(doc, "prompt", "sampler_full_determinism", false)?,
            sampler_order: read_u64_list_or(doc, "prompt", "sampler_order", order_default)?,
            sampler_seed: seed,
            stop_sequence: read_bytes_list_or(doc, "prompt", "stop_sequence", stop_default)?,
            temperature_milli: read_milli_or(doc, "prompt", "temperature", 700)?,
            tfs_milli: read_milli_or(doc, "prompt", "tfs", 1000)?,
            top_a_milli: read_milli_or(doc, "prompt", "top_a", 0)?,
            top_k: read_u64_or(doc, "prompt", "top_k", 0)?,
            top_p_milli: read_milli_or(doc, "prompt", "top_p", 920)?,
            typical_milli: read_milli_or(doc, "prompt", "typical", 1000)?,
        };
        let blasthreads = match yaml_get_u64(doc, "server", "blasthreads") {
            Ok(v) => v,
            Err(_) => {
                return Err(ParseError::BadYaml);
            },
        };
        let server = ServerConfig {
            executable_file: read_bytes_or(doc, "server", "executable_file", Vec::new())?,
            model_file: read_bytes_or(doc, "server", "model_file", Vec::new())?,
            context_size: read_u64_or(doc, "server", "context_size", 1024)?,
            threads: read_u64_or(doc, "server", "threads", 1)?,
            blas_batch_size: read_i64_or(doc, "server", "blas_batch_size", 512)?,
            blasthreads,
            instances: read_usize_or(doc, "server", "instances", 1)?,
            port: read_u16_or(doc, "server", "port", 5001)?,
            custom_args: read_bytes_list_or(doc, "server", "custom_args", args_default)?,
        };
        Ok(Config { user_name, prompt, server })
    }
}

} // verus!
