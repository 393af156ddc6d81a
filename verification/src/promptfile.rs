//! Reading a prompt file, and writing responses back into its text.
//!
//! A prompt file holds one configuration block, at most one prompt section
//! (everything after the first prompt tag), any number of character blocks,
//! and any number of named context blocks.  Reading takes the file's text —
//! already preprocessed — and gives a [`Prompt`]; the functions further down
//! compute the edited text when a response is inserted at the end of a file
//! or the prompt section is overwritten.

use vstd::prelude::*;

verus! {

use crate::config::Character;
use crate::config::Config;
use crate::config::ServerPrompt;
use crate::config::character_matches_doc;
use crate::config::config_matches_doc;
use crate::error::ParseError;
use crate::tags::char_tag;
use crate::tags::char_tag_bytes;
use crate::tags::config_tag;
use crate::tags::config_tag_bytes;
use crate::tags::context_tag;
use crate::tags::context_tag_bytes;
use crate::tags::end_tag;
use crate::tags::end_tag_bytes;
use crate::tags::endchar_tag;
use crate::tags::endchar_tag_bytes;
use crate::tags::endconfig_tag;
use crate::tags::endconfig_tag_bytes;
use crate::tags::endcontext_tag;
use crate::tags::endcontext_tag_bytes;
use crate::tags::prompt_tag;
use crate::tags::prompt_tag_bytes;
use crate::text::find_first;
use crate::text::find_sub;
use crate::text::trim_newline_left;
use crate::text::trim_newline_left_spec;
use crate::text::trim_newline_right;
use crate::text::trim_newline_right_spec;
use crate::yaml::yaml_ok;
use vstd::slice::slice_subrange;

/// Everything one prompt file defines: its configuration, its characters,
/// and the prompt text itself.
pub struct Prompt {
    pub config: Config,
    pub characters: Vec<Character>,
    pub prompt: Vec<u8>,
}

/// The YAML text between the first configuration tag and the next end tag
/// after it; nothing when either tag is missing.
pub open spec fn config_block(s: Seq<u8>) -> Option<Seq<u8>> {
    match find_first(s, config_tag()) {
        None => None,
        Some(i) => {
            let rest = s.skip(i + config_tag().len());
            match find_first(rest, endconfig_tag()) {
                None => None,
                Some(j) => Some(rest.take(j)),
            }
        },
    }
}

/// The prompt text: everything after the first prompt tag, less one
/// newline at each end; empty when the file has no prompt tag.
pub open spec fn prompt_text(s: Seq<u8>) -> Seq<u8> {
    match find_first(s, prompt_tag()) {
        None => Seq::empty(),
        Some(i) => trim_newline_right_spec(
            trim_newline_left_spec(s.skip(i + prompt_tag().len())),
        ),
    }
}

/// The character blocks of `s`, in order, each the YAML text between a
/// character tag and its closing tag; or the error the scan stops on: an
/// unclosed block, or a block that is not readable YAML.
pub open spec fn chars_result(s: Seq<u8>) -> Result<Seq<Seq<u8>>, ParseError>
    decreases s.len(),
{
    match find_first(s, char_tag()) {
        None => Ok(Seq::empty()),
        Some(i) => {
            let rest = s.skip(i + char_tag().len());
            match find_first(rest, endchar_tag()) {
                None => Err(ParseError::UnclosedCharTag),
                Some(j) => {
                    let block = rest.take(j);
                    if !yaml_ok(block) {
                        Err(ParseError::BadYaml)
                    } else {
                        match chars_result(rest.skip(j + endchar_tag().len())) {
                            Ok(tl) => Ok(seq![block] + tl),
                            Err(e) => Err(e),
                        }
                    }
                },
            }
        },
    }
}

/// Every opened context block is closed.  A context tag without an end tag
/// for its name ends the scan quietly; an unclosed block body is the one
/// fault.
pub open spec fn contexts_ok(s: Seq<u8>) -> bool
    decreases s.len(),
{
    match find_first(s, context_tag()) {
        None => true,
        Some(i) => {
            let rest = s.skip(i + context_tag().len());
            match find_first(rest, end_tag()) {
                None => true,
                Some(j) => {
                    let rest2 = rest.skip(j + end_tag().len());
                    match find_first(rest2, endcontext_tag()) {
                        None => false,
                        Some(k) => contexts_ok(rest2.skip(k + endcontext_tag().len())),
                    }
                },
            }
        },
    }
}

/// The first fault a read of `s` stops on, if any: no configuration block,
/// unreadable YAML, an unclosed character block, an unclosed context block.
pub open spec fn parse_err(s: Seq<u8>) -> Option<ParseError> {
    match config_block(s) {
        None => Some(ParseError::NoConfig),
        Some(b) => if !yaml_ok(b) {
            Some(ParseError::BadYaml)
        } else {
            match chars_result(s) {
                Err(e) => Some(e),
                Ok(_) => if !contexts_ok(s) {
                    Some(ParseError::UnclosedContextTag)
                } else {
                    None
                },
            }
        },
    }
}

/// Finds the configuration block of `contents`.
fn config_block_exec(contents: &[u8]) -> (r: Option<&[u8]>)
    ensures
        match r {
            Some(b) => config_block(contents@) == Some(b@),
            None => config_block(contents@) is None,
        },
{
    let total = contents.len();
    let ct = config_tag_bytes();
    let i = match find_sub(contents, ct) {
        Some(i) => i,
        None => {
            return None;
        },
    };
    let after_config = slice_subrange(contents, i + ct.len(), total);
    proof {
        assert(after_config@ =~= contents@.skip(i + config_tag().len()));
    }
    let j = match find_sub(after_config, endconfig_tag_bytes()) {
        Some(j) => j,
        None => {
            return None;
        },
    };
    let block = slice_subrange(after_config, 0, j);
    proof {
        assert(block@ =~= after_config@.take(j as int));
    }
    Some(block)
}

/// Extracts the prompt section of `contents`.
fn prompt_text_exec(contents: &[u8]) -> (r: Vec<u8>)
    ensures
        r@ == prompt_text(contents@),
{
    let total = contents.len();
    let mut prompt: Vec<u8> = Vec::new();
    match find_sub(contents, prompt_tag_bytes()) {
        Some(p) => {
            let tail = slice_subrange(contents, p + prompt_tag_bytes().len(), total);
            proof {
                assert(tail@ =~= contents@.skip(p + prompt_tag().len()));
            }
            let trimmed = trim_newline_right(trim_newline_left(tail));
            crate::text::push_bytes(&mut prompt, trimmed);
            proof {
                assert(prompt@ =~= prompt_text(contents@));
            }
        },
        None => {
            proof {
                assert(prompt@ =~= prompt_text(contents@));
            }
        },
    }
    prompt
}

/// The characters read so far match the blocks read so far, one to one.
pub open spec fn characters_match_blocks(cs: Seq<Character>, blocks: Seq<Seq<u8>>) -> bool {
    &&& cs.len() == blocks.len()
    &&& forall|k: int|
        0 <= k < blocks.len() ==> character_matches_doc(#[trigger] cs[k], blocks[k])
}

/// Reads every character block of `contents`, in order.
#[verifier::loop_isolation(false)]
#[verifier::rlimit(60)]
fn parse_characters(contents: &[u8]) -> (r: Result<Vec<Character>, ParseError>)
    ensures
        match r {
            Ok(cs) => chars_result(contents@) matches Ok(blocks) && characters_match_blocks(
                cs@,
                blocks,
            ),
            Err(e) => chars_result(contents@) == Err::<Seq<Seq<u8>>, ParseError>(e),
        },
{
    let total = contents.len();
    let mut characters: Vec<Character> = Vec::new();
    let ghost mut done: Seq<Seq<u8>> = Seq::empty();
    let mut pos: usize = 0;
    proof {
        assert(contents@.skip(0) =~= contents@);
    }
    let mut scanning: bool = true;
    while scanning
        invariant
            0 <= pos <= contents@.len(),
            characters_match_blocks(characters@, done),
            chars_result(contents@) == match chars_result(contents@.skip(pos as int)) {
                Ok(tl) => Ok::<Seq<Seq<u8>>, ParseError>(done + tl),
                Err(e) => Err::<Seq<Seq<u8>>, ParseError>(e),
            },
            !scanning ==> chars_result(contents@) == Ok::<Seq<Seq<u8>>, ParseError>(done),
        decreases contents@.len() - pos, if scanning {
            1int
        } else {
            0int
        },
    {
        let ghost rest0 = contents@.skip(pos as int);
        let view = slice_subrange(contents, pos, total);
        proof {
            assert(view@ =~= rest0);
        }
        let i = match find_sub(view, char_tag_bytes()) {
            Some(i) => i,
            None => {
                proof {
                    assert(chars_result(rest0) == Ok::<Seq<Seq<u8>>, ParseError>(Seq::empty()));
                    assert(done + Seq::<Seq<u8>>::empty() =~= done);
                }
                scanning = false;
                continue;
            },
        };
        let rest_start = pos + i + char_tag_bytes().len();
        let rest = slice_subrange(contents, rest_start, total);
        proof {
            assert(rest@ =~= rest0.skip(i + char_tag().len()));
        }
        let j = match find_sub(rest, endchar_tag_bytes()) {
            Some(j) => j,
            None => {
                proof {
                    assert(chars_result(rest0) == Err::<Seq<Seq<u8>>, ParseError>(
                        ParseError::UnclosedCharTag,
                    ));
                }
                return Err(ParseError::UnclosedCharTag);
            },
        };
        let block = slice_subrange(rest, 0, j);
        proof {
            assert(block@ =~= rest0.skip(i + char_tag().len()).take(j as int));
        }
        let c = match Character::from_yaml(block) {
            Ok(c) => c,
            Err(e) => {
                proof {
                    assert(chars_result(rest0) == Err::<Seq<Seq<u8>>, ParseError>(
                        ParseError::BadYaml,
                    ));
                }
                return Err(e);
            },
        };
        let ghost done0 = done;
        let ghost chars0 = characters@;
        characters.push(c);
        let ghost tail = contents@.skip((rest_start + j + endchar_tag().len()) as int);
        proof {
            assert(rest@.skip(j + endchar_tag().len()) =~= tail);
            assert(chars_result(rest0) == (match chars_result(tail) {
                Ok(tl) => Ok::<Seq<Seq<u8>>, ParseError>(seq![block@] + tl),
                Err(e) => Err::<Seq<Seq<u8>>, ParseError>(e),
            }));
            match chars_result(tail) {
                Ok(tl) => {
                    assert((done0 + seq![block@]) + tl =~= done0 + (seq![block@] + tl));
                },
                Err(_) => {},
            }
            done = done0 + seq![block@];
            assert forall|k: int|
                0 <= k < done.len() implies character_matches_doc(
                #[trigger] characters@[k],
                done[k],
            ) by {
                if k == done.len() - 1 {
                    assert(done[k] == block@);
                    assert(characters@[k] == c);
                } else {
                    assert(done[k] == done0[k]);
                    assert(characters@[k] == chars0[k]);
                }
            }
            assert(characters@.len() == done.len());
            assert forall|k: int|
                0 <= k < done.len() implies character_matches_doc(
                #[trigger] characters@[k],
                done[k],
            ) by {
                if k == done.len() - 1 {
                    assert(done[k] == block@);
                    assert(characters@[k] == c);
                } else {
                    assert(done[k] == done0[k]);
                    assert(characters@[k] == chars0[k]);
                }
            }
            assert(characters_match_blocks(characters@, done));
        }
        pos = rest_start + j + endchar_tag_bytes().len();
    }
    Ok(characters)
}

/// Checks that every opened context block of `contents` is closed.
#[verifier::loop_isolation(false)]
#[verifier::rlimit(60)]
fn contexts_ok_exec(contents: &[u8]) -> (r: bool)
    ensures
        r == contexts_ok(contents@),
{
    let total = contents.len();
    let mut pos: usize = 0;
    proof {
        assert(contents@.skip(0) =~= contents@);
    }
    let mut scanning: bool = true;
    while scanning
        invariant
            0 <= pos <= contents@.len(),
            contexts_ok(contents@) == contexts_ok(contents@.skip(pos as int)),
            !scanning ==> contexts_ok(contents@),
        decreases contents@.len() - pos, if scanning {
            1int
        } else {
            0int
        },
    {
        let ghost rest0 = contents@.skip(pos as int);
        let view = slice_subrange(contents, pos, total);
        proof {
            assert(view@ =~= rest0);
        }
        let i = match find_sub(view, context_tag_bytes()) {
            Some(i) => i,
            None => {
                proof {
                    assert(contexts_ok(rest0));
                }
                scanning = false;
                continue;
            },
        };
        let name_start = pos + i + context_tag_bytes().len();
        let after_open = slice_subrange(contents, name_start, total);
        proof {
            assert(after_open@ =~= rest0.skip(i + context_tag().len()));
        }
        let j = match find_sub(after_open, end_tag_bytes()) {
            Some(j) => j,
            None => {
                proof {
                    assert(contexts_ok(rest0));
                }
                scanning = false;
                continue;
            },
        };
        let body_start = name_start + j + end_tag_bytes().len();
        let body = slice_subrange(contents, body_start, total);
        proof {
            assert(body@ =~= rest0.skip(i + context_tag().len()).skip(j + end_tag().len()));
        }
        let k = match find_sub(body, endcontext_tag_bytes()) {
            Some(k) => k,
            None => {
                proof {
                    assert(!contexts_ok(rest0));
                }
                return false;
            },
        };
        proof {
            let tail = contents@.skip((body_start + k + endcontext_tag().len()) as int);
            assert(body@.skip(k + endcontext_tag().len()) =~= tail);
            assert(contexts_ok(rest0) == contexts_ok(tail));
        }
        pos = body_start + k + endcontext_tag_bytes().len();
    }
    true
}

/// Reads a prompt file's (preprocessed) text.
pub fn parse_from_file(contents: &[u8]) -> (r: Result<Prompt, ParseError>)
    ensures
        r is Ok <==> parse_err(contents@) is None,
        r matches Err(e) ==> parse_err(contents@) == Some(e),
        r matches Ok(p) ==> {
            &&& config_block(contents@) matches Some(b) && config_matches_doc(p.config, b)
            &&& p.prompt@ == prompt_text(contents@)
            &&& chars_result(contents@) matches Ok(blocks) && p.characters@.len() == blocks.len()
                && (forall|k: int|
                0 <= k < blocks.len() ==> character_matches_doc(
                    #[trigger] p.characters@[k],
                    blocks[k],
                ))
        },
{
    let block = match config_block_exec(contents) {
        Some(b) => b,
        None => {
            return Err(ParseError::NoConfig);
        },
    };
    let config = match Config::from_yaml(block) {
        Ok(c) => c,
        Err(e) => {
            return Err(e);
        },
    };
    let prompt = prompt_text_exec(contents);
    let characters = match parse_characters(contents) {
        Ok(cs) => cs,
        Err(e) => {
            return Err(e);
        },
    };
    if !contexts_ok_exec(contents) {
        return Err(ParseError::UnclosedContextTag);
    }
    Ok(Prompt { config, characters, prompt })
}

/// Where a response lands in a file's text: before one trailing newline,
/// which the insertion consumes; a text of fewer than two bytes is appended
/// to whole.
pub open spec fn response_insert_at(contents: Seq<u8>) -> int {
    if contents.len() >= 2 {
        trim_newline_right_spec(contents).len() as int
    } else {
        contents.len() as int
    }
}

/// The file text with `response` inserted at the end, in place of one
/// trailing newline if the text has one.
pub fn insert_response(contents: &[u8], response: &[u8]) -> (out: Vec<u8>)
    ensures
        out@ == contents@.take(response_insert_at(contents@)) + response@,
{
    let mut out: Vec<u8> = Vec::new();
    let head = if contents.len() >= 2 {
        trim_newline_right(contents)
    } else {
        contents
    };
    proof {
        if contents@.len() >= 2 {
            assert(head@ =~= contents@.take(response_insert_at(contents@)));
        } else {
            assert(head@ =~= contents@.take(response_insert_at(contents@)));
        }
    }
    crate::text::push_bytes(&mut out, head);
    crate::text::push_bytes(&mut out, response);
    proof {
        assert(out@ =~= contents@.take(response_insert_at(contents@)) + response@);
    }
    out
}

/// The file text with everything after the last prompt tag replaced by a
/// newline and `prompt`; a file with no prompt tag cannot take one.
pub fn overwrite_prompt(contents: &[u8], prompt: &[u8]) -> (r: Result<Vec<u8>, ParseError>)
    ensures
        match crate::text::find_last(contents@, prompt_tag()) {
            Some(i) => r matches Ok(v) && v@ == contents@.take(i + prompt_tag().len()) + seq![10u8]
                + prompt@,
            None => r == Err::<Vec<u8>, ParseError>(ParseError::NoPromptTag),
        },
{
    let total = contents.len();
    let i = match crate::text::find_sub_last(contents, prompt_tag_bytes()) {
        Some(i) => i,
        None => {
            return Err(ParseError::NoPromptTag);
        },
    };
    let mut out: Vec<u8> = Vec::new();
    let head = slice_subrange(contents, 0, i + prompt_tag_bytes().len());
    crate::text::push_bytes(&mut out, head);
    out.push(10u8);
    crate::text::push_bytes(&mut out, prompt);
    proof {
        assert(head@ =~= contents@.take(i + prompt_tag().len()));
        assert(out@ =~= contents@.take(i + prompt_tag().len()) + seq![10u8] + prompt@);
    }
    Ok(out)
}

/// The character and user placeholders of `s`, substituted by `name` and
/// `user`.
pub open spec fn replaced(s: Seq<u8>, name: Seq<u8>, user: Seq<u8>) -> Seq<u8> {
    crate::text::replace_all_spec(
        crate::text::replace_all_spec(s, crate::text::char_placeholder(), name),
        crate::text::user_placeholder(),
        user,
    )
}

/// The names of the characters, in order.
pub open spec fn character_names(cs: Seq<Character>) -> Seq<Seq<u8>> {
    Seq::new(cs.len(), |i: int| cs[i].name@)
}

/// `i` is the first character called `name`.
pub open spec fn is_first_char(cs: Seq<Character>, name: Seq<u8>, i: int) -> bool {
    &&& 0 <= i < cs.len()
    &&& cs[i].name@ == name
    &&& forall|j: int| 0 <= j < i ==> cs[j].name@ != name
}

/// Some character is called `name`.
pub open spec fn has_char(cs: Seq<Character>, name: Seq<u8>) -> bool {
    exists|i: int| 0 <= i < cs.len() && cs[i].name@ == name
}

/// The first character called `name`.
pub open spec fn first_char(cs: Seq<Character>, name: Seq<u8>) -> int {
    choose|i: int| is_first_char(cs, name, i)
}

/// A first occurrence determines `first_char`.
pub proof fn lemma_first_char(cs: Seq<Character>, name: Seq<u8>, i: int)
    requires
        is_first_char(cs, name, i),
    ensures
        first_char(cs, name) == i,
        has_char(cs, name),
{
    assert(0 <= i < cs.len() && cs[i].name@ == name);
    let i2 = choose|x: int| is_first_char(cs, name, x);
    assert(is_first_char(cs, name, i2));
    if i < i2 {
        assert(cs[i].name@ != name);
    } else if i2 < i {
        assert(cs[i2].name@ != name);
    }
}

/// One stop sequence, substituted once per name.
pub open spec fn expand_one(stop: Seq<u8>, names: Seq<Seq<u8>>, user: Seq<u8>) -> Seq<Seq<u8>>
    decreases names.len(),
{
    if names.len() == 0 {
        Seq::empty()
    } else {
        seq![replaced(stop, names[0], user)] + expand_one(stop, names.skip(1), user)
    }
}

/// Every stop sequence, substituted once per name, in order.
pub open spec fn expand_stops(stops: Seq<Seq<u8>>, names: Seq<Seq<u8>>, user: Seq<u8>) -> Seq<
    Seq<u8>,
>
    decreases stops.len(),
{
    if stops.len() == 0 {
        Seq::empty()
    } else {
        expand_one(stops[0], names, user) + expand_stops(stops.skip(1), names, user)
    }
}

/// `s` with every repetition of an earlier element dropped.
pub open spec fn dedup_bytes(s: Seq<Seq<u8>>) -> Seq<Seq<u8>>
    decreases s.len(),
{
    if s.len() == 0 {
        Seq::empty()
    } else {
        let d = dedup_bytes(s.drop_last());
        if d.contains(s.last()) {
            d
        } else {
            d.push(s.last())
        }
    }
}

/// The stop sequences the character at `ci` contributes: each of its stop
/// sequences substituted once per known name — every character's and the
/// user's — with repetitions dropped.
pub open spec fn stop_sequences_spec(p: Prompt, ci: int) -> Seq<Seq<u8>> {
    dedup_bytes(
        expand_stops(
            crate::text::views_of(p.characters@[ci].stop_sequence@),
            character_names(p.characters@) + seq![p.config.user_name@],
            p.config.user_name@,
        ),
    )
}

/// `resp` with the first of `seqs` that ends it stripped off.
pub open spec fn strip_first_suffix(resp: Seq<u8>, seqs: Seq<Seq<u8>>) -> Seq<u8>
    decreases seqs.len(),
{
    if seqs.len() == 0 {
        resp
    } else if crate::text::is_suffix_of(seqs[0], resp) {
        resp.take(resp.len() - seqs[0].len())
    } else {
        strip_first_suffix(resp, seqs.skip(1))
    }
}

/// Whether the list `v` holds the byte string `x`.
fn contains_bytes(v: &Vec<Vec<u8>>, x: &[u8]) -> (r: bool)
    ensures
        r == crate::text::views_of(v@).contains(x@),
{
    let mut i: usize = 0;
    while i < v.len()
        invariant
            0 <= i <= v@.len(),
            forall|j: int| 0 <= j < i ==> v@[j]@ != x@,
        decreases v@.len() - i,
    {
        if crate::text::bytes_eq(v[i].as_slice(), x) {
            proof {
                assert(crate::text::views_of(v@)[i as int] == x@);
            }
            return true;
        }
        i = i + 1;
    }
    proof {
        if crate::text::views_of(v@).contains(x@) {
            let w = choose|j: int|
                0 <= j < crate::text::views_of(v@).len() && crate::text::views_of(v@)[j] == x@;
            assert(v@[w]@ == x@);
        }
    }
    false
}

impl Prompt {
    /// The first character called `character`.
    fn get_character(&self, character: &[u8]) -> (r: Result<usize, ParseError>)
        ensures
            match r {
                Ok(i) => is_first_char(self.characters@, character@, i as int) && first_char(
                    self.characters@,
                    character@,
                ) == i as int && has_char(self.characters@, character@),
                Err(e) => e == ParseError::NoSuchCharacter && !has_char(
                    self.characters@,
                    character@,
                ),
            },
    {
        let mut i: usize = 0;
        while i < self.characters.len()
            invariant
                0 <= i <= self.characters@.len(),
                forall|j: int| 0 <= j < i ==> self.characters@[j].name@ != character@,
            decreases self.characters@.len() - i,
        {
            if crate::text::bytes_eq(self.characters[i].name.as_slice(), character) {
                proof {
                    lemma_first_char(self.characters@, character@, i as int);
                }
                return Ok(i);
            }
            i = i + 1;
        }
        Err(ParseError::NoSuchCharacter)
    }

    /// The stop sequences to send when `character` speaks: the character's
    /// own stop sequences, substituted once per known name, without
    /// repetitions.
    #[verifier::loop_isolation(false)]
    #[verifier::rlimit(100)]
    pub fn stop_sequences(&self, character: &[u8]) -> (r: Result<Vec<Vec<u8>>, ParseError>)
        ensures
            r is Ok <==> has_char(self.characters@, character@),
            r matches Ok(v) ==> crate::text::views_of(v@) == stop_sequences_spec(
                *self,
                first_char(self.characters@, character@),
            ),
            r matches Err(e) ==> e == ParseError::NoSuchCharacter,
    {
        let ghost user = self.config.user_name@;
        let ci = match self.get_character(character) {
            Ok(i) => i,
            Err(e) => {
                return Err(e);
            },
        };
        // Every character's name, then the user's.
        let mut names: Vec<Vec<u8>> = Vec::new();
        let mut i: usize = 0;
        while i < self.characters.len()
            invariant
                0 <= i <= self.characters@.len(),
                names@.len() == i,
                forall|j: int| 0 <= j < i ==> names@[j]@ == #[trigger] self.characters@[j].name@,
            decreases self.characters@.len() - i,
        {
            names.push(crate::text::copy_bytes(&self.characters[i].name));
            i = i + 1;
        }
        names.push(crate::text::copy_bytes(&self.config.user_name));
        let ghost names_spec = character_names(self.characters@) + seq![user];
        proof {
            assert(crate::text::views_of(names@) =~= names_spec);
        }
        // Substitute each stop sequence once per name, in order.
        let stops = &self.characters[ci].stop_sequence;
        let ghost stops_spec = crate::text::views_of(stops@);
        let mut expanded: Vec<Vec<u8>> = Vec::new();
        let ghost mut acc: Seq<Seq<u8>> = Seq::empty();
        let mut si: usize = 0;
        proof {
            assert(stops_spec.skip(0) =~= stops_spec);
            assert(Seq::<Seq<u8>>::empty() + expand_stops(stops_spec, names_spec, user)
                =~= expand_stops(stops_spec, names_spec, user));
        }
        while si < stops.len()
            invariant
                0 <= si <= stops@.len(),
                crate::text::views_of(expanded@) == acc,
                expand_stops(stops_spec, names_spec, user) == acc + expand_stops(
                    stops_spec.skip(si as int),
                    names_spec,
                    user,
                ),
            decreases stops@.len() - si,
        {
            let ghost acc0 = acc;
            let ghost stop_spec = stops_spec[si as int];
            let ghost mut iacc: Seq<Seq<u8>> = Seq::empty();
            let mut ni: usize = 0;
            proof {
                assert(names_spec.skip(0) =~= names_spec);
                assert(Seq::<Seq<u8>>::empty() + expand_one(stop_spec, names_spec, user)
                    =~= expand_one(stop_spec, names_spec, user));
            }
            while ni < names.len()
                invariant
                    0 <= ni <= names@.len(),
                    crate::text::views_of(expanded@) == acc0 + iacc,
                    expand_one(stop_spec, names_spec, user) == iacc + expand_one(
                        stop_spec,
                        names_spec.skip(ni as int),
                        user,
                    ),
                decreases names@.len() - ni,
            {
                let ghost iacc0 = iacc;
                let ghost exp0 = expanded@;
                let rep = crate::text::replace_char_user(
                    self.characters[ci].stop_sequence[si].as_slice(),
                    names[ni].as_slice(),
                    self.config.user_name.as_slice(),
                );
                proof {
                    assert(names@[ni as int]@ == names_spec[ni as int]);
                    assert(self.characters@[ci as int].stop_sequence@[si as int]@ == stop_spec);
                    assert(rep@ == replaced(stop_spec, names_spec[ni as int], user));
                }
                expanded.push(rep);
                proof {
                    iacc = iacc0.push(replaced(stop_spec, names_spec[ni as int], user));
                    assert(crate::text::views_of(expanded@) =~= acc0 + iacc) by {
                        assert(crate::text::views_of(expanded@).len() == acc0.len() + iacc.len());
                        assert forall|k: int|
                            0 <= k < crate::text::views_of(expanded@).len() implies crate::text::views_of(
                            expanded@,
                        )[k] == (acc0 + iacc)[k] by {
                            if k < exp0.len() {
                                assert(expanded@[k] == exp0[k]);
                                assert(crate::text::views_of(exp0)[k] == (acc0 + iacc0)[k]);
                            } else {
                                assert(expanded@[k] == rep);
                            }
                        }
                    }
                    let rest = names_spec.skip(ni as int);
                    assert(rest[0] == names_spec[ni as int]);
                    assert(rest.skip(1) =~= names_spec.skip(ni + 1));
                    assert(expand_one(stop_spec, rest, user) == seq![
                        replaced(stop_spec, names_spec[ni as int], user),
                    ] + expand_one(stop_spec, names_spec.skip(ni + 1), user));
                    assert(iacc0 + (seq![replaced(stop_spec, names_spec[ni as int], user)]
                        + expand_one(stop_spec, names_spec.skip(ni + 1), user)) =~= iacc
                        + expand_one(stop_spec, names_spec.skip(ni + 1), user));
                }
                ni = ni + 1;
            }
            proof {
                assert(names_spec.skip(names_spec.len() as int) =~= Seq::<Seq<u8>>::empty());
                assert(expand_one(stop_spec, names_spec, user) == iacc);
                acc = acc0 + iacc;
                let rest = stops_spec.skip(si as int);
                assert(rest[0] == stop_spec);
                assert(rest.skip(1) =~= stops_spec.skip(si + 1));
                assert(expand_stops(rest, names_spec, user) == expand_one(stop_spec, names_spec, user)
                    + expand_stops(stops_spec.skip(si + 1), names_spec, user));
                assert(acc0 + (iacc + expand_stops(stops_spec.skip(si + 1), names_spec, user))
                    =~= acc + expand_stops(stops_spec.skip(si + 1), names_spec, user));
            }
            si = si + 1;
        }
        proof {
            assert(stops_spec.skip(stops_spec.len() as int) =~= Seq::<Seq<u8>>::empty());
            assert(acc + Seq::<Seq<u8>>::empty() =~= acc);
            assert(expand_stops(stops_spec, names_spec, user) == acc);
        }
        // Drop repetitions, keeping the first occurrence of each.
        let mut out: Vec<Vec<u8>> = Vec::new();
        let mut k: usize = 0;
        proof {
            assert(acc.subrange(0, 0) =~= Seq::<Seq<u8>>::empty());
        }
        while k < expanded.len()
            invariant
                0 <= k <= expanded@.len(),
                crate::text::views_of(expanded@) == acc,
                crate::text::views_of(out@) == dedup_bytes(acc.subrange(0, k as int)),
            decreases expanded@.len() - k,
        {
            let ghost pre = acc.subrange(0, k as int);
            proof {
                assert(acc.subrange(0, k + 1).drop_last() =~= pre);
                assert(acc.subrange(0, k + 1).last() == acc[k as int]);
            }
            let ghost out0 = out@;
            if !contains_bytes(&out, expanded[k].as_slice()) {
                let item = crate::text::copy_bytes(&expanded[k]);
                proof {
                    assert(item@ == acc[k as int]);
                }
                out.push(item);
                proof {
                    assert(crate::text::views_of(out@) =~= crate::text::views_of(out0).push(
                        acc[k as int],
                    )) by {
                        assert forall|m: int|
                            0 <= m < out@.len() implies crate::text::views_of(out@)[m]
                            == crate::text::views_of(out0).push(acc[k as int])[m] by {
                            if m < out0.len() {
                                assert(out@[m] == out0[m]);
                            }
                        }
                    }
                }
            } else {
                proof {
                    assert(expanded@[k as int]@ == acc[k as int]);
                }
            }
            k = k + 1;
        }
        proof {
            assert(acc.subrange(0, acc.len() as int) =~= acc);
            assert(crate::text::views_of(out@) == dedup_bytes(acc));
            assert(stops_spec == crate::text::views_of(
                self.characters@[first_char(self.characters@, character@)].stop_sequence@,
            ));
        }
        Ok(out)
    }

    /// The request to send when `character` speaks: the configured sampling
    /// parameters, the stop sequences of [`Self::stop_sequences`], and a
    /// prompt built of the character's definition, the file's prompt text
    /// and the character's prefixes, with the placeholders substituted for
    /// the speaking character.
    pub fn get_server_prompt(&self, character: &[u8]) -> (r: Result<ServerPrompt, ParseError>)
        ensures
            r is Ok <==> has_char(self.characters@, character@),
            r matches Err(e) ==> e == ParseError::NoSuchCharacter,
            r matches Ok(sp) ==> {
                let ci = first_char(self.characters@, character@);
                let c = self.characters@[ci];
                &&& sp.prompt@ == replaced(
                    c.definition@ + self.prompt@ + c.temporary_prefix@ + c.prefix@,
                    c.name@,
                    self.config.user_name@,
                )
                &&& crate::text::views_of(sp.stop_sequence@) == stop_sequences_spec(*self, ci)
                &&& sp.max_length == self.config.prompt.max_length
                &&& sp.max_context_length == self.config.prompt.max_context_length
                &&& sp.quiet == self.config.prompt.quiet
                &&& sp.rep_pen_milli == self.config.prompt.rep_pen_milli
                &&& sp.rep_pen_range == self.config.prompt.rep_pen_range
                &&& sp.rep_pen_slope_milli == self.config.prompt.rep_pen_slope_milli
                &&& sp.sampler_full_determinism == self.config.prompt.sampler_full_determinism
                &&& sp.sampler_order@ == self.config.prompt.sampler_order@
                &&& sp.sampler_seed == self.config.prompt.sampler_seed
                &&& sp.temperature_milli == self.config.prompt.temperature_milli
                &&& sp.tfs_milli == self.config.prompt.tfs_milli
                &&& sp.top_a_milli == self.config.prompt.top_a_milli
                &&& sp.top_k == self.config.prompt.top_k
                &&& sp.top_p_milli == self.config.prompt.top_p_milli
                &&& sp.typical_milli == self.config.prompt.typical_milli
            },
    {
        let stop_sequence = match self.stop_sequences(character) {
            Ok(v) => v,
            Err(e) => {
                return Err(e);
            },
        };
        let ci = match self.get_character(character) {
            Ok(i) => i,
            Err(e) => {
                return Err(e);
            },
        };
        let mut ptext: Vec<u8> = Vec::new();
        crate::text::push_bytes(&mut ptext, self.characters[ci].definition.as_slice());
        crate::text::push_bytes(&mut ptext, self.prompt.as_slice());
        crate::text::push_bytes(&mut ptext, self.characters[ci].temporary_prefix.as_slice());
        crate::text::push_bytes(&mut ptext, self.characters[ci].prefix.as_slice());
        let prompt = crate::text::replace_char_user(
            ptext.as_slice(),
            self.characters[ci].name.as_slice(),
            self.config.user_name.as_slice(),
        );
        let mut sampler_order: Vec<u64> = Vec::new();
        let mut i: usize = 0;
        while i < self.config.prompt.sampler_order.len()
            invariant
                0 <= i <= self.config.prompt.sampler_order@.len(),
                sampler_order@ == self.config.prompt.sampler_order@.subrange(0, i as int),
            decreases self.config.prompt.sampler_order@.len() - i,
        {
            sampler_order.push(self.config.prompt.sampler_order[i]);
            proof {
                assert(sampler_order@ =~= self.config.prompt.sampler_order@.subrange(0, i + 1));
            }
            i = i + 1;
        }
        proof {
            assert(self.config.prompt.sampler_order@.subrange(
                0,
                self.config.prompt.sampler_order@.len() as int,
            ) =~= self.config.prompt.sampler_order@);
            let ghost c = self.characters@[ci as int];
            assert(Seq::<u8>::empty() + c.definition@ + self.prompt@ + c.temporary_prefix@
                + c.prefix@ =~= c.definition@ + self.prompt@ + c.temporary_prefix@ + c.prefix@);
        }
        Ok(
            ServerPrompt {
                prompt,
                max_length: self.config.prompt.max_length,
                max_context_length: self.config.prompt.max_context_length,
                quiet: self.config.prompt.quiet,
                rep_pen_milli: self.config.prompt.rep_pen_milli,
                rep_pen_range: self.config.prompt.rep_pen_range,
                rep_pen_slope_milli: self.config.prompt.rep_pen_slope_milli,
                sampler_full_determinism: self.config.prompt.sampler_full_determinism,
                sampler_order,
                sampler_seed: self.config.prompt.sampler_seed,
                stop_sequence,
                temperature_milli: self.config.prompt.temperature_milli,
                tfs_milli: self.config.prompt.tfs_milli,
                top_a_milli: self.config.prompt.top_a_milli,
                top_k: self.config.prompt.top_k,
                top_p_milli: self.config.prompt.top_p_milli,
                typical_milli: self.config.prompt.typical_milli,
            },
        )
    }

    /// A finished response, framed for the file: the first stop sequence
    /// that ends it is cut off, and the speaking character's prefix and
    /// suffix are put around it.
    #[verifier::loop_isolation(false)]
    pub fn finalize_response(&self, character: &[u8], response: &[u8]) -> (r: Result<
        Vec<u8>,
        ParseError,
    >)
        ensures
            r is Ok <==> has_char(self.characters@, character@),
            r matches Err(e) ==> e == ParseError::NoSuchCharacter,
            r matches Ok(v) ==> {
                let ci = first_char(self.characters@, character@);
                v@ == self.characters@[ci].prefix@ + strip_first_suffix(
                    response@,
                    stop_sequences_spec(*self, ci),
                ) + self.characters@[ci].suffix@
            },
    {
        let ss = match self.stop_sequences(character) {
            Ok(v) => v,
            Err(e) => {
                return Err(e);
            },
        };
        let ci = match self.get_character(character) {
            Ok(i) => i,
            Err(e) => {
                return Err(e);
            },
        };
        let ghost ssv = crate::text::views_of(ss@);
        let mut cut: usize = response.len();
        let mut k: usize = 0;
        proof {
            assert(ssv.skip(0) =~= ssv);
        }
        let mut searching: bool = true;
        while searching && k < ss.len()
            invariant
                0 <= k <= ssv.len(),
                searching ==> cut == response@.len(),
                searching ==> strip_first_suffix(response@, ssv) == strip_first_suffix(
                    response@,
                    ssv.skip(k as int),
                ),
                !searching ==> strip_first_suffix(response@, ssv) == response@.take(cut as int)
                    && cut <= response@.len(),
            decreases ssv.len() - k, if searching {
                1int
            } else {
                0int
            },
        {
            let ghost rest = ssv.skip(k as int);
            proof {
                assert(rest[0] == ssv[k as int]);
                assert(rest.skip(1) =~= ssv.skip(k + 1));
                assert(ss@[k as int]@ == ssv[k as int]);
            }
            if crate::text::ends_with(response, ss[k].as_slice()) {
                cut = response.len() - ss[k].len();
                searching = false;
            }
            k = k + 1;
        }
        proof {
            if searching {
                assert(ssv.skip(ssv.len() as int) =~= Seq::<Seq<u8>>::empty());
                assert(strip_first_suffix(response@, ssv) == response@);
                assert(response@.take(response@.len() as int) =~= response@);
            }
        }
        let mut out: Vec<u8> = Vec::new();
        crate::text::push_bytes(&mut out, self.characters[ci].prefix.as_slice());
        let stripped = slice_subrange(response, 0, cut);
        crate::text::push_bytes(&mut out, stripped);
        crate::text::push_bytes(&mut out, self.characters[ci].suffix.as_slice());
        proof {
            assert(stripped@ =~= response@.take(cut as int));
            assert(out@ =~= self.characters@[ci as int].prefix@ + strip_first_suffix(
                response@,
                ssv,
            ) + self.characters@[ci as int].suffix@);
        }
        Ok(out)
    }
}

} // verus!