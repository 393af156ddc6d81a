//! Splitting a prompt file into literal text and include statements.
//!
//! Before it is parsed, a prompt file is preprocessed: a file include
//! statement is replaced by the (preprocessed) text of the named file, and a
//! JSON splice statement by the string a JSON pointer addresses in a named
//! file.  Reading those files is not the library's work; the scan here cuts
//! the text into segments — literal text, file includes, JSON splices — and
//! the caller reads each named file and pastes the pieces back together in
//! order.  A statement whose end marker only turns up after
//! the next statement has already begun has no end of its own: the scan
//! stops on it.

use vstd::prelude::*;

verus! {

use crate::error::ParseError;
use crate::json::json_get_pointer_string;
use crate::json::json_ok;
use crate::json::json_str_at;
use crate::tags::end_tag;
use crate::tags::end_tag_bytes;
use crate::tags::include_json_tag;
use crate::tags::include_json_tag_bytes;
use crate::tags::include_tag;
use crate::tags::include_tag_bytes;
use crate::text::find_first;
use crate::text::find_sub;
use crate::text::is_ascii_ws;
use crate::text::matches_at;
use crate::text::trim_ascii_ws;
use crate::text::trim_left_ws_spec;
use crate::text::trim_ws_spec;
use vstd::slice::slice_subrange;

/// The longest whitespace-free prefix of `s`.
pub open spec fn take_until_ws(s: Seq<u8>) -> Seq<u8>
    decreases s.len(),
{
    if s.len() == 0 || is_ascii_ws(s[0]) {
        Seq::empty()
    } else {
        seq![s[0]] + take_until_ws(s.skip(1))
    }
}

/// The first whitespace-separated word of `s`; empty when `s` is blank.
pub open spec fn first_token(s: Seq<u8>) -> Seq<u8> {
    take_until_ws(trim_left_ws_spec(s))
}

/// What is left of `s` after its first word.
pub open spec fn after_token(s: Seq<u8>) -> Seq<u8> {
    trim_left_ws_spec(s).skip(first_token(s).len() as int)
}

/// A whitespace-free span extends `take_until_ws` bytewise.
proof fn lemma_take_until_ws(s: Seq<u8>, m: int)
    requires
        0 <= m <= s.len(),
        forall|j: int| 0 <= j < m ==> !is_ascii_ws(s[j]),
        m == s.len() || is_ascii_ws(s[m]),
    ensures
        take_until_ws(s) == s.subrange(0, m),
    decreases m,
{
    if m == 0 {
        assert(s.subrange(0, 0) =~= Seq::<u8>::empty());
    } else {
        assert(!is_ascii_ws(s[0]));
        assert(forall|j: int| 0 <= j < m - 1 ==> s.skip(1)[j] == s[j + 1]);
        lemma_take_until_ws(s.skip(1), m - 1);
        assert(s.skip(1).subrange(0, m - 1) =~= s.subrange(1, m));
        assert(seq![s[0]] + s.subrange(1, m) =~= s.subrange(0, m));
    }
}

/// Cuts the first whitespace-separated word off `s`: the word, and all that
/// follows it.
pub fn next_token<'a>(s: &'a [u8]) -> (r: (&'a [u8], &'a [u8]))
    ensures
        r.0@ == first_token(s@),
        r.1@ == after_token(s@),
{
    let mut start: usize = 0;
    while start < s.len() && (s[start] == 32u8 || (9u8 <= s[start] && s[start] <= 13u8))
        invariant
            0 <= start <= s@.len(),
            forall|j: int| 0 <= j < start ==> is_ascii_ws(s@[j]),
        decreases s@.len() - start,
    {
        start = start + 1;
    }
    let ghost left = s@.skip(start as int);
    proof {
        crate::text::lemma_trim_left_ws_cut(s@, start as int);
        if start < s@.len() {
            assert(trim_left_ws_spec(left) == left);
        } else {
            assert(left =~= Seq::<u8>::empty());
        }
    }
    let mut end: usize = start;
    while end < s.len() && !(s[end] == 32u8 || (9u8 <= s[end] && s[end] <= 13u8))
        invariant
            start <= end <= s@.len(),
            forall|j: int| start <= j < end ==> !is_ascii_ws(s@[j]),
        decreases s@.len() - end,
    {
        end = end + 1;
    }
    proof {
        assert(forall|j: int| 0 <= j < left.len() ==> left[j] == s@[start + j]);
        lemma_take_until_ws(left, end - start);
        assert(left.subrange(0, end - start) =~= s@.subrange(start as int, end as int));
        assert(left.skip(end - start) =~= s@.subrange(end as int, s@.len() as int));
    }
    (slice_subrange(s, start, end), slice_subrange(s, end, s.len()))
}

/// One piece of a preprocessed file.
pub enum Segment {
    /// Literal text, taken over as it stands.
    Text(Vec<u8>),
    /// A file include: the named file's preprocessed text replaces it.
    Include(Vec<u8>),
    /// A JSON splice: the string at the given pointer in the given JSON
    /// file replaces it.
    Json(Vec<u8>, Vec<u8>),
}

/// A segment, as byte sequences.
pub enum SegmentSpec {
    Text(Seq<u8>),
    Include(Seq<u8>),
    Json(Seq<u8>, Seq<u8>),
}

/// The byte sequences a segment holds.
pub open spec fn seg_view(s: Segment) -> SegmentSpec {
    match s {
        Segment::Text(t) => SegmentSpec::Text(t@),
        Segment::Include(f) => SegmentSpec::Include(f@),
        Segment::Json(f, p) => SegmentSpec::Json(f@, p@),
    }
}

/// The position of the first include or JSON splice statement in `t`.
pub open spec fn first_open(t: Seq<u8>) -> Option<int> {
    match (find_first(t, include_tag()), find_first(t, include_json_tag())) {
        (Option::None, Option::None) => None,
        (Option::Some(a), Option::None) => Some(a),
        (Option::None, Option::Some(b)) => Some(b),
        (Option::Some(a), Option::Some(b)) => Some(
            if a <= b {
                a
            } else {
                b
            },
        ),
    }
}

/// The segment an include statement's arguments make: the one argument of a
/// file include is the file (whitespace-trimmed); a JSON splice names a
/// file and a pointer, and fewer than two words are too few.
pub open spec fn args_segment(is_json: bool, args: Seq<u8>) -> Result<SegmentSpec, ParseError> {
    if is_json {
        if first_token(args).len() == 0 || first_token(after_token(args)).len() == 0 {
            Err(ParseError::TooFewJsonArgs)
        } else {
            Ok(SegmentSpec::Json(first_token(args), first_token(after_token(args))))
        }
    } else {
        Ok(SegmentSpec::Include(trim_ws_spec(args)))
    }
}

/// Cuts `t` into literal text and include statements, front to back.  A
/// statement without an end marker, and everything after it, is literal
/// text; a statement whose end marker lies past the next statement's start
/// has none of its own, and the scan fails.
pub open spec fn scan_spec(t: Seq<u8>) -> Result<Seq<SegmentSpec>, ParseError>
    decreases t.len(),
{
    match first_open(t) {
        None => Ok(seq![SegmentSpec::Text(t)]),
        Some(i) => {
            let is_json = matches_at(t, include_json_tag(), i);
            let opn = if is_json {
                include_json_tag()
            } else {
                include_tag()
            };
            match find_first(t.skip(i), end_tag()) {
                None => Ok(seq![SegmentSpec::Text(t)]),
                Some(jr) => {
                    let j = i + jr;
                    if j < i + opn.len() || (match first_open(t.skip(i + 1)) {
                        Some(n) => i + 1 + n < j,
                        None => false,
                    }) {
                        Err(ParseError::MissingIncludeEnd)
                    } else {
                        match args_segment(is_json, t.subrange(i + opn.len(), j)) {
                            Err(e) => Err(e),
                            Ok(seg) => match scan_spec(t.skip(j + end_tag().len())) {
                                Ok(tl) => Ok(seq![SegmentSpec::Text(t.take(i)), seg] + tl),
                                Err(e) => Err(e),
                            },
                        }
                    }
                },
            }
        },
    }
}

/// A position that opens a file include does not open a JSON splice too.
proof fn lemma_open_kinds_disjoint(t: Seq<u8>, i: int)
    requires
        matches_at(t, include_tag(), i),
    ensures
        !matches_at(t, include_json_tag(), i),
{
    if matches_at(t, include_json_tag(), i) {
        assert(t.subrange(i, i + include_tag().len() as int)[2] == t[i + 2]);
        assert(t.subrange(i, i + include_json_tag().len() as int)[2] == t[i + 2]);
        assert(include_tag()[2] == 73);
        assert(include_json_tag()[2] == 74);
    }
}

/// Finds the first include or JSON splice statement of `t`, and which of
/// the two it is.
fn find_open(t: &[u8]) -> (r: Option<(usize, bool)>)
    ensures
        match r {
            Some(p) => first_open(t@) == Some(p.0 as int) && p.1 == matches_at(
                t@,
                include_json_tag(),
                p.0 as int,
            ),
            None => first_open(t@) is None,
        },
{
    let a = find_sub(t, include_tag_bytes());
    let b = find_sub(t, include_json_tag_bytes());
    match (a, b) {
        (Option::None, Option::None) => None,
        (Option::Some(x), Option::None) => {
            proof {
                lemma_open_kinds_disjoint(t@, x as int);
            }
            Some((x, false))
        },
        (Option::None, Option::Some(y)) => Some((y, true)),
        (Option::Some(x), Option::Some(y)) => {
            proof {
                lemma_open_kinds_disjoint(t@, x as int);
            }
            if x <= y {
                Some((x, false))
            } else {
                Some((y, true))
            }
        },
    }
}

/// The segments read so far match the scanned pieces, one to one.
pub open spec fn segments_match(segs: Seq<Segment>, ss: Seq<SegmentSpec>) -> bool {
    &&& segs.len() == ss.len()
    &&& forall|k: int| 0 <= k < ss.len() ==> seg_view(#[trigger] segs[k]) == ss[k]
}

/// What one step of the scan found, from some position on.
enum ScanStep {
    /// No further statement: the rest is one literal piece.
    Finish(Vec<u8>),
    /// A literal piece, the statement after it, and where to go on.
    Piece(Vec<u8>, Segment, usize),
    /// The scan stops on a fault.
    Fail(ParseError),
}

/// Scans one statement, starting at `pos`.
#[verifier::loop_isolation(false)]
#[verifier::rlimit(100)]
fn scan_step(contents: &[u8], pos: usize) -> (r: ScanStep)
    requires
        pos <= contents@.len(),
    ensures
        match r {
            ScanStep::Finish(text) => scan_spec(contents@.skip(pos as int))
                == Ok::<Seq<SegmentSpec>, ParseError>(
                seq![SegmentSpec::Text(contents@.skip(pos as int))],
            ) && text@ == contents@.skip(pos as int),
            ScanStep::Piece(text, seg, npos) => pos < npos <= contents@.len() && scan_spec(
                contents@.skip(pos as int),
            ) == (match scan_spec(contents@.skip(npos as int)) {
                Ok(tl) => Ok::<Seq<SegmentSpec>, ParseError>(
                    seq![SegmentSpec::Text(text@), seg_view(seg)] + tl,
                ),
                Err(e) => Err::<Seq<SegmentSpec>, ParseError>(e),
            }),
            ScanStep::Fail(e) => scan_spec(contents@.skip(pos as int)) == Err::<
                Seq<SegmentSpec>,
                ParseError,
            >(e),
        },
{
    let total = contents.len();
    let ghost rest0 = contents@.skip(pos as int);
    let view = slice_subrange(contents, pos, total);
    proof {
        assert(view@ =~= rest0);
    }
    let (i, is_json) = match find_open(view) {
        Some(p) => p,
        None => {
            proof {
                assert(scan_spec(rest0) == Ok::<Seq<SegmentSpec>, ParseError>(
                    seq![SegmentSpec::Text(rest0)],
                ));
            }
            return ScanStep::Finish(vstd::slice::slice_to_vec(view));
        },
    };
    let opn_len = if is_json {
        include_json_tag_bytes().len()
    } else {
        include_tag_bytes().len()
    };
    let ghost opn = if is_json {
        include_json_tag()
    } else {
        include_tag()
    };
    let after_i = slice_subrange(contents, pos + i, total);
    proof {
        assert(after_i@ =~= rest0.skip(i as int));
    }
    let jr = match find_sub(after_i, end_tag_bytes()) {
        Some(jr) => jr,
        None => {
            proof {
                assert(scan_spec(rest0) == Ok::<Seq<SegmentSpec>, ParseError>(
                    seq![SegmentSpec::Text(rest0)],
                ));
            }
            return ScanStep::Finish(vstd::slice::slice_to_vec(view));
        },
    };
    let j = i + jr;
    if jr < opn_len {
        proof {
            assert(scan_spec(rest0) == Err::<Seq<SegmentSpec>, ParseError>(
                ParseError::MissingIncludeEnd,
            ));
        }
        return ScanStep::Fail(ParseError::MissingIncludeEnd);
    }
    let after_open = slice_subrange(contents, pos + i + 1, total);
    proof {
        assert(after_open@ =~= rest0.skip(i + 1));
    }
    let overlap: bool = match find_open(after_open) {
        Some(p) => i + 1 + p.0 < j,
        None => false,
    };
    if overlap {
        proof {
            assert(scan_spec(rest0) == Err::<Seq<SegmentSpec>, ParseError>(
                ParseError::MissingIncludeEnd,
            ));
        }
        return ScanStep::Fail(ParseError::MissingIncludeEnd);
    }
    let args = slice_subrange(contents, pos + i + opn_len, pos + j);
    proof {
        assert(args@ =~= rest0.subrange(i + opn.len(), j as int));
    }
    let seg: Segment = if is_json {
        let (file, rest_args) = next_token(args);
        let (pointer, _) = next_token(rest_args);
        if file.len() == 0 || pointer.len() == 0 {
            proof {
                assert(scan_spec(rest0) == Err::<Seq<SegmentSpec>, ParseError>(
                    ParseError::TooFewJsonArgs,
                ));
            }
            return ScanStep::Fail(ParseError::TooFewJsonArgs);
        }
        let f = vstd::slice::slice_to_vec(file);
        let p = vstd::slice::slice_to_vec(pointer);
        Segment::Json(f, p)
    } else {
        let trimmed = trim_ascii_ws(args);
        Segment::Include(vstd::slice::slice_to_vec(trimmed))
    };
    let head = slice_subrange(contents, pos, pos + i);
    proof {
        assert(head@ =~= rest0.take(i as int));
        assert(args_segment(is_json, args@) == Ok::<SegmentSpec, ParseError>(seg_view(seg)));
        let tail = contents@.skip((pos + j + end_tag().len()) as int);
        assert(rest0.skip(j + end_tag().len()) =~= tail);
        assert(scan_spec(rest0) == (match scan_spec(tail) {
            Ok(tl) => Ok::<Seq<SegmentSpec>, ParseError>(
                seq![SegmentSpec::Text(rest0.take(i as int)), seg_view(seg)] + tl,
            ),
            Err(e) => Err::<Seq<SegmentSpec>, ParseError>(e),
        }));
    }
    ScanStep::Piece(vstd::slice::slice_to_vec(head), seg, pos + j + end_tag_bytes().len())
}

/// Cuts a file's text into literal text and include statements.
#[verifier::loop_isolation(false)]
#[verifier::rlimit(100)]
pub fn preprocess_segments(contents: &[u8]) -> (r: Result<Vec<Segment>, ParseError>)
    ensures
        match r {
            Ok(segs) => scan_spec(contents@) matches Ok(ss) && segments_match(segs@, ss),
            Err(e) => scan_spec(contents@) == Err::<Seq<SegmentSpec>, ParseError>(e),
        },
{
    let mut segments: Vec<Segment> = Vec::new();
    let ghost mut done: Seq<SegmentSpec> = Seq::empty();
    let mut pos: usize = 0;
    proof {
        assert(contents@.skip(0) =~= contents@);
    }
    let mut scanning: bool = true;
    while scanning
        invariant
            0 <= pos <= contents@.len(),
            segments_match(segments@, done),
            scanning ==> scan_spec(contents@) == match scan_spec(contents@.skip(pos as int)) {
                Ok(tl) => Ok::<Seq<SegmentSpec>, ParseError>(done + tl),
                Err(e) => Err::<Seq<SegmentSpec>, ParseError>(e),
            },
            !scanning ==> (scan_spec(contents@) matches Ok(ss) && segments_match(segments@, ss)),
        decreases contents@.len() - pos, if scanning {
            1int
        } else {
            0int
        },
    {
        let ghost rest0 = contents@.skip(pos as int);
        let ghost done0 = done;
        let ghost segs0 = segments@;
        match scan_step(contents, pos) {
            ScanStep::Finish(text) => {
                let ghost t = text@;
                segments.push(Segment::Text(text));
                proof {
                    done = done0.push(SegmentSpec::Text(t));
                    assert(done0 + seq![SegmentSpec::Text(t)] =~= done);
                    assert forall|k: int|
                        0 <= k < done.len() implies seg_view(#[trigger] segments@[k])
                        == done[k] by {
                        if k < done0.len() {
                            assert(segments@[k] == segs0[k]);
                        }
                    }
                }
                scanning = false;
            },
            ScanStep::Piece(text, seg, npos) => {
                let ghost t = text@;
                let ghost sv = seg_view(seg);
                segments.push(Segment::Text(text));
                segments.push(seg);
                proof {
                    done = done0 + seq![SegmentSpec::Text(t), sv];
                    match scan_spec(contents@.skip(npos as int)) {
                        Ok(tl) => {
                            assert(scan_spec(rest0) == Ok::<Seq<SegmentSpec>, ParseError>(
                                seq![SegmentSpec::Text(t), sv] + tl,
                            ));
                            assert(scan_spec(contents@) == Ok::<Seq<SegmentSpec>, ParseError>(
                                done0 + (seq![SegmentSpec::Text(t), sv] + tl),
                            ));
                            assert((done0 + seq![SegmentSpec::Text(t), sv]) + tl =~= done0 + (
                            seq![SegmentSpec::Text(t), sv] + tl));
                            assert(scan_spec(contents@) == Ok::<Seq<SegmentSpec>, ParseError>(
                                done + tl,
                            ));
                        },
                        Err(e) => {
                            assert(scan_spec(rest0) == Err::<Seq<SegmentSpec>, ParseError>(e));
                            assert(scan_spec(contents@) == Err::<Seq<SegmentSpec>, ParseError>(e));
                        },
                    }
                    assert forall|k: int|
                        0 <= k < done.len() implies seg_view(#[trigger] segments@[k])
                        == done[k] by {
                        if k < done0.len() {
                            assert(segments@[k] == segs0[k]);
                        } else if k == done.len() - 2 {
                            assert(seg_view(segments@[k]) == SegmentSpec::Text(t));
                        } else {
                            assert(seg_view(segments@[k]) == sv);
                        }
                    }
                }
                pos = npos;
            },
            ScanStep::Fail(e) => {
                return Err(e);
            },
        }
    }
    Ok(segments)
}

/// Pulls the string a JSON pointer addresses out of JSON text.
pub fn extract_json_string(doc: &[u8], pointer: &[u8]) -> (r: Result<Vec<u8>, ParseError>)
    ensures
        match r {
            Ok(v) => json_ok(doc@) && json_str_at(doc@, pointer@) == Some(v@),
            Err(e) => (e == ParseError::BadJson && !json_ok(doc@)) || (e
                == ParseError::JsonPointerMissing && json_ok(doc@) && json_str_at(
                doc@,
                pointer@,
            ) is None),
        },
{
    match json_get_pointer_string(doc, pointer) {
        Ok(Some(v)) => Ok(v),
        Ok(None) => Err(ParseError::JsonPointerMissing),
        Err(_) => Err(ParseError::BadJson),
    }
}

} // verus!
