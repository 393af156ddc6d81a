//! Byte-level text utilities shared by the parser and the router.
//!
//! All text handled by the library is kept as UTF-8 bytes; offsets and
//! lengths are byte offsets, as in the wire protocol and the prompt files.

use vstd::prelude::*;

verus! {

use vstd::slice::slice_subrange;
use vstd::string::StringSliceAdditionalSpecFns;

/// Length of the longest shared leading byte sequence of `a` and `b`.
pub open spec fn common_prefix(a: Seq<u8>, b: Seq<u8>) -> int
    decreases a.len(),
{
    if a.len() == 0 || b.len() == 0 || a[0] != b[0] {
        0
    } else {
        1 + common_prefix(a.skip(1), b.skip(1))
    }
}

/// The common prefix is never longer than either operand, and both operands
/// agree on every byte below it.
pub proof fn lemma_common_prefix(a: Seq<u8>, b: Seq<u8>)
    ensures
        0 <= common_prefix(a, b) <= a.len(),
        common_prefix(a, b) <= b.len(),
        forall|i: int| 0 <= i < common_prefix(a, b) ==> a[i] == b[i],
    decreases a.len(),
{
    if a.len() == 0 || b.len() == 0 || a[0] != b[0] {
    } else {
        lemma_common_prefix(a.skip(1), b.skip(1));
        assert forall|i: int| 0 <= i < common_prefix(a, b) implies a[i] == b[i] by {
            if i > 0 {
                assert(a.skip(1)[i - 1] == a[i]);
                assert(b.skip(1)[i - 1] == b[i]);
            }
        }
    }
}

/// A byte below the common prefix of `a` and `b` where the two disagree is
/// impossible; conversely, agreement up to `n` pushes the common prefix to
/// at least `n`.
pub proof fn lemma_common_prefix_at_least(a: Seq<u8>, b: Seq<u8>, n: int)
    requires
        0 <= n <= a.len(),
        n <= b.len(),
        forall|i: int| 0 <= i < n ==> a[i] == b[i],
    ensures
        common_prefix(a, b) >= n,
    decreases n,
{
    lemma_common_prefix(a, b);
    if n > 0 {
        assert(a[0] == b[0]);
        assert forall|i: int| 0 <= i < n - 1 implies a.skip(1)[i] == b.skip(1)[i] by {
            assert(a.skip(1)[i] == a[i + 1]);
            assert(b.skip(1)[i] == b[i + 1]);
        }
        lemma_common_prefix_at_least(a.skip(1), b.skip(1), n - 1);
        assert(common_prefix(a, b) == 1 + common_prefix(a.skip(1), b.skip(1)));
    }
}

/// Length of the longest shared leading byte sequence of `a` and `b`.
pub fn common_prefix_len(a: &[u8], b: &[u8]) -> (n: usize)
    ensures
        n == common_prefix(a@, b@),
{
    let min: usize = if a.len() < b.len() {
        a.len()
    } else {
        b.len()
    };
    let mut i: usize = 0;
    while i < min && a[i] == b[i]
        invariant
            0 <= i <= min,
            min <= a@.len(),
            min <= b@.len(),
            min == if a@.len() < b@.len() {
                a@.len() as int
            } else {
                b@.len() as int
            },
            forall|j: int| 0 <= j < i ==> a@[j] == b@[j],
        decreases min - i,
    {
        i = i + 1;
    }
    proof {
        lemma_common_prefix(a@, b@);
        lemma_common_prefix_at_least(a@, b@, i as int);
        if i < min {
            // The loop stopped on a mismatch, so the common prefix cannot
            // reach past `i`.
            if common_prefix(a@, b@) > i {
                assert(a@[i as int] == b@[i as int]);
            }
        }
    }
    i
}

/// The pattern `pat` occurs in `s` at byte offset `i`.
pub open spec fn matches_at(s: Seq<u8>, pat: Seq<u8>, i: int) -> bool {
    0 <= i && i + pat.len() <= s.len() && s.subrange(i, i + pat.len()) == pat
}

/// `i` is the first occurrence of `pat` in `s`.
pub open spec fn is_first_match(s: Seq<u8>, pat: Seq<u8>, i: int) -> bool {
    matches_at(s, pat, i) && forall|j: int| 0 <= j < i ==> !matches_at(s, pat, j)
}

/// `i` is the last occurrence of `pat` in `s`.
pub open spec fn is_last_match(s: Seq<u8>, pat: Seq<u8>, i: int) -> bool {
    matches_at(s, pat, i) && forall|j: int| i < j ==> !matches_at(s, pat, j)
}

/// The byte offset of the first occurrence of `pat` in `s`, if any.
pub open spec fn find_first(s: Seq<u8>, pat: Seq<u8>) -> Option<int> {
    if exists|i: int| is_first_match(s, pat, i) {
        Some(choose|i: int| is_first_match(s, pat, i))
    } else {
        None
    }
}

/// The byte offset of the last occurrence of `pat` in `s`, if any.
pub open spec fn find_last(s: Seq<u8>, pat: Seq<u8>) -> Option<int> {
    if exists|i: int| is_last_match(s, pat, i) {
        Some(choose|i: int| is_last_match(s, pat, i))
    } else {
        None
    }
}

/// A first occurrence determines `find_first`.
pub proof fn lemma_find_first_some(s: Seq<u8>, pat: Seq<u8>, i: int)
    requires
        is_first_match(s, pat, i),
    ensures
        find_first(s, pat) == Some(i),
{
    let i2 = choose|x: int| is_first_match(s, pat, x);
    if i < i2 {
        assert(!matches_at(s, pat, i));
    } else if i2 < i {
        assert(!matches_at(s, pat, i2));
    }
}

/// No occurrence at all means `find_first` finds nothing.
pub proof fn lemma_find_first_none(s: Seq<u8>, pat: Seq<u8>)
    requires
        forall|j: int| !matches_at(s, pat, j),
    ensures
        find_first(s, pat) is None,
{
}

/// A last occurrence determines `find_last`.
pub proof fn lemma_find_last_some(s: Seq<u8>, pat: Seq<u8>, i: int)
    requires
        is_last_match(s, pat, i),
    ensures
        find_last(s, pat) == Some(i),
{
    let i2 = choose|x: int| is_last_match(s, pat, x);
    if i < i2 {
        assert(!matches_at(s, pat, i2));
    } else if i2 < i {
        assert(!matches_at(s, pat, i));
    }
}

/// No occurrence at all means `find_last` finds nothing.
pub proof fn lemma_find_last_none(s: Seq<u8>, pat: Seq<u8>)
    requires
        forall|j: int| !matches_at(s, pat, j),
    ensures
        find_last(s, pat) is None,
{
}

/// `pat` occurs at `i` in `s`, tested bytewise.
fn matches_at_exec(s: &[u8], pat: &[u8], i: usize) -> (r: bool)
    requires
        i <= s@.len(),
    ensures
        r == matches_at(s@, pat@, i as int),
{
    if s.len() - i < pat.len() {
        proof {
            assert(!matches_at(s@, pat@, i as int));
        }
        return false;
    }
    let mut j: usize = 0;
    while j < pat.len()
        invariant
            0 <= j <= pat@.len(),
            i + pat@.len() <= s@.len(),
            s@.len() <= usize::MAX,
            forall|k: int| 0 <= k < j ==> s@[i + k] == pat@[k],
        decreases pat@.len() - j,
    {
        if s[i + j] != pat[j] {
            proof {
                assert(s@.subrange(i as int, i + pat@.len())[j as int] == s@[i + j]);
            }
            return false;
        }
        j = j + 1;
    }
    proof {
        assert(s@.subrange(i as int, i + pat@.len()) =~= pat@);
    }
    true
}

/// Byte offset of the first occurrence of `pat` in `s`, if any.
///
/// An empty pattern matches at offset zero, as `str::find` has it.
pub fn find_sub(s: &[u8], pat: &[u8]) -> (r: Option<usize>)
    ensures
        match r {
            Some(i) => is_first_match(s@, pat@, i as int) && find_first(s@, pat@) == Some(
                i as int,
            ),
            None => (forall|j: int| !matches_at(s@, pat@, j)) && find_first(s@, pat@) is None,
        },
{
    if pat.len() == 0 {
        proof {
            assert(s@.subrange(0, 0) =~= pat@);
            lemma_find_first_some(s@, pat@, 0);
        }
        return Some(0);
    }
    let mut i: usize = 0;
    while i < s.len()
        invariant
            0 <= i <= s@.len(),
            forall|j: int| 0 <= j < i ==> !matches_at(s@, pat@, j),
        decreases s@.len() - i,
    {
        if matches_at_exec(s, pat, i) {
            proof {
                lemma_find_first_some(s@, pat@, i as int);
            }
            return Some(i);
        }
        i = i + 1;
    }
    proof {
        assert forall|j: int| !matches_at(s@, pat@, j) by {
            if matches_at(s@, pat@, j) {
                // A nonempty pattern cannot match at or past the end.
                assert(j + pat@.len() <= s@.len());
                assert(0 <= j < s@.len());
            }
        }
        lemma_find_first_none(s@, pat@);
    }
    None
}

/// Byte offset of the last occurrence of `pat` in `s`, if any.
pub fn find_sub_last(s: &[u8], pat: &[u8]) -> (r: Option<usize>)
    ensures
        match r {
            Some(i) => is_last_match(s@, pat@, i as int) && find_last(s@, pat@) == Some(i as int),
            None => (forall|j: int| !matches_at(s@, pat@, j)) && find_last(s@, pat@) is None,
        },
{
    let mut i: usize = s.len();
    loop
        invariant
            0 <= i <= s@.len(),
            forall|j: int| i < j ==> !matches_at(s@, pat@, j),
        ensures
            forall|j: int| !matches_at(s@, pat@, j),
        decreases i + 1,
    {
        if matches_at_exec(s, pat, i) {
            proof {
                lemma_find_last_some(s@, pat@, i as int);
            }
            return Some(i);
        }
        if i == 0 {
            break;
        }
        i = i - 1;
    }
    proof {
        lemma_find_last_none(s@, pat@);
    }
    None
}

/// Appends all of `src` to `out`.
pub fn push_bytes(out: &mut Vec<u8>, src: &[u8])
    ensures
        final(out)@ == old(out)@ + src@,
{
    let mut i: usize = 0;
    while i < src.len()
        invariant
            0 <= i <= src@.len(),
            out@ == old(out)@ + src@.subrange(0, i as int),
        decreases src@.len() - i,
    {
        out.push(src[i]);
        proof {
            assert(old(out)@ + src@.subrange(0, i + 1) =~= (old(out)@ + src@.subrange(
                0,
                i as int,
            )).push(src@[i as int]));
        }
        i = i + 1;
    }
    proof {
        assert(src@.subrange(0, src@.len() as int) =~= src@);
    }
}

/// `s` without one trailing newline: a final line feed is removed, then a
/// final carriage return, so that a trailing `"\r\n"` disappears whole.
pub open spec fn trim_newline_right_spec(s: Seq<u8>) -> Seq<u8> {
    let t = if s.len() > 0 && s[s.len() - 1] == 10 {
        s.subrange(0, s.len() - 1)
    } else {
        s
    };
    if t.len() > 0 && t[t.len() - 1] == 13 {
        t.subrange(0, t.len() - 1)
    } else {
        t
    }
}

/// `s` without one leading newline: a first carriage return is removed, then
/// a first line feed, so that a leading `"\r\n"` disappears whole.
pub open spec fn trim_newline_left_spec(s: Seq<u8>) -> Seq<u8> {
    let t = if s.len() > 0 && s[0] == 13 {
        s.subrange(1, s.len() as int)
    } else {
        s
    };
    if t.len() > 0 && t[0] == 10 {
        t.subrange(1, t.len() as int)
    } else {
        t
    }
}

/// Removes at most one newline (`"\n"`, `"\r\n"` or a bare `"\r"` before a
/// final `"\n"`) from the end of `s`.
pub fn trim_newline_right(s: &[u8]) -> (r: &[u8])
    ensures
        r@ == trim_newline_right_spec(s@),
{
    let mut t: &[u8] = s;
    if t.len() > 0 && t[t.len() - 1] == 10u8 {
        t = slice_subrange(t, 0, t.len() - 1);
    }
    if t.len() > 0 && t[t.len() - 1] == 13u8 {
        t = slice_subrange(t, 0, t.len() - 1);
    }
    t
}

/// Removes at most one newline from the start of `s`.
pub fn trim_newline_left(s: &[u8]) -> (r: &[u8])
    ensures
        r@ == trim_newline_left_spec(s@),
{
    let mut t: &[u8] = s;
    if t.len() > 0 && t[0] == 13u8 {
        t = slice_subrange(t, 1, t.len());
    }
    if t.len() > 0 && t[0] == 10u8 {
        t = slice_subrange(t, 1, t.len());
    }
    t
}

/// Removes at most one newline from each end of `s`.
pub fn trim_newline_left_right(s: &[u8]) -> (r: &[u8])
    ensures
        r@ == trim_newline_right_spec(trim_newline_left_spec(s@)),
{
    trim_newline_right(trim_newline_left(s))
}

/// `b` is an ASCII whitespace byte: space, tab, line feed, vertical tab,
/// form feed or carriage return.
pub open spec fn is_ascii_ws(b: u8) -> bool {
    b == 32 || 9 <= b <= 13
}

/// `s` without its leading whitespace bytes.
pub open spec fn trim_left_ws_spec(s: Seq<u8>) -> Seq<u8>
    decreases s.len(),
{
    if s.len() > 0 && is_ascii_ws(s[0]) {
        trim_left_ws_spec(s.skip(1))
    } else {
        s
    }
}

/// `s` without its trailing whitespace bytes.
pub open spec fn trim_right_ws_spec(s: Seq<u8>) -> Seq<u8>
    decreases s.len(),
{
    if s.len() > 0 && is_ascii_ws(s[s.len() - 1]) {
        trim_right_ws_spec(s.subrange(0, s.len() - 1))
    } else {
        s
    }
}

/// `s` without leading and trailing whitespace bytes.
pub open spec fn trim_ws_spec(s: Seq<u8>) -> Seq<u8> {
    trim_right_ws_spec(trim_left_ws_spec(s))
}

/// A whitespace-free suffix cut does not change the left trim.
pub proof fn lemma_trim_left_ws_cut(s: Seq<u8>, k: int)
    requires
        0 <= k <= s.len(),
        forall|j: int| 0 <= j < k ==> is_ascii_ws(s[j]),
    ensures
        trim_left_ws_spec(s) == trim_left_ws_spec(s.skip(k)),
    decreases k,
{
    if k > 0 {
        assert(is_ascii_ws(s[0]));
        assert(s.skip(1).skip(k - 1) =~= s.skip(k));
        assert(forall|j: int| 0 <= j < k - 1 ==> s.skip(1)[j] == s[j + 1]);
        lemma_trim_left_ws_cut(s.skip(1), k - 1);
    } else {
        assert(s.skip(0) =~= s);
    }
}

/// Dropping trailing whitespace one byte at a time reaches the right trim.
pub proof fn lemma_trim_right_ws_cut(s: Seq<u8>, k: int)
    requires
        0 <= k <= s.len(),
        forall|j: int| k <= j < s.len() ==> is_ascii_ws(s[j]),
    ensures
        trim_right_ws_spec(s) == trim_right_ws_spec(s.subrange(0, k)),
    decreases s.len() - k,
{
    if k < s.len() {
        assert(is_ascii_ws(s[s.len() - 1]));
        assert(forall|j: int|
            0 <= j < s.len() - 1 ==> s.subrange(0, s.len() - 1)[j] == s[j]);
        lemma_trim_right_ws_cut(s.subrange(0, s.len() - 1), k);
        assert(s.subrange(0, s.len() - 1).subrange(0, k) =~= s.subrange(0, k));
    } else {
        assert(s.subrange(0, k) =~= s);
    }
}

/// Removes every leading and trailing ASCII whitespace byte of `s`.
pub fn trim_ascii_ws(s: &[u8]) -> (r: &[u8])
    ensures
        r@ == trim_ws_spec(s@),
{
    let mut start: usize = 0;
    while start < s.len() && (s[start] == 32u8 || (9u8 <= s[start] && s[start] <= 13u8))
        invariant
            0 <= start <= s@.len(),
            forall|j: int| 0 <= j < start ==> is_ascii_ws(s@[j]),
        decreases s@.len() - start,
    {
        start = start + 1;
    }
    proof {
        lemma_trim_left_ws_cut(s@, start as int);
        if start < s@.len() {
            assert(trim_left_ws_spec(s@.skip(start as int)) == s@.skip(start as int));
        } else {
            assert(s@.skip(start as int) =~= Seq::<u8>::empty());
        }
    }
    let mut end: usize = s.len();
    while end > start && (s[end - 1] == 32u8 || (9u8 <= s[end - 1] && s[end - 1] <= 13u8))
        invariant
            start <= end <= s@.len(),
            forall|j: int| end <= j < s@.len() ==> is_ascii_ws(s@[j]),
        decreases end,
    {
        end = end - 1;
    }
    let ghost left = s@.skip(start as int);
    proof {
        assert(forall|j: int| 0 <= j < left.len() ==> left[j] == s@[start + j]);
        assert forall|j: int| end - start <= j < left.len() implies is_ascii_ws(left[j]) by {
            assert(left[j] == s@[start + j]);
        }
        lemma_trim_right_ws_cut(left, end - start);
        if end > start {
            assert(left.subrange(0, end - start)[end - start - 1] == s@[end - 1]);
            assert(trim_right_ws_spec(left.subrange(0, end - start)) == left.subrange(
                0,
                end - start,
            ));
        } else {
            assert(left.subrange(0, 0) =~= Seq::<u8>::empty());
        }
        assert(left.subrange(0, end - start) =~= s@.subrange(start as int, end as int));
    }
    slice_subrange(s, start, end)
}

/// `s` with every occurrence of `pat` replaced by `rep`, scanning left to
/// right without overlap.  An empty pattern replaces nothing.
pub open spec fn replace_all_spec(s: Seq<u8>, pat: Seq<u8>, rep: Seq<u8>) -> Seq<u8>
    decreases s.len(),
{
    if pat.len() == 0 || s.len() < pat.len() {
        s
    } else if matches_at(s, pat, 0) {
        rep + replace_all_spec(s.skip(pat.len() as int), pat, rep)
    } else {
        seq![s[0]] + replace_all_spec(s.skip(1), pat, rep)
    }
}

/// Replaces every occurrence of `pat` in `s` by `rep`, leftmost first,
/// without rescanning replaced text.
pub fn replace_all(s: &[u8], pat: &[u8], rep: &[u8]) -> (out: Vec<u8>)
    ensures
        out@ == replace_all_spec(s@, pat@, rep@),
{
    let mut out: Vec<u8> = Vec::new();
    if pat.len() == 0 {
        push_bytes(&mut out, s);
        return out;
    }
    let mut i: usize = 0;
    proof {
        assert(s@.skip(0) =~= s@);
        assert(out@ + replace_all_spec(s@, pat@, rep@) =~= replace_all_spec(s@, pat@, rep@));
    }
    while s.len() - i >= pat.len()
        invariant
            0 <= i <= s@.len(),
            pat@.len() > 0,
            replace_all_spec(s@, pat@, rep@) == out@ + replace_all_spec(
                s@.skip(i as int),
                pat@,
                rep@,
            ),
        decreases s@.len() - i,
    {
        let ghost rest = s@.skip(i as int);
        if matches_at_exec(s, pat, i) {
            proof {
                assert(rest.subrange(0, pat@.len() as int) =~= s@.subrange(
                    i as int,
                    i + pat@.len(),
                ));
                assert(matches_at(rest, pat@, 0));
                assert(rest.skip(pat@.len() as int) =~= s@.skip(i + pat@.len()));
                assert(out@ + (rep@ + replace_all_spec(s@.skip(i + pat@.len()), pat@, rep@))
                    =~= (out@ + rep@) + replace_all_spec(s@.skip(i + pat@.len()), pat@, rep@));
            }
            push_bytes(&mut out, rep);
            i = i + pat.len();
        } else {
            proof {
                assert(rest.subrange(0, pat@.len() as int) =~= s@.subrange(
                    i as int,
                    i + pat@.len(),
                ));
                assert(!matches_at(rest, pat@, 0));
                assert(rest[0] == s@[i as int]);
                assert(rest.skip(1) =~= s@.skip(i + 1));
                assert(out@ + (seq![s@[i as int]] + replace_all_spec(s@.skip(i + 1), pat@, rep@))
                    =~= out@.push(s@[i as int]) + replace_all_spec(s@.skip(i + 1), pat@, rep@));
            }
            out.push(s[i]);
            i = i + 1;
        }
    }
    proof {
        assert(replace_all_spec(s@.skip(i as int), pat@, rep@) == s@.skip(i as int));
    }
    let tail = slice_subrange(s, i, s.len());
    push_bytes(&mut out, tail);
    proof {
        assert(s@.subrange(i as int, s@.len() as int) =~= s@.skip(i as int));
    }
    out
}

/// The placeholder that a character's own name replaces.
pub open spec fn char_placeholder() -> Seq<u8> {
    "{{char}}".spec_bytes()
}

/// The placeholder that the user's name replaces.
pub open spec fn user_placeholder() -> Seq<u8> {
    "{{user}}".spec_bytes()
}

/// Substitutes the character placeholder by `name` and then the user
/// placeholder by `user`, everywhere in `s`.
pub fn replace_char_user(s: &[u8], name: &[u8], user: &[u8]) -> (out: Vec<u8>)
    ensures
        out@ == replace_all_spec(
            replace_all_spec(s@, char_placeholder(), name@),
            user_placeholder(),
            user@,
        ),
{
    let step = replace_all(s, "{{char}}".as_bytes(), name);
    replace_all(step.as_slice(), "{{user}}".as_bytes(), user)
}

/// Everything in `f` up to and including its last path separator; empty when
/// `f` has none.
pub open spec fn dir_prefix(f: Seq<u8>) -> Seq<u8>
    decreases f.len(),
{
    if f.len() == 0 {
        Seq::empty()
    } else if f[f.len() - 1] == 47 {
        f
    } else {
        dir_prefix(f.subrange(0, f.len() - 1))
    }
}

/// A suffix of `f` free of path separators does not change its directory
/// prefix.
proof fn lemma_dir_prefix_cut(f: Seq<u8>, k: int)
    requires
        0 <= k <= f.len(),
        forall|j: int| k <= j < f.len() ==> f[j] != 47,
    ensures
        dir_prefix(f) == dir_prefix(f.subrange(0, k)),
    decreases f.len() - k,
{
    if k < f.len() {
        assert(f[f.len() - 1] != 47);
        lemma_dir_prefix_cut(f.subrange(0, f.len() - 1), k);
        assert(f.subrange(0, f.len() - 1).subrange(0, k) =~= f.subrange(0, k));
    } else {
        assert(f.subrange(0, k) =~= f);
    }
}

/// The path of `file2` taken relative to the directory `file1` lies in: an
/// absolute `file2` stands alone, anything else is appended to `file1`'s
/// directory prefix.
pub open spec fn join_filename_spec(file1: Seq<u8>, file2: Seq<u8>) -> Seq<u8> {
    if file2.len() > 0 && file2[0] == 47 {
        file2
    } else {
        dir_prefix(file1) + file2
    }
}

/// Computes the path of `file2` relative to the directory `file1` is in.
pub fn join_filename(file1: &[u8], file2: &[u8]) -> (out: Vec<u8>)
    ensures
        out@ == join_filename_spec(file1@, file2@),
{
    let mut out: Vec<u8> = Vec::new();
    if file2.len() > 0 && file2[0] == 47u8 {
        push_bytes(&mut out, file2);
        proof {
            assert(out@ =~= file2@);
        }
        return out;
    }
    let mut k: usize = file1.len();
    while k > 0 && file1[k - 1] != 47u8
        invariant
            0 <= k <= file1@.len(),
            forall|j: int| k <= j < file1@.len() ==> file1@[j] != 47,
        decreases k,
    {
        k = k - 1;
    }
    proof {
        lemma_dir_prefix_cut(file1@, k as int);
        if k > 0 {
            assert(dir_prefix(file1@.subrange(0, k as int)) == file1@.subrange(0, k as int));
        } else {
            assert(file1@.subrange(0, 0) =~= Seq::<u8>::empty());
        }
    }
    let dir = slice_subrange(file1, 0, k);
    push_bytes(&mut out, dir);
    push_bytes(&mut out, file2);
    proof {
        assert(out@ =~= dir_prefix(file1@) + file2@);
    }
    out
}

/// The byte sequences a list of byte vectors holds.
pub open spec fn views_of(v: Seq<Vec<u8>>) -> Seq<Seq<u8>> {
    Seq::new(v.len(), |i: int| v[i]@)
}

/// Bytewise equality of two byte strings.
pub fn bytes_eq(a: &[u8], b: &[u8]) -> (r: bool)
    ensures
        r == (a@ == b@),
{
    if a.len() != b.len() {
        proof {
            assert(a@.len() != b@.len());
        }
        return false;
    }
    let mut i: usize = 0;
    while i < a.len()
        invariant
            0 <= i <= a@.len(),
            a@.len() == b@.len(),
            forall|j: int| 0 <= j < i ==> a@[j] == b@[j],
        decreases a@.len() - i,
    {
        if a[i] != b[i] {
            return false;
        }
        i = i + 1;
    }
    proof {
        assert(a@ =~= b@);
    }
    true
}


/// `p` is a leading sequence of `s`.
pub open spec fn is_prefix_of(p: Seq<u8>, s: Seq<u8>) -> bool {
    p.len() <= s.len() && s.subrange(0, p.len() as int) == p
}

/// `pat` is a trailing sequence of `s`.
pub open spec fn is_suffix_of(pat: Seq<u8>, s: Seq<u8>) -> bool {
    pat.len() <= s.len() && s.subrange(s.len() - pat.len(), s.len() as int) == pat
}

/// Whether `s` ends in `pat`.
pub fn ends_with(s: &[u8], pat: &[u8]) -> (r: bool)
    ensures
        r == is_suffix_of(pat@, s@),
{
    if pat.len() > s.len() {
        return false;
    }
    let tail = slice_subrange(s, s.len() - pat.len(), s.len());
    bytes_eq(tail, pat)
}

/// A copy of a byte string.
pub fn copy_bytes(v: &Vec<u8>) -> (r: Vec<u8>)
    ensures
        r@ == v@,
{
    let mut out: Vec<u8> = Vec::new();
    push_bytes(&mut out, v.as_slice());
    proof {
        assert(out@ =~= v@);
    }
    out
}

/// A copy of a list of byte strings.
pub fn copy_bytes_list(v: &Vec<Vec<u8>>) -> (r: Vec<Vec<u8>>)
    ensures
        views_of(r@) == views_of(v@),
        r@.len() == v@.len(),
{
    let mut out: Vec<Vec<u8>> = Vec::new();
    let mut i: usize = 0;
    while i < v.len()
        invariant
            0 <= i <= v@.len(),
            out@.len() == i,
            forall|j: int| 0 <= j < i ==> out@[j]@ == #[trigger] v@[j]@,
        decreases v@.len() - i,
    {
        let mut item: Vec<u8> = Vec::new();
        push_bytes(&mut item, v[i].as_slice());
        proof {
            assert(item@ =~= v@[i as int]@);
        }
        out.push(item);
        i = i + 1;
    }
    proof {
        assert(views_of(out@) =~= views_of(v@));
    }
    out
}

} // verus!
