//! Decimal text: formatting integers and reading fixed-point numbers.
//!
//! Sampling parameters that the backend takes as decimal fractions are held
//! by the library in thousandths, so their configuration text is read here
//! into integers; command-line arguments for the backend processes are
//! rendered from integers.

use vstd::prelude::*;

verus! {

/// The decimal digit string of `n`, most significant digit first.
pub open spec fn dec_digits(n: nat) -> Seq<u8>
    decreases n,
{
    if n < 10 {
        seq![(48 + n) as u8]
    } else {
        dec_digits(n / 10) + seq![(48 + n % 10) as u8]
    }
}

/// Appends the decimal digits of `n` to `out`.
pub fn push_dec_u64(out: &mut Vec<u8>, n: u64)
    ensures
        final(out)@ == old(out)@ + dec_digits(n as nat),
    decreases n,
{
    if n < 10 {
        out.push(48 + n as u8);
        proof {
            assert(old(out)@ + dec_digits(n as nat) =~= old(out)@.push((48 + n) as u8));
        }
    } else {
        push_dec_u64(out, n / 10);
        out.push(48 + (n % 10) as u8);
        proof {
            assert(old(out)@ + dec_digits(n as nat) =~= (old(out)@ + dec_digits(
                (n / 10) as nat,
            )).push((48 + n % 10) as u8));
        }
    }
}

/// The decimal digits of `n`, as bytes.
pub fn u64_to_dec(n: u64) -> (out: Vec<u8>)
    ensures
        out@ == dec_digits(n as nat),
{
    let mut out: Vec<u8> = Vec::new();
    push_dec_u64(&mut out, n);
    proof {
        assert(Seq::<u8>::empty() + dec_digits(n as nat) =~= dec_digits(n as nat));
    }
    out
}

/// The decimal digit string of `n`, with a leading minus sign when negative.
pub open spec fn dec_int(n: int) -> Seq<u8> {
    if n < 0 {
        seq![45u8] + dec_digits((-n) as nat)
    } else {
        dec_digits(n as nat)
    }
}

/// The decimal text of `n`, sign included.
pub fn i64_to_dec(n: i64) -> (out: Vec<u8>)
    ensures
        out@ == dec_int(n as int),
{
    let mut out: Vec<u8> = Vec::new();
    if n < 0 {
        out.push(45u8);
        // `-n` stays in range because `-i64::MIN` is written as a `u64`.
        let m: u64 = if n == i64::MIN {
            9223372036854775808u64
        } else {
            (-n) as u64
        };
        push_dec_u64(&mut out, m);
        proof {
            assert(seq![45u8] + dec_digits(m as nat) =~= Seq::<u8>::empty().push(45u8)
                + dec_digits(m as nat));
        }
    } else {
        push_dec_u64(&mut out, n as u64);
        proof {
            assert(Seq::<u8>::empty() + dec_digits(n as nat) =~= dec_digits(n as nat));
        }
    }
    out
}

/// `b` is an ASCII decimal digit.
pub open spec fn is_dec_digit(b: u8) -> bool {
    48 <= b <= 57
}

/// Every byte of `s` is a decimal digit.
pub open spec fn all_digits(s: Seq<u8>) -> bool {
    forall|i: int| 0 <= i < s.len() ==> is_dec_digit(s[i])
}

/// The number that the digit string `s` denotes.
pub open spec fn digits_val(s: Seq<u8>) -> nat
    decreases s.len(),
{
    if s.len() == 0 {
        0
    } else {
        digits_val(s.subrange(0, s.len() - 1)) * 10 + (s[s.len() - 1] - 48) as nat
    }
}

/// A digit string is worth at least as much as any of its prefixes.
pub proof fn lemma_digits_val_prefix(s: Seq<u8>, k: int)
    requires
        0 <= k <= s.len(),
        all_digits(s),
    ensures
        digits_val(s.subrange(0, k)) <= digits_val(s),
    decreases s.len() - k,
{
    if k < s.len() {
        lemma_digits_val_prefix(s.subrange(0, s.len() - 1), k);
        assert(s.subrange(0, s.len() - 1).subrange(0, k) =~= s.subrange(0, k));
        assert(forall|i: int|
            0 <= i < s.len() - 1 ==> s.subrange(0, s.len() - 1)[i] == s[i]);
    } else {
        assert(s.subrange(0, k) =~= s);
    }
}

/// The value in thousandths of a fractional part `f`: the first three
/// digits, padded with zeros on the right.
pub open spec fn frac_milli(f: Seq<u8>) -> nat {
    if f.len() >= 3 {
        digits_val(f.subrange(0, 3))
    } else if f.len() == 2 {
        digits_val(f) * 10
    } else if f.len() == 1 {
        digits_val(f) * 100
    } else {
        0
    }
}

/// Position `d` splits `s` into a nonempty all-digit integer part, a decimal
/// point, and an all-digit fractional part.
pub open spec fn valid_dot_split(s: Seq<u8>, d: int) -> bool {
    &&& 0 < d < s.len()
    &&& s[d] == 46
    &&& all_digits(s.subrange(0, d))
    &&& all_digits(s.subrange(d + 1, s.len() as int))
}

/// The value of the decimal text `s` in thousandths, truncated to three
/// fractional digits; nothing when `s` is not an unsigned decimal number.
pub open spec fn milli_of_dec(s: Seq<u8>) -> Option<int> {
    if s.len() > 0 && all_digits(s) {
        Some((digits_val(s) * 1000) as int)
    } else if exists|d: int| valid_dot_split(s, d) {
        let d = choose|d: int| valid_dot_split(s, d);
        Some((digits_val(s.subrange(0, d)) * 1000 + frac_milli(s.subrange(d + 1, s.len() as int))) as int)
    } else {
        None
    }
}

/// At most one position can split a decimal text.
proof fn lemma_dot_split_unique(s: Seq<u8>, d1: int, d2: int)
    requires
        valid_dot_split(s, d1),
        valid_dot_split(s, d2),
    ensures
        d1 == d2,
{
    if d1 < d2 {
        assert(s.subrange(0, d2)[d1] == s[d1]);
    } else if d2 < d1 {
        assert(s.subrange(0, d1)[d2] == s[d2]);
    }
}

/// Reads the digit string `s[from..to]`, giving up when the value passes
/// `u64::MAX`.
fn digits_to_val(s: &[u8], from: usize, to: usize) -> (r: Option<u64>)
    requires
        0 <= from <= to <= s@.len(),
        all_digits(s@.subrange(from as int, to as int)),
    ensures
        match r {
            Some(v) => v == digits_val(s@.subrange(from as int, to as int)),
            None => digits_val(s@.subrange(from as int, to as int)) > u64::MAX,
        },
{
    let ghost whole = s@.subrange(from as int, to as int);
    let mut val: u64 = 0;
    let mut i: usize = from;
    while i < to
        invariant
            from <= i <= to <= s@.len(),
            all_digits(whole),
            whole == s@.subrange(from as int, to as int),
            val == digits_val(s@.subrange(from as int, i as int)),
        decreases to - i,
    {
        let ghost pre = s@.subrange(from as int, i as int);
        proof {
            assert(whole[i - from] == s@[i as int]);
            assert(s@.subrange(from as int, i + 1).subrange(0, i - from) =~= pre);
            assert(s@.subrange(from as int, i + 1)[i - from] == s@[i as int]);
        }
        let b = s[i];
        let d: u64 = (b - 48) as u64;
        if val > (u64::MAX - d) / 10 {
            // Even the prefix read so far is too large already.
            proof {
                assert(digits_val(s@.subrange(from as int, i + 1)) == val * 10 + d);
                lemma_digits_val_prefix(whole, i + 1 - from);
                assert(whole.subrange(0, i + 1 - from) =~= s@.subrange(from as int, i + 1));
            }
            return None;
        }
        val = val * 10 + d;
        i = i + 1;
    }
    Some(val)
}

/// Reads an unsigned decimal number into thousandths: `"1.1"` gives 1100,
/// `"0.92"` gives 920, `"7"` gives 7000.  Fractional digits past the third
/// are dropped; text that is not a plain decimal number gives nothing, as
/// does a value above `u64::MAX` thousandths.
pub fn parse_milli(s: &[u8]) -> (r: Option<u64>)
    ensures
        match milli_of_dec(s@) {
            Some(m) => r == if m <= u64::MAX {
                Some(m as u64)
            } else {
                None::<u64>
            },
            None => r is None,
        },
{
    // Find the decimal point and check every other byte is a digit.
    let mut dot: Option<usize> = None;
    let mut i: usize = 0;
    while i < s.len()
        invariant
            0 <= i <= s@.len(),
            match dot {
                Some(d) => 0 < d < i && s@[d as int] == 46 && (forall|j: int|
                    0 <= j < i && j != d ==> is_dec_digit(s@[j])),
                None => forall|j: int| 0 <= j < i ==> is_dec_digit(s@[j]),
            },
        decreases s@.len() - i,
    {
        let b = s[i];
        if b == 46u8 {
            if i == 0 || dot.is_some() {
                // A leading dot or a second dot: not a decimal number.
                proof {
                    lemma_parse_milli_reject(s@, i as int, dot);
                }
                return None;
            }
            dot = Some(i);
        } else if b < 48u8 || b > 57u8 {
            proof {
                lemma_parse_milli_reject_byte(s@, i as int, dot);
            }
            return None;
        }
        i = i + 1;
    }
    match dot {
        None => {
            if s.len() == 0 {
                proof {
                    lemma_parse_milli_reject_empty(s@);
                }
                return None;
            }
            proof {
                assert(s@.subrange(0, s@.len() as int) =~= s@);
            }
            let v = match digits_to_val(s, 0, s.len()) {
                Some(v) => v,
                None => {
                    return None;
                },
            };
            if v > u64::MAX / 1000 {
                return None;
            }
            Some(v * 1000)
        },
        Some(d) => {
            let ghost ip = s@.subrange(0, d as int);
            let ghost fp = s@.subrange(d + 1, s@.len() as int);
            proof {
                assert(valid_dot_split(s@, d as int));
                assert(!all_digits(s@)) by {
                    assert(!is_dec_digit(s@[d as int]));
                }
                lemma_dot_split_unique(s@, d as int, choose|x: int| valid_dot_split(s@, x));
            }
            let v = match digits_to_val(s, 0, d) {
                Some(v) => v,
                None => {
                    proof {
                        assert(digits_val(ip) * 1000 + frac_milli(fp) > u64::MAX);
                    }
                    return None;
                },
            };
            // Read up to three fractional digits, padding with zeros.
            let flen = s.len() - d - 1;
            let fv: u64 = if flen >= 3 {
                proof {
                    assert(fp.subrange(0, 3) =~= s@.subrange(d + 1, d + 4));
                    assert(all_digits(s@.subrange(d + 1, d + 4)));
                }
                match digits_to_val(s, d + 1, d + 4) {
                    Some(f) => f,
                    None => {
                        proof {
                            assert(false) by {
                                lemma_digits_val_bound(s@.subrange(d + 1, d + 4));
                            }
                        }
                        0
                    },
                }
            } else {
                let base = match digits_to_val(s, d + 1, s.len()) {
                    Some(f) => f,
                    None => {
                        proof {
                            assert(false) by {
                                lemma_digits_val_bound(fp);
                            }
                        }
                        0
                    },
                };
                proof {
                    assert(fp.len() == s@.len() - d - 1);
                    lemma_digits_val_bound(fp);
                }
                if flen == 2 {
                    base * 10
                } else if flen == 1 {
                    base * 100
                } else {
                    0
                }
            };
            proof {
                assert(fv == frac_milli(fp)) by {
                    if fp.len() >= 3 {
                        assert(fp.subrange(0, 3) =~= s@.subrange(d + 1, d + 4));
                    } else {
                        lemma_digits_val_bound(fp);
                        assert(fp =~= s@.subrange(d + 1, s@.len() as int));
                    }
                }
                lemma_frac_milli_bound(fp);
            }
            if v > (u64::MAX - fv) / 1000 {
                return None;
            }
            Some(v * 1000 + fv)
        },
    }
}

/// The value of an unsigned decimal integer, as `str::parse` reads one: an
/// optional plus sign, then digits only.
pub open spec fn dec_value_of(s: Seq<u8>) -> Option<nat> {
    let ds = if s.len() >= 1 && s[0] == 43 {
        s.skip(1)
    } else {
        s
    };
    if ds.len() > 0 && all_digits(ds) {
        Some(digits_val(ds))
    } else {
        None
    }
}

/// Reads an unsigned decimal integer; nothing on malformed text or a value
/// past `usize::MAX`.
#[verifier::loop_isolation(false)]
pub fn parse_usize(s: &[u8]) -> (r: Option<usize>)
    ensures
        match dec_value_of(s@) {
            Some(v) => r == if v <= usize::MAX {
                Some(v as usize)
            } else {
                None::<usize>
            },
            None => r is None,
        },
{
    let start: usize = if s.len() >= 1 && s[0] == 43u8 {
        1
    } else {
        0
    };
    let ghost ds = if s@.len() >= 1 && s@[0] == 43 {
        s@.skip(1)
    } else {
        s@
    };
    proof {
        assert(ds =~= s@.subrange(start as int, s@.len() as int));
    }
    if s.len() == start {
        return None;
    }
    let mut i: usize = start;
    while i < s.len()
        invariant
            start <= i <= s@.len(),
            ds == s@.subrange(start as int, s@.len() as int),
            forall|j: int| start <= j < i ==> is_dec_digit(s@[j]),
        decreases s@.len() - i,
    {
        if s[i] < 48u8 || s[i] > 57u8 {
            proof {
                assert(ds[i - start] == s@[i as int]);
                assert(!is_dec_digit(ds[i - start]));
                assert(!all_digits(ds));
                assert(!all_digits(ds));
            }
            return None;
        }
        i = i + 1;
    }
    proof {
        assert forall|j: int| 0 <= j < ds.len() implies is_dec_digit(ds[j]) by {
            assert(ds[j] == s@[start + j]);
        }
    }
    match digits_to_val(s, start, s.len()) {
        Some(v) => if v <= usize::MAX as u64 {
            Some(v as usize)
        } else {
            None
        },
        None => None,
    }
}

/// A digit string of at most three digits stays below a thousand, shorter
/// ones below the matching power of ten.
proof fn lemma_digits_val_bound(s: Seq<u8>)
    requires
        all_digits(s),
        s.len() <= 3,
    ensures
        digits_val(s) < 1000,
        s.len() <= 2 ==> digits_val(s) < 100,
        s.len() <= 1 ==> digits_val(s) < 10,
    decreases s.len(),
{
    if s.len() > 0 {
        assert(forall|i: int|
            0 <= i < s.len() - 1 ==> s.subrange(0, s.len() - 1)[i] == s[i]);
        lemma_digits_val_bound(s.subrange(0, s.len() - 1));
    }
}

/// The fractional thousandths are below a thousand.
proof fn lemma_frac_milli_bound(f: Seq<u8>)
    requires
        all_digits(f),
    ensures
        frac_milli(f) < 1000,
{
    if f.len() >= 3 {
        lemma_digits_val_bound(f.subrange(0, 3));
    } else {
        lemma_digits_val_bound(f);
    }
}

/// A second dot, or a dot at the start, rules out every reading of `s`.
proof fn lemma_parse_milli_reject(s: Seq<u8>, i: int, dot: Option<usize>)
    requires
        0 <= i < s.len(),
        s[i] == 46,
        match dot {
            Some(d) => 0 < d < i && s[d as int] == 46 && (forall|j: int|
                0 <= j < i && j != d ==> is_dec_digit(s[j])),
            None => i == 0 && forall|j: int| 0 <= j < i ==> is_dec_digit(s[j]),
        },
    ensures
        milli_of_dec(s) is None,
{
    assert(!is_dec_digit(s[i]));
    assert(!all_digits(s));
    assert forall|d2: int| !valid_dot_split(s, d2) by {
        if valid_dot_split(s, d2) {
            match dot {
                Some(d) => {
                    // Two dots cannot both lie inside digit-only parts.
                    if d2 < d {
                        assert(s.subrange(d2 + 1, s.len() as int)[d - d2 - 1] == s[d as int]);
                    } else if d2 > d {
                        assert(s.subrange(0, d2)[d as int] == s[d as int]);
                    } else {
                        assert(s.subrange(d2 + 1, s.len() as int)[i - d2 - 1] == s[i]);
                    }
                },
                None => {
                    // The dot at position zero leaves no integer part.
                    if d2 == 0 {
                    } else {
                        assert(s.subrange(0, d2)[0] == s[0]);
                    }
                },
            }
        }
    }
}

/// A byte that is neither digit nor dot rules out every reading of `s`.
proof fn lemma_parse_milli_reject_byte(s: Seq<u8>, i: int, dot: Option<usize>)
    requires
        0 <= i < s.len(),
        !is_dec_digit(s[i]),
        s[i] != 46,
        match dot {
            Some(d) => 0 < d < i && s[d as int] == 46,
            None => true,
        },
    ensures
        milli_of_dec(s) is None,
{
    assert(!all_digits(s));
    assert forall|d2: int| !valid_dot_split(s, d2) by {
        if valid_dot_split(s, d2) {
            if i < d2 {
                assert(s.subrange(0, d2)[i] == s[i]);
            } else if i > d2 {
                assert(s.subrange(d2 + 1, s.len() as int)[i - d2 - 1] == s[i]);
            }
        }
    }
}

/// The empty text denotes no number.
proof fn lemma_parse_milli_reject_empty(s: Seq<u8>)
    requires
        s.len() == 0,
    ensures
        milli_of_dec(s) is None,
{
    assert forall|d2: int| !valid_dot_split(s, d2) by {}
}

} // verus!
