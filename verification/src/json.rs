//! Byte-level scanning of JSON values, the wire grammar of the webhook
//! envelopes.  The specification functions define the accepted grammar; the
//! executable functions are proved to follow them exactly.  Strings honor the
//! two-character escapes of JSON and `\u` escapes, surrogate pairs included,
//! decoded to the UTF-8 bytes of the code point; a lone surrogate is
//! rejected.  Unescaped string bytes at or above 0x20 are taken as they
//! stand, without re-validating them as UTF-8: string content is carried as
//! bytes throughout.  Nesting inside skipped values is bounded by
//! [`MAX_DEPTH`].
//!
//! The recursive specification functions carry index-progress guards
//! (`i < j && j <= s.len()`) that make the recursion well-founded; the
//! executable functions, whose results those indices are, show the guards
//! never fail.

use vstd::prelude::*;
use crate::hex::{hex_digit_val, hex_val, is_hex_digit};

verus! {

/// Nesting allowed inside a skipped JSON value.
pub const MAX_DEPTH: u32 = 128;

/// `b` is JSON whitespace.
pub open spec fn is_ws(b: u8) -> bool {
    b == 32 || b == 9 || b == 10 || b == 13
}

/// `b` is an ASCII decimal digit.
pub open spec fn is_digit(b: u8) -> bool {
    48 <= b && b <= 57
}

/// First position at or after `i` that is not JSON whitespace.
pub open spec fn s_skip_ws(s: Seq<u8>, i: int) -> int
    decreases s.len() - i,
{
    if 0 <= i && i < s.len() && is_ws(s[i]) {
        s_skip_ws(s, i + 1)
    } else {
        i
    }
}

/// First position at or after `i` that is not a decimal digit.
pub open spec fn s_digits_end(s: Seq<u8>, i: int) -> int
    decreases s.len() - i,
{
    if 0 <= i && i < s.len() && is_digit(s[i]) {
        s_digits_end(s, i + 1)
    } else {
        i
    }
}

/// The value of the four hex digits at `i`, where all four are there.
pub open spec fn s_hex4(s: Seq<u8>, i: int) -> Option<u32> {
    if 0 <= i && i + 4 <= s.len() && is_hex_digit(s[i]) && is_hex_digit(s[i + 1]) && is_hex_digit(
        s[i + 2],
    ) && is_hex_digit(s[i + 3]) {
        Some(
            ((hex_digit_val(s[i]) * 4096 + hex_digit_val(s[i + 1]) * 256 + hex_digit_val(
                s[i + 2],
            ) * 16 + hex_digit_val(s[i + 3])) as u32),
        )
    } else {
        None
    }
}

/// The UTF-8 bytes of the scalar code point `cp`.
pub open spec fn s_utf8_bytes(cp: u32) -> Seq<u8>
    recommends
        cp < 0x110000,
        !(0xD800 <= cp && cp < 0xE000),
{
    if cp < 0x80 {
        seq![cp as u8]
    } else if cp < 0x800 {
        seq![(192 + cp / 64) as u8, (128 + cp % 64) as u8]
    } else if cp < 0x10000 {
        seq![(224 + cp / 4096) as u8, (128 + (cp / 64) % 64) as u8, (128 + cp % 64) as u8]
    } else {
        seq![
            (240 + cp / 262144) as u8,
            (128 + (cp / 4096) % 64) as u8,
            (128 + (cp / 64) % 64) as u8,
            (128 + cp % 64) as u8,
        ]
    }
}

/// Content and end position of the JSON string starting at `i` (which must
/// hold the opening quote), with escapes resolved; `None` if the bytes from
/// `i` on do not form a JSON string this grammar accepts.
pub open spec fn s_parse_string(s: Seq<u8>, i: int) -> Option<(Seq<u8>, int)> {
    if 0 <= i && i < s.len() && s[i] == 34 {
        s_string_rest(s, i + 1, Seq::empty())
    } else {
        None
    }
}

/// Continuation of string parsing: content accumulated in `acc`, reading at
/// `i` inside the quotes.
pub open spec fn s_string_rest(s: Seq<u8>, i: int, acc: Seq<u8>) -> Option<(Seq<u8>, int)>
    decreases s.len() - i,
{
    if !(0 <= i && i < s.len()) {
        None
    } else if s[i] == 34 {
        Some((acc, i + 1))
    } else if s[i] == 92 {
        if i + 1 < s.len() {
            let e = s[i + 1];
            if e == 34 || e == 92 || e == 47 {
                s_string_rest(s, i + 2, acc.push(e))
            } else if e == 98 {
                s_string_rest(s, i + 2, acc.push(8))
            } else if e == 102 {
                s_string_rest(s, i + 2, acc.push(12))
            } else if e == 110 {
                s_string_rest(s, i + 2, acc.push(10))
            } else if e == 114 {
                s_string_rest(s, i + 2, acc.push(13))
            } else if e == 116 {
                s_string_rest(s, i + 2, acc.push(9))
            } else if e == 117 {
                match s_hex4(s, i + 2) {
                    None => None,
                    Some(u1) => if u1 < 0xD800 || u1 >= 0xE000 {
                        s_string_rest(s, i + 6, acc + s_utf8_bytes(u1))
                    } else if u1 < 0xDC00 {
                        if i + 8 <= s.len() && s[i + 6] == 92 && s[i + 7] == 117 {
                            match s_hex4(s, i + 8) {
                                None => None,
                                Some(u2) => if 0xDC00 <= u2 && u2 < 0xE000 {
                                    s_string_rest(
                                        s,
                                        i + 12,
                                        acc + s_utf8_bytes(
                                            (65536 + (u1 - 0xD800) * 1024 + (u2 - 0xDC00)) as u32,
                                        ),
                                    )
                                } else {
                                    None
                                },
                            }
                        } else {
                            None
                        }
                    } else {
                        None
                    },
                }
            } else {
                None
            }
        } else {
            None
        }
    } else if s[i] < 32 {
        None
    } else {
        s_string_rest(s, i + 1, acc.push(s[i]))
    }
}

/// End position of the JSON number starting at `i`, or `None` if the bytes at
/// `i` do not start a JSON number.
pub open spec fn s_skip_number(s: Seq<u8>, i: int) -> Option<int> {
    if !(0 <= i && i <= s.len()) {
        None
    } else {
        let i1 = if i < s.len() && s[i] == 45 {
            i + 1
        } else {
            i
        };
        if !(i1 < s.len() && is_digit(s[i1])) {
            None
        } else {
            let i2 = if s[i1] == 48 {
                i1 + 1
            } else {
                s_digits_end(s, i1)
            };
            if i2 < s.len() && s[i2] == 46 {
                if i2 + 1 < s.len() && is_digit(s[i2 + 1]) {
                    s_skip_exponent(s, s_digits_end(s, i2 + 1))
                } else {
                    None
                }
            } else {
                s_skip_exponent(s, i2)
            }
        }
    }
}

/// End position of the optional exponent part starting at `i`.
pub open spec fn s_skip_exponent(s: Seq<u8>, i: int) -> Option<int> {
    if i < s.len() && (s[i] == 101 || s[i] == 69) {
        let i1 = if i + 1 < s.len() && (s[i + 1] == 43 || s[i + 1] == 45) {
            i + 2
        } else {
            i + 1
        };
        if i1 < s.len() && is_digit(s[i1]) {
            Some(s_digits_end(s, i1))
        } else {
            None
        }
    } else {
        Some(i)
    }
}

/// Value of the decimal digits of `s` in positions `i <= p < j`.
pub open spec fn s_digits_val(s: Seq<u8>, i: int, j: int) -> nat
    decreases j - i,
{
    if i < j {
        (s_digits_val(s, i, j - 1) * 10 + (s[j - 1] - 48)) as nat
    } else {
        0
    }
}

/// The number spanning `i..j` read as a `u64`: defined when it is written as
/// plain decimal digits (no sign, fraction or exponent) and fits.
pub open spec fn s_number_u64(s: Seq<u8>, i: int, j: int) -> Option<u64> {
    if s_digits_end(s, i) == j && s_digits_val(s, i, j) <= u64::MAX {
        Some(s_digits_val(s, i, j) as u64)
    } else {
        None
    }
}

/// The JSON number starting at `i`: its `u64` reading (where it has one) and
/// its end position.
pub open spec fn s_tag_value(s: Seq<u8>, i: int) -> Option<(Option<u64>, int)> {
    match s_skip_number(s, i) {
        None => None,
        Some(j) => Some((s_number_u64(s, i, j), j)),
    }
}

/// End position of the JSON value starting at `i`, with nested values allowed
/// `depth` further levels; `None` if no valid value starts there.
pub open spec fn s_skip_value(s: Seq<u8>, i: int, depth: nat) -> Option<int>
    decreases depth, s.len() - i, 0int,
{
    if !(0 <= i && i < s.len()) {
        None
    } else if s[i] == 34 {
        match s_parse_string(s, i) {
            None => None,
            Some(r) => Some(r.1),
        }
    } else if s[i] == 123 {
        if depth == 0 {
            None
        } else {
            let j = s_skip_ws(s, i + 1);
            if j < s.len() && s[j] == 125 {
                Some(j + 1)
            } else if i < j && j <= s.len() {
                s_skip_members(s, j, (depth - 1) as nat)
            } else {
                None
            }
        }
    } else if s[i] == 91 {
        if depth == 0 {
            None
        } else {
            let j = s_skip_ws(s, i + 1);
            if j < s.len() && s[j] == 93 {
                Some(j + 1)
            } else if i < j && j <= s.len() {
                s_skip_elems(s, j, (depth - 1) as nat)
            } else {
                None
            }
        }
    } else if s[i] == 116 {
        if i + 4 <= s.len() && s[i + 1] == 114 && s[i + 2] == 117 && s[i + 3] == 101 {
            Some(i + 4)
        } else {
            None
        }
    } else if s[i] == 102 {
        if i + 5 <= s.len() && s[i + 1] == 97 && s[i + 2] == 108 && s[i + 3] == 115 && s[i + 4]
            == 101 {
            Some(i + 5)
        } else {
            None
        }
    } else if s[i] == 110 {
        if i + 4 <= s.len() && s[i + 1] == 117 && s[i + 2] == 108 && s[i + 3] == 108 {
            Some(i + 4)
        } else {
            None
        }
    } else if s[i] == 45 || is_digit(s[i]) {
        s_skip_number(s, i)
    } else {
        None
    }
}

/// End position of the members of a JSON object, reading at the start of a
/// key at `i`; member values may nest `depth` levels.
pub open spec fn s_skip_members(s: Seq<u8>, i: int, depth: nat) -> Option<int>
    decreases depth, s.len() - i, 1int,
{
    match s_parse_string(s, i) {
        None => None,
        Some((key, j1)) => {
            let j2 = s_skip_ws(s, j1);
            if !(j2 < s.len() && s[j2] == 58) {
                None
            } else {
                let j3 = s_skip_ws(s, j2 + 1);
                if !(i < j3 && j3 <= s.len()) {
                    None
                } else {
                    match s_skip_value(s, j3, depth) {
                        None => None,
                        Some(j4) => {
                            let j5 = s_skip_ws(s, j4);
                            if j5 < s.len() && s[j5] == 125 {
                                Some(j5 + 1)
                            } else if j5 < s.len() && s[j5] == 44 {
                                let j6 = s_skip_ws(s, j5 + 1);
                                if i < j6 && j6 <= s.len() {
                                    s_skip_members(s, j6, depth)
                                } else {
                                    None
                                }
                            } else {
                                None
                            }
                        },
                    }
                }
            }
        },
    }
}

/// End position of the elements of a JSON array, reading at the start of an
/// element at `i`; elements may nest `depth` levels.
pub open spec fn s_skip_elems(s: Seq<u8>, i: int, depth: nat) -> Option<int>
    decreases depth, s.len() - i, 1int,
{
    match s_skip_value(s, i, depth) {
        None => None,
        Some(j1) => {
            let j2 = s_skip_ws(s, j1);
            if j2 < s.len() && s[j2] == 93 {
                Some(j2 + 1)
            } else if j2 < s.len() && s[j2] == 44 {
                let j3 = s_skip_ws(s, j2 + 1);
                if i < j3 && j3 <= s.len() {
                    s_skip_elems(s, j3, depth)
                } else {
                    None
                }
            } else {
                None
            }
        },
    }
}

/// Every position before the digit run's end holds a digit, and the end stays
/// within the input.
pub proof fn lemma_digits_end_props(s: Seq<u8>, i: int)
    requires
        0 <= i <= s.len(),
    ensures
        i <= s_digits_end(s, i) <= s.len(),
        forall|p: int| i <= p < s_digits_end(s, i) ==> is_digit(s[p]),
    decreases s.len() - i,
{
    if i < s.len() && is_digit(s[i]) {
        lemma_digits_end_props(s, i + 1);
    }
}

/// First position at or after `i` that is not JSON whitespace.
pub fn skip_ws(s: &[u8], i: usize) -> (j: usize)
    requires
        i <= s@.len(),
    ensures
        j as int == s_skip_ws(s@, i as int),
        i <= j <= s@.len(),
{
    let mut k = i;
    while k < s.len() && (s[k] == 32 || s[k] == 9 || s[k] == 10 || s[k] == 13)
        invariant
            i <= k <= s@.len(),
            s_skip_ws(s@, i as int) == s_skip_ws(s@, k as int),
        decreases s@.len() - k,
    {
        k = k + 1;
    }
    k
}

/// First position at or after `i` that is not a decimal digit.
pub fn skip_digits(s: &[u8], i: usize) -> (j: usize)
    requires
        i <= s@.len(),
    ensures
        j as int == s_digits_end(s@, i as int),
        i <= j <= s@.len(),
        (i < s@.len() && is_digit(s@[i as int])) ==> j >= i + 1,
{
    let mut k = i;
    while k < s.len() && 48 <= s[k] && s[k] <= 57
        invariant
            i <= k <= s@.len(),
            s_digits_end(s@, i as int) == s_digits_end(s@, k as int),
            (i < s@.len() && is_digit(s@[i as int])) ==> k >= i + 1 || (k == i && is_digit(s@[k as int])),
        decreases s@.len() - k,
    {
        k = k + 1;
    }
    k
}

/// The value of the four hex digits at `i`, where all four are there.
fn hex4(s: &[u8], i: usize) -> (r: Option<u32>)
    requires
        i <= s@.len(),
    ensures
        r matches Some(v) ==> s_hex4(s@, i as int) == Some(v) && v <= 0xFFFF,
        r is None ==> s_hex4(s@, i as int) is None,
{
    if s.len() - i < 4 {
        return None;
    }
    let a = match hex_val(s[i]) {
        None => return None,
        Some(v) => v,
    };
    let b = match hex_val(s[i + 1]) {
        None => return None,
        Some(v) => v,
    };
    let c = match hex_val(s[i + 2]) {
        None => return None,
        Some(v) => v,
    };
    let d = match hex_val(s[i + 3]) {
        None => return None,
        Some(v) => v,
    };
    Some((a as u32) * 4096 + (b as u32) * 256 + (c as u32) * 16 + (d as u32))
}

/// Append the UTF-8 bytes of the scalar code point `cp`.
fn push_utf8(acc: &mut Vec<u8>, cp: u32)
    requires
        cp < 0x110000,
        !(0xD800 <= cp && cp < 0xE000),
    ensures
        final(acc)@ == old(acc)@ + s_utf8_bytes(cp),
{
    if cp < 0x80 {
        acc.push(cp as u8);
    } else if cp < 0x800 {
        acc.push((192 + cp / 64) as u8);
        acc.push((128 + cp % 64) as u8);
    } else if cp < 0x10000 {
        acc.push((224 + cp / 4096) as u8);
        acc.push((128 + (cp / 64) % 64) as u8);
        acc.push((128 + cp % 64) as u8);
    } else {
        acc.push((240 + cp / 262144) as u8);
        acc.push((128 + (cp / 4096) % 64) as u8);
        acc.push((128 + (cp / 64) % 64) as u8);
        acc.push((128 + cp % 64) as u8);
    }
    proof {
        assert(acc@ =~= old(acc)@ + s_utf8_bytes(cp));
    }
}

/// Parse the JSON string starting at `i`, resolving escapes.
#[verifier::rlimit(30)]
pub fn parse_string(s: &[u8], i: usize) -> (r: Option<(Vec<u8>, usize)>)
    requires
        i <= s@.len(),
    ensures
        match r {
            Some(p) => s_parse_string(s@, i as int) == Some((p.0@, p.1 as int)) && i < p.1
                <= s@.len(),
            None => s_parse_string(s@, i as int) is None,
        },
{
    if !(i < s.len() && s[i] == 34) {
        return None;
    }
    let mut acc: Vec<u8> = Vec::new();
    let mut k = i + 1;
    loop
        invariant
            i + 1 <= k <= s@.len(),
            s_parse_string(s@, i as int) == s_string_rest(s@, k as int, acc@),
        decreases s@.len() - k,
    {
        if k >= s.len() {
            return None;
        }
        let b = s[k];
        if b == 34 {
            return Some((acc, k + 1));
        }
        if b == 92 {
            if k + 1 >= s.len() {
                return None;
            }
            let e = s[k + 1];
            if e == 117 {
                let u1 = match hex4(s, k + 2) {
                    None => return None,
                    Some(v) => v,
                };
                if u1 < 0xD800 || u1 >= 0xE000 {
                    push_utf8(&mut acc, u1);
                    k = k + 6;
                } else if u1 < 0xDC00 {
                    if !(s.len() - k >= 8 && s[k + 6] == 92 && s[k + 7] == 117) {
                        return None;
                    }
                    let u2 = match hex4(s, k + 8) {
                        None => return None,
                        Some(v) => v,
                    };
                    if !(u2 >= 0xDC00 && u2 < 0xE000) {
                        return None;
                    }
                    let cp = 65536 + (u1 - 0xD800) * 1024 + (u2 - 0xDC00);
                    push_utf8(&mut acc, cp);
                    k = k + 12;
                } else {
                    return None;
                }
            } else {
                let decoded: u8 = if e == 34 || e == 92 || e == 47 {
                    e
                } else if e == 98 {
                    8
                } else if e == 102 {
                    12
                } else if e == 110 {
                    10
                } else if e == 114 {
                    13
                } else if e == 116 {
                    9
                } else {
                    return None;
                };
                acc.push(decoded);
                k = k + 2;
            }
        } else if b < 32 {
            return None;
        } else {
            acc.push(b);
            k = k + 1;
        }
    }
}

/// End position of the JSON number starting at `i`.
pub fn skip_number(s: &[u8], i: usize) -> (r: Option<usize>)
    requires
        i <= s@.len(),
    ensures
        match r {
            Some(j) => s_skip_number(s@, i as int) == Some(j as int) && i < j <= s@.len(),
            None => s_skip_number(s@, i as int) is None,
        },
{
    let i1 = if i < s.len() && s[i] == 45 {
        i + 1
    } else {
        i
    };
    if !(i1 < s.len() && 48 <= s[i1] && s[i1] <= 57) {
        return None;
    }
    let i2 = if s[i1] == 48 {
        i1 + 1
    } else {
        skip_digits(s, i1)
    };
    let i3: usize;
    if i2 < s.len() && s[i2] == 46 {
        if !(i2 + 1 < s.len() && 48 <= s[i2 + 1] && s[i2 + 1] <= 57) {
            return None;
        }
        i3 = skip_digits(s, i2 + 1);
    } else {
        i3 = i2;
    }
    if i3 < s.len() && (s[i3] == 101 || s[i3] == 69) {
        let i4 = if i3 + 1 < s.len() && (s[i3 + 1] == 43 || s[i3 + 1] == 45) {
            i3 + 2
        } else {
            i3 + 1
        };
        if !(i4 < s.len() && 48 <= s[i4] && s[i4] <= 57) {
            return None;
        }
        let j = skip_digits(s, i4);
        Some(j)
    } else {
        Some(i3)
    }
}

/// The JSON number starting at `i`: its `u64` reading, where it has one, and
/// its end position.
pub fn tag_value(s: &[u8], i: usize) -> (r: Option<(Option<u64>, usize)>)
    requires
        i <= s@.len(),
    ensures
        match r {
            Some(p) => s_tag_value(s@, i as int) == Some((p.0, p.1 as int)) && i < p.1 <= s@.len(),
            None => s_tag_value(s@, i as int) is None,
        },
{
    let j = match skip_number(s, i) {
        None => {
            return None;
        },
        Some(j) => j,
    };
    let de = skip_digits(s, i);
    if de != j {
        return Some((None, j));
    }
    proof {
        lemma_digits_end_props(s@, i as int);
    }
    let mut acc: u64 = 0;
    let mut over = false;
    let mut k = i;
    while k < j
        invariant
            i <= k <= j,
            j <= s@.len(),
            j as int == s_digits_end(s@, i as int),
            forall|p: int| i <= p < j ==> is_digit(s@[p]),
            !over ==> acc == s_digits_val(s@, i as int, k as int),
            over ==> s_digits_val(s@, i as int, k as int) > u64::MAX,
        decreases j - k,
    {
        let d = s[k] - 48;
        proof {
            assert(s_digits_val(s@, i as int, k as int + 1) == s_digits_val(
                s@,
                i as int,
                k as int,
            ) * 10 + d);
        }
        if !over {
            if acc > (u64::MAX - d as u64) / 10 {
                proof {
                    let m = u64::MAX - d;
                    assert(m == (m / 10) * 10 + m % 10 && m % 10 < 10) by (nonlinear_arith);
                    assert(acc * 10 >= (m / 10 + 1) * 10) by (nonlinear_arith)
                        requires
                            acc >= m / 10 + 1,
                    ;
                }
                over = true;
            } else {
                acc = acc * 10 + d as u64;
            }
        } else {
            proof {
                assert(s_digits_val(s@, i as int, k as int) * 10 >= s_digits_val(
                    s@,
                    i as int,
                    k as int,
                )) by (nonlinear_arith);
            }
        }
        k = k + 1;
    }
    if over {
        Some((None, j))
    } else {
        Some((Some(acc), j))
    }
}

/// End position of the JSON value starting at `i`, with nesting allowed
/// `depth` further levels.
pub fn skip_value(s: &[u8], i: usize, depth: u32) -> (r: Option<usize>)
    requires
        i <= s@.len(),
    ensures
        match r {
            Some(j) => s_skip_value(s@, i as int, depth as nat) == Some(j as int) && i < j
                <= s@.len(),
            None => s_skip_value(s@, i as int, depth as nat) is None,
        },
    decreases depth, s@.len() - i, 0int,
{
    if i >= s.len() {
        return None;
    }
    let b = s[i];
    if b == 34 {
        match parse_string(s, i) {
            Some((_content, j)) => Some(j),
            None => None,
        }
    } else if b == 123 {
        if depth == 0 {
            return None;
        }
        let j = skip_ws(s, i + 1);
        if j < s.len() && s[j] == 125 {
            return Some(j + 1);
        }
        skip_members(s, j, depth - 1)
    } else if b == 91 {
        if depth == 0 {
            return None;
        }
        let j = skip_ws(s, i + 1);
        if j < s.len() && s[j] == 93 {
            return Some(j + 1);
        }
        skip_elems(s, j, depth - 1)
    } else if b == 116 {
        if s.len() - i >= 4 && s[i + 1] == 114 && s[i + 2] == 117 && s[i + 3] == 101 {
            Some(i + 4)
        } else {
            None
        }
    } else if b == 102 {
        if s.len() - i >= 5 && s[i + 1] == 97 && s[i + 2] == 108 && s[i + 3] == 115 && s[i + 4]
            == 101 {
            Some(i + 5)
        } else {
            None
        }
    } else if b == 110 {
        if s.len() - i >= 4 && s[i + 1] == 117 && s[i + 2] == 108 && s[i + 3] == 108 {
            Some(i + 4)
        } else {
            None
        }
    } else if b == 45 || (48 <= b && b <= 57) {
        skip_number(s, i)
    } else {
        None
    }
}

/// End position of the members of a JSON object, reading at the start of a
/// key at `i`.
fn skip_members(s: &[u8], i0: usize, depth: u32) -> (r: Option<usize>)
    requires
        i0 <= s@.len(),
    ensures
        match r {
            Some(j) => s_skip_members(s@, i0 as int, depth as nat) == Some(j as int) && i0 < j
                <= s@.len(),
            None => s_skip_members(s@, i0 as int, depth as nat) is None,
        },
    decreases depth, s@.len() - i0, 1int,
{
    let mut i = i0;
    loop
        invariant
            i0 <= i <= s@.len(),
            s_skip_members(s@, i0 as int, depth as nat) == s_skip_members(
                s@,
                i as int,
                depth as nat,
            ),
        decreases s@.len() - i,
    {
        let j1 = match parse_string(s, i) {
            None => {
                return None;
            },
            Some((_key, j1)) => j1,
        };
        let j2 = skip_ws(s, j1);
        if !(j2 < s.len() && s[j2] == 58) {
            return None;
        }
        let j3 = skip_ws(s, j2 + 1);
        let j4 = match skip_value(s, j3, depth) {
            None => {
                return None;
            },
            Some(j4) => j4,
        };
        let j5 = skip_ws(s, j4);
        if j5 < s.len() && s[j5] == 125 {
            return Some(j5 + 1);
        }
        if !(j5 < s.len() && s[j5] == 44) {
            return None;
        }
        let j6 = skip_ws(s, j5 + 1);
        i = j6;
    }
}

/// End position of the elements of a JSON array, reading at the start of an
/// element at `i`.
fn skip_elems(s: &[u8], i0: usize, depth: u32) -> (r: Option<usize>)
    requires
        i0 <= s@.len(),
    ensures
        match r {
            Some(j) => s_skip_elems(s@, i0 as int, depth as nat) == Some(j as int) && i0 < j
                <= s@.len(),
            None => s_skip_elems(s@, i0 as int, depth as nat) is None,
        },
    decreases depth, s@.len() - i0, 1int,
{
    let mut i = i0;
    loop
        invariant
            i0 <= i <= s@.len(),
            s_skip_elems(s@, i0 as int, depth as nat) == s_skip_elems(s@, i as int, depth as nat),
        decreases s@.len() - i,
    {
        let j1 = match skip_value(s, i, depth) {
            None => {
                return None;
            },
            Some(j1) => j1,
        };
        let j2 = skip_ws(s, j1);
        if j2 < s.len() && s[j2] == 93 {
            return Some(j2 + 1);
        }
        if !(j2 < s.len() && s[j2] == 44) {
            return None;
        }
        let j3 = skip_ws(s, j2 + 1);
        i = j3;
    }
}

} // verus!
