//! Hex decoding of key and signature material: all-or-nothing decoding of a
//! string of `2 * n` hex digits into exactly `n` bytes.

use vstd::prelude::*;
use vstd::string::StringSliceAdditionalSpecFns;

verus! {

/// Why a hex string failed to decode.
#[derive(Clone, Copy, Debug, PartialEq, Eq, Structural)]
pub enum HexError {
    /// The string's length is not twice the required byte count.
    InvalidLength,
    /// A character is not an ASCII hex digit.
    InvalidDigit,
}

/// `b` is the ASCII code of a hex digit.
pub open spec fn is_hex_digit(b: u8) -> bool {
    (48 <= b && b <= 57) || (97 <= b && b <= 102) || (65 <= b && b <= 70)
}

/// Numeric value of the hex digit with ASCII code `b`.
pub open spec fn hex_digit_val(b: u8) -> u8
    recommends
        is_hex_digit(b),
{
    if 48 <= b && b <= 57 {
        (b - 48) as u8
    } else if 97 <= b && b <= 102 {
        (b - 97 + 10) as u8
    } else {
        (b - 65 + 10) as u8
    }
}

/// The byte encoded by the hex digit pair `hi`, `lo`.
pub open spec fn hex_pair_val(hi: u8, lo: u8) -> u8
    recommends
        is_hex_digit(hi),
        is_hex_digit(lo),
{
    (hex_digit_val(hi) * 16 + hex_digit_val(lo)) as u8
}

/// Result of decoding the byte string `s` as exactly `n` hex-encoded bytes:
/// `Ok` holds byte `i` decoded from digits `2i` and `2i + 1`, in order.
pub open spec fn spec_decode_hex(s: Seq<u8>, n: nat) -> Result<Seq<u8>, HexError> {
    if s.len() != 2 * n {
        Err(HexError::InvalidLength)
    } else if exists|i: int| 0 <= i < s.len() && !is_hex_digit(s[i]) {
        Err(HexError::InvalidDigit)
    } else {
        Ok(Seq::new(n, |i: int| hex_pair_val(s[2 * i], s[2 * i + 1])))
    }
}

/// Decoding as `spec_decode_hex`, with failures collapsed to `None`.
pub open spec fn spec_parse_hex(s: Seq<u8>, n: nat) -> Option<Seq<u8>> {
    match spec_decode_hex(s, n) {
        Ok(bytes) => Some(bytes),
        Err(_) => None,
    }
}

/// Numeric value of one ASCII hex digit, or `None` if `b` is not one.
pub fn hex_val(b: u8) -> (r: Option<u8>)
    ensures
        r matches Some(v) ==> is_hex_digit(b) && v == hex_digit_val(b),
        r is None ==> !is_hex_digit(b),
{
    if 48 <= b && b <= 57 {
        Some(b - 48)
    } else if 97 <= b && b <= 102 {
        Some(b - 97 + 10)
    } else if 65 <= b && b <= 70 {
        Some(b - 65 + 10)
    } else {
        None
    }
}

/// Decode the hex string `s` into exactly `n` bytes, all or nothing.
pub fn decode_hex(s: &str, n: usize) -> (r: Result<Vec<u8>, HexError>)
    ensures
        match r {
            Ok(bytes) => spec_decode_hex(s.spec_bytes(), n as nat) == Ok::<Seq<u8>, HexError>(
                bytes@,
            ),
            Err(e) => spec_decode_hex(s.spec_bytes(), n as nat) == Err::<Seq<u8>, HexError>(e),
        },
{
    let bytes = s.as_bytes();
    if bytes.len() % 2 != 0 || bytes.len() / 2 != n {
        return Err(HexError::InvalidLength);
    }
    let mut res: Vec<u8> = Vec::new();
    let mut i: usize = 0;
    while i < n
        invariant
            0 <= i <= n,
            bytes@ == s.spec_bytes(),
            bytes@.len() == 2 * n,
            2 * n <= usize::MAX,
            res@.len() == i,
            forall|j: int| 0 <= j < 2 * i ==> is_hex_digit(bytes@[j]),
            forall|j: int| 0 <= j < i ==> res@[j] == hex_pair_val(bytes@[2 * j], bytes@[2 * j + 1]),
        decreases n - i,
    {
        let hi = match hex_val(bytes[2 * i]) {
            Some(v) => v,
            None => {
                return Err(HexError::InvalidDigit);
            },
        };
        let lo = match hex_val(bytes[2 * i + 1]) {
            Some(v) => v,
            None => {
                return Err(HexError::InvalidDigit);
            },
        };
        res.push(hi * 16 + lo);
        i = i + 1;
    }
    proof {
        let decoded = Seq::new(n as nat, |j: int| hex_pair_val(s.spec_bytes()[2 * j], s.spec_bytes()[2 * j + 1]));
        assert(res@ =~= decoded);
    }
    Ok(res)
}

/// Decode the hex string `s` into exactly `n` bytes, or `None` on any failure.
pub fn parse_hex(s: &str, n: usize) -> (r: Option<Vec<u8>>)
    ensures
        match r {
            Some(bytes) => spec_parse_hex(s.spec_bytes(), n as nat) == Some(bytes@),
            None => spec_parse_hex(s.spec_bytes(), n as nat) is None,
        },
{
    match decode_hex(s, n) {
        Ok(bytes) => Some(bytes),
        Err(_) => None,
    }
}

/// ASCII code of the lowercase hex digit for nibble `v`.
pub open spec fn hex_digit_code(v: u8) -> u8
    recommends
        v < 16,
{
    if v < 10 {
        (48 + v) as u8
    } else {
        (97 + v - 10) as u8
    }
}

/// Lowercase hex encoding of `b`: two digits per byte, high nibble first.
pub open spec fn spec_hex_encode(b: Seq<u8>) -> Seq<u8> {
    Seq::new(2 * b.len(), |i: int| if i % 2 == 0 {
        hex_digit_code(b[i / 2] / 16)
    } else {
        hex_digit_code(b[i / 2] % 16)
    })
}

/// The value of the hex digit encoding a nibble is that nibble.
proof fn lemma_hex_digit_code_val(v: u8)
    requires
        v < 16,
    ensures
        is_hex_digit(hex_digit_code(v)),
        hex_digit_val(hex_digit_code(v)) == v,
{
}

/// Hex decoding is the inverse of hex encoding: decoding the encoding of any
/// byte string of length `n` as `n` bytes yields it back exactly.
pub proof fn lemma_hex_round_trip(b: Seq<u8>)
    ensures
        spec_decode_hex(spec_hex_encode(b), b.len()) == Ok::<Seq<u8>, HexError>(b),
        spec_parse_hex(spec_hex_encode(b), b.len()) == Some(b),
{
    let enc = spec_hex_encode(b);
    assert forall|i: int| 0 <= i < enc.len() implies is_hex_digit(enc[i]) by {
        if i % 2 == 0 {
            lemma_hex_digit_code_val(b[i / 2] / 16);
        } else {
            lemma_hex_digit_code_val(b[i / 2] % 16);
        }
    }
    let decoded = Seq::new(b.len(), |i: int| hex_pair_val(enc[2 * i], enc[2 * i + 1]));
    assert forall|i: int| 0 <= i < b.len() implies decoded[i] == b[i] by {
        assert(enc[2 * i] == hex_digit_code(b[i] / 16));
        assert(enc[2 * i + 1] == hex_digit_code(b[i] % 16));
        lemma_hex_digit_code_val(b[i] / 16);
        lemma_hex_digit_code_val(b[i] % 16);
        assert(hex_pair_val(enc[2 * i], enc[2 * i + 1]) == (b[i] / 16) * 16 + b[i] % 16);
    }
    assert(decoded =~= b);
}

/// A string whose length is not `2 * n` never decodes to `n` bytes.
pub proof fn lemma_hex_wrong_length(s: Seq<u8>, n: nat)
    requires
        s.len() != 2 * n,
    ensures
        spec_decode_hex(s, n) == Err::<Seq<u8>, HexError>(HexError::InvalidLength),
        spec_parse_hex(s, n) is None,
{
}

/// A string holding any non-hex character never decodes.
pub proof fn lemma_hex_bad_digit(s: Seq<u8>, n: nat, i: int)
    requires
        s.len() == 2 * n,
        0 <= i < s.len(),
        !is_hex_digit(s[i]),
    ensures
        spec_decode_hex(s, n) == Err::<Seq<u8>, HexError>(HexError::InvalidDigit),
        spec_parse_hex(s, n) is None,
{
}

} // verus!
