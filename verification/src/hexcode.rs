//! Payload codec: a result or command travels as `0x`-prefixed, hex-encoded
//! UTF-8 text. Decoding strips the fixed two-character marker, hex-decodes the
//! rest, and checks that the bytes are valid UTF-8.

use vstd::prelude::*;

verus! {

/// Why a payload failed to decode.
#[derive(Clone, Copy, PartialEq, Eq, Structural, Debug)]
pub enum DecodeError {
    /// The payload is shorter than the two-character marker.
    TooShort,
    /// The hex part has an odd number of characters.
    OddLength,
    /// A character after the marker is not a hex digit.
    BadHexDigit,
    /// The decoded bytes are not valid UTF-8.
    BadUtf8,
}

/// Value of one hex digit, or -1 for any other byte.
pub open spec fn hex_val(c: u8) -> int {
    if 0x30 <= c && c <= 0x39 {
        c - 0x30
    } else if 0x61 <= c && c <= 0x66 {
        c - 0x61 + 10
    } else if 0x41 <= c && c <= 0x46 {
        c - 0x41 + 10
    } else {
        -1
    }
}

pub open spec fn is_hex_digit(c: u8) -> bool {
    hex_val(c) >= 0
}

pub open spec fn all_hex(s: Seq<u8>) -> bool {
    forall|i: int| 0 <= i < s.len() ==> is_hex_digit(#[trigger] s[i])
}

/// The byte written as the two hex digits `hi` `lo`.
pub open spec fn hex_byte(hi: u8, lo: u8) -> u8
    recommends
        is_hex_digit(hi),
        is_hex_digit(lo),
{
    (hex_val(hi) * 16 + hex_val(lo)) as u8
}

/// The bytes written by a sequence of hex digit pairs.
pub open spec fn hex_bytes(s: Seq<u8>) -> Seq<u8>
    recommends
        s.len() % 2 == 0,
{
    Seq::new(s.len() / 2, |i: int| hex_byte(s[2 * i], s[2 * i + 1]))
}

pub open spec fn sp_hex_decode(s: Seq<u8>) -> Option<Seq<u8>> {
    if s.len() % 2 == 0 && all_hex(s) {
        Some(hex_bytes(s))
    } else {
        None
    }
}

/// The lowercase hex digit for a value below 16.
pub open spec fn hex_digit_of(v: int) -> u8
    recommends
        0 <= v < 16,
{
    if v < 10 {
        (0x30 + v) as u8
    } else {
        (0x61 + (v - 10)) as u8
    }
}

pub open spec fn sp_hex_encode(b: Seq<u8>) -> Seq<u8> {
    Seq::new(
        2 * b.len(),
        |i: int|
            if i % 2 == 0 {
                hex_digit_of(b[i / 2] as int / 16)
            } else {
                hex_digit_of(b[i / 2] as int % 16)
            },
    )
}

/// Whether `s` is valid UTF-8 from position `i` on, by the standard byte
/// patterns (continuation bytes `80..BF`, no overlong or out-of-range forms).
pub open spec fn is_cont(b: u8) -> bool {
    0x80 <= b && b < 0xC0
}

pub open spec fn valid_utf8_from(s: Seq<u8>, i: int) -> bool
    decreases s.len() - i,
    when 0 <= i <= s.len()
{
    if i >= s.len() {
        true
    } else {
        let b = s[i];
        if b < 0x80 {
            valid_utf8_from(s, i + 1)
        } else if b < 0xC2 {
            false
        } else if b < 0xE0 {
            i + 2 <= s.len() && is_cont(s[i + 1]) && valid_utf8_from(s, i + 2)
        } else if b < 0xF0 {
            i + 3 <= s.len() && is_cont(s[i + 1]) && is_cont(s[i + 2]) && (b == 0xE0 ==> s[i + 1]
                >= 0xA0) && (b == 0xED ==> s[i + 1] < 0xA0) && valid_utf8_from(s, i + 3)
        } else if b < 0xF5 {
            i + 4 <= s.len() && is_cont(s[i + 1]) && is_cont(s[i + 2]) && is_cont(s[i + 3]) && (b
                == 0xF0 ==> s[i + 1] >= 0x90) && (b == 0xF4 ==> s[i + 1] < 0x90) && valid_utf8_from(
                s,
                i + 4,
            )
        } else {
            false
        }
    }
}

pub open spec fn valid_utf8(s: Seq<u8>) -> bool {
    valid_utf8_from(s, 0)
}

/// What decoding a payload yields: strip the two-character marker, hex-decode,
/// require valid UTF-8.
pub open spec fn sp_decode_payload(s: Seq<u8>) -> Result<Seq<u8>, DecodeError> {
    if s.len() < 2 {
        Err(DecodeError::TooShort)
    } else {
        let h = s.skip(2);
        if h.len() % 2 != 0 {
            Err(DecodeError::OddLength)
        } else if !all_hex(h) {
            Err(DecodeError::BadHexDigit)
        } else if !valid_utf8(hex_bytes(h)) {
            Err(DecodeError::BadUtf8)
        } else {
            Ok(hex_bytes(h))
        }
    }
}

/// What encoding yields: the marker `0x` followed by two lowercase hex digits
/// per byte.
pub open spec fn sp_encode_payload(b: Seq<u8>) -> Seq<u8> {
    seq![0x30, 0x78] + sp_hex_encode(b)
}

fn hex_digit_val(c: u8) -> (r: Option<u8>)
    ensures
        match r {
            Some(v) => hex_val(c) == v,
            None => hex_val(c) == -1,
        },
{
    if 0x30 <= c && c <= 0x39 {
        Some(c - 0x30)
    } else if 0x61 <= c && c <= 0x66 {
        Some(c - 0x61 + 10)
    } else if 0x41 <= c && c <= 0x46 {
        Some(c - 0x41 + 10)
    } else {
        None
    }
}

fn hex_digit_char(v: u8) -> (r: u8)
    requires
        v < 16,
    ensures
        r == hex_digit_of(v as int),
{
    if v < 10 {
        0x30 + v
    } else {
        0x61 + (v - 10)
    }
}

/// Decode a run of hex digit pairs into bytes.
pub fn hex_decode(s: &Vec<u8>) -> (r: Result<Vec<u8>, DecodeError>)
    ensures
        match r {
            Ok(b) => sp_hex_decode(s@) == Some(b@),
            Err(e) => sp_hex_decode(s@) is None && (if s@.len() % 2 != 0 {
                e == DecodeError::OddLength
            } else {
                e == DecodeError::BadHexDigit
            }),
        },
{
    if s.len() % 2 != 0 {
        return Err(DecodeError::OddLength);
    }
    let total = s.len();
    let n = total / 2;
    let mut out: Vec<u8> = Vec::new();
    let mut i: usize = 0;
    while i < n
        invariant
            s@.len() % 2 == 0,
            total == s@.len(),
            n == s@.len() / 2,
            i <= n,
            out@.len() == i,
            forall|j: int| 0 <= j < i ==> #[trigger] out@[j] == hex_byte(s@[2 * j], s@[2 * j + 1]),
            forall|j: int| 0 <= j < 2 * i ==> is_hex_digit(#[trigger] s@[j]),
        decreases n - i,
    {
        assert(2 * (i as int) + 1 < s@.len());
        let hi = match hex_digit_val(s[2 * i]) {
            Some(v) => v,
            None => {
                return Err(DecodeError::BadHexDigit);
            },
        };
        let lo = match hex_digit_val(s[2 * i + 1]) {
            Some(v) => v,
            None => {
                return Err(DecodeError::BadHexDigit);
            },
        };
        assert(hi < 16 && lo < 16);
        out.push(hi * 16 + lo);
        assert forall|j: int| 0 <= j < 2 * (i + 1) implies is_hex_digit(#[trigger] s@[j]) by {
            if j == 2 * i || j == 2 * i + 1 {
            } else {
                assert(0 <= j < 2 * i);
            }
        }
        i = i + 1;
    }
    assert(out@ =~= hex_bytes(s@));
    Ok(out)
}

/// Encode bytes as lowercase hex digit pairs.
pub fn hex_encode(b: &Vec<u8>) -> (r: Vec<u8>)
    requires
        b@.len() * 2 <= usize::MAX,
    ensures
        r@ == sp_hex_encode(b@),
{
    let mut out: Vec<u8> = Vec::new();
    let mut i: usize = 0;
    while i < b.len()
        invariant
            b@.len() * 2 <= usize::MAX,
            i <= b@.len(),
            out@.len() == 2 * i,
            forall|j: int| 0 <= j < 2 * i ==> #[trigger] out@[j] == sp_hex_encode(b@)[j],
        decreases b@.len() - i,
    {
        let c = b[i];
        out.push(hex_digit_char(c / 16));
        out.push(hex_digit_char(c % 16));
        assert(out@[2 * i as int] == sp_hex_encode(b@)[2 * i as int]);
        assert(out@[2 * i as int + 1] == sp_hex_encode(b@)[2 * i as int + 1]);
        i = i + 1;
    }
    assert(out@ =~= sp_hex_encode(b@));
    out
}

/// Check the standard UTF-8 byte patterns.
pub fn is_valid_utf8(s: &Vec<u8>) -> (r: bool)
    ensures
        r == valid_utf8(s@),
{
    let n = s.len();
    let mut i: usize = 0;
    while i < n
        invariant
            n == s@.len(),
            i <= n,
            valid_utf8(s@) == valid_utf8_from(s@, i as int),
        decreases n - i,
    {
        let b = s[i];
        if b < 0x80 {
            i = i + 1;
        } else if b < 0xC2 {
            return false;
        } else if b < 0xE0 {
            if n - i < 2 || !(0x80 <= s[i + 1] && s[i + 1] < 0xC0) {
                return false;
            }
            i = i + 2;
        } else if b < 0xF0 {
            if n - i < 3 || !(0x80 <= s[i + 1] && s[i + 1] < 0xC0) || !(0x80 <= s[i + 2] && s[i + 2]
                < 0xC0) || (b == 0xE0 && s[i + 1] < 0xA0) || (b == 0xED && s[i + 1] >= 0xA0) {
                return false;
            }
            i = i + 3;
        } else if b < 0xF5 {
            if n - i < 4 || !(0x80 <= s[i + 1] && s[i + 1] < 0xC0) || !(0x80 <= s[i + 2] && s[i + 2]
                < 0xC0) || !(0x80 <= s[i + 3] && s[i + 3] < 0xC0) || (b == 0xF0 && s[i + 1] < 0x90)
                || (b == 0xF4 && s[i + 1] >= 0x90) {
                return false;
            }
            i = i + 4;
        } else {
            return false;
        }
    }
    true
}

/// Decode a full payload: marker, hex, UTF-8 check.
pub fn decode_payload(s: &Vec<u8>) -> (r: Result<Vec<u8>, DecodeError>)
    ensures
        match r {
            Ok(b) => sp_decode_payload(s@) == Ok::<Seq<u8>, DecodeError>(b@),
            Err(e) => sp_decode_payload(s@) == Err::<Seq<u8>, DecodeError>(e),
        },
{
    if s.len() < 2 {
        return Err(DecodeError::TooShort);
    }
    let mut h: Vec<u8> = Vec::new();
    let mut j: usize = 2;
    while j < s.len()
        invariant
            2 <= j <= s@.len(),
            h@ == s@.subrange(2, j as int),
        decreases s@.len() - j,
    {
        h.push(s[j]);
        assert(h@ =~= s@.subrange(2, j + 1 as int));
        j = j + 1;
    }
    assert(h@ =~= s@.skip(2));
    let b = match hex_decode(&h) {
        Ok(b) => b,
        Err(e) => {
            return Err(e);
        },
    };
    if !is_valid_utf8(&b) {
        return Err(DecodeError::BadUtf8);
    }
    Ok(b)
}

/// Encode bytes as a full payload with the `0x` marker.
pub fn encode_payload(b: &Vec<u8>) -> (r: Vec<u8>)
    requires
        b@.len() * 2 + 2 <= usize::MAX,
    ensures
        r@ == sp_encode_payload(b@),
{
    let mut out: Vec<u8> = Vec::new();
    out.push(0x30);
    out.push(0x78);
    let hx = hex_encode(b);
    let mut i: usize = 0;
    while i < hx.len()
        invariant
            i <= hx@.len(),
            hx@ == sp_hex_encode(b@),
            out@ == seq![0x30, 0x78] + hx@.subrange(0, i as int),
        decreases hx@.len() - i,
    {
        out.push(hx[i]);
        assert(out@ =~= seq![0x30, 0x78] + hx@.subrange(0, i + 1 as int));
        i = i + 1;
    }
    assert(out@ =~= sp_encode_payload(b@));
    out
}

/// Round trip: decoding an encoded UTF-8 text gives the text back.
#[verifier::rlimit(60)]
pub proof fn lemma_payload_round_trip(p: Seq<u8>)
    requires
        valid_utf8(p),
    ensures
        sp_decode_payload(sp_encode_payload(p)) == Ok::<Seq<u8>, DecodeError>(p),
{
    let e = sp_encode_payload(p);
    let h = e.skip(2);
    assert(h =~= sp_hex_encode(p));
    assert(h.len() % 2 == 0);
    assert forall|i: int| 0 <= i < h.len() implies is_hex_digit(#[trigger] h[i]) by {
        if i % 2 == 0 {
            assert(h[i] == hex_digit_of(p[i / 2] as int / 16));
        } else {
            assert(h[i] == hex_digit_of(p[i / 2] as int % 16));
        }
    }
    assert forall|i: int| 0 <= i < p.len() implies #[trigger] hex_bytes(h)[i] == p[i] by {
        assert(h[2 * i] == hex_digit_of(p[(2 * i) / 2] as int / 16));
        assert(h[2 * i + 1] == hex_digit_of(p[(2 * i + 1) / 2] as int % 16));
        assert((2 * i) / 2 == i);
        assert((2 * i + 1) / 2 == i);
        assert(hex_val(hex_digit_of(p[i] as int / 16)) == p[i] as int / 16);
        assert(hex_val(hex_digit_of(p[i] as int % 16)) == p[i] as int % 16);
        assert(hex_byte(h[2 * i], h[2 * i + 1]) == ((p[i] as int / 16) * 16 + p[i] as int % 16) as u8);
    }
    assert(hex_bytes(h) =~= p);
}

} // verus!
