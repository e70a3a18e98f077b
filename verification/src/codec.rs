//! Ambiguity-free scalar codecs used by every wire type: byte buffers as
//! `0x`-prefixed lowercase hex, and 64/128-bit integers as base-10 decimal
//! strings (never native numeric literals, so decoders limited to 53-bit
//! safe integers cannot silently truncate them).
//!
//! Every encoder is deterministic and total, and decoding an encoded value
//! gives the value back; the round-trip lemmas at the bottom state that law.

use vstd::prelude::*;

use crate::errors::PipelineError;

verus! {

// ---------------------------------------------------------------------------
// character classes
// ---------------------------------------------------------------------------

/// `0`-`9`, `a`-`f` or `A`-`F`.
pub open spec fn is_hex_digit(c: char) -> bool {
    (48 <= c as u32 && c as u32 <= 57) || (97 <= c as u32 && c as u32 <= 102) || (65 <= c as u32
        && c as u32 <= 70)
}

/// `0`-`9`.
pub open spec fn is_dec_digit(c: char) -> bool {
    48 <= c as u32 && c as u32 <= 57
}

/// Numeric value of a hex digit.
pub open spec fn hex_digit_value(c: char) -> u8
    recommends
        is_hex_digit(c),
{
    if 48 <= c as u32 && c as u32 <= 57 {
        (c as u32 - 48) as u8
    } else if 97 <= c as u32 && c as u32 <= 102 {
        (c as u32 - 87) as u8
    } else {
        (c as u32 - 55) as u8
    }
}

/// Numeric value of a decimal digit.
pub open spec fn dec_digit_value(c: char) -> nat
    recommends
        is_dec_digit(c),
{
    (c as u32 - 48) as nat
}

/// The lowercase hex digit for a nibble.
pub open spec fn hex_char_of_nibble(n: u8) -> char
    recommends
        n < 16,
{
    if n < 10 {
        ((n + 48) as u8) as char
    } else {
        ((n + 87) as u8) as char
    }
}

// ---------------------------------------------------------------------------
// hex encoding of byte buffers
// ---------------------------------------------------------------------------

/// Lowercase hex rendering of a byte buffer, two digits per byte.
pub open spec fn hex_str_of(bytes: Seq<u8>) -> Seq<char>
    decreases bytes.len(),
{
    if bytes.len() == 0 {
        Seq::empty()
    } else {
        hex_str_of(bytes.drop_last()).push(hex_char_of_nibble(bytes.last() / 16)).push(
            hex_char_of_nibble(bytes.last() % 16),
        )
    }
}

/// A well-formed hex body: even length, hex digits only.
pub open spec fn is_hex_body(s: Seq<char>) -> bool {
    s.len() % 2 == 0 && (forall|i: int| 0 <= i < s.len() ==> is_hex_digit(#[trigger] s[i]))
}

/// The bytes a well-formed hex body denotes.
pub open spec fn bytes_of_hex(s: Seq<char>) -> Seq<u8>
    recommends
        is_hex_body(s),
    decreases s.len(),
{
    if s.len() < 2 {
        Seq::empty()
    } else {
        bytes_of_hex(s.drop_last().drop_last()).push(
            (hex_digit_value(s[s.len() - 2]) * 16 + hex_digit_value(s[s.len() - 1])) as u8,
        )
    }
}

/// The body of a hex string after an optional `0x` prefix.
pub open spec fn strip_hex_prefix(s: Seq<char>) -> Seq<char> {
    if s.len() >= 2 && s[0] == '0' && s[1] == 'x' {
        s.skip(2)
    } else {
        s
    }
}

/// Appends the lowercase hex digit of a nibble to a string.
fn push_hex_digit(s: &mut String, d: u8)
    requires
        d < 16,
    ensures
        final(s)@ == old(s)@.push(hex_char_of_nibble(d)),
{
    proof {
        reveal_strlit("0");
        reveal_strlit("1");
        reveal_strlit("2");
        reveal_strlit("3");
        reveal_strlit("4");
        reveal_strlit("5");
        reveal_strlit("6");
        reveal_strlit("7");
        reveal_strlit("8");
        reveal_strlit("9");
        reveal_strlit("a");
        reveal_strlit("b");
        reveal_strlit("c");
        reveal_strlit("d");
        reveal_strlit("e");
        reveal_strlit("f");
    }
    match d {
        0 => s.append("0"),
        1 => s.append("1"),
        2 => s.append("2"),
        3 => s.append("3"),
        4 => s.append("4"),
        5 => s.append("5"),
        6 => s.append("6"),
        7 => s.append("7"),
        8 => s.append("8"),
        9 => s.append("9"),
        10 => s.append("a"),
        11 => s.append("b"),
        12 => s.append("c"),
        13 => s.append("d"),
        14 => s.append("e"),
        _ => s.append("f"),
    }
    proof {
        assert(s@ =~= old(s)@.push(hex_char_of_nibble(d)));
    }
}

/// Appends the two hex digits of one byte to a string.
fn push_hex_byte(s: &mut String, b: u8)
    ensures
        final(s)@ == old(s)@.push(hex_char_of_nibble(b / 16)).push(hex_char_of_nibble(b % 16)),
{
    push_hex_digit(s, b / 16);
    push_hex_digit(s, b % 16);
}

/// Encodes a byte buffer as bare lowercase hex.
pub fn hex_encode(bytes: &Vec<u8>) -> (r: String)
    ensures
        r@ == hex_str_of(bytes@),
{
    let mut out = String::new();
    let mut i: usize = 0;
    while i < bytes.len()
        invariant
            i <= bytes.len(),
            out@ == hex_str_of(bytes@.take(i as int)),
        decreases bytes.len() - i,
    {
        push_hex_byte(&mut out, bytes[i]);
        proof {
            assert(bytes@.take(i + 1 as int).drop_last() =~= bytes@.take(i as int));
            assert(bytes@.take(i + 1 as int).last() == bytes@[i as int]);
        }
        i = i + 1;
    }
    proof {
        assert(bytes@.take(bytes@.len() as int) =~= bytes@);
    }
    out
}

/// Encodes a byte buffer as `0x`-prefixed lowercase hex, the wire form of
/// every binary field.
pub fn hex_encode_prefixed(bytes: &Vec<u8>) -> (r: String)
    ensures
        r@ == seq!['0', 'x'] + hex_str_of(bytes@),
{
    proof {
        reveal_strlit("0x");
    }
    let mut out = String::from_str("0x");
    let mut i: usize = 0;
    proof {
        assert(out@ =~= seq!['0', 'x'] + hex_str_of(bytes@.take(0)));
    }
    while i < bytes.len()
        invariant
            i <= bytes.len(),
            out@ == seq!['0', 'x'] + hex_str_of(bytes@.take(i as int)),
        decreases bytes.len() - i,
    {
        push_hex_byte(&mut out, bytes[i]);
        proof {
            assert(bytes@.take(i + 1 as int).drop_last() =~= bytes@.take(i as int));
            assert(bytes@.take(i + 1 as int).last() == bytes@[i as int]);
            assert(out@ =~= seq!['0', 'x'] + hex_str_of(bytes@.take(i + 1 as int)));
        }
        i = i + 1;
    }
    proof {
        assert(bytes@.take(bytes@.len() as int) =~= bytes@);
    }
    out
}

/// Numeric value of one hex digit, or `None` for any other character.
fn hex_digit_of_char(c: char) -> (r: Option<u8>)
    ensures
        match r {
            Some(v) => is_hex_digit(c) && v == hex_digit_value(c) && v < 16,
            None => !is_hex_digit(c),
        },
{
    let u = c as u32;
    if 48 <= u && u <= 57 {
        Some((u - 48) as u8)
    } else if 97 <= u && u <= 102 {
        Some((u - 87) as u8)
    } else if 65 <= u && u <= 70 {
        Some((u - 55) as u8)
    } else {
        None
    }
}

/// Decodes a byte buffer from hex, stripping an optional `0x` prefix.
/// Fails exactly on an odd-length body or a non-hex character.
pub fn hex_decode(s: &str) -> (r: Result<Vec<u8>, PipelineError>)
    ensures
        match r {
            Ok(v) => is_hex_body(strip_hex_prefix(s@)) && v@ == bytes_of_hex(strip_hex_prefix(s@)),
            Err(e) => !is_hex_body(strip_hex_prefix(s@)) && e == PipelineError::DecodeError,
        },
{
    let n = s.unicode_len();
    let body: &str = if n >= 2 && s.get_char(0) == '0' && s.get_char(1) == 'x' {
        s.substring_char(2, n)
    } else {
        s
    };
    proof {
        assert(body@ =~= strip_hex_prefix(s@));
    }
    hex_decode_bare(body)
}

/// Decodes a byte buffer from bare hex digits, accepting no prefix.
pub fn hex_decode_bare(s: &str) -> (r: Result<Vec<u8>, PipelineError>)
    ensures
        match r {
            Ok(v) => is_hex_body(s@) && v@ == bytes_of_hex(s@),
            Err(e) => !is_hex_body(s@) && e == PipelineError::DecodeError,
        },
{
    let m = s.unicode_len();
    if m % 2 != 0 {
        return Err(PipelineError::DecodeError);
    }
    let mut out: Vec<u8> = Vec::new();
    let mut i: usize = 0;
    while i < m
        invariant
            i <= m,
            i % 2 == 0,
            m % 2 == 0,
            m == s@.len(),
            out@ == bytes_of_hex(s@.take(i as int)),
            forall|j: int| 0 <= j < i ==> is_hex_digit(#[trigger] s@[j]),
        decreases m - i,
    {
        let c1 = s.get_char(i);
        let c2 = s.get_char(i + 1);
        let d1 = match hex_digit_of_char(c1) {
            Some(d) => d,
            None => {
                proof {
                    assert(!is_hex_digit(s@[i as int]));
                    assert(!is_hex_body(s@));
                }
                return Err(PipelineError::DecodeError);
            },
        };
        let d2 = match hex_digit_of_char(c2) {
            Some(d) => d,
            None => {
                proof {
                    assert(!is_hex_digit(s@[i + 1]));
                    assert(!is_hex_body(s@));
                }
                return Err(PipelineError::DecodeError);
            },
        };
        out.push(d1 * 16 + d2);
        proof {
            let t = s@.take(i + 2 as int);
            assert(t.drop_last().drop_last() =~= s@.take(i as int));
            assert(t[t.len() - 2] == c1);
            assert(t[t.len() - 1] == c2);
        }
        i = i + 2;
    }
    proof {
        assert(s@.take(m as int) =~= s@);
    }
    Ok(out)
}

// ---------------------------------------------------------------------------
// laws: the hex round trip
// ---------------------------------------------------------------------------

/// A nibble's hex digit is a hex digit and decodes back to the nibble.
proof fn lemma_hex_digit_of_nibble(n: u8)
    requires
        n < 16,
    ensures
        is_hex_digit(hex_char_of_nibble(n)),
        hex_digit_value(hex_char_of_nibble(n)) == n,
{
}

/// Round trip for byte buffers: the hex rendering of any buffer is a
/// well-formed hex body and decodes back to the same buffer.
pub proof fn lemma_hex_round_trip(bytes: Seq<u8>)
    ensures
        is_hex_body(hex_str_of(bytes)),
        bytes_of_hex(hex_str_of(bytes)) == bytes,
    decreases bytes.len(),
{
    if bytes.len() == 0 {
        assert(bytes_of_hex(hex_str_of(bytes)) =~= bytes);
    } else {
        let prefix = hex_str_of(bytes.drop_last());
        let b = bytes.last();
        lemma_hex_round_trip(bytes.drop_last());
        lemma_hex_digit_of_nibble(b / 16);
        lemma_hex_digit_of_nibble(b % 16);
        let s = hex_str_of(bytes);
        assert(s == prefix.push(hex_char_of_nibble(b / 16)).push(hex_char_of_nibble(b % 16)));
        assert(s.len() == prefix.len() + 2);
        assert forall|i: int| 0 <= i < s.len() implies is_hex_digit(#[trigger] s[i]) by {
            if i < prefix.len() {
                assert(s[i] == prefix[i]);
            }
        }
        assert(s.drop_last().drop_last() =~= prefix);
        assert(s[s.len() - 2] == hex_char_of_nibble(b / 16));
        assert(s[s.len() - 1] == hex_char_of_nibble(b % 16));
        assert((b / 16) * 16 + (b % 16) == b) by {
            assert(b == 16 * (b / 16) + b % 16);
        }
        assert(bytes_of_hex(s) =~= bytes);
    }
}

/// Pointwise reading of a decoded hex body: byte `i` comes from digits
/// `2i` and `2i + 1`.
pub proof fn lemma_bytes_of_hex_index(s: Seq<char>)
    requires
        s.len() % 2 == 0,
    ensures
        bytes_of_hex(s).len() == s.len() / 2,
        forall|i: int|
            0 <= i < s.len() / 2 ==> bytes_of_hex(s)[i] == (hex_digit_value(s[2 * i]) * 16
                + hex_digit_value(s[2 * i + 1])) as u8,
    decreases s.len(),
{
    if s.len() >= 2 {
        let prefix = s.drop_last().drop_last();
        lemma_bytes_of_hex_index(prefix);
        assert forall|i: int| 0 <= i < s.len() / 2 implies bytes_of_hex(s)[i] == (hex_digit_value(
            s[2 * i],
        ) * 16 + hex_digit_value(s[2 * i + 1])) as u8 by {
            if i < prefix.len() / 2 {
                assert(bytes_of_hex(s)[i] == bytes_of_hex(prefix)[i]);
                assert(prefix[2 * i] == s[2 * i]);
                assert(prefix[2 * i + 1] == s[2 * i + 1]);
            }
        }
    }
}

/// The value of a hex digit is a nibble.
pub proof fn lemma_hex_digit_value_bound(c: char)
    requires
        is_hex_digit(c),
    ensures
        hex_digit_value(c) < 16,
{
}

/// No hex digit is a colon, so a hex body never contains the `::` separator
/// of a function reference: the two wire shapes cannot collide.
pub proof fn lemma_hex_digit_not_colon(c: char)
    requires
        is_hex_digit(c),
    ensures
        c != ':',
{
}

// ---------------------------------------------------------------------------
// decimal encoding of 64/128-bit integers
// ---------------------------------------------------------------------------

/// Base-10 rendering of a natural number, no leading zeros.
pub open spec fn dec_str_of(n: nat) -> Seq<char>
    decreases n,
{
    if n < 10 {
        seq![hex_char_of_nibble(n as u8)]
    } else {
        dec_str_of(n / 10).push(hex_char_of_nibble((n % 10) as u8))
    }
}

/// A well-formed unsigned decimal body: non-empty, decimal digits only.
pub open spec fn is_dec_body(s: Seq<char>) -> bool {
    s.len() > 0 && (forall|i: int| 0 <= i < s.len() ==> is_dec_digit(#[trigger] s[i]))
}

/// The natural number a decimal body denotes.
pub open spec fn dec_value_of(s: Seq<char>) -> nat
    recommends
        forall|i: int| 0 <= i < s.len() ==> is_dec_digit(#[trigger] s[i]),
    decreases s.len(),
{
    if s.len() == 0 {
        0
    } else {
        dec_value_of(s.drop_last()) * 10 + dec_digit_value(s.last())
    }
}

/// Base-10 rendering of a signed value: a `-` sign, then the magnitude.
pub open spec fn sdec_str_of(v: int) -> Seq<char> {
    if v < 0 {
        seq!['-'] + dec_str_of((-v) as nat)
    } else {
        dec_str_of(v as nat)
    }
}

/// A well-formed signed decimal body: an optional `-` sign, then digits.
pub open spec fn is_sdec_body(s: Seq<char>) -> bool {
    if s.len() > 0 && s[0] == '-' {
        is_dec_body(s.skip(1))
    } else {
        is_dec_body(s)
    }
}

/// The integer a signed decimal body denotes.
pub open spec fn sdec_value_of(s: Seq<char>) -> int {
    if s.len() > 0 && s[0] == '-' {
        -(dec_value_of(s.skip(1)) as int)
    } else {
        dec_value_of(s) as int
    }
}

/// Appends the decimal rendering of a `u64`.
fn push_dec_u64(s: &mut String, n: u64)
    ensures
        final(s)@ == old(s)@ + dec_str_of(n as nat),
    decreases n,
{
    if n < 10 {
        push_hex_digit(s, n as u8);
        proof {
            assert(old(s)@.push(hex_char_of_nibble(n as u8)) =~= old(s)@ + dec_str_of(n as nat));
        }
    } else {
        push_dec_u64(s, n / 10);
        push_hex_digit(s, (n % 10) as u8);
        proof {
            assert((old(s)@ + dec_str_of((n / 10) as nat)).push(
                hex_char_of_nibble((n % 10) as u8),
            ) =~= old(s)@ + dec_str_of(n as nat));
        }
    }
}

/// Appends the decimal rendering of a `u128`.
fn push_dec_u128(s: &mut String, n: u128)
    ensures
        final(s)@ == old(s)@ + dec_str_of(n as nat),
    decreases n,
{
    if n < 10 {
        push_hex_digit(s, n as u8);
        proof {
            assert(old(s)@.push(hex_char_of_nibble(n as u8)) =~= old(s)@ + dec_str_of(n as nat));
        }
    } else {
        push_dec_u128(s, n / 10);
        push_hex_digit(s, (n % 10) as u8);
        proof {
            assert((old(s)@ + dec_str_of((n / 10) as nat)).push(
                hex_char_of_nibble((n % 10) as u8),
            ) =~= old(s)@ + dec_str_of(n as nat));
        }
    }
}

/// Encodes a `u64` as a decimal string.
pub fn u64_to_dec_string(n: u64) -> (r: String)
    ensures
        r@ == dec_str_of(n as nat),
{
    let mut out = String::new();
    push_dec_u64(&mut out, n);
    proof {
        assert(Seq::<char>::empty() + dec_str_of(n as nat) =~= dec_str_of(n as nat));
    }
    out
}

/// Encodes a `u128` as a decimal string.
pub fn u128_to_dec_string(n: u128) -> (r: String)
    ensures
        r@ == dec_str_of(n as nat),
{
    let mut out = String::new();
    push_dec_u128(&mut out, n);
    proof {
        assert(Seq::<char>::empty() + dec_str_of(n as nat) =~= dec_str_of(n as nat));
    }
    out
}

/// Encodes an `i64` as a decimal string with an optional leading `-`.
pub fn i64_to_dec_string(n: i64) -> (r: String)
    ensures
        r@ == sdec_str_of(n as int),
{
    proof {
        reveal_strlit("-");
    }
    if n >= 0 {
        u64_to_dec_string(n as u64)
    } else {
        let mag: u64 = (-(n as i128)) as u64;
        let mut out = String::from_str("-");
        push_dec_u64(&mut out, mag);
        proof {
            assert(seq!['-'] + dec_str_of(mag as nat) =~= sdec_str_of(n as int));
        }
        out
    }
}

/// Encodes an `i128` as a decimal string with an optional leading `-`.
pub fn i128_to_dec_string(n: i128) -> (r: String)
    ensures
        r@ == sdec_str_of(n as int),
{
    proof {
        reveal_strlit("-");
    }
    if n >= 0 {
        u128_to_dec_string(n as u128)
    } else if n == i128::MIN {
        let mag: u128 = 170141183460469231731687303715884105728u128;
        let mut out = String::from_str("-");
        push_dec_u128(&mut out, mag);
        proof {
            assert(seq!['-'] + dec_str_of(mag as nat) =~= sdec_str_of(n as int));
        }
        out
    } else {
        let mag: u128 = (-n) as u128;
        let mut out = String::from_str("-");
        push_dec_u128(&mut out, mag);
        proof {
            assert(seq!['-'] + dec_str_of(mag as nat) =~= sdec_str_of(n as int));
        }
        out
    }
}

/// A longer digit prefix never denotes a smaller number.
proof fn lemma_dec_value_prefix_le(s: Seq<char>, i: int, j: int)
    requires
        0 <= i <= j <= s.len(),
        forall|k: int| 0 <= k < s.len() ==> is_dec_digit(#[trigger] s[k]),
    ensures
        dec_value_of(s.take(i)) <= dec_value_of(s.take(j)),
    decreases j - i,
{
    if i < j {
        lemma_dec_value_prefix_le(s, i, j - 1);
        assert(s.take(j).drop_last() =~= s.take(j - 1));
        let v = dec_value_of(s.take(j - 1));
        assert(dec_value_of(s.take(j)) == v * 10 + dec_digit_value(s.take(j).last()));
        assert(v * 10 >= v) by (nonlinear_arith)
            requires
                v >= 0,
        ;
    }
}

/// Decodes a `u64` from a decimal string. Fails exactly when the string is
/// empty, holds a non-digit, or denotes a value above `u64::MAX`.
pub fn parse_dec_u64(s: &str) -> (r: Result<u64, PipelineError>)
    ensures
        match r {
            Ok(v) => is_dec_body(s@) && dec_value_of(s@) <= u64::MAX && v as nat == dec_value_of(
                s@,
            ),
            Err(e) => !(is_dec_body(s@) && dec_value_of(s@) <= u64::MAX) && e
                == PipelineError::DecodeError,
        },
{
    let n = s.unicode_len();
    if n == 0 {
        return Err(PipelineError::DecodeError);
    }
    let mut acc: u64 = 0;
    let mut i: usize = 0;
    while i < n
        invariant
            i <= n,
            n == s@.len(),
            acc as nat == dec_value_of(s@.take(i as int)),
            forall|j: int| 0 <= j < i ==> is_dec_digit(#[trigger] s@[j]),
        decreases n - i,
    {
        let c = s.get_char(i);
        let u = c as u32;
        if !(48 <= u && u <= 57) {
            proof {
                assert(!is_dec_digit(s@[i as int]));
            }
            return Err(PipelineError::DecodeError);
        }
        let d = (u - 48) as u64;
        let overflowed: bool = match acc.checked_mul(10) {
            Some(a) => {
                match a.checked_add(d) {
                    Some(b) => {
                        acc = b;
                        false
                    },
                    None => true,
                }
            },
            None => true,
        };
        proof {
            assert(s@.take(i + 1).drop_last() =~= s@.take(i as int));
            assert(s@.take(i + 1).last() == s@[i as int]);
        }
        if overflowed {
            proof {
                assert(dec_value_of(s@.take(i + 1)) > u64::MAX as nat);
                if is_dec_body(s@) && dec_value_of(s@) <= u64::MAX {
                    lemma_dec_value_prefix_le(s@, i + 1, n as int);
                    assert(s@.take(n as int) =~= s@);
                }
            }
            return Err(PipelineError::DecodeError);
        }
        i = i + 1;
    }
    proof {
        assert(s@.take(n as int) =~= s@);
    }
    Ok(acc)
}

/// Decodes a `u128` from a decimal string. Fails exactly when the string is
/// empty, holds a non-digit, or denotes a value above `u128::MAX`.
pub fn parse_dec_u128(s: &str) -> (r: Result<u128, PipelineError>)
    ensures
        match r {
            Ok(v) => is_dec_body(s@) && dec_value_of(s@) <= u128::MAX && v as nat == dec_value_of(
                s@,
            ),
            Err(e) => !(is_dec_body(s@) && dec_value_of(s@) <= u128::MAX) && e
                == PipelineError::DecodeError,
        },
{
    let n = s.unicode_len();
    if n == 0 {
        return Err(PipelineError::DecodeError);
    }
    let mut acc: u128 = 0;
    let mut i: usize = 0;
    while i < n
        invariant
            i <= n,
            n == s@.len(),
            acc as nat == dec_value_of(s@.take(i as int)),
            forall|j: int| 0 <= j < i ==> is_dec_digit(#[trigger] s@[j]),
        decreases n - i,
    {
        let c = s.get_char(i);
        let u = c as u32;
        if !(48 <= u && u <= 57) {
            proof {
                assert(!is_dec_digit(s@[i as int]));
            }
            return Err(PipelineError::DecodeError);
        }
        let d = (u - 48) as u128;
        let overflowed: bool = match acc.checked_mul(10) {
            Some(a) => {
                match a.checked_add(d) {
                    Some(b) => {
                        acc = b;
                        false
                    },
                    None => true,
                }
            },
            None => true,
        };
        proof {
            assert(s@.take(i + 1).drop_last() =~= s@.take(i as int));
            assert(s@.take(i + 1).last() == s@[i as int]);
        }
        if overflowed {
            proof {
                assert(dec_value_of(s@.take(i + 1)) > u128::MAX as nat);
                if is_dec_body(s@) && dec_value_of(s@) <= u128::MAX {
                    lemma_dec_value_prefix_le(s@, i + 1, n as int);
                    assert(s@.take(n as int) =~= s@);
                }
            }
            return Err(PipelineError::DecodeError);
        }
        i = i + 1;
    }
    proof {
        assert(s@.take(n as int) =~= s@);
    }
    Ok(acc)
}

/// Decodes an `i64` from a decimal string with an optional leading `-`.
pub fn parse_dec_i64(s: &str) -> (r: Result<i64, PipelineError>)
    ensures
        match r {
            Ok(v) => is_sdec_body(s@) && i64::MIN <= sdec_value_of(s@) <= i64::MAX && v as int
                == sdec_value_of(s@),
            Err(e) => !(is_sdec_body(s@) && i64::MIN <= sdec_value_of(s@) <= i64::MAX) && e
                == PipelineError::DecodeError,
        },
{
    let n = s.unicode_len();
    if n > 0 && s.get_char(0) == '-' {
        let rest = s.substring_char(1, n);
        proof {
            assert(rest@ =~= s@.skip(1));
        }
        match parse_dec_u64(rest) {
            Ok(mag) => {
                if mag <= 9223372036854775807u64 {
                    Ok(-(mag as i64))
                } else if mag == 9223372036854775808u64 {
                    Ok(i64::MIN)
                } else {
                    Err(PipelineError::DecodeError)
                }
            },
            Err(_) => Err(PipelineError::DecodeError),
        }
    } else {
        match parse_dec_u64(s) {
            Ok(v) => {
                if v <= 9223372036854775807u64 {
                    Ok(v as i64)
                } else {
                    Err(PipelineError::DecodeError)
                }
            },
            Err(_) => Err(PipelineError::DecodeError),
        }
    }
}

/// Decodes an `i128` from a decimal string with an optional leading `-`.
pub fn parse_dec_i128(s: &str) -> (r: Result<i128, PipelineError>)
    ensures
        match r {
            Ok(v) => is_sdec_body(s@) && i128::MIN <= sdec_value_of(s@) <= i128::MAX && v as int
                == sdec_value_of(s@),
            Err(e) => !(is_sdec_body(s@) && i128::MIN <= sdec_value_of(s@) <= i128::MAX) && e
                == PipelineError::DecodeError,
        },
{
    let n = s.unicode_len();
    if n > 0 && s.get_char(0) == '-' {
        let rest = s.substring_char(1, n);
        proof {
            assert(rest@ =~= s@.skip(1));
        }
        match parse_dec_u128(rest) {
            Ok(mag) => {
                if mag <= 170141183460469231731687303715884105727u128 {
                    Ok(-(mag as i128))
                } else if mag == 170141183460469231731687303715884105728u128 {
                    Ok(i128::MIN)
                } else {
                    Err(PipelineError::DecodeError)
                }
            },
            Err(_) => Err(PipelineError::DecodeError),
        }
    } else {
        match parse_dec_u128(s) {
            Ok(v) => {
                if v <= 170141183460469231731687303715884105727u128 {
                    Ok(v as i128)
                } else {
                    Err(PipelineError::DecodeError)
                }
            },
            Err(_) => Err(PipelineError::DecodeError),
        }
    }
}

// ---------------------------------------------------------------------------
// laws: the decimal round trip
// ---------------------------------------------------------------------------

/// Round trip for natural numbers: the decimal rendering of any `n` is a
/// well-formed decimal body and denotes `n` again.
pub proof fn lemma_dec_round_trip(n: nat)
    ensures
        is_dec_body(dec_str_of(n)),
        dec_value_of(dec_str_of(n)) == n,
    decreases n,
{
    if n < 10 {
        let s = dec_str_of(n);
        assert(s.len() == 1);
        assert(s.last() == hex_char_of_nibble(n as u8));
        assert(s.drop_last() =~= Seq::<char>::empty());
        assert(dec_value_of(Seq::<char>::empty()) == 0);
        assert(dec_value_of(s) == dec_value_of(s.drop_last()) * 10 + dec_digit_value(s.last()));
    } else {
        lemma_dec_round_trip(n / 10);
        let prefix = dec_str_of(n / 10);
        let s = dec_str_of(n);
        assert(s == prefix.push(hex_char_of_nibble((n % 10) as u8)));
        assert(s.drop_last() =~= prefix);
        assert forall|i: int| 0 <= i < s.len() implies is_dec_digit(#[trigger] s[i]) by {
            if i < prefix.len() {
                assert(s[i] == prefix[i]);
            }
        }
        assert(dec_value_of(s) == (n / 10) * 10 + n % 10);
        assert((n / 10) * 10 + n % 10 == n) by (nonlinear_arith);
    }
}

/// Round trip for signed values: the rendering of any `v` is a well-formed
/// signed decimal body and denotes `v` again.
pub proof fn lemma_sdec_round_trip(v: int)
    ensures
        is_sdec_body(sdec_str_of(v)),
        sdec_value_of(sdec_str_of(v)) == v,
{
    if v < 0 {
        lemma_dec_round_trip((-v) as nat);
        let s = sdec_str_of(v);
        assert(s[0] == '-');
        assert(s.skip(1) =~= dec_str_of((-v) as nat));
    } else {
        lemma_dec_round_trip(v as nat);
        let s = sdec_str_of(v);
        if s.len() > 0 && s[0] == '-' {
            assert(is_dec_digit(dec_str_of(v as nat)[0])) by {
                lemma_dec_round_trip(v as nat);
            }
            assert(false);
        }
    }
}

} // verus!

