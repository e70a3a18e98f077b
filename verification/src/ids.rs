//! Identifiers, account addresses, and structured references
//! (`address::module::member`), with their exact wire grammar.
//!
//! A structured reference splits on the *last* occurrence of the `::`
//! separator into a container path and a member name; the container path
//! itself parses as `address::name`. A discriminated "bytecode or function
//! reference" value parses as a function reference exactly when the
//! separator occurs somewhere in it; this is sound because a well-formed hex
//! string never contains `::` and a well-formed reference always does.

use vstd::prelude::*;

use crate::codec::{
    bytes_of_hex, hex_digit_value, hex_encode, hex_str_of, is_dec_digit, is_hex_body, is_hex_digit,
    lemma_hex_round_trip, strip_hex_prefix, hex_decode,
};
use crate::errors::PipelineError;

verus! {

// ---------------------------------------------------------------------------
// identifiers
// ---------------------------------------------------------------------------

/// An ASCII letter.
pub open spec fn is_ident_start(c: char) -> bool {
    (65 <= c as u32 && c as u32 <= 90) || (97 <= c as u32 && c as u32 <= 122)
}

/// A letter, digit, or underscore.
pub open spec fn is_ident_char(c: char) -> bool {
    is_ident_start(c) || is_dec_digit(c) || c == '_'
}

/// A valid member or module name: letters, digits and underscores, starting
/// with a letter, or with an underscore followed by at least one more
/// character.
pub open spec fn is_identifier(s: Seq<char>) -> bool {
    s.len() > 0 && (forall|i: int| 0 <= i < s.len() ==> is_ident_char(#[trigger] s[i])) && (if s[0]
        == '_' {
        s.len() >= 2
    } else {
        is_ident_start(s[0])
    })
}

/// A named entity on chain: a module or function name.
#[derive(Debug, PartialEq, Eq)]
pub struct Identifier {
    name: String,
}

impl View for Identifier {
    type V = Seq<char>;

    closed spec fn view(&self) -> Seq<char> {
        self.name@
    }
}

impl Identifier {
    /// A well-formed identifier.
    pub open spec fn wf(&self) -> bool {
        is_identifier(self@)
    }

    /// Validates and wraps a name. Returns `Ok` exactly when the name
    /// satisfies the identifier grammar.
    pub fn new(name: String) -> (r: Result<Identifier, PipelineError>)
        ensures
            match r {
                Ok(id) => is_identifier(name@) && id@ == name@ && id.wf(),
                Err(e) => !is_identifier(name@) && e == PipelineError::DecodeError,
            },
    {
        let s = name.as_str();
        let n = s.unicode_len();
        if n == 0 {
            return Err(PipelineError::DecodeError);
        }
        let first = s.get_char(0);
        let fu = first as u32;
        let first_is_letter = (65 <= fu && fu <= 90) || (97 <= fu && fu <= 122);
        if first == '_' {
            if n < 2 {
                return Err(PipelineError::DecodeError);
            }
        } else if !first_is_letter {
            return Err(PipelineError::DecodeError);
        }
        let mut i: usize = 0;
        while i < n
            invariant
                i <= n,
                n == s@.len(),
                s@ == name@,
                forall|j: int| 0 <= j < i ==> is_ident_char(#[trigger] s@[j]),
            decreases n - i,
        {
            let c = s.get_char(i);
            let u = c as u32;
            let ok = (65 <= u && u <= 90) || (97 <= u && u <= 122) || (48 <= u && u <= 57) || c
                == '_';
            if !ok {
                proof {
                    assert(!is_ident_char(name@[i as int]));
                }
                return Err(PipelineError::DecodeError);
            }
            i = i + 1;
        }
        Ok(Identifier { name })
    }

    /// The identifier as a string slice.
    pub fn as_str(&self) -> (r: &str)
        ensures
            r@ == self@,
    {
        self.name.as_str()
    }

    /// A copy of the identifier.
    pub fn duplicate(&self) -> (r: Identifier)
        ensures
            r@ == self@,
    {
        Identifier { name: self.name.clone() }
    }
}

// ---------------------------------------------------------------------------
// account addresses
// ---------------------------------------------------------------------------

/// The byte width of an account address.
pub const ADDRESS_LENGTH: usize = 16;

/// Removes every leading `'0'` from a digit string.
pub open spec fn strip_leading_zeros(s: Seq<char>) -> Seq<char>
    decreases s.len(),
{
    if s.len() > 0 && s[0] == '0' {
        strip_leading_zeros(s.skip(1))
    } else {
        s
    }
}

/// The canonical literal of an address: `0x` followed by its lowercase hex
/// digits with leading zeros removed (a single `0` for the zero address).
pub open spec fn addr_literal_of(bytes: Seq<u8>) -> Seq<char> {
    let t = strip_leading_zeros(hex_str_of(bytes));
    if t.len() == 0 {
        seq!['0', 'x', '0']
    } else {
        seq!['0', 'x'] + t
    }
}

/// `'0'` repeated `k` times, then `s`: a digit string left-padded to a fixed
/// width.
pub open spec fn pad_zeros(k: int, s: Seq<char>) -> Seq<char> {
    Seq::new(k as nat, |i: int| '0') + s
}

/// The address bytes a literal denotes: `0x` plus 1 to 32 hex digits
/// (left-padded with zeros), or exactly 32 bare hex digits.
pub open spec fn addr_bytes_of_literal(s: Seq<char>) -> Option<Seq<u8>> {
    if s.len() >= 3 && s[0] == '0' && s[1] == 'x' {
        let body = s.skip(2);
        if body.len() <= 32 && (forall|i: int|
            0 <= i < body.len() ==> is_hex_digit(#[trigger] body[i])) {
            Some(bytes_of_hex(pad_zeros(32 - body.len(), body)))
        } else {
            None
        }
    } else if s.len() == 32 && (forall|i: int| 0 <= i < s.len() ==> is_hex_digit(#[trigger] s[i])) {
        Some(bytes_of_hex(s))
    } else {
        None
    }
}

/// A 16-byte account address.
#[derive(Debug, PartialEq, Eq)]
pub struct AccountAddress {
    bytes: Vec<u8>,
}

impl View for AccountAddress {
    type V = Seq<u8>;

    closed spec fn view(&self) -> Seq<u8> {
        self.bytes@
    }
}

impl AccountAddress {
    /// A well-formed address: exactly 16 bytes.
    pub open spec fn wf(&self) -> bool {
        self@.len() == ADDRESS_LENGTH
    }

    /// Wraps raw bytes. Returns `Ok` exactly when 16 bytes were given.
    pub fn new(bytes: Vec<u8>) -> (r: Result<AccountAddress, PipelineError>)
        ensures
            match r {
                Ok(a) => bytes@.len() == 16 && a@ == bytes@ && a.wf(),
                Err(e) => bytes@.len() != 16 && e == PipelineError::DecodeError,
            },
    {
        if bytes.len() != ADDRESS_LENGTH {
            return Err(PipelineError::DecodeError);
        }
        Ok(AccountAddress { bytes })
    }

    /// The raw address bytes.
    pub fn as_bytes(&self) -> (r: &Vec<u8>)
        ensures
            r@ == self@,
    {
        &self.bytes
    }

    /// A copy of the address.
    pub fn duplicate(&self) -> (r: AccountAddress)
        ensures
            r@ == self@,
    {
        AccountAddress { bytes: self.bytes.clone() }
    }
}

/// If the first `k` characters of `s` are `'0'` and the next one is not,
/// stripping leading zeros drops exactly those `k`.
proof fn lemma_strip_leading_zeros_at(s: Seq<char>, k: int)
    requires
        0 <= k <= s.len(),
        forall|i: int| 0 <= i < k ==> s[i] == '0',
        k < s.len() ==> s[k] != '0',
    ensures
        strip_leading_zeros(s) == s.skip(k),
    decreases k,
{
    if k == 0 {
        if s.len() > 0 && s[0] == '0' {
            assert(false);
        }
        assert(s.skip(0) =~= s);
    } else {
        assert(s[0] == '0');
        lemma_strip_leading_zeros_at(s.skip(1), k - 1);
        assert(s.skip(1).skip(k - 1) =~= s.skip(k));
    }
}

/// Padding the stripped digits back restores the original string.
proof fn lemma_pad_strip(s: Seq<char>, k: int)
    requires
        0 <= k <= s.len(),
        forall|i: int| 0 <= i < k ==> s[i] == '0',
    ensures
        pad_zeros(k, s.skip(k)) == s,
{
    assert(pad_zeros(k, s.skip(k)) =~= s);
}

impl AccountAddress {
    /// Renders the address in its canonical short literal form.
    pub fn to_literal_string(&self) -> (r: String)
        requires
            self.wf(),
        ensures
            r@ == addr_literal_of(self@),
    {
        proof {
            reveal_strlit("0x");
            reveal_strlit("0");
        }
        let full = hex_encode(&self.bytes);
        let fs = full.as_str();
        let n = fs.unicode_len();
        let mut k: usize = 0;
        while k < n && fs.get_char(k) == '0'
            invariant
                k <= n,
                n == fs@.len(),
                fs@ == hex_str_of(self@),
                forall|j: int| 0 <= j < k ==> fs@[j] == '0',
            decreases n - k,
        {
            k = k + 1;
        }
        proof {
            lemma_strip_leading_zeros_at(fs@, k as int);
        }
        let mut out = String::from_str("0x");
        if k == n {
            out.append("0");
            proof {
                assert(fs@.skip(n as int) =~= Seq::<char>::empty());
                assert(out@ =~= addr_literal_of(self@));
            }
        } else {
            out.append(fs.substring_char(k, n));
            proof {
                assert(fs@.subrange(k as int, n as int) =~= fs@.skip(k as int));
                assert(out@ =~= addr_literal_of(self@));
            }
        }
        out
    }

    /// Parses an address literal: `0x` plus up to 32 hex digits, or exactly
    /// 32 bare hex digits. Fails with `DecodeError` on anything else.
    pub fn parse(s: &str) -> (r: Result<AccountAddress, PipelineError>)
        ensures
            match r {
                Ok(a) => addr_bytes_of_literal(s@) == Some(a@) && a.wf(),
                Err(e) => addr_bytes_of_literal(s@) is None && e == PipelineError::DecodeError,
            },
    {
        let n = s.unicode_len();
        let has_prefix = n >= 2 && s.get_char(0) == '0' && s.get_char(1) == 'x';
        if has_prefix {
            if n < 3 || n > 34 {
                return Err(PipelineError::DecodeError);
            }
        } else {
            if n != 32 {
                return Err(PipelineError::DecodeError);
            }
        }
        let start: usize = if has_prefix {
            2
        } else {
            0
        };
        let ghost body: Seq<char> = if has_prefix {
            s@.skip(2)
        } else {
            s@
        };
        let m = n - start;
        let off: usize = 32 - m;
        // nibble values of the padded 32-digit body
        let mut nibbles: Vec<u8> = Vec::new();
        let mut i: usize = 0;
        while i < off
            invariant
                i <= off,
                off <= 32,
                nibbles@.len() == i,
                forall|j: int| 0 <= j < i ==> nibbles@[j] == 0u8,
            decreases off - i,
        {
            nibbles.push(0u8);
            i = i + 1;
        }
        let mut p: usize = 0;
        while p < m
            invariant
                p <= m,
                m == body.len(),
                off + m == 32,
                start + m == n,
                n == s@.len(),
                start == if has_prefix { 2int } else { 0int },
                body == if has_prefix { s@.skip(2) } else { s@ },
                has_prefix ==> 3 <= n <= 34 && s@[0] == '0' && s@[1] == 'x',
                !has_prefix ==> n == 32 && !(n >= 2 && s@[0] == '0' && s@[1] == 'x'),
                nibbles@.len() == off + p,
                forall|j: int| 0 <= j < off ==> nibbles@[j] == 0u8,
                forall|j: int|
                    0 <= j < p ==> is_hex_digit(#[trigger] body[j]) && nibbles@[off + j]
                        == hex_digit_value(body[j]),
            decreases m - p,
        {
            let c = s.get_char(start + p);
            proof {
                assert(c == body[p as int]);
            }
            let u = c as u32;
            let v: u8 = if 48 <= u && u <= 57 {
                (u - 48) as u8
            } else if 97 <= u && u <= 102 {
                (u - 87) as u8
            } else if 65 <= u && u <= 70 {
                (u - 55) as u8
            } else {
                proof {
                    assert(!is_hex_digit(body[p as int]));
                    assert(addr_bytes_of_literal(s@) is None);
                }
                return Err(PipelineError::DecodeError);
            };
            nibbles.push(v);
            p = p + 1;
        }
        // assemble the 16 bytes from nibble pairs
        let ghost padded: Seq<char> = pad_zeros(off as int, body);
        proof {
            assert(padded.len() == 32);
            assert forall|j: int| 0 <= j < 32 implies is_hex_digit(#[trigger] padded[j])
                && nibbles@[j] == hex_digit_value(padded[j]) by {
                if j < off {
                    assert(padded[j] == '0');
                } else {
                    assert(padded[j] == body[j - off]);
                }
            }
        }
        let mut bytes: Vec<u8> = Vec::new();
        let mut q: usize = 0;
        while q < 16
            invariant
                q <= 16,
                nibbles@.len() == 32,
                forall|j: int|
                    0 <= j < 32 ==> is_hex_digit(#[trigger] padded[j]) && nibbles@[j]
                        == hex_digit_value(padded[j]),
                padded.len() == 32,
                bytes@.len() == q,
                forall|j: int|
                    0 <= j < q ==> bytes@[j] == (hex_digit_value(padded[2 * j]) * 16
                        + hex_digit_value(padded[2 * j + 1])) as u8,
            decreases 16 - q,
        {
            let hi = nibbles[2 * q];
            let lo = nibbles[2 * q + 1];
            proof {
                assert(is_hex_digit(padded[2 * q]) && is_hex_digit(padded[2 * q + 1]));
                crate::codec::lemma_hex_digit_value_bound(padded[2 * q]);
                crate::codec::lemma_hex_digit_value_bound(padded[2 * q + 1]);
                assert(hi == hex_digit_value(padded[2 * q as int]));
                assert(hi < 16 && lo < 16);
            }
            bytes.push(hi * 16 + lo);
            q = q + 1;
        }
        proof {
            crate::codec::lemma_bytes_of_hex_index(padded);
            assert(bytes@ =~= bytes_of_hex(padded));
            if has_prefix {
                assert(addr_bytes_of_literal(s@) == Some(bytes_of_hex(padded)));
            } else {
                assert(pad_zeros(0, body) =~= body);
                assert(addr_bytes_of_literal(s@) == Some(bytes_of_hex(padded)));
            }
        }
        Ok(AccountAddress { bytes })
    }
}

/// Round trip for addresses: the canonical literal of any well-formed
/// address parses back to the same bytes.
pub proof fn lemma_addr_round_trip(bytes: Seq<u8>)
    requires
        bytes.len() == 16,
    ensures
        addr_bytes_of_literal(addr_literal_of(bytes)) == Some(bytes),
{
    let h = hex_str_of(bytes);
    lemma_hex_round_trip(bytes);
    assert(h.len() == 32) by {
        lemma_hex_len(bytes);
    }
    let t = strip_leading_zeros(h);
    lemma_strip_is_suffix(h);
    let k = h.len() - t.len();
    let s = addr_literal_of(bytes);
    if t.len() == 0 {
        assert(s =~= seq!['0', 'x', '0']);
        let body = s.skip(2);
        assert(body =~= seq!['0']);
        assert(is_hex_digit('0'));
        let padded = pad_zeros(31, body);
        assert(padded =~= h) by {
            assert forall|i: int| 0 <= i < 32 implies padded[i] == h[i] by {
                if i < 31 {
                    assert(padded[i] == '0');
                    assert(h[i] == '0') by {
                        lemma_all_zero_of_empty_strip(h, i);
                    }
                } else {
                    assert(padded[31] == body[0]);
                    assert(h[31] == '0') by {
                        lemma_all_zero_of_empty_strip(h, 31);
                    }
                }
            }
        }
        assert(addr_bytes_of_literal(s) == Some(bytes_of_hex(h)));
    } else {
        assert(s == seq!['0', 'x'] + t);
        assert(s.len() == 2 + t.len());
        assert(s[0] == '0' && s[1] == 'x');
        let body = s.skip(2);
        assert(body =~= t);
        assert(forall|i: int| 0 <= i < t.len() ==> is_hex_digit(#[trigger] t[i])) by {
            assert(forall|i: int|
                0 <= i < t.len() ==> t[i] == h[k + i] && is_hex_digit(#[trigger] h[k + i]));
        }
        let padded = pad_zeros(k, body);
        assert(padded =~= h) by {
            assert(forall|i: int| 0 <= i < k ==> h[i] == '0');
            assert(forall|i: int| k <= i < 32 ==> padded[i] == t[i - k] && t[i - k] == h[i]);
        }
        assert(addr_bytes_of_literal(s) == Some(bytes_of_hex(h)));
    }
}

/// The hex rendering has two digits per byte.
pub proof fn lemma_hex_len(bytes: Seq<u8>)
    ensures
        hex_str_of(bytes).len() == 2 * bytes.len(),
    decreases bytes.len(),
{
    if bytes.len() > 0 {
        lemma_hex_len(bytes.drop_last());
    }
}

/// Stripping leading zeros leaves a suffix: the dropped prefix is all `'0'`
/// and the rest is returned unchanged.
proof fn lemma_strip_is_suffix(s: Seq<char>)
    ensures
        strip_leading_zeros(s).len() <= s.len(),
        strip_leading_zeros(s) == s.skip(s.len() - strip_leading_zeros(s).len()),
        forall|i: int| 0 <= i < s.len() - strip_leading_zeros(s).len() ==> s[i] == '0',
    decreases s.len(),
{
    if s.len() > 0 && s[0] == '0' {
        lemma_strip_is_suffix(s.skip(1));
        let t = strip_leading_zeros(s);
        let k = s.len() - t.len();
        assert(s.skip(1).skip(s.skip(1).len() - t.len()) =~= s.skip(k));
        assert forall|i: int| 0 <= i < k implies s[i] == '0' by {
            if i > 0 {
                assert(s.skip(1)[i - 1] == '0');
            }
        }
    } else {
        assert(s.skip(0) =~= s);
    }
}

/// When stripping leaves nothing, every character was `'0'`.
proof fn lemma_all_zero_of_empty_strip(s: Seq<char>, i: int)
    requires
        strip_leading_zeros(s).len() == 0,
        0 <= i < s.len(),
    ensures
        s[i] == '0',
{
    lemma_strip_is_suffix(s);
}

/// No character of an address literal is a colon.
proof fn lemma_addr_literal_no_colon(bytes: Seq<u8>)
    requires
        bytes.len() == 16,
    ensures
        forall|i: int|
            0 <= i < addr_literal_of(bytes).len() ==> #[trigger] addr_literal_of(bytes)[i] != ':',
{
    let h = hex_str_of(bytes);
    lemma_hex_round_trip(bytes);
    lemma_strip_is_suffix(h);
    let t = strip_leading_zeros(h);
    let a = addr_literal_of(bytes);
    assert forall|i: int| 0 <= i < a.len() implies #[trigger] a[i] != ':' by {
        if t.len() == 0 {
            assert(a =~= seq!['0', 'x', '0']);
        } else {
            if i >= 2 {
                let k = h.len() - t.len();
                assert(a[i] == t[i - 2]);
                assert(t[i - 2] == h[k + i - 2]);
                assert(is_hex_digit(h[k + i - 2]));
            }
        }
    }
}

/// Every character of an address literal is an `x` or a hex digit.
pub proof fn lemma_addr_literal_chars(bytes: Seq<u8>)
    requires
        bytes.len() == 16,
    ensures
        forall|i: int|
            0 <= i < addr_literal_of(bytes).len() ==> (#[trigger] addr_literal_of(bytes)[i] == 'x'
                || is_hex_digit(addr_literal_of(bytes)[i])),
{
    let h = hex_str_of(bytes);
    lemma_hex_round_trip(bytes);
    lemma_strip_is_suffix(h);
    let t = strip_leading_zeros(h);
    let a = addr_literal_of(bytes);
    assert forall|i: int| 0 <= i < a.len() implies (#[trigger] a[i] == 'x' || is_hex_digit(
        a[i],
    )) by {
        if t.len() == 0 {
            assert(a =~= seq!['0', 'x', '0']);
            assert(is_hex_digit('0'));
        } else {
            if i >= 2 {
                let k = h.len() - t.len();
                assert(a[i] == t[i - 2]);
                assert(t[i - 2] == h[k + i - 2]);
                assert(is_hex_digit(h[k + i - 2]));
            } else if i == 0 {
                assert(a[0] == '0');
                assert(is_hex_digit('0'));
            }
        }
    }
}

// ---------------------------------------------------------------------------
// the `::` separator
// ---------------------------------------------------------------------------

/// The two-character separator `::` occurs at position `i`.
pub open spec fn has_sep_at(s: Seq<char>, i: int) -> bool {
    0 <= i && i + 2 <= s.len() && s[i] == ':' && s[i + 1] == ':'
}

/// Index of the last `::` occurrence, or `-1` if there is none.
pub open spec fn last_sep_idx(s: Seq<char>) -> int
    decreases s.len(),
{
    if s.len() < 2 {
        -1
    } else if s[s.len() - 2] == ':' && s[s.len() - 1] == ':' {
        s.len() - 2
    } else {
        last_sep_idx(s.drop_last())
    }
}

/// Index of the first `::` occurrence, or `-1` if there is none.
pub open spec fn first_sep_idx(s: Seq<char>) -> int
    decreases s.len(),
{
    if s.len() < 2 {
        -1
    } else if s[0] == ':' && s[1] == ':' {
        0
    } else {
        let r = first_sep_idx(s.skip(1));
        if r < 0 {
            -1
        } else {
            1 + r
        }
    }
}

/// With a separator at `j` and none to its right, `j` is the last.
proof fn lemma_last_sep_at(s: Seq<char>, j: int)
    requires
        has_sep_at(s, j),
        forall|j2: int| j < j2 ==> !has_sep_at(s, j2),
    ensures
        last_sep_idx(s) == j,
    decreases s.len(),
{
    if j == s.len() - 2 {
    } else {
        assert(!has_sep_at(s, s.len() - 2));
        let p = s.drop_last();
        assert(has_sep_at(p, j));
        assert forall|j2: int| j < j2 implies !has_sep_at(p, j2) by {
            if has_sep_at(p, j2) {
                assert(p[j2] == s[j2] && p[j2 + 1] == s[j2 + 1]);
                assert(has_sep_at(s, j2));
            }
        }
        lemma_last_sep_at(p, j);
    }
}

/// With no separator anywhere, there is no last one.
proof fn lemma_last_sep_none(s: Seq<char>)
    requires
        forall|j: int| !has_sep_at(s, j),
    ensures
        last_sep_idx(s) == -1,
    decreases s.len(),
{
    if s.len() >= 2 {
        assert(!has_sep_at(s, s.len() - 2));
        let p = s.drop_last();
        assert forall|j: int| !has_sep_at(p, j) by {
            if has_sep_at(p, j) {
                assert(p[j] == s[j] && p[j + 1] == s[j + 1]);
                assert(has_sep_at(s, j));
            }
        }
        lemma_last_sep_none(p);
    }
}

/// With a separator at `j` and none to its left, `j` is the first.
proof fn lemma_first_sep_at(s: Seq<char>, j: int)
    requires
        has_sep_at(s, j),
        forall|j2: int| 0 <= j2 < j ==> !has_sep_at(s, j2),
    ensures
        first_sep_idx(s) == j,
    decreases s.len(),
{
    if j == 0 {
    } else {
        assert(!has_sep_at(s, 0));
        let p = s.skip(1);
        assert(has_sep_at(p, j - 1)) by {
            assert(p[j - 1] == s[j] && p[j] == s[j + 1]);
        }
        assert forall|j2: int| 0 <= j2 < j - 1 implies !has_sep_at(p, j2) by {
            if has_sep_at(p, j2) {
                assert(p[j2] == s[j2 + 1] && p[j2 + 1] == s[j2 + 2]);
                assert(has_sep_at(s, j2 + 1));
            }
        }
        lemma_first_sep_at(p, j - 1);
    }
}

/// With no separator anywhere, there is no first one.
proof fn lemma_first_sep_none(s: Seq<char>)
    requires
        forall|j: int| !has_sep_at(s, j),
    ensures
        first_sep_idx(s) == -1,
    decreases s.len(),
{
    if s.len() >= 2 {
        assert(!has_sep_at(s, 0));
        let p = s.skip(1);
        assert forall|j: int| !has_sep_at(p, j) by {
            if has_sep_at(p, j) {
                assert(p[j] == s[j + 1] && p[j + 1] == s[j + 2]);
                assert(has_sep_at(s, j + 1));
            }
        }
        lemma_first_sep_none(p);
    }
}

/// A non-negative last-separator index is a real occurrence.
pub proof fn lemma_last_sep_is_occurrence(s: Seq<char>)
    ensures
        last_sep_idx(s) >= 0 ==> has_sep_at(s, last_sep_idx(s)),
    decreases s.len(),
{
    if s.len() >= 2 && !(s[s.len() - 2] == ':' && s[s.len() - 1] == ':') {
        lemma_last_sep_is_occurrence(s.drop_last());
        let p = s.drop_last();
        if last_sep_idx(s) >= 0 {
            let j = last_sep_idx(p);
            assert(p[j] == s[j] && p[j + 1] == s[j + 1]);
        }
    }
}

/// Finds the last `::` in a string.
fn find_last_sep(s: &str) -> (r: Option<usize>)
    ensures
        match r {
            Some(i) => last_sep_idx(s@) == i && has_sep_at(s@, i as int),
            None => last_sep_idx(s@) == -1,
        },
{
    let n = s.unicode_len();
    if n < 2 {
        return None;
    }
    let mut j: usize = n - 2;
    loop
        invariant
            n == s@.len(),
            n >= 2,
            j <= n - 2,
            forall|j2: int| j < j2 ==> !has_sep_at(s@, j2),
        decreases j,
    {
        if s.get_char(j) == ':' && s.get_char(j + 1) == ':' {
            proof {
                lemma_last_sep_at(s@, j as int);
            }
            return Some(j);
        }
        if j == 0 {
            proof {
                lemma_last_sep_none(s@);
            }
            return None;
        }
        j = j - 1;
    }
}

/// Finds the first `::` in a string.
fn find_first_sep(s: &str) -> (r: Option<usize>)
    ensures
        match r {
            Some(i) => first_sep_idx(s@) == i && has_sep_at(s@, i as int),
            None => first_sep_idx(s@) == -1,
        },
{
    let n = s.unicode_len();
    let mut i: usize = 0;
    while n >= 2 && i <= n - 2
        invariant
            n == s@.len(),
            i <= n,
            forall|j: int| 0 <= j < i ==> !has_sep_at(s@, j),
        decreases n - i,
    {
        if s.get_char(i) == ':' && s.get_char(i + 1) == ':' {
            proof {
                lemma_first_sep_at(s@, i as int);
            }
            return Some(i);
        }
        i = i + 1;
    }
    proof {
        lemma_first_sep_none(s@);
    }
    None
}

// ---------------------------------------------------------------------------
// module and function references
// ---------------------------------------------------------------------------

/// A reference to a published module: `address::name`.
#[derive(Debug, PartialEq, Eq)]
pub struct ModuleId {
    pub address: AccountAddress,
    pub name: Identifier,
}

/// The canonical rendering of a module reference.
pub open spec fn module_id_str(address: Seq<u8>, name: Seq<char>) -> Seq<char> {
    addr_literal_of(address) + seq![':', ':'] + name
}

/// What `address::name` a string denotes, splitting on the first `::`.
pub open spec fn parse_module_id_spec(s: Seq<char>) -> Option<(Seq<u8>, Seq<char>)> {
    let i = first_sep_idx(s);
    if i >= 0 {
        let addr = addr_bytes_of_literal(s.take(i));
        let name = s.skip(i + 2);
        if addr is Some && is_identifier(name) {
            Some((addr->Some_0, name))
        } else {
            None
        }
    } else {
        None
    }
}

impl ModuleId {
    /// A well-formed module reference.
    pub open spec fn wf(&self) -> bool {
        self.address.wf() && self.name.wf()
    }

    /// Pairs an address with a module name.
    pub fn new(address: AccountAddress, name: Identifier) -> (r: ModuleId)
        ensures
            r.address == address,
            r.name == name,
    {
        ModuleId { address, name }
    }

    /// The containing account.
    pub fn address(&self) -> (r: &AccountAddress)
        ensures
            r == &self.address,
    {
        &self.address
    }

    /// The module name.
    pub fn name(&self) -> (r: &Identifier)
        ensures
            r == &self.name,
    {
        &self.name
    }

    /// A copy of the reference.
    pub fn duplicate(&self) -> (r: ModuleId)
        ensures
            r.address@ == self.address@,
            r.name@ == self.name@,
    {
        ModuleId { address: self.address.duplicate(), name: self.name.duplicate() }
    }

    /// Renders the reference as `address::name`.
    pub fn to_literal_string(&self) -> (r: String)
        requires
            self.wf(),
        ensures
            r@ == module_id_str(self.address@, self.name@),
    {
        proof {
            reveal_strlit("::");
        }
        let mut out = self.address.to_literal_string();
        out.append("::");
        out.append(self.name.as_str());
        proof {
            assert(out@ =~= module_id_str(self.address@, self.name@));
        }
        out
    }

    /// Parses `address::name`. Fails with `DecodeError` when the separator
    /// is missing or either segment is malformed.
    pub fn parse(s: &str) -> (r: Result<ModuleId, PipelineError>)
        ensures
            match r {
                Ok(m) => parse_module_id_spec(s@) == Some((m.address@, m.name@)) && m.wf(),
                Err(e) => parse_module_id_spec(s@) is None && e == PipelineError::DecodeError,
            },
    {
        let n = s.unicode_len();
        let i = match find_first_sep(s) {
            Some(i) => i,
            None => {
                return Err(PipelineError::DecodeError);
            },
        };
        let addr_str = s.substring_char(0, i);
        let name_str = s.substring_char(i + 2, n);
        proof {
            assert(addr_str@ =~= s@.take(i as int));
            assert(name_str@ =~= s@.skip(i + 2));
        }
        let address = match AccountAddress::parse(addr_str) {
            Ok(a) => a,
            Err(_) => {
                return Err(PipelineError::DecodeError);
            },
        };
        let name = match Identifier::new(String::from_str(name_str)) {
            Ok(id) => id,
            Err(_) => {
                return Err(PipelineError::DecodeError);
            },
        };
        Ok(ModuleId { address, name })
    }
}

/// A reference to a published function: `address::module::function`.
#[derive(Debug, PartialEq, Eq)]
pub struct FunctionId {
    pub module: ModuleId,
    pub function: Identifier,
}

/// The canonical rendering of a function reference.
pub open spec fn function_id_str(address: Seq<u8>, mname: Seq<char>, fname: Seq<char>) -> Seq<
    char,
> {
    module_id_str(address, mname) + seq![':', ':'] + fname
}

/// What function reference a string denotes: split on the *last* `::` into
/// a container path and a member name; the container path itself parses as
/// `address::name`.
pub open spec fn parse_function_id_spec(s: Seq<char>) -> Option<((Seq<u8>, Seq<char>), Seq<char>)> {
    let i = last_sep_idx(s);
    if i >= 0 {
        let m = parse_module_id_spec(s.take(i));
        let fname = s.skip(i + 2);
        if m is Some && is_identifier(fname) {
            Some((m->Some_0, fname))
        } else {
            None
        }
    } else {
        None
    }
}

impl FunctionId {
    /// A well-formed function reference.
    pub open spec fn wf(&self) -> bool {
        self.module.wf() && self.function.wf()
    }

    /// Pairs a module reference with a function name.
    pub fn new(module: ModuleId, function: Identifier) -> (r: FunctionId)
        ensures
            r.module == module,
            r.function == function,
    {
        FunctionId { module, function }
    }

    /// A copy of the reference.
    pub fn duplicate(&self) -> (r: FunctionId)
        ensures
            r.module.address@ == self.module.address@,
            r.module.name@ == self.module.name@,
            r.function@ == self.function@,
    {
        FunctionId { module: self.module.duplicate(), function: self.function.duplicate() }
    }

    /// Renders the reference as `address::module::function`.
    pub fn to_literal_string(&self) -> (r: String)
        requires
            self.wf(),
        ensures
            r@ == function_id_str(self.module.address@, self.module.name@, self.function@),
    {
        proof {
            reveal_strlit("::");
        }
        let mut out = self.module.to_literal_string();
        out.append("::");
        out.append(self.function.as_str());
        proof {
            assert(out@ =~= function_id_str(self.module.address@, self.module.name@,
            self.function@));
        }
        out
    }

    /// Parses `address::module::function`, splitting on the last `::`.
    /// Fails with `DecodeError` when the separator is missing or any
    /// segment is malformed.
    pub fn parse(s: &str) -> (r: Result<FunctionId, PipelineError>)
        ensures
            match r {
                Ok(f) => parse_function_id_spec(s@) == Some(
                    ((f.module.address@, f.module.name@), f.function@),
                ) && f.wf(),
                Err(e) => parse_function_id_spec(s@) is None && e == PipelineError::DecodeError,
            },
    {
        let n = s.unicode_len();
        let i = match find_last_sep(s) {
            Some(i) => i,
            None => {
                return Err(PipelineError::DecodeError);
            },
        };
        let module_str = s.substring_char(0, i);
        let fname_str = s.substring_char(i + 2, n);
        proof {
            assert(module_str@ =~= s@.take(i as int));
            assert(fname_str@ =~= s@.skip(i + 2));
        }
        let module = match ModuleId::parse(module_str) {
            Ok(m) => m,
            Err(_) => {
                return Err(PipelineError::DecodeError);
            },
        };
        let function = match Identifier::new(String::from_str(fname_str)) {
            Ok(id) => id,
            Err(_) => {
                return Err(PipelineError::DecodeError);
            },
        };
        Ok(FunctionId { module, function })
    }
}

// ---------------------------------------------------------------------------
// bytecode or function reference
// ---------------------------------------------------------------------------

/// Either raw bytecode or a reference to an already-published function.
/// On the wire, `0x<hex>` is bytecode and `<address>::<module>::<function>`
/// is a reference; the discriminator is the presence of `::`.
#[derive(Debug, PartialEq, Eq)]
pub enum ByteCodeOrScriptFunction {
    ByteCode(Vec<u8>),
    ScriptFunction(FunctionId),
}

impl ByteCodeOrScriptFunction {
    /// A well-formed value.
    pub open spec fn wf(&self) -> bool {
        match self {
            ByteCodeOrScriptFunction::ByteCode(_) => true,
            ByteCodeOrScriptFunction::ScriptFunction(f) => f.wf(),
        }
    }

    /// The canonical rendering: `0x<hex>` for bytecode, the full reference
    /// for a function.
    pub open spec fn literal_of(&self) -> Seq<char> {
        match self {
            ByteCodeOrScriptFunction::ByteCode(c) => seq!['0', 'x'] + hex_str_of(c@),
            ByteCodeOrScriptFunction::ScriptFunction(f) => function_id_str(
                f.module.address@,
                f.module.name@,
                f.function@,
            ),
        }
    }

    /// Renders the value in its canonical wire form.
    pub fn to_literal_string(&self) -> (r: String)
        requires
            self.wf(),
        ensures
            r@ == self.literal_of(),
    {
        match self {
            ByteCodeOrScriptFunction::ByteCode(c) => crate::codec::hex_encode_prefixed(c),
            ByteCodeOrScriptFunction::ScriptFunction(f) => f.to_literal_string(),
        }
    }

    /// Decodes a wire string: a function reference when it contains `::`,
    /// raw hex bytecode otherwise. No input can decode as both, because a
    /// hex body never contains a colon.
    pub fn parse(s: &str) -> (r: Result<ByteCodeOrScriptFunction, PipelineError>)
        ensures
            match r {
                Ok(v) => v.wf() && match v {
                    ByteCodeOrScriptFunction::ByteCode(c) => last_sep_idx(s@) == -1 && is_hex_body(
                        strip_hex_prefix(s@),
                    ) && c@ == bytes_of_hex(strip_hex_prefix(s@)),
                    ByteCodeOrScriptFunction::ScriptFunction(f) => last_sep_idx(s@) >= 0
                        && parse_function_id_spec(s@) == Some(
                        ((f.module.address@, f.module.name@), f.function@),
                    ),
                },
                Err(e) => e == PipelineError::DecodeError && (if last_sep_idx(s@) >= 0 {
                    parse_function_id_spec(s@) is None
                } else {
                    !is_hex_body(strip_hex_prefix(s@))
                }),
            },
    {
        match find_last_sep(s) {
            Some(_) => {
                match FunctionId::parse(s) {
                    Ok(f) => Ok(ByteCodeOrScriptFunction::ScriptFunction(f)),
                    Err(_) => Err(PipelineError::DecodeError),
                }
            },
            None => {
                match hex_decode(s) {
                    Ok(bytes) => Ok(ByteCodeOrScriptFunction::ByteCode(bytes)),
                    Err(_) => Err(PipelineError::DecodeError),
                }
            },
        }
    }
}

// ---------------------------------------------------------------------------
// laws: reference round trips and discriminator soundness
// ---------------------------------------------------------------------------

/// Round trip for module references: the rendering of any well-formed
/// `address::name` parses back to the same pair.
pub proof fn lemma_module_id_round_trip(address: Seq<u8>, name: Seq<char>)
    requires
        address.len() == 16,
        is_identifier(name),
    ensures
        parse_module_id_spec(module_id_str(address, name)) == Some((address, name)),
{
    let a = addr_literal_of(address);
    let s = module_id_str(address, name);
    lemma_addr_literal_no_colon(address);
    assert(a.len() >= 3);
    assert(has_sep_at(s, a.len() as int)) by {
        assert(s[a.len() as int] == ':');
        assert(s[a.len() as int + 1] == ':');
    }
    assert forall|j: int| 0 <= j < a.len() implies !has_sep_at(s, j) by {
        assert(s[j] == a[j]);
        assert(a[j] != ':');
    }
    lemma_first_sep_at(s, a.len() as int);
    assert(s.take(a.len() as int) =~= a);
    lemma_addr_round_trip(address);
    assert(s.skip(a.len() as int + 2) =~= name);
}

/// Round trip for function references: the rendering of any well-formed
/// `address::module::function` parses back to the same triple, because the
/// last `::` of the rendering is exactly the one before the function name.
pub proof fn lemma_function_id_round_trip(address: Seq<u8>, mname: Seq<char>, fname: Seq<char>)
    requires
        address.len() == 16,
        is_identifier(mname),
        is_identifier(fname),
    ensures
        parse_function_id_spec(function_id_str(address, mname, fname)) == Some(
            ((address, mname), fname),
        ),
{
    let m = module_id_str(address, mname);
    let s = function_id_str(address, mname, fname);
    let i = m.len() as int;
    assert(has_sep_at(s, i)) by {
        assert(s[i] == ':');
        assert(s[i + 1] == ':');
    }
    assert forall|j2: int| i < j2 implies !has_sep_at(s, j2) by {
        if has_sep_at(s, j2) {
            if j2 == i + 1 {
                assert(s[j2 + 1] == fname[0]);
                assert(is_ident_char(fname[0]));
            } else {
                assert(s[j2] == fname[j2 - i - 2]);
                assert(is_ident_char(fname[j2 - i - 2]));
            }
        }
    }
    lemma_last_sep_at(s, i);
    assert(s.take(i) =~= m);
    lemma_module_id_round_trip(address, mname);
    assert(s.skip(i + 2) =~= fname);
}

/// Round trip for the discriminated value: rendering then decoding yields
/// the original, for both bytecode and function references.
pub proof fn lemma_bytecode_or_function_round_trip(v: &ByteCodeOrScriptFunction)
    requires
        v.wf(),
    ensures
        match v {
            ByteCodeOrScriptFunction::ByteCode(c) => last_sep_idx(v.literal_of()) == -1
                && is_hex_body(strip_hex_prefix(v.literal_of())) && bytes_of_hex(
                strip_hex_prefix(v.literal_of()),
            ) == c@,
            ByteCodeOrScriptFunction::ScriptFunction(f) => last_sep_idx(v.literal_of()) >= 0
                && parse_function_id_spec(v.literal_of()) == Some(
                ((f.module.address@, f.module.name@), f.function@),
            ),
        },
{
    match v {
        ByteCodeOrScriptFunction::ByteCode(c) => {
            let s = v.literal_of();
            lemma_hex_round_trip(c@);
            assert forall|j: int| !has_sep_at(s, j) by {
                if has_sep_at(s, j) {
                    if j == 0 {
                        assert(s[0] == '0');
                    } else if j == 1 {
                        assert(s[1] == 'x');
                    } else {
                        assert(s[j] == hex_str_of(c@)[j - 2]);
                        assert(is_hex_digit(hex_str_of(c@)[j - 2]));
                        crate::codec::lemma_hex_digit_not_colon(hex_str_of(c@)[j - 2]);
                    }
                }
            }
            lemma_last_sep_none(s);
            assert(strip_hex_prefix(s) =~= hex_str_of(c@));
        },
        ByteCodeOrScriptFunction::ScriptFunction(f) => {
            lemma_function_id_round_trip(f.module.address@, f.module.name@, f.function@);
            let s = v.literal_of();
            let m = module_id_str(f.module.address@, f.module.name@);
            assert(has_sep_at(s, m.len() as int)) by {
                assert(s[m.len() as int] == ':');
                assert(s[m.len() as int + 1] == ':');
            }
            lemma_last_sep_is_occurrence(s);
            lemma_has_sep_implies_last(s, m.len() as int);
        },
    }
}

/// A real occurrence forces a non-negative last-separator index.
proof fn lemma_has_sep_implies_last(s: Seq<char>, j: int)
    requires
        has_sep_at(s, j),
    ensures
        last_sep_idx(s) >= 0,
    decreases s.len(),
{
    if s[s.len() - 2] == ':' && s[s.len() - 1] == ':' {
    } else {
        let p = s.drop_last();
        assert(j != s.len() - 2);
        assert(has_sep_at(p, j)) by {
            assert(p[j] == s[j] && p[j + 1] == s[j + 1]);
        }
        lemma_has_sep_implies_last(p, j);
    }
}

/// Discriminator soundness: no string is both a viable hex body and a
/// carrier of the `::` separator, so no input decodes to both bytecode and
/// a function reference.
pub proof fn lemma_discriminator_soundness(s: Seq<char>)
    ensures
        !(last_sep_idx(s) >= 0 && is_hex_body(strip_hex_prefix(s))),
{
    if last_sep_idx(s) >= 0 && is_hex_body(strip_hex_prefix(s)) {
        lemma_last_sep_is_occurrence(s);
        let i = last_sep_idx(s);
        assert(s[i] == ':');
        if s.len() >= 2 && s[0] == '0' && s[1] == 'x' {
            assert(i != 0 && i != 1);
            assert(strip_hex_prefix(s)[i - 2] == s[i]);
            assert(is_hex_digit(s[i]));
        } else {
            assert(strip_hex_prefix(s)[i] == s[i]);
            assert(is_hex_digit(s[i]));
        }
    }
}

} // verus!

verus! {

impl core::str::FromStr for AccountAddress {
    type Err = PipelineError;

    fn from_str(s: &str) -> Result<AccountAddress, PipelineError> {
        AccountAddress::parse(s)
    }
}

impl core::str::FromStr for ByteCodeOrScriptFunction {
    type Err = PipelineError;

    fn from_str(s: &str) -> Result<ByteCodeOrScriptFunction, PipelineError> {
        ByteCodeOrScriptFunction::parse(s)
    }
}

impl core::str::FromStr for FunctionId {
    type Err = PipelineError;

    fn from_str(s: &str) -> Result<FunctionId, PipelineError> {
        FunctionId::parse(s)
    }
}

} // verus!
