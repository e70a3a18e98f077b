//! Call arguments and their two wire shapes.
//!
//! On decode from the wire an argument is always interpreted as a typed
//! human-readable literal, because a hex string is syntactically
//! indistinguishable from a raw serialized-bytes blob. On encode to the
//! wire it is always normalized to its canonical serialized-bytes form.
//! The same logical argument therefore has two different wire shapes
//! depending on direction; this asymmetry is a protocol property and is
//! preserved exactly.

use vstd::prelude::*;

use crate::codec::{
    dec_str_of, dec_value_of, hex_str_of, is_dec_body, is_dec_digit, is_hex_body, bytes_of_hex,
    parse_dec_u128, parse_dec_u64, u128_to_dec_string, u64_to_dec_string, hex_encode,
    hex_encode_prefixed, hex_decode_bare, lemma_dec_round_trip, lemma_hex_round_trip,
};
use crate::errors::PipelineError;
use crate::ids::{addr_bytes_of_literal, addr_literal_of, lemma_addr_round_trip, AccountAddress};

verus! {

/// A logical call argument.
#[derive(Debug, PartialEq, Eq)]
pub enum TransactionArgument {
    U8(u8),
    U64(u64),
    U128(u128),
    Address(AccountAddress),
    U8Vector(Vec<u8>),
    Bool(bool),
}

/// The mathematical model of an argument.
pub ghost enum ArgModel {
    U8(u8),
    U64(u64),
    U128(u128),
    Address(Seq<u8>),
    Bytes(Seq<u8>),
    Bool(bool),
}

impl View for TransactionArgument {
    type V = ArgModel;

    open spec fn view(&self) -> ArgModel {
        match self {
            TransactionArgument::U8(n) => ArgModel::U8(*n),
            TransactionArgument::U64(n) => ArgModel::U64(*n),
            TransactionArgument::U128(n) => ArgModel::U128(*n),
            TransactionArgument::Address(a) => ArgModel::Address(a@),
            TransactionArgument::U8Vector(v) => ArgModel::Bytes(v@),
            TransactionArgument::Bool(b) => ArgModel::Bool(*b),
        }
    }
}

impl TransactionArgument {
    /// A well-formed argument: an address carries exactly 16 bytes.
    pub open spec fn wf(&self) -> bool {
        match self {
            TransactionArgument::Address(a) => a.wf(),
            _ => true,
        }
    }
}

// ---------------------------------------------------------------------------
// canonical serialized-bytes form
// ---------------------------------------------------------------------------

/// Little-endian bytes of a number, at a fixed width.
pub open spec fn le_bytes_of(n: nat, width: nat) -> Seq<u8>
    decreases width,
{
    if width == 0 {
        Seq::empty()
    } else {
        seq![(n % 256) as u8] + le_bytes_of(n / 256, (width - 1) as nat)
    }
}

/// The unsigned LEB128 rendering of a number: seven value bits per byte,
/// the high bit marking continuation.
pub open spec fn uleb128_of(n: nat) -> Seq<u8>
    decreases n,
{
    if n < 128 {
        seq![n as u8]
    } else {
        seq![(n % 128 + 128) as u8] + uleb128_of(n / 128)
    }
}

/// The canonical serialized bytes of an argument: integers little-endian at
/// their own width, a bool as one byte, an address as its 16 raw bytes, a
/// byte vector as a LEB128 length followed by the bytes.
pub open spec fn arg_bcs_of(a: ArgModel) -> Seq<u8> {
    match a {
        ArgModel::U8(n) => seq![n],
        ArgModel::U64(n) => le_bytes_of(n as nat, 8),
        ArgModel::U128(n) => le_bytes_of(n as nat, 16),
        ArgModel::Address(bytes) => bytes,
        ArgModel::Bytes(v) => uleb128_of(v.len()) + v,
        ArgModel::Bool(b) => seq![if b { 1u8 } else { 0u8 }],
    }
}

/// Appends the little-endian bytes of a `u64`.
fn push_le_u64(out: &mut Vec<u8>, n: u64)
    ensures
        final(out)@ == old(out)@ + le_bytes_of(n as nat, 8),
{
    let mut cur: u64 = n;
    let mut i: usize = 0;
    while i < 8
        invariant
            i <= 8,
            le_bytes_of(n as nat, 8) == out@.skip(old(out)@.len() as int) + le_bytes_of(
                cur as nat,
                (8 - i) as nat,
            ),
            out@.len() == old(out)@.len() + i,
            out@.take(old(out)@.len() as int) == old(out)@,
        decreases 8 - i,
    {
        out.push((cur % 256) as u8);
        cur = cur / 256;
        proof {
            assert(out@.skip(old(out)@.len() as int) =~= out@.drop_last().skip(
                old(out)@.len() as int,
            ).push((out@.last())));
            assert(out@.drop_last().skip(old(out)@.len() as int).push(out@.last()) + le_bytes_of(
                cur as nat,
                (8 - (i + 1)) as nat,
            ) =~= out@.drop_last().skip(old(out)@.len() as int) + (seq![out@.last()] + le_bytes_of(
                cur as nat,
                (8 - (i + 1)) as nat,
            )));
            assert(out@.take(old(out)@.len() as int) =~= old(out)@);
        }
        i = i + 1;
    }
    proof {
        assert(le_bytes_of(cur as nat, 0) =~= Seq::<u8>::empty());
        assert(out@.skip(old(out)@.len() as int) + Seq::<u8>::empty() =~= out@.skip(
            old(out)@.len() as int,
        ));
        assert(out@ =~= old(out)@ + out@.skip(old(out)@.len() as int));
    }
}

/// Appends the little-endian bytes of a `u128`.
fn push_le_u128(out: &mut Vec<u8>, n: u128)
    ensures
        final(out)@ == old(out)@ + le_bytes_of(n as nat, 16),
{
    let mut cur: u128 = n;
    let mut i: usize = 0;
    while i < 16
        invariant
            i <= 16,
            le_bytes_of(n as nat, 16) == out@.skip(old(out)@.len() as int) + le_bytes_of(
                cur as nat,
                (16 - i) as nat,
            ),
            out@.len() == old(out)@.len() + i,
            out@.take(old(out)@.len() as int) == old(out)@,
        decreases 16 - i,
    {
        out.push((cur % 256) as u8);
        cur = cur / 256;
        proof {
            assert(out@.skip(old(out)@.len() as int) =~= out@.drop_last().skip(
                old(out)@.len() as int,
            ).push((out@.last())));
            assert(out@.drop_last().skip(old(out)@.len() as int).push(out@.last()) + le_bytes_of(
                cur as nat,
                (16 - (i + 1)) as nat,
            ) =~= out@.drop_last().skip(old(out)@.len() as int) + (seq![out@.last()] + le_bytes_of(
                cur as nat,
                (16 - (i + 1)) as nat,
            )));
            assert(out@.take(old(out)@.len() as int) =~= old(out)@);
        }
        i = i + 1;
    }
    proof {
        assert(le_bytes_of(cur as nat, 0) =~= Seq::<u8>::empty());
        assert(out@.skip(old(out)@.len() as int) + Seq::<u8>::empty() =~= out@.skip(
            old(out)@.len() as int,
        ));
        assert(out@ =~= old(out)@ + out@.skip(old(out)@.len() as int));
    }
}

/// Appends the LEB128 rendering of a length.
pub fn push_uleb128(out: &mut Vec<u8>, n: usize)
    ensures
        final(out)@ == old(out)@ + uleb128_of(n as nat),
    decreases n,
{
    let mut cur: usize = n;
    loop
        invariant
            uleb128_of(n as nat) == out@.skip(old(out)@.len() as int) + uleb128_of(cur as nat),
            out@.len() >= old(out)@.len(),
            out@.take(old(out)@.len() as int) == old(out)@,
        decreases cur,
    {
        if cur < 128 {
            out.push(cur as u8);
            proof {
                assert(out@.skip(old(out)@.len() as int) =~= out@.drop_last().skip(
                    old(out)@.len() as int,
                ).push(out@.last()));
                assert(out@.drop_last().skip(old(out)@.len() as int).push(out@.last())
                    =~= out@.drop_last().skip(old(out)@.len() as int) + uleb128_of(cur as nat));
                assert(out@ =~= old(out)@ + out@.skip(old(out)@.len() as int));
            }
            return ;
        }
        out.push((cur % 128 + 128) as u8);
        proof {
            assert(out@.skip(old(out)@.len() as int) =~= out@.drop_last().skip(
                old(out)@.len() as int,
            ).push(out@.last()));
            assert(out@.drop_last().skip(old(out)@.len() as int).push(out@.last()) + uleb128_of(
                (cur as nat) / 128,
            ) =~= out@.drop_last().skip(old(out)@.len() as int) + (seq![out@.last()] + uleb128_of(
                (cur as nat) / 128,
            )));
            assert(out@.take(old(out)@.len() as int) =~= old(out)@);
        }
        cur = cur / 128;
    }
}

impl TransactionArgument {
    /// Encodes the argument in its canonical serialized-bytes form.
    pub fn to_bcs_bytes(&self) -> (r: Vec<u8>)
        ensures
            r@ == arg_bcs_of(self@),
    {
        match self {
            TransactionArgument::U8(n) => {
                let mut out: Vec<u8> = Vec::new();
                out.push(*n);
                proof {
                    assert(out@ =~= arg_bcs_of(self@));
                }
                out
            },
            TransactionArgument::U64(n) => {
                let mut out: Vec<u8> = Vec::new();
                push_le_u64(&mut out, *n);
                proof {
                    assert(Seq::<u8>::empty() + le_bytes_of(*n as nat, 8) =~= le_bytes_of(
                        *n as nat,
                        8,
                    ));
                }
                out
            },
            TransactionArgument::U128(n) => {
                let mut out: Vec<u8> = Vec::new();
                push_le_u128(&mut out, *n);
                proof {
                    assert(Seq::<u8>::empty() + le_bytes_of(*n as nat, 16) =~= le_bytes_of(
                        *n as nat,
                        16,
                    ));
                }
                out
            },
            TransactionArgument::Address(a) => {
                let bytes = a.as_bytes();
                let mut out: Vec<u8> = Vec::new();
                let mut i: usize = 0;
                while i < bytes.len()
                    invariant
                        i <= bytes@.len(),
                        out@ == bytes@.take(i as int),
                        bytes@ == a@,
                    decreases bytes@.len() - i,
                {
                    out.push(bytes[i]);
                    proof {
                        assert(out@ =~= bytes@.take(i + 1));
                    }
                    i = i + 1;
                }
                proof {
                    assert(bytes@.take(bytes@.len() as int) =~= bytes@);
                }
                out
            },
            TransactionArgument::U8Vector(v) => {
                let mut out: Vec<u8> = Vec::new();
                push_uleb128(&mut out, v.len());
                let mut i: usize = 0;
                while i < v.len()
                    invariant
                        i <= v@.len(),
                        out@ == uleb128_of(v@.len()) + v@.take(i as int),
                    decreases v@.len() - i,
                {
                    out.push(v[i]);
                    proof {
                        assert(out@ =~= uleb128_of(v@.len()) + v@.take(i + 1));
                    }
                    i = i + 1;
                }
                proof {
                    assert(v@.take(v@.len() as int) =~= v@);
                    assert(Seq::<u8>::empty() + uleb128_of(v@.len()) =~= uleb128_of(v@.len()));
                }
                out
            },
            TransactionArgument::Bool(b) => {
                let mut out: Vec<u8> = Vec::new();
                if *b {
                    out.push(1u8);
                } else {
                    out.push(0u8);
                }
                proof {
                    assert(out@ =~= arg_bcs_of(self@));
                }
                out
            },
        }
    }
}

/// The canonical serialized-bytes form of each argument in a list.
pub open spec fn arg_bcs_list(args: Seq<TransactionArgument>) -> Seq<Seq<u8>> {
    Seq::new(args.len(), |i: int| arg_bcs_of(args[i]@))
}

/// Converts a list of arguments to their canonical serialized-bytes forms,
/// one buffer per argument.
pub fn convert_txn_args(args: &Vec<TransactionArgument>) -> (r: Vec<Vec<u8>>)
    ensures
        r.deep_view() == arg_bcs_list(args@),
{
    let mut out: Vec<Vec<u8>> = Vec::new();
    let mut i: usize = 0;
    while i < args.len()
        invariant
            i <= args@.len(),
            out.deep_view() == arg_bcs_list(args@.take(i as int)),
        decreases args@.len() - i,
    {
        let b = args[i].to_bcs_bytes();
        let ghost prev = out@;
        let ghost prevdv = out.deep_view();
        proof {
            assert(prevdv.len() == prev.len());
        }
        out.push(b);
        proof {
            let newdv = out.deep_view();
            let target = arg_bcs_list(args@.take(i + 1));
            assert(out@ == prev.push(b));
            assert forall|k: int| 0 <= k < newdv.len() implies newdv[k] == target[k] by {
                assert(newdv[k] == out@[k].deep_view());
                if k < i {
                    assert(out@[k] == prev[k]);
                    assert(prevdv[k] == prev[k].deep_view());
                    assert(prevdv[k] == arg_bcs_list(args@.take(i as int))[k]);
                } else {
                    assert(out@[k] == b);
                    assert(b.deep_view() =~= b@);
                }
            }
            assert(newdv =~= target);
        }
        i = i + 1;
    }
    proof {
        assert(args@.take(args@.len() as int) =~= args@);
    }
    out
}

// ---------------------------------------------------------------------------
// the direction-dependent arguments view
// ---------------------------------------------------------------------------

/// The arguments of a call as they travel on the wire. Inbound requests
/// always carry human-readable literals; outbound traffic always carries
/// canonical serialized bytes.
#[derive(Debug, PartialEq, Eq)]
pub enum ArgumentsView {
    HumanReadable(Vec<TransactionArgument>),
    BCS(Vec<Vec<u8>>),
}

/// The `0x`-hex wire rendering of each byte buffer in a list.
pub open spec fn hex_wire_list(bufs: Seq<Seq<u8>>) -> Seq<Seq<char>> {
    Seq::new(bufs.len(), |i: int| seq!['0', 'x'] + hex_str_of(bufs[i]))
}

impl ArgumentsView {
    /// The canonical serialized bytes of each argument, whichever shape the
    /// view holds.
    pub open spec fn bcs_bytes_spec(&self) -> Seq<Seq<u8>> {
        match self {
            ArgumentsView::HumanReadable(vs) => arg_bcs_list(vs@),
            ArgumentsView::BCS(vs) => vs.deep_view(),
        }
    }

    /// The outbound wire rendering: always the `0x`-hex of the canonical
    /// bytes, never a re-rendered literal.
    pub open spec fn wire_strings_spec(&self) -> Seq<Seq<char>> {
        hex_wire_list(self.bcs_bytes_spec())
    }

    /// Normalizes the arguments to their canonical serialized-bytes forms.
    pub fn to_bcs_bytes(&self) -> (r: Vec<Vec<u8>>)
        ensures
            r.deep_view() == self.bcs_bytes_spec(),
    {
        match self {
            ArgumentsView::HumanReadable(vs) => convert_txn_args(vs),
            ArgumentsView::BCS(vs) => {
                let mut out: Vec<Vec<u8>> = Vec::new();
                let mut i: usize = 0;
                while i < vs.len()
                    invariant
                        i <= vs@.len(),
                        out.deep_view() == vs.deep_view().take(i as int),
                    decreases vs@.len() - i,
                {
                    let mut b: Vec<u8> = Vec::new();
                    let inner = &vs[i];
                    let mut j: usize = 0;
                    while j < inner.len()
                        invariant
                            j <= inner@.len(),
                            b@ == inner@.take(j as int),
                        decreases inner@.len() - j,
                    {
                        b.push(inner[j]);
                        proof {
                            assert(b@ =~= inner@.take(j + 1));
                        }
                        j = j + 1;
                    }
                    proof {
                        assert(inner@.take(inner@.len() as int) =~= inner@);
                        assert(b@ =~= inner@);
                    }
                    let ghost prev = out@;
                    let ghost prevdv = out.deep_view();
                    proof {
                        assert(prevdv.len() == prev.len());
                    }
                    out.push(b);
                    proof {
                        let newdv = out.deep_view();
                        let target = vs.deep_view().take(i + 1);
                        assert(out@ == prev.push(b));
                        assert forall|k: int| 0 <= k < newdv.len() implies newdv[k] == target[k] by {
                            assert(newdv[k] == out@[k].deep_view());
                            if k < i {
                                assert(out@[k] == prev[k]);
                                assert(prevdv[k] == prev[k].deep_view());
                                assert(prevdv[k] == vs.deep_view().take(i as int)[k]);
                            } else {
                                assert(out@[k] == b);
                                assert(b.deep_view() =~= vs@[i as int].deep_view());
                                assert(target[k] == vs.deep_view()[i as int]);
                                assert(vs.deep_view()[i as int] == vs@[i as int].deep_view());
                            }
                        }
                        assert(newdv =~= target);
                    }
                    i = i + 1;
                }
                proof {
                    assert(vs.deep_view().take(vs.deep_view().len() as int) =~~= vs.deep_view());
                }
                out
            },
        }
    }

    /// Renders the arguments for outbound transmission: the `0x`-hex of
    /// each canonical byte buffer.
    pub fn to_wire_strings(&self) -> (r: Vec<String>)
        ensures
            r.deep_view() == self.wire_strings_spec(),
    {
        let buffers = self.to_bcs_bytes();
        let mut out: Vec<String> = Vec::new();
        let mut i: usize = 0;
        while i < buffers.len()
            invariant
                i <= buffers@.len(),
                buffers.deep_view() == self.bcs_bytes_spec(),
                out.deep_view() == hex_wire_list(buffers.deep_view().take(i as int)),
            decreases buffers@.len() - i,
        {
            let s = hex_encode_prefixed(&buffers[i]);
            let ghost prev = out@;
            let ghost prevdv = out.deep_view();
            proof {
                assert(prevdv.len() == prev.len());
            }
            out.push(s);
            proof {
                let newdv = out.deep_view();
                let target = hex_wire_list(buffers.deep_view().take(i + 1));
                assert(out@ == prev.push(s));
                assert forall|k: int| 0 <= k < newdv.len() implies newdv[k] == target[k] by {
                    assert(newdv[k] == out@[k].deep_view());
                    if k < i {
                        assert(out@[k] == prev[k]);
                        assert(prevdv[k] == prev[k].deep_view());
                        assert(prevdv[k] == hex_wire_list(buffers.deep_view().take(i as int))[k]);
                    } else {
                        assert(out@[k] == s);
                        assert(buffers@[i as int]@ == buffers.deep_view()[i as int]);
                    }
                }
                assert(newdv =~= target);
            }
            i = i + 1;
        }
        proof {
            assert(buffers.deep_view().take(buffers.deep_view().len() as int)
                =~~= buffers.deep_view());
            assert(out.deep_view() =~~= self.wire_strings_spec());
        }
        out
    }
}

/// Direction asymmetry of the argument encoding: the outbound rendering
/// depends only on the canonical serialized bytes, so a human-readable
/// literal decoded from an inbound request is always re-encoded in its
/// canonical bytes form, never as the original literal text.
pub proof fn lemma_outbound_depends_only_on_bytes(a: &ArgumentsView, b: &ArgumentsView)
    requires
        a.bcs_bytes_spec() == b.bcs_bytes_spec(),
    ensures
        a.wire_strings_spec() == b.wire_strings_spec(),
{
}

} // verus!

verus! {

// ---------------------------------------------------------------------------
// human-readable argument literals
// ---------------------------------------------------------------------------

/// The literal `true`.
pub open spec fn true_lit() -> Seq<char> {
    seq!['t', 'r', 'u', 'e']
}

/// The literal `false`.
pub open spec fn false_lit() -> Seq<char> {
    seq!['f', 'a', 'l', 's', 'e']
}

/// The canonical human-readable literal of an argument: `true`/`false`,
/// decimal numbers (bare for the default 64-bit width, suffixed `u8` or
/// `u128` otherwise), an address literal, or `x"<hex>"` for a byte vector.
pub open spec fn arg_literal_of(a: ArgModel) -> Seq<char> {
    match a {
        ArgModel::Bool(b) => if b {
            true_lit()
        } else {
            false_lit()
        },
        ArgModel::U8(n) => dec_str_of(n as nat) + seq!['u', '8'],
        ArgModel::U64(n) => dec_str_of(n as nat),
        ArgModel::U128(n) => dec_str_of(n as nat) + seq!['u', '1', '2', '8'],
        ArgModel::Address(bytes) => addr_literal_of(bytes),
        ArgModel::Bytes(v) => seq!['x', '"'] + hex_str_of(v) + seq!['"'],
    }
}

/// What argument a literal denotes. A hex string starting `0x` is always
/// an address, never raw bytes: bytes must be written `x"<hex>"`, so no
/// literal is ambiguous between the two.
pub open spec fn parse_arg_spec(s: Seq<char>) -> Option<ArgModel> {
    if s == true_lit() {
        Some(ArgModel::Bool(true))
    } else if s == false_lit() {
        Some(ArgModel::Bool(false))
    } else if s.len() >= 2 && s[0] == '0' && s[1] == 'x' {
        match addr_bytes_of_literal(s) {
            Some(b) => Some(ArgModel::Address(b)),
            None => None,
        }
    } else if s.len() >= 3 && s[0] == 'x' && s[1] == '"' && s.last() == '"' {
        let body = s.subrange(2, s.len() - 1);
        if is_hex_body(body) {
            Some(ArgModel::Bytes(bytes_of_hex(body)))
        } else {
            None
        }
    } else if s.len() > 2 && s[s.len() - 2] == 'u' && s[s.len() - 1] == '8' {
        let body = s.take(s.len() - 2);
        if is_dec_body(body) && dec_value_of(body) <= u8::MAX {
            Some(ArgModel::U8(dec_value_of(body) as u8))
        } else {
            None
        }
    } else if s.len() > 4 && s[s.len() - 4] == 'u' && s[s.len() - 3] == '1' && s[s.len() - 2] == '2'
        && s[s.len() - 1] == '8' {
        let body = s.take(s.len() - 4);
        if is_dec_body(body) && dec_value_of(body) <= u128::MAX {
            Some(ArgModel::U128(dec_value_of(body) as u128))
        } else {
            None
        }
    } else if s.len() > 3 && s[s.len() - 3] == 'u' && s[s.len() - 2] == '6' && s[s.len() - 1]
        == '4' {
        let body = s.take(s.len() - 3);
        if is_dec_body(body) && dec_value_of(body) <= u64::MAX {
            Some(ArgModel::U64(dec_value_of(body) as u64))
        } else {
            None
        }
    } else if is_dec_body(s) && dec_value_of(s) <= u64::MAX {
        Some(ArgModel::U64(dec_value_of(s) as u64))
    } else {
        None
    }
}

/// Parses a human-readable argument literal; this is how every inbound
/// argument is interpreted.
pub fn parse_transaction_argument(s: &str) -> (r: Result<TransactionArgument, PipelineError>)
    ensures
        match r {
            Ok(v) => parse_arg_spec(s@) == Some(v@) && v.wf(),
            Err(e) => parse_arg_spec(s@) is None && e == PipelineError::DecodeError,
        },
{
    proof {
        reveal_strlit("true");
        reveal_strlit("false");
        assert("true"@ =~= true_lit());
        assert("false"@ =~= false_lit());
    }
    let n = s.unicode_len();
    let owned = s.to_owned();
    if owned == String::from_str("true") {
        return Ok(TransactionArgument::Bool(true));
    }
    if owned == String::from_str("false") {
        return Ok(TransactionArgument::Bool(false));
    }
    if n >= 2 && s.get_char(0) == '0' && s.get_char(1) == 'x' {
        return match AccountAddress::parse(s) {
            Ok(a) => Ok(TransactionArgument::Address(a)),
            Err(e) => Err(e),
        };
    }
    if n >= 3 && s.get_char(0) == 'x' && s.get_char(1) == '"' && s.get_char(n - 1) == '"' {
        let body = s.substring_char(2, n - 1);
        proof {
            assert(body@ =~= s@.subrange(2, s@.len() - 1));
        }
        return match hex_decode_bare(body) {
            Ok(bytes) => Ok(TransactionArgument::U8Vector(bytes)),
            Err(e) => Err(e),
        };
    }
    if n > 2 && s.get_char(n - 2) == 'u' && s.get_char(n - 1) == '8' {
        let body = s.substring_char(0, n - 2);
        proof {
            assert(body@ =~= s@.take(s@.len() - 2));
        }
        return match parse_dec_u64(body) {
            Ok(v) => {
                if v <= 255 {
                    Ok(TransactionArgument::U8(v as u8))
                } else {
                    Err(PipelineError::DecodeError)
                }
            },
            Err(e) => Err(e),
        };
    }
    if n > 4 && s.get_char(n - 4) == 'u' && s.get_char(n - 3) == '1' && s.get_char(n - 2) == '2'
        && s.get_char(n - 1) == '8' {
        let body = s.substring_char(0, n - 4);
        proof {
            assert(body@ =~= s@.take(s@.len() - 4));
        }
        return match parse_dec_u128(body) {
            Ok(v) => Ok(TransactionArgument::U128(v)),
            Err(e) => Err(e),
        };
    }
    if n > 3 && s.get_char(n - 3) == 'u' && s.get_char(n - 2) == '6' && s.get_char(n - 1) == '4' {
        let body = s.substring_char(0, n - 3);
        proof {
            assert(body@ =~= s@.take(s@.len() - 3));
        }
        return match parse_dec_u64(body) {
            Ok(v) => Ok(TransactionArgument::U64(v)),
            Err(e) => Err(e),
        };
    }
    match parse_dec_u64(s) {
        Ok(v) => Ok(TransactionArgument::U64(v)),
        Err(e) => Err(e),
    }
}

impl TransactionArgument {
    /// Renders the argument as its canonical human-readable literal.
    pub fn to_literal_string(&self) -> (r: String)
        requires
            self.wf(),
        ensures
            r@ == arg_literal_of(self@),
    {
        proof {
            reveal_strlit("true");
            reveal_strlit("false");
            reveal_strlit("u8");
            reveal_strlit("u128");
            reveal_strlit("x\"");
            reveal_strlit("\"");
        }
        match self {
            TransactionArgument::Bool(b) => {
                let out = if *b {
                    String::from_str("true")
                } else {
                    String::from_str("false")
                };
                proof {
                    assert(out@ =~= arg_literal_of(self@));
                }
                out
            },
            TransactionArgument::U8(n) => {
                let mut out = u64_to_dec_string(*n as u64);
                out.append("u8");
                proof {
                    assert(out@ =~= arg_literal_of(self@));
                }
                out
            },
            TransactionArgument::U64(n) => u64_to_dec_string(*n),
            TransactionArgument::U128(n) => {
                let mut out = u128_to_dec_string(*n);
                out.append("u128");
                proof {
                    assert(out@ =~= arg_literal_of(self@));
                }
                out
            },
            TransactionArgument::Address(a) => a.to_literal_string(),
            TransactionArgument::U8Vector(v) => {
                let mut out = String::from_str("x\"");
                let hex = hex_encode(v);
                out.append(hex.as_str());
                out.append("\"");
                proof {
                    assert(out@ =~= arg_literal_of(self@));
                }
                out
            },
        }
    }
}

/// Round trip for argument literals: the canonical literal of any
/// well-formed argument parses back to the same argument, so display is
/// the exact inverse of parse.
pub proof fn lemma_arg_literal_round_trip(a: ArgModel)
    requires
        a matches ArgModel::Address(bytes) ==> bytes.len() == 16,
    ensures
        parse_arg_spec(arg_literal_of(a)) == Some(a),
{
    let s = arg_literal_of(a);
    match a {
        ArgModel::Bool(b) => {
            if b {
            } else {
                assert(s != true_lit());
            }
        },
        ArgModel::U8(n) => {
            lemma_dec_round_trip(n as nat);
            let d = dec_str_of(n as nat);
            assert(is_dec_digit(d[0]));
            assert(s[0] == d[0]);
            if s == true_lit() {
                assert(s[0] == 't');
            }
            if s == false_lit() {
                assert(s[0] == 'f');
            }
            assert(!(s.len() >= 2 && s[0] == '0' && s[1] == 'x')) by {
                if s.len() >= 2 && s[1] == 'x' {
                    if d.len() == 1 {
                        assert(s[1] == 'u');
                    } else {
                        assert(s[1] == d[1]);
                        assert(is_dec_digit(d[1]));
                    }
                }
            }
            assert(s[0] != 'x');
            assert(s[s.len() - 2] == 'u' && s[s.len() - 1] == '8');
            assert(s.take(s.len() - 2) =~= d);
        },
        ArgModel::U64(n) => {
            lemma_dec_round_trip(n as nat);
            let d = dec_str_of(n as nat);
            assert(s == d);
            assert(is_dec_digit(s[0]));
            if s == true_lit() {
                assert(s[0] == 't');
            }
            if s == false_lit() {
                assert(s[0] == 'f');
            }
            assert(!(s.len() >= 2 && s[0] == '0' && s[1] == 'x')) by {
                if s.len() >= 2 {
                    assert(is_dec_digit(s[1]));
                }
            }
            assert(s[0] != 'x');
            if s.len() > 2 && s[s.len() - 2] == 'u' {
                assert(is_dec_digit(s[s.len() - 2]));
            }
            if s.len() > 4 && s[s.len() - 4] == 'u' {
                assert(is_dec_digit(s[s.len() - 4]));
            }
            if s.len() > 3 && s[s.len() - 3] == 'u' {
                assert(is_dec_digit(s[s.len() - 3]));
            }
        },
        ArgModel::U128(n) => {
            lemma_dec_round_trip(n as nat);
            let d = dec_str_of(n as nat);
            assert(s =~= d + seq!['u', '1', '2', '8']);
            assert(is_dec_digit(d[0]));
            assert(s[0] == d[0]);
            if s == true_lit() {
                assert(s[0] == 't');
            }
            if s == false_lit() {
                assert(s[0] == 'f');
            }
            assert(!(s.len() >= 2 && s[0] == '0' && s[1] == 'x')) by {
                if s.len() >= 2 && s[1] == 'x' {
                    if d.len() == 1 {
                        assert(s[1] == 'u');
                    } else {
                        assert(s[1] == d[1]);
                        assert(is_dec_digit(d[1]));
                    }
                }
            }
            assert(s[0] != 'x');
            assert(s[s.len() - 2] == '2');
            assert(s[s.len() - 4] == 'u' && s[s.len() - 3] == '1' && s[s.len() - 1] == '8');
            assert(s.len() > 4);
            assert(s.take(s.len() - 4) =~= d);
        },
        ArgModel::Address(bytes) => {
            lemma_addr_round_trip(bytes);
            assert(s[0] == '0' && s[1] == 'x' && s.len() >= 3);
            assert(s != true_lit()) by {
                assert(true_lit()[0] == 't');
            }
            assert(s != false_lit()) by {
                assert(false_lit()[0] == 'f');
            }
        },
        ArgModel::Bytes(v) => {
            lemma_hex_round_trip(v);
            let h = hex_str_of(v);
            assert(s =~= seq!['x', '"'] + h + seq!['"']);
            assert(s[0] == 'x' && s[1] == '"');
            assert(s != true_lit()) by {
                assert(true_lit()[0] == 't');
            }
            assert(s != false_lit()) by {
                assert(false_lit()[0] == 'f');
            }
            assert(s[0] != '0');
            assert(s.len() >= 3 && s.last() == '"');
            assert(s.subrange(2, s.len() - 1) =~= h);
        },
    }
}

} // verus!
