//! The canonical byte serialization of payloads: the byte-exact form in
//! which a transaction payload travels inside a wire view.
//!
//! Integers are little-endian at their own width, lengths are unsigned
//! LEB128, a sequence is its length followed by its elements, an option is
//! a presence byte followed by the value, an enum is its variant index
//! followed by the variant's fields, and an address is its 16 raw bytes.
//! The encoding is deterministic and total on well-formed values.

use vstd::prelude::*;

use crate::args::{push_uleb128, uleb128_of};
use crate::ids::{is_identifier, Identifier};
use crate::payload::{Module, Package, Script, ScriptFunction, TransactionPayload};
use crate::typetag::{all_tags_wf, StructTag, TypeTag};

verus! {

// ---------------------------------------------------------------------------
// specification of the encoding
// ---------------------------------------------------------------------------

/// The bytes of an ASCII character sequence, one byte per character.
pub open spec fn ascii_bytes_of(s: Seq<char>) -> Seq<u8> {
    Seq::new(s.len(), |i: int| s[i] as u8)
}

/// A byte buffer: its length, then its bytes.
pub open spec fn bytes_bcs(b: Seq<u8>) -> Seq<u8> {
    uleb128_of(b.len()) + b
}

/// An identifier: its length, then its ASCII bytes.
pub open spec fn identifier_bcs(name: Seq<char>) -> Seq<u8> {
    uleb128_of(name.len()) + ascii_bytes_of(name)
}

/// A module reference: the raw address bytes, then the module name.
pub open spec fn module_id_bcs(address: Seq<u8>, name: Seq<char>) -> Seq<u8> {
    address + identifier_bcs(name)
}

/// A type tag: its variant index, then its payload.
pub open spec fn type_tag_bcs(t: TypeTag) -> Seq<u8>
    decreases t, 0nat,
{
    match t {
        TypeTag::Bool => seq![0u8],
        TypeTag::U8 => seq![1u8],
        TypeTag::U64 => seq![2u8],
        TypeTag::U128 => seq![3u8],
        TypeTag::Address => seq![4u8],
        TypeTag::Signer => seq![5u8],
        TypeTag::Vector(inner) => seq![6u8] + type_tag_bcs(*inner),
        TypeTag::Struct(s) => seq![7u8] + struct_tag_bcs(s),
    }
}

/// A struct tag: address, module, name, then its type parameters.
pub open spec fn struct_tag_bcs(s: StructTag) -> Seq<u8>
    decreases s, 0nat,
{
    s.address@ + identifier_bcs(s.module@) + identifier_bcs(s.name@) + type_tag_list_bcs(
        s.type_params@,
    )
}

/// The concatenated encodings of a run of type tags.
pub open spec fn type_tags_concat(ts: Seq<TypeTag>) -> Seq<u8>
    decreases ts, 0nat,
{
    if ts.len() == 0 {
        Seq::empty()
    } else {
        type_tag_bcs(ts[0]) + type_tags_concat(ts.drop_first())
    }
}

/// A list of type tags: its length, then its elements.
pub open spec fn type_tag_list_bcs(ts: Seq<TypeTag>) -> Seq<u8>
    decreases ts, 1nat,
{
    uleb128_of(ts.len()) + type_tags_concat(ts)
}

/// The concatenated encodings of a run of byte buffers.
pub open spec fn bytes_concat(bs: Seq<Seq<u8>>) -> Seq<u8>
    decreases bs.len(),
{
    if bs.len() == 0 {
        Seq::empty()
    } else {
        bytes_bcs(bs[0]) + bytes_concat(bs.drop_first())
    }
}

/// A list of byte buffers: its length, then its elements.
pub open spec fn bytes_list_bcs(bs: Seq<Seq<u8>>) -> Seq<u8> {
    uleb128_of(bs.len()) + bytes_concat(bs)
}

/// An ad-hoc script: code, type arguments, arguments.
pub open spec fn script_bcs(s: Script) -> Seq<u8> {
    bytes_bcs(s.code@) + type_tag_list_bcs(s.ty_args@) + bytes_list_bcs(s.args.deep_view())
}

/// A function call: reference, function name, type arguments, arguments.
pub open spec fn script_function_bcs(f: ScriptFunction) -> Seq<u8> {
    module_id_bcs(f.module.address@, f.module.name@) + identifier_bcs(f.function@)
        + type_tag_list_bcs(f.ty_args@) + bytes_list_bcs(f.args.deep_view())
}

/// The concatenated encodings of a run of modules; each module is its
/// bytecode buffer.
pub open spec fn modules_concat(ms: Seq<Module>) -> Seq<u8>
    decreases ms.len(),
{
    if ms.len() == 0 {
        Seq::empty()
    } else {
        bytes_bcs(ms[0].code@) + modules_concat(ms.drop_first())
    }
}

/// An optional initializer call: a presence byte, then the call.
pub open spec fn option_script_function_bcs(o: Option<ScriptFunction>) -> Seq<u8> {
    match o {
        None => seq![0u8],
        Some(f) => seq![1u8] + script_function_bcs(f),
    }
}

/// A package: its module list, then its optional initializer.
pub open spec fn package_bcs(p: Package) -> Seq<u8> {
    uleb128_of(p.modules@.len()) + modules_concat(p.modules@) + option_script_function_bcs(
        p.init_script,
    )
}

/// A payload: its variant index, then the variant.
pub open spec fn payload_bcs(p: TransactionPayload) -> Seq<u8> {
    match p {
        TransactionPayload::Script(s) => seq![0u8] + script_bcs(s),
        TransactionPayload::Package(pkg) => seq![1u8] + package_bcs(pkg),
        TransactionPayload::ScriptFunction(f) => seq![2u8] + script_function_bcs(f),
    }
}

// ---------------------------------------------------------------------------
// the encoder
// ---------------------------------------------------------------------------

/// Appends a length-prefixed byte buffer.
fn push_bytes_bcs(out: &mut Vec<u8>, b: &Vec<u8>)
    ensures
        final(out)@ == old(out)@ + bytes_bcs(b@),
{
    push_uleb128(out, b.len());
    let ghost mid = out@;
    let mut i: usize = 0;
    while i < b.len()
        invariant
            i <= b@.len(),
            out@ == mid + b@.take(i as int),
        decreases b@.len() - i,
    {
        out.push(b[i]);
        proof {
            assert(out@ =~= mid + b@.take(i + 1));
        }
        i = i + 1;
    }
    proof {
        assert(b@.take(b@.len() as int) =~= b@);
        assert(out@ =~= old(out)@ + bytes_bcs(b@));
    }
}

/// Appends a length-prefixed identifier.
fn push_identifier_bcs(out: &mut Vec<u8>, id: &Identifier)
    requires
        is_identifier(id@),
    ensures
        final(out)@ == old(out)@ + identifier_bcs(id@),
{
    let s = id.as_str();
    let n = s.unicode_len();
    push_uleb128(out, n);
    let ghost mid = out@;
    let mut i: usize = 0;
    while i < n
        invariant
            i <= n,
            n == s@.len(),
            s@ == id@,
            out@ == mid + ascii_bytes_of(s@).take(i as int),
        decreases n - i,
    {
        let c = s.get_char(i);
        out.push(c as u8);
        proof {
            assert(ascii_bytes_of(s@)[i as int] == c as u8);
            assert(out@ =~= mid + ascii_bytes_of(s@).take(i + 1));
        }
        i = i + 1;
    }
    proof {
        assert(ascii_bytes_of(s@).take(s@.len() as int) =~= ascii_bytes_of(s@));
        assert(out@ =~= old(out)@ + identifier_bcs(id@));
    }
}

/// Appends the encoding of one type tag.
fn push_type_tag_bcs(out: &mut Vec<u8>, t: &TypeTag)
    requires
        t.wf(),
    ensures
        final(out)@ == old(out)@ + type_tag_bcs(*t),
    decreases *t,
{
    match t {
        TypeTag::Bool => {
            out.push(0u8);
            proof {
                assert(out@ =~= old(out)@ + type_tag_bcs(*t));
            }
        },
        TypeTag::U8 => {
            out.push(1u8);
            proof {
                assert(out@ =~= old(out)@ + type_tag_bcs(*t));
            }
        },
        TypeTag::U64 => {
            out.push(2u8);
            proof {
                assert(out@ =~= old(out)@ + type_tag_bcs(*t));
            }
        },
        TypeTag::U128 => {
            out.push(3u8);
            proof {
                assert(out@ =~= old(out)@ + type_tag_bcs(*t));
            }
        },
        TypeTag::Address => {
            out.push(4u8);
            proof {
                assert(out@ =~= old(out)@ + type_tag_bcs(*t));
            }
        },
        TypeTag::Signer => {
            out.push(5u8);
            proof {
                assert(out@ =~= old(out)@ + type_tag_bcs(*t));
            }
        },
        TypeTag::Vector(inner) => {
            out.push(6u8);
            push_type_tag_bcs(out, inner);
            proof {
                assert(out@ =~= old(out)@ + type_tag_bcs(*t));
            }
        },
        TypeTag::Struct(s) => {
            out.push(7u8);
            push_struct_tag_bcs(out, s);
            proof {
                assert(out@ =~= old(out)@ + type_tag_bcs(*t));
            }
        },
    }
}

/// Appends the encoding of a struct tag.
fn push_struct_tag_bcs(out: &mut Vec<u8>, s: &StructTag)
    requires
        s.wf(),
    ensures
        final(out)@ == old(out)@ + struct_tag_bcs(*s),
    decreases *s,
{
    let addr_bytes = s.address.as_bytes();
    let mut i: usize = 0;
    while i < addr_bytes.len()
        invariant
            i <= addr_bytes@.len(),
            addr_bytes@ == s.address@,
            out@ == old(out)@ + addr_bytes@.take(i as int),
        decreases addr_bytes@.len() - i,
    {
        out.push(addr_bytes[i]);
        proof {
            assert(out@ =~= old(out)@ + addr_bytes@.take(i + 1));
        }
        i = i + 1;
    }
    proof {
        assert(addr_bytes@.take(addr_bytes@.len() as int) =~= addr_bytes@);
    }
    push_identifier_bcs(out, &s.module);
    push_identifier_bcs(out, &s.name);
    push_type_tag_list_bcs(out, &s.type_params);
    proof {
        assert(out@ =~= old(out)@ + struct_tag_bcs(*s));
    }
}

/// Appends the elements of a type-tag list from index `i` on.
fn push_type_tags_from(out: &mut Vec<u8>, ts: &Vec<TypeTag>, i: usize)
    requires
        i <= ts@.len(),
        all_tags_wf(ts@),
    ensures
        final(out)@ == old(out)@ + type_tags_concat(ts@.skip(i as int)),
    decreases ts@, ts@.len() - i,
{
    if i < ts.len() {
        proof {
            crate::typetag::lemma_all_tags_wf_index(ts@, i as int);
        }
        push_type_tag_bcs(out, &ts[i]);
        push_type_tags_from(out, ts, i + 1);
        proof {
            assert(ts@.skip(i as int)[0] == ts@[i as int]);
            assert(ts@.skip(i as int).drop_first() =~= ts@.skip(i + 1));
            assert(out@ =~= old(out)@ + type_tags_concat(ts@.skip(i as int)));
        }
    } else {
        proof {
            assert(ts@.skip(i as int) =~= Seq::<TypeTag>::empty());
            assert(out@ =~= old(out)@ + type_tags_concat(ts@.skip(i as int)));
        }
    }
}

/// Appends a length-prefixed type-tag list.
fn push_type_tag_list_bcs(out: &mut Vec<u8>, ts: &Vec<TypeTag>)
    requires
        all_tags_wf(ts@),
    ensures
        final(out)@ == old(out)@ + type_tag_list_bcs(ts@),
    decreases ts@,
{
    push_uleb128(out, ts.len());
    push_type_tags_from(out, ts, 0);
    proof {
        assert(ts@.skip(0) =~= ts@);
        assert(out@ =~= old(out)@ + type_tag_list_bcs(ts@));
    }
}

/// Appends the elements of a byte-buffer list from index `i` on.
fn push_bytes_from(out: &mut Vec<u8>, bs: &Vec<Vec<u8>>, i: usize)
    requires
        i <= bs@.len(),
    ensures
        final(out)@ == old(out)@ + bytes_concat(bs.deep_view().skip(i as int)),
    decreases bs@.len() - i,
{
    if i < bs.len() {
        push_bytes_bcs(out, &bs[i]);
        push_bytes_from(out, bs, i + 1);
        proof {
            assert(bs.deep_view().skip(i as int)[0] == bs.deep_view()[i as int]);
            assert(bs.deep_view()[i as int] == bs@[i as int]@);
            assert(bs.deep_view().skip(i as int).drop_first() =~~= bs.deep_view().skip(i + 1));
            assert(out@ =~= old(out)@ + bytes_concat(bs.deep_view().skip(i as int)));
        }
    } else {
        proof {
            assert(bs.deep_view().len() == bs@.len());
            assert(bs.deep_view().skip(i as int) =~~= Seq::<Seq<u8>>::empty());
            assert(out@ =~= old(out)@ + bytes_concat(bs.deep_view().skip(i as int)));
        }
    }
}

/// Appends a length-prefixed list of byte buffers.
fn push_bytes_list_bcs(out: &mut Vec<u8>, bs: &Vec<Vec<u8>>)
    ensures
        final(out)@ == old(out)@ + bytes_list_bcs(bs.deep_view()),
{
    proof {
        assert(bs.deep_view().len() == bs@.len());
    }
    push_uleb128(out, bs.len());
    push_bytes_from(out, bs, 0);
    proof {
        assert(bs.deep_view().skip(0) =~~= bs.deep_view());
        assert(out@ =~= old(out)@ + bytes_list_bcs(bs.deep_view()));
    }
}

/// Appends the encoding of a function call.
fn push_script_function_bcs(out: &mut Vec<u8>, f: &ScriptFunction)
    requires
        f.wf(),
    ensures
        final(out)@ == old(out)@ + script_function_bcs(*f),
{
    let addr_bytes = f.module.address.as_bytes();
    let mut i: usize = 0;
    while i < addr_bytes.len()
        invariant
            i <= addr_bytes@.len(),
            addr_bytes@ == f.module.address@,
            out@ == old(out)@ + addr_bytes@.take(i as int),
        decreases addr_bytes@.len() - i,
    {
        out.push(addr_bytes[i]);
        proof {
            assert(out@ =~= old(out)@ + addr_bytes@.take(i + 1));
        }
        i = i + 1;
    }
    proof {
        assert(addr_bytes@.take(addr_bytes@.len() as int) =~= addr_bytes@);
    }
    push_identifier_bcs(out, &f.module.name);
    push_identifier_bcs(out, &f.function);
    push_type_tag_list_bcs(out, &f.ty_args);
    push_bytes_list_bcs(out, &f.args);
    proof {
        assert(out@ =~= old(out)@ + script_function_bcs(*f));
    }
}

/// Appends the encoding of an ad-hoc script.
fn push_script_bcs(out: &mut Vec<u8>, s: &Script)
    requires
        s.wf(),
    ensures
        final(out)@ == old(out)@ + script_bcs(*s),
{
    push_bytes_bcs(out, &s.code);
    push_type_tag_list_bcs(out, &s.ty_args);
    push_bytes_list_bcs(out, &s.args);
    proof {
        assert(out@ =~= old(out)@ + script_bcs(*s));
    }
}

/// Appends the modules of a package from index `i` on.
fn push_modules_from(out: &mut Vec<u8>, ms: &Vec<Module>, i: usize)
    requires
        i <= ms@.len(),
    ensures
        final(out)@ == old(out)@ + modules_concat(ms@.skip(i as int)),
    decreases ms@.len() - i,
{
    if i < ms.len() {
        push_bytes_bcs(out, &ms[i].code);
        push_modules_from(out, ms, i + 1);
        proof {
            assert(ms@.skip(i as int)[0] == ms@[i as int]);
            assert(ms@.skip(i as int).drop_first() =~= ms@.skip(i + 1));
            assert(out@ =~= old(out)@ + modules_concat(ms@.skip(i as int)));
        }
    } else {
        proof {
            assert(ms@.skip(i as int) =~= Seq::<Module>::empty());
            assert(out@ =~= old(out)@ + modules_concat(ms@.skip(i as int)));
        }
    }
}

/// Appends the encoding of a package.
fn push_package_bcs(out: &mut Vec<u8>, p: &Package)
    requires
        p.wf(),
    ensures
        final(out)@ == old(out)@ + package_bcs(*p),
{
    push_uleb128(out, p.modules.len());
    push_modules_from(out, &p.modules, 0);
    proof {
        assert(p.modules@.skip(0) =~= p.modules@);
    }
    match &p.init_script {
        None => {
            out.push(0u8);
        },
        Some(f) => {
            out.push(1u8);
            push_script_function_bcs(out, f);
        },
    }
    proof {
        assert(out@ =~= old(out)@ + package_bcs(*p));
    }
}

/// Encodes a payload in its canonical serialized form: the byte-exact
/// content of the `payload` field of a transaction view.
pub fn encode_payload(p: &TransactionPayload) -> (r: Vec<u8>)
    requires
        p.wf(),
    ensures
        r@ == payload_bcs(*p),
{
    let mut out: Vec<u8> = Vec::new();
    match p {
        TransactionPayload::Script(s) => {
            out.push(0u8);
            push_script_bcs(&mut out, s);
        },
        TransactionPayload::Package(pkg) => {
            out.push(1u8);
            push_package_bcs(&mut out, pkg);
        },
        TransactionPayload::ScriptFunction(f) => {
            out.push(2u8);
            push_script_function_bcs(&mut out, f);
        },
    }
    proof {
        assert(out@ =~= payload_bcs(*p));
    }
    out
}

} // verus!
