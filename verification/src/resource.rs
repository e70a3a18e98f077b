//! Annotated on-chain values — decoded resources with their types — and
//! their wire views, which string-render the wide integers and byte blobs.

use vstd::prelude::*;

use crate::ids::{AccountAddress, Identifier};
use crate::typetag::StructTag;
use crate::views::{StrView, StructTagView};

verus! {

/// A decoded on-chain value, annotated with its type structure.
#[derive(Debug, PartialEq, Eq)]
pub enum AnnotatedMoveValue {
    U8(u8),
    U64(u64),
    U128(u128),
    Bool(bool),
    Address(AccountAddress),
    Vector(Vec<AnnotatedMoveValue>),
    Bytes(Vec<u8>),
    Struct(AnnotatedMoveStruct),
}

/// A decoded struct: its abilities, its type, and its named fields.
#[derive(Debug, PartialEq, Eq)]
pub struct AnnotatedMoveStruct {
    pub abilities: u8,
    pub type_: StructTag,
    pub value: Vec<(Identifier, AnnotatedMoveValue)>,
}

/// The wire view of a decoded value: 64/128-bit integers and byte blobs
/// travel string-rendered.
#[derive(Debug, PartialEq, Eq)]
pub enum AnnotatedMoveValueView {
    U8(u8),
    U64(StrView<u64>),
    U128(StrView<u128>),
    Bool(bool),
    Address(AccountAddress),
    Vector(Vec<AnnotatedMoveValueView>),
    Bytes(StrView<Vec<u8>>),
    Struct(AnnotatedMoveStructView),
}

/// The wire view of a decoded struct.
#[derive(Debug, PartialEq, Eq)]
pub struct AnnotatedMoveStructView {
    pub abilities: u8,
    pub type_: StructTagView,
    pub value: Vec<(Identifier, AnnotatedMoveValueView)>,
}

/// The view faithfully renders the value.
pub open spec fn value_view_mirrors(r: AnnotatedMoveValueView, v: AnnotatedMoveValue) -> bool
    decreases v, 0nat,
{
    match (r, v) {
        (AnnotatedMoveValueView::U8(a), AnnotatedMoveValue::U8(b)) => a == b,
        (AnnotatedMoveValueView::U64(a), AnnotatedMoveValue::U64(b)) => a.0 == b,
        (AnnotatedMoveValueView::U128(a), AnnotatedMoveValue::U128(b)) => a.0 == b,
        (AnnotatedMoveValueView::Bool(a), AnnotatedMoveValue::Bool(b)) => a == b,
        (AnnotatedMoveValueView::Address(a), AnnotatedMoveValue::Address(b)) => a == b,
        (AnnotatedMoveValueView::Vector(rs), AnnotatedMoveValue::Vector(vs)) => elems_mirror(
            rs@,
            vs@,
        ),
        (AnnotatedMoveValueView::Bytes(a), AnnotatedMoveValue::Bytes(b)) => a.0 == b,
        (AnnotatedMoveValueView::Struct(rs), AnnotatedMoveValue::Struct(s)) => struct_view_mirrors(
            rs,
            s,
        ),
        _ => false,
    }
}

/// Every element of the view list renders its counterpart.
pub open spec fn elems_mirror(rs: Seq<AnnotatedMoveValueView>, vs: Seq<AnnotatedMoveValue>) -> bool
    decreases vs, 1nat,
{
    rs.len() == vs.len() && (vs.len() == 0 || (value_view_mirrors(rs[0], vs[0]) && elems_mirror(
        rs.drop_first(),
        vs.drop_first(),
    )))
}

/// Every named field of the view renders its counterpart.
pub open spec fn fields_mirror(
    rs: Seq<(Identifier, AnnotatedMoveValueView)>,
    vs: Seq<(Identifier, AnnotatedMoveValue)>,
) -> bool
    decreases vs, 1nat,
{
    rs.len() == vs.len() && (vs.len() == 0 || (rs[0].0 == vs[0].0 && value_view_mirrors(
        rs[0].1,
        vs[0].1,
    ) && fields_mirror(rs.drop_first(), vs.drop_first())))
}

/// The struct view faithfully renders the struct.
pub open spec fn struct_view_mirrors(r: AnnotatedMoveStructView, s: AnnotatedMoveStruct) -> bool
    decreases s, 1nat,
{
    r.abilities == s.abilities && r.type_.0 == s.type_ && fields_mirror(r.value@, s.value@)
}

/// Renders each element of a list of decoded values.
fn values_to_views(vs: Vec<AnnotatedMoveValue>) -> (r: Vec<AnnotatedMoveValueView>)
    ensures
        elems_mirror(r@, vs@),
    decreases vs@, 1nat,
{
    let ghost orig = vs@;
    let mut rest = vs;
    if rest.len() == 0 {
        let out: Vec<AnnotatedMoveValueView> = Vec::new();
        return out;
    }
    let head = rest.remove(0);
    proof {
        assert(head == orig[0]);
        assert(rest@ =~= orig.drop_first());
    }
    let head_view = AnnotatedMoveValueView::from_value(head);
    let mut out = values_to_views(rest);
    let ghost tails = out@;
    out.insert(0, head_view);
    proof {
        assert(out@[0] == head_view);
        assert(out@.drop_first() =~= tails);
        assert(elems_mirror(out@, orig));
    }
    out
}

/// Renders each named field of a decoded struct.
fn fields_to_views(vs: Vec<(Identifier, AnnotatedMoveValue)>) -> (r: Vec<
    (Identifier, AnnotatedMoveValueView),
>)
    ensures
        fields_mirror(r@, vs@),
    decreases vs@, 1nat,
{
    let ghost orig = vs@;
    let mut rest = vs;
    if rest.len() == 0 {
        let out: Vec<(Identifier, AnnotatedMoveValueView)> = Vec::new();
        return out;
    }
    let (name, val) = rest.remove(0);
    proof {
        assert((name, val) == orig[0]);
        assert(rest@ =~= orig.drop_first());
    }
    let val_view = AnnotatedMoveValueView::from_value(val);
    let mut out = fields_to_views(rest);
    let ghost tails = out@;
    out.insert(0, (name, val_view));
    proof {
        assert(out@[0] == (name, val_view));
        assert(out@.drop_first() =~= tails);
        assert(fields_mirror(out@, orig));
    }
    out
}

impl AnnotatedMoveValueView {
    /// Renders a decoded value.
    pub fn from_value(v: AnnotatedMoveValue) -> (r: AnnotatedMoveValueView)
        ensures
            value_view_mirrors(r, v),
        decreases v, 0nat,
    {
        match v {
            AnnotatedMoveValue::U8(n) => AnnotatedMoveValueView::U8(n),
            AnnotatedMoveValue::U64(n) => AnnotatedMoveValueView::U64(StrView(n)),
            AnnotatedMoveValue::U128(n) => AnnotatedMoveValueView::U128(StrView(n)),
            AnnotatedMoveValue::Bool(b) => AnnotatedMoveValueView::Bool(b),
            AnnotatedMoveValue::Address(a) => AnnotatedMoveValueView::Address(a),
            AnnotatedMoveValue::Vector(vs) => AnnotatedMoveValueView::Vector(values_to_views(vs)),
            AnnotatedMoveValue::Bytes(b) => AnnotatedMoveValueView::Bytes(StrView(b)),
            AnnotatedMoveValue::Struct(s) => AnnotatedMoveValueView::Struct(
                AnnotatedMoveStructView::from_struct(s),
            ),
        }
    }
}

impl AnnotatedMoveStructView {
    /// Renders a decoded struct.
    pub fn from_struct(s: AnnotatedMoveStruct) -> (r: AnnotatedMoveStructView)
        ensures
            struct_view_mirrors(r, s),
        decreases s, 0nat,
    {
        let AnnotatedMoveStruct { abilities, type_, value } = s;
        let fields = fields_to_views(value);
        AnnotatedMoveStructView { abilities, type_: StrView(type_), value: fields }
    }
}

/// Everything stored under one account: module code by name, and decoded
/// resources by type.
#[derive(Debug, PartialEq, Eq)]
pub struct AccountStateSetView {
    pub codes: Vec<(Identifier, StrView<Vec<u8>>)>,
    pub resources: Vec<(StructTagView, AnnotatedMoveStructView)>,
}

impl AccountStateSetView {
    /// An account with nothing stored.
    pub fn new() -> (r: AccountStateSetView)
        ensures
            r.codes@.len() == 0,
            r.resources@.len() == 0,
    {
        AccountStateSetView { codes: Vec::new(), resources: Vec::new() }
    }
}

} // verus!
