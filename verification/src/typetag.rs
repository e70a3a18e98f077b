//! Type arguments of scripts and function calls: primitive types, vectors,
//! and struct tags.

use vstd::prelude::*;

use crate::errors::PipelineError;
use crate::ids::{AccountAddress, Identifier};

verus! {

/// The type of an on-chain value, as it appears in a type-argument list.
#[derive(Debug, PartialEq, Eq)]
pub enum TypeTag {
    Bool,
    U8,
    U64,
    U128,
    Address,
    Signer,
    Vector(Box<TypeTag>),
    Struct(StructTag),
}

/// A fully qualified struct type: `address::module::name<type_params>`.
#[derive(Debug, PartialEq, Eq)]
pub struct StructTag {
    pub address: AccountAddress,
    pub module: Identifier,
    pub name: Identifier,
    pub type_params: Vec<TypeTag>,
}

impl TypeTag {
    /// A well-formed type tag: every address and identifier in it is valid.
    pub open spec fn wf(&self) -> bool
        decreases self,
    {
        match self {
            TypeTag::Vector(inner) => inner.wf(),
            TypeTag::Struct(s) => s.wf(),
            _ => true,
        }
    }
}

/// Every tag in a list is well-formed.
pub open spec fn all_tags_wf(ts: Seq<TypeTag>) -> bool
    decreases ts,
{
    ts.len() == 0 || (ts[0].wf() && all_tags_wf(ts.drop_first()))
}

/// Each element of a well-formed list is well-formed.
pub proof fn lemma_all_tags_wf_index(ts: Seq<TypeTag>, i: int)
    requires
        all_tags_wf(ts),
        0 <= i < ts.len(),
    ensures
        ts[i].wf(),
    decreases i,
{
    if i > 0 {
        lemma_all_tags_wf_index(ts.drop_first(), i - 1);
    }
}

/// A list whose elements are all well-formed is a well-formed list.
pub proof fn lemma_all_tags_wf_intro(ts: Seq<TypeTag>)
    requires
        forall|i: int| 0 <= i < ts.len() ==> #[trigger] ts[i].wf(),
    ensures
        all_tags_wf(ts),
    decreases ts.len(),
{
    if ts.len() > 0 {
        assert(ts[0].wf());
        assert forall|i: int| 0 <= i < ts.drop_first().len() implies #[trigger] ts.drop_first()[
            i
        ].wf() by {
            assert(ts.drop_first()[i] == ts[i + 1]);
        }
        lemma_all_tags_wf_intro(ts.drop_first());
    }
}

impl StructTag {
    /// A well-formed struct tag.
    pub open spec fn wf(&self) -> bool
        decreases self,
    {
        self.address.wf() && self.module.wf() && self.name.wf() && all_tags_wf(self.type_params@)
    }
}

} // verus!

verus! {

/// The text rendering of a type tag: primitive names, `vector<T>`, or a
/// fully qualified struct tag.
pub open spec fn type_tag_str(t: TypeTag) -> Seq<char>
    decreases t, 0nat,
{
    match t {
        TypeTag::Bool => seq!['b', 'o', 'o', 'l'],
        TypeTag::U8 => seq!['u', '8'],
        TypeTag::U64 => seq!['u', '6', '4'],
        TypeTag::U128 => seq!['u', '1', '2', '8'],
        TypeTag::Address => seq!['a', 'd', 'd', 'r', 'e', 's', 's'],
        TypeTag::Signer => seq!['s', 'i', 'g', 'n', 'e', 'r'],
        TypeTag::Vector(inner) => seq!['v', 'e', 'c', 't', 'o', 'r', '<'] + type_tag_str(*inner)
            + seq!['>'],
        TypeTag::Struct(s) => struct_tag_str(s),
    }
}

/// The text rendering of a struct tag:
/// `address::module::name` with `<...>` type parameters when present.
pub open spec fn struct_tag_str(s: StructTag) -> Seq<char>
    decreases s, 1nat,
{
    crate::ids::addr_literal_of(s.address@) + seq![':', ':'] + s.module@ + seq![':', ':'] + s.name@
        + (if s.type_params@.len() == 0 {
        Seq::<char>::empty()
    } else {
        seq!['<'] + tags_join(s.type_params@) + seq!['>']
    })
}

/// Type tags joined with `, ` between neighbours.
pub open spec fn tags_join(ts: Seq<TypeTag>) -> Seq<char>
    decreases ts, 0nat,
{
    if ts.len() == 0 {
        Seq::empty()
    } else if ts.len() == 1 {
        type_tag_str(ts[0])
    } else {
        type_tag_str(ts[0]) + seq![',', ' '] + tags_join(ts.drop_first())
    }
}

/// Renders the type tags from index `i` on, joined with `, `.
fn tags_join_from(ts: &Vec<TypeTag>, i: usize) -> (r: String)
    requires
        i <= ts@.len(),
        all_tags_wf(ts@),
    ensures
        r@ == tags_join(ts@.skip(i as int)),
    decreases ts@, 0nat, ts@.len() - i,
{
    proof {
        reveal_strlit(", ");
    }
    if i >= ts.len() {
        let out = String::new();
        proof {
            assert(ts@.skip(i as int) =~= Seq::<TypeTag>::empty());
        }
        out
    } else if i + 1 == ts.len() {
        proof {
            lemma_all_tags_wf_index(ts@, i as int);
        }
        let out = ts[i].to_literal_string();
        proof {
            assert(ts@.skip(i as int).len() == 1);
            assert(ts@.skip(i as int)[0] == ts@[i as int]);
        }
        out
    } else {
        proof {
            lemma_all_tags_wf_index(ts@, i as int);
        }
        let mut out = ts[i].to_literal_string();
        out.append(", ");
        let tail = tags_join_from(ts, i + 1);
        out.append(tail.as_str());
        proof {
            let run = ts@.skip(i as int);
            assert(run[0] == ts@[i as int]);
            assert(run.drop_first() =~= ts@.skip(i + 1));
            assert(out@ =~= type_tag_str(run[0]) + seq![',', ' '] + tags_join(run.drop_first()));
        }
        out
    }
}

impl TypeTag {
    /// Renders the tag as text.
    pub fn to_literal_string(&self) -> (r: String)
        requires
            self.wf(),
        ensures
            r@ == type_tag_str(*self),
        decreases self, 0nat,
    {
        proof {
            reveal_strlit("bool");
            reveal_strlit("u8");
            reveal_strlit("u64");
            reveal_strlit("u128");
            reveal_strlit("address");
            reveal_strlit("signer");
            reveal_strlit("vector<");
            reveal_strlit(">");
        }
        match self {
            TypeTag::Bool => {
                let out = String::from_str("bool");
                proof {
                    assert(out@ =~= type_tag_str(*self));
                }
                out
            },
            TypeTag::U8 => {
                let out = String::from_str("u8");
                proof {
                    assert(out@ =~= type_tag_str(*self));
                }
                out
            },
            TypeTag::U64 => {
                let out = String::from_str("u64");
                proof {
                    assert(out@ =~= type_tag_str(*self));
                }
                out
            },
            TypeTag::U128 => {
                let out = String::from_str("u128");
                proof {
                    assert(out@ =~= type_tag_str(*self));
                }
                out
            },
            TypeTag::Address => {
                let out = String::from_str("address");
                proof {
                    assert(out@ =~= type_tag_str(*self));
                }
                out
            },
            TypeTag::Signer => {
                let out = String::from_str("signer");
                proof {
                    assert(out@ =~= type_tag_str(*self));
                }
                out
            },
            TypeTag::Vector(inner) => {
                let mut out = String::from_str("vector<");
                let body = inner.to_literal_string();
                out.append(body.as_str());
                out.append(">");
                proof {
                    assert(out@ =~= type_tag_str(*self));
                }
                out
            },
            TypeTag::Struct(s) => s.to_literal_string(),
        }
    }
}

impl StructTag {
    /// Renders the tag as text.
    pub fn to_literal_string(&self) -> (r: String)
        requires
            self.wf(),
        ensures
            r@ == struct_tag_str(*self),
        decreases self, 1nat,
    {
        proof {
            reveal_strlit("::");
            reveal_strlit("<");
            reveal_strlit(">");
        }
        let mut out = self.address.to_literal_string();
        out.append("::");
        out.append(self.module.as_str());
        out.append("::");
        out.append(self.name.as_str());
        if self.type_params.len() > 0 {
            out.append("<");
            let params = tags_join_from(&self.type_params, 0);
            out.append(params.as_str());
            out.append(">");
            proof {
                assert(self.type_params@.skip(0) =~= self.type_params@);
                assert(out@ =~= struct_tag_str(*self));
            }
        } else {
            proof {
                assert(out@ =~= struct_tag_str(*self));
            }
        }
        out
    }
}

} // verus!

verus! {

/// The mathematical model of a type tag: a primitive, a vector around an
/// inner tag (carried as the single element of the sequence), or a struct
/// tag as address bytes, module name, struct name, and type parameters.
pub ghost enum TagModel {
    Bool,
    U8,
    U64,
    U128,
    Address,
    Signer,
    Vector(Seq<TagModel>),
    Struct(Seq<u8>, Seq<char>, Seq<char>, Seq<TagModel>),
}

/// The model of a tag.
pub open spec fn tag_model(t: TypeTag) -> TagModel
    decreases t, 0nat,
{
    match t {
        TypeTag::Bool => TagModel::Bool,
        TypeTag::U8 => TagModel::U8,
        TypeTag::U64 => TagModel::U64,
        TypeTag::U128 => TagModel::U128,
        TypeTag::Address => TagModel::Address,
        TypeTag::Signer => TagModel::Signer,
        TypeTag::Vector(inner) => TagModel::Vector(seq![tag_model(*inner)]),
        TypeTag::Struct(s) => TagModel::Struct(
            s.address@,
            s.module@,
            s.name@,
            params_model(s.type_params@),
        ),
    }
}

/// The models of a list of tags.
pub open spec fn params_model(ts: Seq<TypeTag>) -> Seq<TagModel>
    decreases ts, 1nat,
{
    if ts.len() == 0 {
        Seq::empty()
    } else {
        seq![tag_model(ts[0])] + params_model(ts.drop_first())
    }
}

/// The opening characters of a vector tag.
pub open spec fn vector_open() -> Seq<char> {
    seq!['v', 'e', 'c', 't', 'o', 'r', '<']
}

/// A character that ends a run of tag-head text: the bracket and comma
/// punctuation of the tag grammar.
pub open spec fn is_tag_delim(c: char) -> bool {
    c == '<' || c == '>' || c == ','
}

/// Index of the first delimiter at or after `i`, or the length when there
/// is none.
pub open spec fn first_delim_at(s: Seq<char>, i: int) -> int
    decreases s.len() - i,
{
    if i >= s.len() {
        i
    } else if i >= 0 && is_tag_delim(s[i]) {
        i
    } else {
        first_delim_at(s, i + 1)
    }
}

/// The literal occurs at position `i`.
pub open spec fn has_str_at(s: Seq<char>, i: int, lit: Seq<char>) -> bool {
    0 <= i && i + lit.len() <= s.len() && s.subrange(i, i + lit.len()) == lit
}

/// Parses one tag starting at `i`: the model and the position just past
/// it. A primitive name is read off directly; `vector<` opens a nested
/// tag that must close with `>`; anything else is a struct tag — the text
/// up to the next delimiter as `address::module::name`, then an optional
/// `<`-bracketed parameter list.
pub open spec fn parse_tag_at(s: Seq<char>, i: int) -> Option<(TagModel, int)>
    decreases s.len() - i, 0nat,
{
    if has_str_at(s, i, type_tag_str(TypeTag::Bool)) {
        Some((TagModel::Bool, i + 4))
    } else if has_str_at(s, i, type_tag_str(TypeTag::U8)) {
        Some((TagModel::U8, i + 2))
    } else if has_str_at(s, i, type_tag_str(TypeTag::U64)) {
        Some((TagModel::U64, i + 3))
    } else if has_str_at(s, i, type_tag_str(TypeTag::U128)) {
        Some((TagModel::U128, i + 4))
    } else if has_str_at(s, i, type_tag_str(TypeTag::Address)) {
        Some((TagModel::Address, i + 7))
    } else if has_str_at(s, i, type_tag_str(TypeTag::Signer)) {
        Some((TagModel::Signer, i + 6))
    } else if has_str_at(s, i, vector_open()) {
        match parse_tag_at(s, i + 7) {
            Some((m, j)) => if j < s.len() && s[j] == '>' {
                Some((TagModel::Vector(seq![m]), j + 1))
            } else {
                None
            },
            None => None,
        }
    } else {
        let e = first_delim_at(s, i);
        if e <= i || e > s.len() {
            None
        } else {
            match crate::ids::parse_function_id_spec(s.subrange(i, e)) {
                Some(p) => if e < s.len() && s[e] == '<' {
                    match parse_params_at(s, e + 1) {
                        Some((ps, k)) => if k < s.len() && s[k] == '>' {
                            Some((TagModel::Struct(p.0.0, p.0.1, p.1, ps), k + 1))
                        } else {
                            None
                        },
                        None => None,
                    }
                } else {
                    Some((TagModel::Struct(p.0.0, p.0.1, p.1, Seq::empty()), e))
                },
                None => None,
            }
        }
    }
}

/// Parses a `, `-separated run of tags starting at `i`, up to but not
/// consuming the closing `>`.
pub open spec fn parse_params_at(s: Seq<char>, i: int) -> Option<(Seq<TagModel>, int)>
    decreases s.len() - i, 1nat,
{
    match parse_tag_at(s, i) {
        Some((m, j)) => if j <= i || j > s.len() {
            None
        } else if j < s.len() && s[j] == '>' {
            Some((seq![m], j))
        } else if j + 2 <= s.len() && s[j] == ',' && s[j + 1] == ' ' {
            match parse_params_at(s, j + 2) {
                Some((rest, k)) => Some((seq![m] + rest, k)),
                None => None,
            }
        } else {
            None
        },
        None => None,
    }
}

/// What tag a whole string denotes: one tag, consuming all of it.
pub open spec fn parse_tag_spec(s: Seq<char>) -> Option<TagModel> {
    match parse_tag_at(s, 0) {
        Some(p) => if p.1 == s.len() {
            Some(p.0)
        } else {
            None
        },
        None => None,
    }
}

} // verus!

verus! {

/// Whether a character is tag punctuation.
fn tag_delim(c: char) -> (r: bool)
    ensures
        r == is_tag_delim(c),
{
    c == '<' || c == '>' || c == ','
}

/// Whether the literal occurs at position `i`.
fn str_at(s: &str, i: usize, lit: &str) -> (r: bool)
    requires
        i <= s@.len(),
    ensures
        r == has_str_at(s@, i as int, lit@),
{
    let n = s.unicode_len();
    let m = lit.unicode_len();
    if m > n - i {
        return false;
    }
    let sub = s.substring_char(i, i + m);
    proof {
        assert(sub@ =~= s@.subrange(i as int, i + m as int));
    }
    sub.to_owned() == lit.to_owned()
}

/// A scan that stops at the first delimiter finds exactly
/// `first_delim_at`.
proof fn lemma_first_delim_from(s: Seq<char>, i: int, e: int)
    requires
        0 <= i <= e <= s.len(),
        forall|k: int| i <= k < e ==> !is_tag_delim(#[trigger] s[k]),
        e < s.len() ==> is_tag_delim(s[e]),
    ensures
        first_delim_at(s, i) == e,
    decreases e - i,
{
    if i < e {
        assert(!is_tag_delim(s[i]));
        lemma_first_delim_from(s, i + 1, e);
    }
}

/// Parses one tag starting at `i`, returning it and the position just
/// past it.
fn parse_tag_from(s: &str, i: usize) -> (r: Result<(TypeTag, usize), PipelineError>)
    requires
        i <= s@.len(),
    ensures
        match r {
            Ok(p) => p.0.wf() && i < p.1 && p.1 <= s@.len() && parse_tag_at(s@, i as int) == Some(
                (tag_model(p.0), p.1 as int),
            ),
            Err(e) => parse_tag_at(s@, i as int) is None && e == PipelineError::DecodeError,
        },
    decreases s@.len() - i, 0nat,
{
    proof {
        reveal_strlit("bool");
        reveal_strlit("u8");
        reveal_strlit("u64");
        reveal_strlit("u128");
        reveal_strlit("address");
        reveal_strlit("signer");
        reveal_strlit("vector<");
        assert("bool"@ =~= type_tag_str(TypeTag::Bool));
        assert("u8"@ =~= type_tag_str(TypeTag::U8));
        assert("u64"@ =~= type_tag_str(TypeTag::U64));
        assert("u128"@ =~= type_tag_str(TypeTag::U128));
        assert("address"@ =~= type_tag_str(TypeTag::Address));
        assert("signer"@ =~= type_tag_str(TypeTag::Signer));
        assert("vector<"@ =~= vector_open());
    }
    let n = s.unicode_len();
    if str_at(s, i, "bool") {
        return Ok((TypeTag::Bool, i + 4));
    }
    if str_at(s, i, "u8") {
        return Ok((TypeTag::U8, i + 2));
    }
    if str_at(s, i, "u64") {
        return Ok((TypeTag::U64, i + 3));
    }
    if str_at(s, i, "u128") {
        return Ok((TypeTag::U128, i + 4));
    }
    if str_at(s, i, "address") {
        return Ok((TypeTag::Address, i + 7));
    }
    if str_at(s, i, "signer") {
        return Ok((TypeTag::Signer, i + 6));
    }
    if str_at(s, i, "vector<") {
        match parse_tag_from(s, i + 7) {
            Ok((t, j)) => {
                if j < n && s.get_char(j) == '>' {
                    let inner = Box::new(t);
                    let result = TypeTag::Vector(inner);
                    proof {
                        assert(result.wf());
                        assert(tag_model(result) == TagModel::Vector(seq![tag_model(t)]));
                    }
                    return Ok((result, j + 1));
                }
                return Err(PipelineError::DecodeError);
            },
            Err(e) => {
                return Err(e);
            },
        }
    }
    let mut e: usize = i;
    while e < n && !tag_delim(s.get_char(e))
        invariant
            i <= e <= n,
            n == s@.len(),
            forall|k: int| i <= k < e ==> !is_tag_delim(#[trigger] s@[k]),
        decreases n - e,
    {
        e = e + 1;
    }
    proof {
        lemma_first_delim_from(s@, i as int, e as int);
    }
    if e <= i {
        return Err(PipelineError::DecodeError);
    }
    let head = s.substring_char(i, e);
    proof {
        assert(head@ =~= s@.subrange(i as int, e as int));
    }
    match crate::ids::FunctionId::parse(head) {
        Err(_) => Err(PipelineError::DecodeError),
        Ok(f) => {
            let crate::ids::FunctionId { module, function } = f;
            let crate::ids::ModuleId { address, name } = module;
            proof {
                assert(address.wf());
                assert(name.wf());
                assert(function.wf());
            }
            if e < n && s.get_char(e) == '<' {
                match parse_params_from(s, e + 1) {
                    Err(_) => Err(PipelineError::DecodeError),
                    Ok((params, k)) => {
                        if k < n && s.get_char(k) == '>' {
                            let st = StructTag {
                                address,
                                module: name,
                                name: function,
                                type_params: params,
                            };
                            proof {
                                assert(st.address.wf() && st.module.wf() && st.name.wf()
                                    && all_tags_wf(st.type_params@));
                                assert(st.wf());
                            }
                            let t = TypeTag::Struct(st);
                            proof {
                                assert(t.wf());
                            }
                            Ok((t, k + 1))
                        } else {
                            Err(PipelineError::DecodeError)
                        }
                    },
                }
            } else {
                let params: Vec<TypeTag> = Vec::new();
                proof {
                    assert(params@.len() == 0);
                    assert(all_tags_wf(params@));
                    assert(params_model(params@) =~= Seq::<TagModel>::empty());
                }
                let st = StructTag { address, module: name, name: function, type_params: params };
                proof {
                    assert(st.address.wf() && st.module.wf() && st.name.wf() && all_tags_wf(
                        st.type_params@,
                    ));
                    assert(st.wf());
                }
                let t = TypeTag::Struct(st);
                proof {
                    assert(t.wf());
                }
                Ok((t, e))
            }
        },
    }
}

/// Parses a `, `-separated run of tags starting at `i`, stopping before
/// the closing `>`.
fn parse_params_from(s: &str, i: usize) -> (r: Result<(Vec<TypeTag>, usize), PipelineError>)
    requires
        i <= s@.len(),
    ensures
        match r {
            Ok(p) => all_tags_wf(p.0@) && i < p.1 && p.1 <= s@.len() && parse_params_at(
                s@,
                i as int,
            ) == Some((params_model(p.0@), p.1 as int)),
            Err(e) => parse_params_at(s@, i as int) is None && e == PipelineError::DecodeError,
        },
    decreases s@.len() - i, 1nat,
{
    let n = s.unicode_len();
    match parse_tag_from(s, i) {
        Err(e) => Err(e),
        Ok((t, j)) => {
            if j < n && s.get_char(j) == '>' {
                let mut v: Vec<TypeTag> = Vec::new();
                v.push(t);
                proof {
                    assert(v@ =~= seq![t]);
                    assert(v@[0] == t);
                    assert(v@.drop_first() =~= Seq::<TypeTag>::empty());
                    assert(all_tags_wf(Seq::<TypeTag>::empty()));
                    assert(all_tags_wf(v@));
                    assert(params_model(Seq::<TypeTag>::empty()) =~= Seq::<TagModel>::empty());
                    assert(params_model(v@) =~= seq![tag_model(t)]);
                }
                Ok((v, j))
            } else if j < n && s.get_char(j) == ',' && j + 1 < n && s.get_char(j + 1) == ' ' {
                match parse_params_from(s, j + 2) {
                    Err(e) => Err(e),
                    Ok((rest, k)) => {
                        let mut v = rest;
                        let ghost tails = v@;
                        v.insert(0, t);
                        proof {
                            assert(v@[0] == t);
                            assert(v@.drop_first() =~= tails);
                            assert(all_tags_wf(v@));
                            assert(params_model(v@) =~= seq![tag_model(t)] + params_model(tails));
                        }
                        Ok((v, k))
                    },
                }
            } else {
                Err(PipelineError::DecodeError)
            }
        },
    }
}

impl TypeTag {
    /// Parses a type tag: a primitive name, `vector<...>` nesting, or a
    /// struct tag `address::module::name` with an optional `<...>` list of
    /// type parameters separated by `, `. The whole string must be one
    /// tag in the canonical rendering.
    pub fn parse(s: &str) -> (r: Result<TypeTag, PipelineError>)
        ensures
            match r {
                Ok(t) => t.wf() && parse_tag_spec(s@) == Some(tag_model(t)),
                Err(e) => parse_tag_spec(s@) is None && e == PipelineError::DecodeError,
            },
    {
        let n = s.unicode_len();
        match parse_tag_from(s, 0) {
            Ok((t, j)) => {
                if j == n {
                    Ok(t)
                } else {
                    Err(PipelineError::DecodeError)
                }
            },
            Err(e) => Err(e),
        }
    }
}

} // verus!

verus! {

/// Every rendering is at least two characters long.
proof fn lemma_type_tag_str_len(t: TypeTag)
    ensures
        type_tag_str(t).len() >= 2,
{
    match t {
        TypeTag::Struct(s) => {
            assert(type_tag_str(t) == struct_tag_str(s));
            assert(crate::ids::addr_literal_of(s.address@).len() >= 3);
            assert(struct_tag_str(s).len() >= crate::ids::addr_literal_of(s.address@).len());
        },
        _ => {},
    }
}

/// A joined non-empty run of tags is at least two characters long.
proof fn lemma_tags_join_len(ts: Seq<TypeTag>)
    requires
        ts.len() > 0,
    ensures
        tags_join(ts).len() >= type_tag_str(ts[0]).len(),
        tags_join(ts).len() >= 2,
{
    lemma_type_tag_str_len(ts[0]);
}

/// No character of a rendered function reference is tag punctuation.
proof fn lemma_fid_no_delim(addr: Seq<u8>, mname: Seq<char>, fname: Seq<char>)
    requires
        addr.len() == 16,
        crate::ids::is_identifier(mname),
        crate::ids::is_identifier(fname),
    ensures
        forall|k: int|
            0 <= k < crate::ids::function_id_str(addr, mname, fname).len() ==> !is_tag_delim(
                #[trigger] crate::ids::function_id_str(addr, mname, fname)[k],
            ),
{
    let a = crate::ids::addr_literal_of(addr);
    let fid = crate::ids::function_id_str(addr, mname, fname);
    crate::ids::lemma_addr_literal_chars(addr);
    assert(fid =~= a + seq![':', ':'] + mname + seq![':', ':'] + fname);
    assert forall|k: int| 0 <= k < fid.len() implies !is_tag_delim(#[trigger] fid[k]) by {
        let al = a.len() as int;
        let ml = mname.len() as int;
        if k < al {
            assert(fid[k] == a[k]);
            assert(a[k] == 'x' || crate::codec::is_hex_digit(a[k]));
        } else if k < al + 2 {
            assert(fid[k] == ':');
        } else if k < al + 2 + ml {
            assert(fid[k] == mname[k - al - 2]);
            assert(crate::ids::is_ident_char(mname[k - al - 2]));
        } else if k < al + 4 + ml {
            assert(fid[k] == ':');
        } else {
            assert(fid[k] == fname[k - al - 4 - ml]);
            assert(crate::ids::is_ident_char(fname[k - al - 4 - ml]));
        }
    }
}

/// At a position whose first character none of the primitive names or
/// `vector<` can start, none of those prefixes occur.
proof fn lemma_prefixes_fail(s: Seq<char>, i: int, c: char)
    requires
        0 <= i < s.len(),
        s[i] == c,
        c != 'b' && c != 'u' && c != 'a' && c != 's' && c != 'v',
    ensures
        !has_str_at(s, i, type_tag_str(TypeTag::Bool)),
        !has_str_at(s, i, type_tag_str(TypeTag::U8)),
        !has_str_at(s, i, type_tag_str(TypeTag::U64)),
        !has_str_at(s, i, type_tag_str(TypeTag::U128)),
        !has_str_at(s, i, type_tag_str(TypeTag::Address)),
        !has_str_at(s, i, type_tag_str(TypeTag::Signer)),
        !has_str_at(s, i, vector_open()),
{
    if has_str_at(s, i, type_tag_str(TypeTag::Bool)) {
        assert(s.subrange(i, i + 4)[0] == 'b');
    }
    if has_str_at(s, i, type_tag_str(TypeTag::U8)) {
        assert(s.subrange(i, i + 2)[0] == 'u');
    }
    if has_str_at(s, i, type_tag_str(TypeTag::U64)) {
        assert(s.subrange(i, i + 3)[0] == 'u');
    }
    if has_str_at(s, i, type_tag_str(TypeTag::U128)) {
        assert(s.subrange(i, i + 4)[0] == 'u');
    }
    if has_str_at(s, i, type_tag_str(TypeTag::Address)) {
        assert(s.subrange(i, i + 7)[0] == 'a');
    }
    if has_str_at(s, i, type_tag_str(TypeTag::Signer)) {
        assert(s.subrange(i, i + 6)[0] == 's');
    }
    if has_str_at(s, i, vector_open()) {
        assert(s.subrange(i, i + 7)[0] == 'v');
    }
}

/// Parsing at a position where a primitive tag's rendering lies yields
/// that primitive.
proof fn lemma_parse_prim_at(s: Seq<char>, i: int, t: TypeTag)
    requires
        !(t is Vector),
        !(t is Struct),
        0 <= i,
        i + type_tag_str(t).len() <= s.len(),
        s.subrange(i, i + type_tag_str(t).len()) == type_tag_str(t),
    ensures
        parse_tag_at(s, i) == Some((tag_model(t), i + type_tag_str(t).len())),
{
    let r = type_tag_str(t);
    let ll = r.len() as int;
    assert forall|k: int| 0 <= k < ll implies s[i + k] == r[k] by {
        assert(s.subrange(i, i + ll)[k] == s[i + k]);
    }
    match t {
        TypeTag::Bool => {
            assert(has_str_at(s, i, type_tag_str(TypeTag::Bool)));
        },
        TypeTag::U8 => {
            assert(s[i + 0] == 'u');
            if has_str_at(s, i, type_tag_str(TypeTag::Bool)) {
                assert(s.subrange(i, i + 4)[0] == 'b');
            }
            assert(has_str_at(s, i, type_tag_str(TypeTag::U8)));
        },
        TypeTag::U64 => {
            assert(s[i + 0] == 'u' && s[i + 1] == '6');
            if has_str_at(s, i, type_tag_str(TypeTag::Bool)) {
                assert(s.subrange(i, i + 4)[0] == 'b');
            }
            if has_str_at(s, i, type_tag_str(TypeTag::U8)) {
                assert(s.subrange(i, i + 2)[1] == '8');
            }
            assert(has_str_at(s, i, type_tag_str(TypeTag::U64)));
        },
        TypeTag::U128 => {
            assert(s[i + 0] == 'u' && s[i + 1] == '1');
            if has_str_at(s, i, type_tag_str(TypeTag::Bool)) {
                assert(s.subrange(i, i + 4)[0] == 'b');
            }
            if has_str_at(s, i, type_tag_str(TypeTag::U8)) {
                assert(s.subrange(i, i + 2)[1] == '8');
            }
            if has_str_at(s, i, type_tag_str(TypeTag::U64)) {
                assert(s.subrange(i, i + 3)[1] == '6');
            }
            assert(has_str_at(s, i, type_tag_str(TypeTag::U128)));
        },
        TypeTag::Address => {
            assert(s[i + 0] == 'a');
            if has_str_at(s, i, type_tag_str(TypeTag::Bool)) {
                assert(s.subrange(i, i + 4)[0] == 'b');
            }
            if has_str_at(s, i, type_tag_str(TypeTag::U8)) {
                assert(s.subrange(i, i + 2)[0] == 'u');
            }
            if has_str_at(s, i, type_tag_str(TypeTag::U64)) {
                assert(s.subrange(i, i + 3)[0] == 'u');
            }
            if has_str_at(s, i, type_tag_str(TypeTag::U128)) {
                assert(s.subrange(i, i + 4)[0] == 'u');
            }
            assert(has_str_at(s, i, type_tag_str(TypeTag::Address)));
        },
        TypeTag::Signer => {
            assert(s[i + 0] == 's');
            if has_str_at(s, i, type_tag_str(TypeTag::Bool)) {
                assert(s.subrange(i, i + 4)[0] == 'b');
            }
            if has_str_at(s, i, type_tag_str(TypeTag::U8)) {
                assert(s.subrange(i, i + 2)[0] == 'u');
            }
            if has_str_at(s, i, type_tag_str(TypeTag::U64)) {
                assert(s.subrange(i, i + 3)[0] == 'u');
            }
            if has_str_at(s, i, type_tag_str(TypeTag::U128)) {
                assert(s.subrange(i, i + 4)[0] == 'u');
            }
            if has_str_at(s, i, type_tag_str(TypeTag::Address)) {
                assert(s.subrange(i, i + 7)[0] == 'a');
            }
            assert(has_str_at(s, i, type_tag_str(TypeTag::Signer)));
        },
        TypeTag::Vector(_) => {},
        TypeTag::Struct(_) => {},
    }
}

/// Parsing at a position where a struct tag's rendering lies, followed by
/// a comma, a closing bracket, or the end, yields that struct tag.
proof fn lemma_parse_struct_at(s: Seq<char>, i: int, st: StructTag)
    requires
        st.wf(),
        0 <= i,
        i + struct_tag_str(st).len() <= s.len(),
        s.subrange(i, i + struct_tag_str(st).len()) == struct_tag_str(st),
        i + struct_tag_str(st).len() == s.len() || s[i + struct_tag_str(st).len()] == ',' || s[i
            + struct_tag_str(st).len()] == '>',
    ensures
        parse_tag_at(s, i) == Some(
            (tag_model(TypeTag::Struct(st)), i + struct_tag_str(st).len()),
        ),
    decreases st, 2nat,
{
    let r = struct_tag_str(st);
    let ll = r.len() as int;
    assert forall|k: int| 0 <= k < ll implies s[i + k] == r[k] by {
        assert(s.subrange(i, i + ll)[k] == s[i + k]);
    }
    assert(st.address.wf() && st.module.wf() && st.name.wf() && all_tags_wf(st.type_params@));
    let a = crate::ids::addr_literal_of(st.address@);
    let fid = crate::ids::function_id_str(st.address@, st.module@, st.name@);
    let fl = fid.len() as int;
    assert(a.len() >= 3);
    assert(a[0] == '0');
    assert(fid[0] == a[0]);
    let params = st.type_params@;
    if params.len() == 0 {
        assert(r =~= fid);
    } else {
        assert(r =~= fid + seq!['<'] + tags_join(params) + seq!['>']);
    }
    assert(r[0] == fid[0]);
    assert(s[i + 0] == '0');
    lemma_prefixes_fail(s, i, '0');
    // the delimiter scan stops exactly at the end of the head
    lemma_fid_no_delim(st.address@, st.module@, st.name@);
    assert forall|k: int| i <= k < i + fl implies !is_tag_delim(#[trigger] s[k]) by {
        assert(s[k] == r[k - i]);
        assert(r[k - i] == fid[k - i]);
    }
    if params.len() == 0 {
        assert(i + fl == s.len() || is_tag_delim(s[i + fl]));
    } else {
        assert(s[i + fl] == r[fl]);
        assert(r[fl] == '<');
    }
    lemma_first_delim_from(s, i, i + fl);
    let e = i + fl;
    assert(first_delim_at(s, i) == e);
    assert(e > i);
    assert(s.subrange(i, e) =~= fid);
    crate::ids::lemma_function_id_round_trip(st.address@, st.module@, st.name@);
    assert(crate::ids::parse_function_id_spec(s.subrange(i, e)) == Some(
        ((st.address@, st.module@), st.name@),
    ));
    if params.len() == 0 {
        assert(!(e < s.len() && s[e] == '<'));
        assert(params_model(params) =~= Seq::<TagModel>::empty());
        assert(tag_model(TypeTag::Struct(st)) == TagModel::Struct(
            st.address@,
            st.module@,
            st.name@,
            params_model(params),
        ));
        assert(parse_tag_at(s, i) == Some((tag_model(TypeTag::Struct(st)), e)));
    } else {
        let join = tags_join(params);
        let jl = join.len() as int;
        assert(ll == fl + 2 + jl);
        assert(s[e] == '<');
        assert(e < s.len());
        assert(s.subrange(e + 1, e + 1 + jl) =~= join) by {
            assert forall|k: int|
                0 <= k < jl implies s.subrange(e + 1, e + 1 + jl)[k] == join[k] by {
                assert(s[e + 1 + k] == r[fl + 1 + k]);
                assert(r[fl + 1 + k] == join[k]);
            }
        }
        assert(s[e + 1 + jl] == '>') by {
            assert(r[fl + 1 + jl] == '>');
        }
        assert(e + 1 + jl < s.len());
        lemma_parse_params_render(s, e + 1, params);
        assert(parse_params_at(s, e + 1) == Some((params_model(params), e + 1 + jl)));
        assert(tag_model(TypeTag::Struct(st)) == TagModel::Struct(
            st.address@,
            st.module@,
            st.name@,
            params_model(params),
        ));
        assert(parse_tag_at(s, i) == Some((tag_model(TypeTag::Struct(st)), i + ll)));
    }
}

/// Parsing at a position where a tag's rendering lies, followed by a
/// comma, a closing bracket, or the end, yields that tag's model and
/// advances exactly past the rendering.
proof fn lemma_parse_tag_at_render(s: Seq<char>, i: int, t: TypeTag)
    requires
        t.wf(),
        0 <= i,
        i + type_tag_str(t).len() <= s.len(),
        s.subrange(i, i + type_tag_str(t).len()) == type_tag_str(t),
        i + type_tag_str(t).len() == s.len() || s[i + type_tag_str(t).len()] == ',' || s[i
            + type_tag_str(t).len()] == '>',
    ensures
        parse_tag_at(s, i) == Some((tag_model(t), i + type_tag_str(t).len())),
    decreases t, 3nat,
{
    let r = type_tag_str(t);
    let ll = r.len() as int;
    assert forall|k: int| 0 <= k < ll implies s[i + k] == r[k] by {
        assert(s.subrange(i, i + ll)[k] == s[i + k]);
    }
    match t {
        TypeTag::Vector(inner) => {
            let rin = type_tag_str(*inner);
            let il = rin.len() as int;
            assert(r =~= vector_open() + rin + seq!['>']);
            assert(ll == 8 + il);
            assert(r[0] == 'v') by {
                assert((vector_open() + rin + seq!['>'])[0] == vector_open()[0]);
            }
            assert(s[i + 0] == 'v');
            if has_str_at(s, i, type_tag_str(TypeTag::Bool)) {
                assert(s.subrange(i, i + 4)[0] == 'b');
            }
            if has_str_at(s, i, type_tag_str(TypeTag::U8)) {
                assert(s.subrange(i, i + 2)[0] == 'u');
            }
            if has_str_at(s, i, type_tag_str(TypeTag::U64)) {
                assert(s.subrange(i, i + 3)[0] == 'u');
            }
            if has_str_at(s, i, type_tag_str(TypeTag::U128)) {
                assert(s.subrange(i, i + 4)[0] == 'u');
            }
            if has_str_at(s, i, type_tag_str(TypeTag::Address)) {
                assert(s.subrange(i, i + 7)[0] == 'a');
            }
            if has_str_at(s, i, type_tag_str(TypeTag::Signer)) {
                assert(s.subrange(i, i + 6)[0] == 's');
            }
            assert(has_str_at(s, i, vector_open())) by {
                assert(s.subrange(i, i + 7) =~= vector_open());
            }
            assert(inner.wf());
            assert(s.subrange(i + 7, i + 7 + il) =~= rin) by {
                assert forall|k: int| 0 <= k < il implies s.subrange(i + 7, i + 7 + il)[k] == rin[
                    k
                ] by {
                    assert(s[i + 7 + k] == r[7 + k]);
                    assert(r[7 + k] == rin[k]);
                }
            }
            assert(s[i + 7 + il] == '>') by {
                assert(r[7 + il] == '>');
            }
            lemma_parse_tag_at_render(s, i + 7, *inner);
            assert(parse_tag_at(s, i + 7) == Some((tag_model(*inner), i + 7 + il)));
            assert(i + 7 + il < s.len());
            assert(tag_model(t) == TagModel::Vector(seq![tag_model(*inner)]));
            assert(parse_tag_at(s, i) == Some((tag_model(t), i + ll)));
        },
        TypeTag::Struct(st) => {
            assert(st.wf());
            assert(r == struct_tag_str(st));
            lemma_parse_struct_at(s, i, st);
        },
        _ => {
            lemma_parse_prim_at(s, i, t);
        },
    }
}

/// Parsing at a position where a joined run of tag renderings lies,
/// followed by the closing bracket, yields their models and stops at the
/// bracket.
proof fn lemma_parse_params_render(s: Seq<char>, i: int, ts: Seq<TypeTag>)
    requires
        all_tags_wf(ts),
        ts.len() > 0,
        0 <= i,
        i + tags_join(ts).len() < s.len(),
        s.subrange(i, i + tags_join(ts).len()) == tags_join(ts),
        s[i + tags_join(ts).len()] == '>',
    ensures
        parse_params_at(s, i) == Some((params_model(ts), i + tags_join(ts).len())),
    decreases ts, 1nat,
{
    let join = tags_join(ts);
    let jl = join.len() as int;
    let t0 = ts[0];
    let r0 = type_tag_str(t0);
    let l0 = r0.len() as int;
    lemma_all_tags_wf_index(ts, 0);
    lemma_type_tag_str_len(t0);
    assert forall|k: int| 0 <= k < jl implies s[i + k] == join[k] by {
        assert(s.subrange(i, i + jl)[k] == s[i + k]);
    }
    if ts.len() == 1 {
        assert(join == r0);
        assert(s.subrange(i, i + l0) =~= r0);
        lemma_parse_tag_at_render(s, i, t0);
        assert(parse_tag_at(s, i) == Some((tag_model(t0), i + l0)));
        assert(params_model(ts) =~= seq![tag_model(t0)]) by {
            assert(ts.drop_first().len() == 0);
            assert(params_model(ts.drop_first()) =~= Seq::<TagModel>::empty());
        }
        assert(parse_params_at(s, i) == Some((params_model(ts), i + jl)));
    } else {
        let rest = ts.drop_first();
        let join2 = tags_join(rest);
        let jl2 = join2.len() as int;
        assert(join == r0 + seq![',', ' '] + join2);
        assert(jl == l0 + 2 + jl2);
        lemma_tags_join_len(rest);
        assert(s.subrange(i, i + l0) =~= r0) by {
            assert forall|k: int| 0 <= k < l0 implies s.subrange(i, i + l0)[k] == r0[k] by {
                assert(s[i + k] == join[k]);
                assert(join[k] == r0[k]);
            }
        }
        assert(s[i + l0] == ',') by {
            assert(join[l0] == ',');
        }
        lemma_parse_tag_at_render(s, i, t0);
        let j0 = i + l0;
        assert(parse_tag_at(s, i) == Some((tag_model(t0), j0)));
        assert(s[j0 + 1] == ' ') by {
            assert(join[l0 + 1] == ' ');
        }
        assert(s.subrange(j0 + 2, j0 + 2 + jl2) =~= join2) by {
            assert forall|k: int|
                0 <= k < jl2 implies s.subrange(j0 + 2, j0 + 2 + jl2)[k] == join2[k] by {
                assert(s[j0 + 2 + k] == join[l0 + 2 + k]);
                assert(join[l0 + 2 + k] == join2[k]);
            }
        }
        assert(s[j0 + 2 + jl2] == '>');
        assert(all_tags_wf(rest));
        lemma_parse_params_render(s, j0 + 2, rest);
        assert(parse_params_at(s, j0 + 2) == Some((params_model(rest), i + jl)));
        assert(params_model(ts) =~= seq![tag_model(t0)] + params_model(rest));
        assert(parse_params_at(s, i) == Some((params_model(ts), i + jl)));
    }
}

/// Round trip for type tags: the rendering of any well-formed tag —
/// primitives, nested vectors, and struct tags with or without type
/// parameters — parses back to the same tag.
pub proof fn lemma_type_tag_parse_round_trip(t: TypeTag)
    requires
        t.wf(),
    ensures
        parse_tag_spec(type_tag_str(t)) == Some(tag_model(t)),
{
    let s = type_tag_str(t);
    assert(s.subrange(0, s.len() as int) =~= s);
    lemma_parse_tag_at_render(s, 0, t);
}

} // verus!

verus! {

impl StructTag {
    /// Parses a struct tag, with or without type parameters. Any other
    /// well-formed tag — a primitive or a vector — is rejected, as is
    /// malformed text.
    pub fn parse(s: &str) -> (r: Result<StructTag, PipelineError>)
        ensures
            match r {
                Ok(st) => st.wf() && parse_tag_spec(s@) == Some(tag_model(TypeTag::Struct(st))),
                Err(e) => e == PipelineError::DecodeError && match parse_tag_spec(s@) {
                    Some(m) => !(m is Struct),
                    None => true,
                },
            },
    {
        match TypeTag::parse(s) {
            Ok(t) => {
                match t {
                    TypeTag::Struct(st) => {
                        proof {
                            assert(st.wf());
                        }
                        Ok(st)
                    },
                    TypeTag::Vector(inner) => {
                        proof {
                            assert(tag_model(TypeTag::Vector(inner)) is Vector);
                        }
                        Err(PipelineError::DecodeError)
                    },
                    TypeTag::Bool => Err(PipelineError::DecodeError),
                    TypeTag::U8 => Err(PipelineError::DecodeError),
                    TypeTag::U64 => Err(PipelineError::DecodeError),
                    TypeTag::U128 => Err(PipelineError::DecodeError),
                    TypeTag::Address => Err(PipelineError::DecodeError),
                    TypeTag::Signer => Err(PipelineError::DecodeError),
                }
            },
            Err(_) => Err(PipelineError::DecodeError),
        }
    }
}

} // verus!
