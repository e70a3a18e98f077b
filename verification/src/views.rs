//! Small wire-view building blocks shared by the larger views: the
//! string-rendered scalar wrapper, bare hex byte buffers, and the contract
//! call request shape.

use vstd::prelude::*;

use crate::codec::{bytes_of_hex, hex_encode, hex_str_of, is_hex_body, hex_decode_bare};
use crate::errors::PipelineError;
use crate::ids::{ByteCodeOrScriptFunction, FunctionId, ModuleId};
use crate::args::TransactionArgument;
use crate::typetag::{StructTag, TypeTag};

verus! {

/// Marks a value that travels as a string on the wire, so that decoders
/// limited to 53-bit safe integers cannot silently truncate it.
#[derive(Debug, Clone, Copy, PartialEq, Eq, Hash, PartialOrd, Ord, Structural)]
pub struct StrView<T>(pub T);

/// A module reference rendered as a string on the wire.
pub type ModuleIdView = StrView<ModuleId>;

/// A type tag rendered as a string on the wire.
pub type TypeTagView = StrView<TypeTag>;

/// A struct tag rendered as a string on the wire.
pub type StructTagView = StrView<StructTag>;

/// A call argument rendered as a string on the wire.
pub type TransactionArgumentView = StrView<TransactionArgument>;

/// A function reference rendered as a string on the wire.
pub type FunctionIdView = StrView<FunctionId>;

/// A byte buffer that travels as bare lowercase hex, without a prefix.
#[derive(Debug, PartialEq, Eq)]
pub struct BytesView {
    bytes: Vec<u8>,
}

impl View for BytesView {
    type V = Seq<u8>;

    closed spec fn view(&self) -> Seq<u8> {
        self.bytes@
    }
}

impl BytesView {
    /// Wraps raw bytes.
    pub fn new(bytes: Vec<u8>) -> (r: BytesView)
        ensures
            r@ == bytes@,
    {
        BytesView { bytes }
    }

    /// The bytes, consuming the view.
    pub fn into_inner(self) -> (r: Vec<u8>)
        ensures
            r@ == self@,
    {
        self.bytes
    }

    /// The bytes, borrowed.
    pub fn inner(&self) -> (r: &Vec<u8>)
        ensures
            r@ == self@,
    {
        &self.bytes
    }

    /// Renders the buffer as bare lowercase hex, two digits per byte.
    pub fn to_hex_text(&self) -> (r: String)
        ensures
            r@ == hex_str_of(self@),
    {
        hex_encode(&self.bytes)
    }

    /// Parses a buffer from bare hex digits; a `0x` prefix is not accepted
    /// here.
    pub fn parse(s: &str) -> (r: Result<BytesView, PipelineError>)
        ensures
            match r {
                Ok(v) => is_hex_body(s@) && v@ == bytes_of_hex(s@),
                Err(e) => !is_hex_body(s@) && e == PipelineError::DecodeError,
            },
    {
        match hex_decode_bare(s) {
            Ok(bytes) => Ok(BytesView { bytes }),
            Err(e) => Err(e),
        }
    }
}

/// A read-only contract call request: which function, with which type
/// arguments and which argument literals.
#[derive(Debug, PartialEq, Eq)]
pub struct ContractCall {
    pub function_id: FunctionId,
    pub type_args: Vec<TypeTag>,
    pub args: Vec<TransactionArgument>,
}

/// A request to open a local connection to the node.
#[derive(Debug, Clone, Copy, PartialEq, Eq, Structural)]
pub struct ConnectLocal;

} // verus!
