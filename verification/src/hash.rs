//! Content-addressed identifiers and fixed-width key material.
//!
//! A hash value is the 32-byte digest of a value's canonical serialization.
//! Computing a digest is the business of the cryptography collaborator
//! outside this library; here a digest is a value that is carried, compared
//! and rendered, with its width enforced.

use vstd::prelude::*;

use crate::codec::{
    bytes_of_hex, hex_encode_prefixed, hex_str_of, hex_decode, is_hex_body, strip_hex_prefix,
};
use crate::errors::PipelineError;

verus! {

/// The byte width of a hash value.
pub const HASH_LENGTH: usize = 32;

/// A 32-byte content-addressed identifier.
#[derive(Debug, PartialEq, Eq)]
pub struct HashValue {
    bytes: Vec<u8>,
}

impl View for HashValue {
    type V = Seq<u8>;

    closed spec fn view(&self) -> Seq<u8> {
        self.bytes@
    }
}

impl HashValue {
    /// A well-formed hash: exactly 32 bytes.
    pub open spec fn wf(&self) -> bool {
        self@.len() == HASH_LENGTH
    }

    /// Wraps raw digest bytes. Returns `Ok` exactly when 32 bytes were
    /// given.
    pub fn new(bytes: Vec<u8>) -> (r: Result<HashValue, PipelineError>)
        ensures
            match r {
                Ok(h) => bytes@.len() == 32 && h@ == bytes@ && h.wf(),
                Err(e) => bytes@.len() != 32 && e == PipelineError::DecodeError,
            },
    {
        if bytes.len() != HASH_LENGTH {
            return Err(PipelineError::DecodeError);
        }
        Ok(HashValue { bytes })
    }

    /// The raw digest bytes.
    pub fn as_bytes(&self) -> (r: &Vec<u8>)
        ensures
            r@ == self@,
    {
        &self.bytes
    }

    /// A copy of the hash.
    pub fn duplicate(&self) -> (r: HashValue)
        ensures
            r@ == self@,
    {
        HashValue { bytes: self.bytes.clone() }
    }

    /// Renders the hash as `0x`-prefixed lowercase hex.
    pub fn to_hex_string(&self) -> (r: String)
        ensures
            r@ == seq!['0', 'x'] + hex_str_of(self@),
    {
        hex_encode_prefixed(&self.bytes)
    }

    /// Parses a hash from hex, with an optional `0x` prefix. Fails with
    /// `DecodeError` unless the digits denote exactly 32 bytes.
    pub fn parse(s: &str) -> (r: Result<HashValue, PipelineError>)
        ensures
            match r {
                Ok(h) => is_hex_body(strip_hex_prefix(s@)) && bytes_of_hex(
                    strip_hex_prefix(s@),
                ).len() == 32 && h@ == bytes_of_hex(strip_hex_prefix(s@)) && h.wf(),
                Err(e) => !(is_hex_body(strip_hex_prefix(s@)) && bytes_of_hex(
                    strip_hex_prefix(s@),
                ).len() == 32) && e == PipelineError::DecodeError,
            },
    {
        match hex_decode(s) {
            Ok(bytes) => HashValue::new(bytes),
            Err(e) => Err(e),
        }
    }
}

/// The 32-byte authentication key of an account.
#[derive(Debug, PartialEq, Eq)]
pub struct AuthenticationKey {
    bytes: Vec<u8>,
}

impl View for AuthenticationKey {
    type V = Seq<u8>;

    closed spec fn view(&self) -> Seq<u8> {
        self.bytes@
    }
}

impl AuthenticationKey {
    /// A well-formed key: exactly 32 bytes.
    pub open spec fn wf(&self) -> bool {
        self@.len() == 32
    }

    /// Wraps raw key bytes. Returns `Ok` exactly when 32 bytes were given.
    pub fn new(bytes: Vec<u8>) -> (r: Result<AuthenticationKey, PipelineError>)
        ensures
            match r {
                Ok(k) => bytes@.len() == 32 && k@ == bytes@ && k.wf(),
                Err(e) => bytes@.len() != 32 && e == PipelineError::DecodeError,
            },
    {
        if bytes.len() != 32 {
            return Err(PipelineError::DecodeError);
        }
        Ok(AuthenticationKey { bytes })
    }

    /// The raw key bytes.
    pub fn as_bytes(&self) -> (r: &Vec<u8>)
        ensures
            r@ == self@,
    {
        &self.bytes
    }

    /// A copy of the key.
    pub fn duplicate(&self) -> (r: AuthenticationKey)
        ensures
            r@ == self@,
    {
        AuthenticationKey { bytes: self.bytes.clone() }
    }
}

} // verus!
