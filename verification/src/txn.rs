//! Transaction assembly and the transaction wire views.
//!
//! The assembler combines a payload with sender, gas, expiration and chain
//! data and the sender's *current* sequence number into an unsigned
//! transaction. The expiration timestamp is computed against the remote
//! chain's clock, never the local caller's. A signed transaction is
//! immutable: any change to fee, sender, or payload means discarding it and
//! rebuilding from the start, including re-reading the sequence number.

use vstd::prelude::*;

use crate::canonical::{payload_bcs, encode_payload};
use crate::errors::PipelineError;
use crate::genesis_config::ChainId;
use crate::hash::HashValue;
use crate::ids::AccountAddress;
use crate::payload::{Module, Package, Script, ScriptFunction, ScriptData, TransactionPayload};
use crate::views::StrView;

verus! {

/// The canonical code of the token that pays for gas by default.
pub open spec fn default_gas_token_str() -> Seq<char> {
    seq!['0', 'x', '1', ':', ':', 'S', 'T', 'C', ':', ':', 'S', 'T', 'C']
}

/// The default gas token code.
pub fn default_gas_token() -> (r: String)
    ensures
        r@ == default_gas_token_str(),
{
    proof {
        reveal_strlit("0x1::STC::STC");
        assert("0x1::STC::STC"@ =~= default_gas_token_str());
    }
    String::from_str("0x1::STC::STC")
}

/// An unsigned transaction, immutable once built.
#[derive(Debug, PartialEq, Eq)]
pub struct RawUserTransaction {
    pub sender: AccountAddress,
    pub sequence_number: u64,
    pub payload: TransactionPayload,
    pub max_gas_amount: u64,
    pub gas_unit_price: u64,
    pub gas_token_code: String,
    pub expiration_timestamp_secs: u64,
    pub chain_id: ChainId,
}

impl RawUserTransaction {
    /// A well-formed transaction: a valid sender and payload.
    pub open spec fn wf(&self) -> bool {
        self.sender.wf() && self.payload.wf()
    }

    /// Bundles the fields of an unsigned transaction.
    pub fn new(
        sender: AccountAddress,
        sequence_number: u64,
        payload: TransactionPayload,
        max_gas_amount: u64,
        gas_unit_price: u64,
        gas_token_code: String,
        expiration_timestamp_secs: u64,
        chain_id: ChainId,
    ) -> (r: RawUserTransaction)
        ensures
            r == (RawUserTransaction {
                sender,
                sequence_number,
                payload,
                max_gas_amount,
                gas_unit_price,
                gas_token_code,
                expiration_timestamp_secs,
                chain_id,
            }),
    {
        RawUserTransaction {
            sender,
            sequence_number,
            payload,
            max_gas_amount,
            gas_unit_price,
            gas_token_code,
            expiration_timestamp_secs,
            chain_id,
        }
    }

    /// As `new`, paying gas in the default token.
    pub fn new_with_default_gas_token(
        sender: AccountAddress,
        sequence_number: u64,
        payload: TransactionPayload,
        max_gas_amount: u64,
        gas_unit_price: u64,
        expiration_timestamp_secs: u64,
        chain_id: ChainId,
    ) -> (r: RawUserTransaction)
        ensures
            r.sender == sender,
            r.sequence_number == sequence_number,
            r.payload == payload,
            r.max_gas_amount == max_gas_amount,
            r.gas_unit_price == gas_unit_price,
            r.gas_token_code@ == default_gas_token_str(),
            r.expiration_timestamp_secs == expiration_timestamp_secs,
            r.chain_id == chain_id,
    {
        RawUserTransaction {
            sender,
            sequence_number,
            payload,
            max_gas_amount,
            gas_unit_price,
            gas_token_code: default_gas_token(),
            expiration_timestamp_secs,
            chain_id,
        }
    }
}

// ---------------------------------------------------------------------------
// the assembler
// ---------------------------------------------------------------------------

/// Builds an unsigned transaction from the payload, the sender's current
/// sequence number, the gas budget, and the remote chain's clock: the
/// transaction expires `timeout_secs` after the chain's current time.
/// Nothing is cached between calls; every assembly reads its own inputs.
pub fn assemble_raw_transaction(
    sender: AccountAddress,
    sequence_number: u64,
    payload: TransactionPayload,
    max_gas_amount: u64,
    gas_unit_price: u64,
    gas_token_code: String,
    timeout_secs: u64,
    chain_now_seconds: u64,
    chain_id: ChainId,
) -> (r: RawUserTransaction)
    requires
        chain_now_seconds + timeout_secs <= u64::MAX,
    ensures
        r.sender == sender,
        r.sequence_number == sequence_number,
        r.payload == payload,
        r.max_gas_amount == max_gas_amount,
        r.gas_unit_price == gas_unit_price,
        r.gas_token_code == gas_token_code,
        r.expiration_timestamp_secs == chain_now_seconds + timeout_secs,
        r.chain_id == chain_id,
{
    RawUserTransaction {
        sender,
        sequence_number,
        payload,
        max_gas_amount,
        gas_unit_price,
        gas_token_code,
        expiration_timestamp_secs: chain_now_seconds + timeout_secs,
        chain_id,
    }
}

/// Assembles a transaction from the results of the two chain reads: the
/// sender's account resource (whose sequence number is used exactly as
/// read) and the chain's current time. An absent account resource means an
/// unfunded or never-initialized address, which cannot originate a
/// transaction; an absent clock reading is a transport failure.
pub fn assemble_from_chain_reads(
    sender: AccountAddress,
    payload: TransactionPayload,
    max_gas_amount: u64,
    gas_unit_price: u64,
    gas_token_code: String,
    timeout_secs: u64,
    chain_id: ChainId,
    account_sequence: Option<u64>,
    chain_now_seconds: Option<u64>,
) -> (r: Result<RawUserTransaction, PipelineError>)
    requires
        chain_now_seconds matches Some(now) ==> now + timeout_secs <= u64::MAX,
    ensures
        match r {
            Ok(txn) => account_sequence matches Some(sq) && (chain_now_seconds matches Some(now)
                && txn.sender == sender && txn.sequence_number == sq && txn.payload == payload
                && txn.max_gas_amount == max_gas_amount && txn.gas_unit_price == gas_unit_price
                && txn.gas_token_code == gas_token_code && txn.expiration_timestamp_secs == now
                + timeout_secs && txn.chain_id == chain_id),
            Err(e) => (account_sequence is None && e == PipelineError::AccountNotFound) || (
            account_sequence is Some && chain_now_seconds is None && e
                == PipelineError::ClockUnavailable),
        },
{
    let sequence_number = match account_sequence {
        Some(sq) => sq,
        None => {
            return Err(PipelineError::AccountNotFound);
        },
    };
    let now = match chain_now_seconds {
        Some(now) => now,
        None => {
            return Err(PipelineError::ClockUnavailable);
        },
    };
    Ok(
        assemble_raw_transaction(
            sender,
            sequence_number,
            payload,
            max_gas_amount,
            gas_unit_price,
            gas_token_code,
            timeout_secs,
            now,
            chain_id,
        ),
    )
}

// ---------------------------------------------------------------------------
// signed transactions
// ---------------------------------------------------------------------------

/// Public key and signature authenticating a transaction. The key material
/// and the signing itself belong to the caller's cryptography collaborator;
/// here an authenticator is opaque bytes with a scheme.
#[derive(Debug, PartialEq, Eq)]
pub enum TransactionAuthenticator {
    Ed25519 { public_key: Vec<u8>, signature: Vec<u8> },
    MultiEd25519 { public_key: Vec<u8>, signature: Vec<u8> },
}

impl TransactionAuthenticator {
    /// The public key bytes, whichever scheme signs.
    pub fn public_key(&self) -> (r: &Vec<u8>)
        ensures
            r@ == match self {
                TransactionAuthenticator::Ed25519 { public_key, .. } => public_key@,
                TransactionAuthenticator::MultiEd25519 { public_key, .. } => public_key@,
            },
    {
        match self {
            TransactionAuthenticator::Ed25519 { public_key, .. } => public_key,
            TransactionAuthenticator::MultiEd25519 { public_key, .. } => public_key,
        }
    }
}

/// A signed transaction: the raw transaction, its authenticator, and its
/// content-addressed identifier — the digest of the serialized transaction,
/// computed by the cryptography collaborator at signing time. Immutable:
/// any change means rebuilding and re-signing.
#[derive(Debug, PartialEq, Eq)]
pub struct SignedUserTransaction {
    pub raw_txn: RawUserTransaction,
    pub authenticator: TransactionAuthenticator,
    pub id: HashValue,
}

impl SignedUserTransaction {
    /// A well-formed signed transaction.
    pub open spec fn wf(&self) -> bool {
        self.raw_txn.wf() && self.id.wf()
    }

    /// Binds a raw transaction to its authenticator and identifier.
    pub fn new(
        raw_txn: RawUserTransaction,
        authenticator: TransactionAuthenticator,
        id: HashValue,
    ) -> (r: SignedUserTransaction)
        ensures
            r.raw_txn == raw_txn,
            r.authenticator == authenticator,
            r.id == id,
    {
        SignedUserTransaction { raw_txn, authenticator, id }
    }

    /// The content-addressed identifier.
    pub fn id(&self) -> (r: &HashValue)
        ensures
            r == &self.id,
    {
        &self.id
    }
}

// ---------------------------------------------------------------------------
// the request wire shape
// ---------------------------------------------------------------------------

/// A transaction request as it travels on the wire: every field optional
/// or defaulted, numeric fields as decimal strings, byte fields as hex.
#[derive(Debug, PartialEq, Eq)]
pub struct TransactionRequest {
    pub sender: Option<AccountAddress>,
    pub sequence_number: Option<u64>,
    pub script: Option<ScriptData>,
    pub modules: Vec<Vec<u8>>,
    pub max_gas_amount: Option<u64>,
    pub gas_unit_price: Option<u64>,
    pub gas_token_code: Option<String>,
    pub expiration_timestamp_secs: Option<u64>,
    pub chain_id: Option<u8>,
}

/// The bytecode of each module in a package.
pub open spec fn module_codes(ms: Seq<Module>) -> Seq<Seq<u8>> {
    Seq::new(ms.len(), |i: int| ms[i].code@)
}

/// The request faithfully renders the unsigned transaction: scalar fields
/// carry over, and the payload falls apart into its wire shape — a script
/// body or function reference with arguments in canonical bytes form, and
/// the module list of a package deploy.
pub open spec fn request_mirrors_raw(r: TransactionRequest, raw: RawUserTransaction) -> bool {
    &&& r.sender matches Some(s) && s == raw.sender
    &&& r.sequence_number == Some(raw.sequence_number)
    &&& r.max_gas_amount == Some(raw.max_gas_amount)
    &&& r.gas_unit_price == Some(raw.gas_unit_price)
    &&& r.gas_token_code matches Some(t) && t == raw.gas_token_code
    &&& r.expiration_timestamp_secs == Some(raw.expiration_timestamp_secs)
    &&& r.chain_id == Some(raw.chain_id.spec_id())
    &&& match raw.payload {
        TransactionPayload::Script(s) => (r.script matches Some(sd)
            && sd.code == crate::ids::ByteCodeOrScriptFunction::ByteCode(s.code)
            && sd.type_args == s.ty_args && (sd.args matches
        crate::args::ArgumentsView::BCS(b) && b == s.args)) && r.modules@.len() == 0,
        TransactionPayload::Package(p) => r.modules.deep_view() == module_codes(p.modules@)
            && (match p.init_script {
            None => r.script is None,
            Some(init) => r.script matches Some(sd) && (sd.code matches
                crate::ids::ByteCodeOrScriptFunction::ScriptFunction(f) && f.module
                == init.module && f.function == init.function) && sd.type_args
                == init.ty_args && (sd.args matches crate::args::ArgumentsView::BCS(b) && b
                == init.args),
        }),
        TransactionPayload::ScriptFunction(sf) => (r.script matches Some(sd) && (sd.code
            matches crate::ids::ByteCodeOrScriptFunction::ScriptFunction(f) && f.module
            == sf.module && f.function == sf.function) && sd.type_args == sf.ty_args && (
        sd.args matches crate::args::ArgumentsView::BCS(b) && b == sf.args))
            && r.modules@.len() == 0,
    }
}

impl TransactionRequest {
    /// Renders an unsigned transaction as a request.
    pub fn from_raw(raw: RawUserTransaction) -> (r: TransactionRequest)
        ensures
            request_mirrors_raw(r, raw),
    {
        let RawUserTransaction {
            sender,
            sequence_number,
            payload,
            max_gas_amount,
            gas_unit_price,
            gas_token_code,
            expiration_timestamp_secs,
            chain_id,
        } = raw;
        let (script, modules): (Option<ScriptData>, Vec<Vec<u8>>) = match payload {
            TransactionPayload::Script(s) => (Some(ScriptData::from_script(s)), Vec::new()),
            TransactionPayload::Package(p) => {
                let Package { modules, init_script } = p;
                let script = match init_script {
                    Some(init) => Some(ScriptData::from_script_function(init)),
                    None => None,
                };
                let mut codes: Vec<Vec<u8>> = Vec::new();
                let mut i: usize = 0;
                while i < modules.len()
                    invariant
                        i <= modules@.len(),
                        codes.deep_view() == module_codes(modules@.take(i as int)),
                    decreases modules@.len() - i,
                {
                    let m = &modules[i];
                    let mut code: Vec<u8> = Vec::new();
                    let mut j: usize = 0;
                    while j < m.code.len()
                        invariant
                            j <= m.code@.len(),
                            code@ == m.code@.take(j as int),
                            m == &modules@[i as int],
                            i < modules@.len(),
                        decreases m.code@.len() - j,
                    {
                        code.push(m.code[j]);
                        proof {
                            assert(code@ =~= m.code@.take(j + 1));
                        }
                        j = j + 1;
                    }
                    proof {
                        assert(m.code@.take(m.code@.len() as int) =~= m.code@);
                    }
                    let ghost prev = codes@;
                    let ghost prevdv = codes.deep_view();
                    proof {
                        assert(prevdv.len() == prev.len());
                    }
                    codes.push(code);
                    proof {
                        let newdv = codes.deep_view();
                        let target = module_codes(modules@.take(i + 1));
                        assert(codes@ == prev.push(code));
                        assert forall|k: int| 0 <= k < newdv.len() implies newdv[k] == target[k] by {
                            assert(newdv[k] == codes@[k].deep_view());
                            if k < i {
                                assert(codes@[k] == prev[k]);
                                assert(prevdv[k] == prev[k].deep_view());
                                assert(prevdv[k] == module_codes(modules@.take(i as int))[k]);
                            } else {
                                assert(codes@[k] == code);
                                assert(code.deep_view() =~= code@);
                            }
                        }
                        assert(newdv =~= target);
                    }
                    i = i + 1;
                }
                proof {
                    assert(modules@.take(modules@.len() as int) =~= modules@);
                }
                (script, codes)
            },
            TransactionPayload::ScriptFunction(sf) => (
                Some(ScriptData::from_script_function(sf)),
                Vec::new(),
            ),
        };
        TransactionRequest {
            sender: Some(sender),
            sequence_number: Some(sequence_number),
            script,
            modules,
            max_gas_amount: Some(max_gas_amount),
            gas_unit_price: Some(gas_unit_price),
            gas_token_code: Some(gas_token_code),
            expiration_timestamp_secs: Some(expiration_timestamp_secs),
            chain_id: Some(chain_id.id()),
        }
    }
}

/// A dry-run request: the transaction plus the sender's public key, so the
/// execution authority can simulate without a real signature.
#[derive(Debug, PartialEq, Eq)]
pub struct DryRunTransactionRequest {
    pub transaction: TransactionRequest,
    pub sender_public_key: Option<Vec<u8>>,
}

impl DryRunTransactionRequest {
    /// Builds the dry-run request for a signed transaction: its raw
    /// transaction in request shape, and the public key taken from the
    /// authenticator.
    pub fn from_signed(txn: SignedUserTransaction) -> (r: DryRunTransactionRequest)
        ensures
            request_mirrors_raw(r.transaction, txn.raw_txn),
            r.sender_public_key matches Some(k) && k@ == match txn.authenticator {
                TransactionAuthenticator::Ed25519 { public_key, .. } => public_key@,
                TransactionAuthenticator::MultiEd25519 { public_key, .. } => public_key@,
            },
    {
        let public_key = txn.authenticator.public_key().clone();
        proof {
            assert(public_key@ =~= match txn.authenticator {
                TransactionAuthenticator::Ed25519 { public_key: pk, .. } => pk@,
                TransactionAuthenticator::MultiEd25519 { public_key: pk, .. } => pk@,
            });
        }
        let SignedUserTransaction { raw_txn, authenticator: _, id: _ } = txn;
        DryRunTransactionRequest {
            transaction: TransactionRequest::from_raw(raw_txn),
            sender_public_key: Some(public_key),
        }
    }
}

// ---------------------------------------------------------------------------
// the transaction wire views
// ---------------------------------------------------------------------------

/// An unsigned transaction as it travels outbound: scalars string-rendered,
/// the payload in its canonical serialized form.
#[derive(Debug, PartialEq, Eq)]
pub struct RawUserTransactionView {
    pub sender: AccountAddress,
    pub sequence_number: StrView<u64>,
    pub payload: StrView<Vec<u8>>,
    pub max_gas_amount: StrView<u64>,
    pub gas_unit_price: StrView<u64>,
    pub gas_token_code: String,
    pub expiration_timestamp_secs: StrView<u64>,
    pub chain_id: u8,
}

impl RawUserTransactionView {
    /// Renders an unsigned transaction, serializing its payload to the
    /// canonical byte form.
    pub fn from_raw(raw: RawUserTransaction) -> (r: RawUserTransactionView)
        requires
            raw.wf(),
        ensures
            r.sender == raw.sender,
            r.sequence_number.0 == raw.sequence_number,
            r.payload.0@ == payload_bcs(raw.payload),
            r.max_gas_amount.0 == raw.max_gas_amount,
            r.gas_unit_price.0 == raw.gas_unit_price,
            r.gas_token_code == raw.gas_token_code,
            r.expiration_timestamp_secs.0 == raw.expiration_timestamp_secs,
            r.chain_id == raw.chain_id.spec_id(),
    {
        let payload_bytes = encode_payload(&raw.payload);
        let RawUserTransaction {
            sender,
            sequence_number,
            payload: _,
            max_gas_amount,
            gas_unit_price,
            gas_token_code,
            expiration_timestamp_secs,
            chain_id,
        } = raw;
        RawUserTransactionView {
            sender,
            sequence_number: StrView(sequence_number),
            payload: StrView(payload_bytes),
            max_gas_amount: StrView(max_gas_amount),
            gas_unit_price: StrView(gas_unit_price),
            gas_token_code,
            expiration_timestamp_secs: StrView(expiration_timestamp_secs),
            chain_id: chain_id.id(),
        }
    }
}

/// A signed transaction as it travels outbound.
#[derive(Debug, PartialEq, Eq)]
pub struct SignedUserTransactionView {
    pub transaction_hash: HashValue,
    pub raw_txn: RawUserTransactionView,
    pub authenticator: TransactionAuthenticator,
}

/// The view faithfully renders the signed transaction: every scalar field
/// carries over and the payload is in its canonical serialized form.
pub open spec fn txn_view_mirrors(v: SignedUserTransactionView, t: SignedUserTransaction) -> bool {
    v.transaction_hash@ == t.id@ && v.authenticator == t.authenticator && v.raw_txn.sender
        == t.raw_txn.sender && v.raw_txn.sequence_number.0 == t.raw_txn.sequence_number
        && v.raw_txn.payload.0@ == payload_bcs(t.raw_txn.payload) && v.raw_txn.max_gas_amount.0
        == t.raw_txn.max_gas_amount && v.raw_txn.gas_unit_price.0 == t.raw_txn.gas_unit_price
        && v.raw_txn.gas_token_code == t.raw_txn.gas_token_code
        && v.raw_txn.expiration_timestamp_secs.0 == t.raw_txn.expiration_timestamp_secs
        && v.raw_txn.chain_id == t.raw_txn.chain_id.spec_id()
}

impl SignedUserTransactionView {
    /// Renders a signed transaction.
    pub fn from_signed(txn: SignedUserTransaction) -> (r: SignedUserTransactionView)
        requires
            txn.raw_txn.wf(),
        ensures
            txn_view_mirrors(r, txn),
            r.transaction_hash == txn.id,
    {
        let SignedUserTransaction { raw_txn, authenticator, id } = txn;
        SignedUserTransactionView {
            transaction_hash: id,
            raw_txn: RawUserTransactionView::from_raw(raw_txn),
            authenticator,
        }
    }
}

} // verus!
