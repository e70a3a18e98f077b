//! Blocks, block headers, block metadata, and their wire views.

use vstd::prelude::*;

use crate::errors::PipelineError;
use crate::genesis_config::ChainId;
use crate::hash::{AuthenticationKey, HashValue};
use crate::ids::AccountAddress;
use crate::txn::{
    txn_view_mirrors, RawUserTransactionView, SignedUserTransaction, SignedUserTransactionView,
    TransactionAuthenticator,
};
use crate::views::StrView;

verus! {

/// A 256-bit unsigned scalar carried as 32 big-endian bytes: block
/// difficulty.
#[derive(Debug, PartialEq, Eq)]
pub struct U256 {
    bytes: Vec<u8>,
}

impl View for U256 {
    type V = Seq<u8>;

    closed spec fn view(&self) -> Seq<u8> {
        self.bytes@
    }
}

impl U256 {
    /// A well-formed scalar: exactly 32 bytes.
    pub open spec fn wf(&self) -> bool {
        self@.len() == 32
    }

    /// Wraps raw big-endian bytes. Returns `Ok` exactly when 32 bytes were
    /// given.
    pub fn new(bytes: Vec<u8>) -> (r: Result<U256, PipelineError>)
        ensures
            match r {
                Ok(v) => bytes@.len() == 32 && v@ == bytes@ && v.wf(),
                Err(e) => bytes@.len() != 32 && e == PipelineError::DecodeError,
            },
    {
        if bytes.len() != 32 {
            return Err(PipelineError::DecodeError);
        }
        Ok(U256 { bytes })
    }

    /// The raw bytes.
    pub fn as_bytes(&self) -> (r: &Vec<u8>)
        ensures
            r@ == self@,
    {
        &self.bytes
    }
}

/// The four extra bytes of a block header.
#[derive(Debug, PartialEq, Eq)]
pub struct BlockHeaderExtra {
    bytes: Vec<u8>,
}

impl View for BlockHeaderExtra {
    type V = Seq<u8>;

    closed spec fn view(&self) -> Seq<u8> {
        self.bytes@
    }
}

impl BlockHeaderExtra {
    /// A well-formed extra field: exactly 4 bytes.
    pub open spec fn wf(&self) -> bool {
        self@.len() == 4
    }

    /// Wraps the extra bytes. Returns `Ok` exactly when 4 bytes were given.
    pub fn new(bytes: Vec<u8>) -> (r: Result<BlockHeaderExtra, PipelineError>)
        ensures
            match r {
                Ok(v) => bytes@.len() == 4 && v@ == bytes@ && v.wf(),
                Err(e) => bytes@.len() != 4 && e == PipelineError::DecodeError,
            },
    {
        if bytes.len() != 4 {
            return Err(PipelineError::DecodeError);
        }
        Ok(BlockHeaderExtra { bytes })
    }

    /// The raw bytes.
    pub fn as_bytes(&self) -> (r: &Vec<u8>)
        ensures
            r@ == self@,
    {
        &self.bytes
    }
}

// ---------------------------------------------------------------------------
// block headers
// ---------------------------------------------------------------------------

/// A block header. Its hash is the content-addressed identifier computed
/// by the cryptography collaborator when the header is formed.
#[derive(Debug, PartialEq, Eq)]
pub struct BlockHeader {
    pub block_hash: HashValue,
    pub parent_hash: HashValue,
    pub timestamp: u64,
    pub number: u64,
    pub author: AccountAddress,
    pub author_auth_key: Option<AuthenticationKey>,
    pub txn_accumulator_root: HashValue,
    pub block_accumulator_root: HashValue,
    pub state_root: HashValue,
    pub gas_used: u64,
    pub difficulty: U256,
    pub body_hash: HashValue,
    pub chain_id: ChainId,
    pub nonce: u32,
    pub extra: BlockHeaderExtra,
}

/// A block header as it travels outbound: numeric fields string-rendered.
#[derive(Debug, PartialEq, Eq)]
pub struct BlockHeaderView {
    pub block_hash: HashValue,
    pub parent_hash: HashValue,
    pub timestamp: StrView<u64>,
    pub number: StrView<u64>,
    pub author: AccountAddress,
    pub author_auth_key: Option<AuthenticationKey>,
    pub txn_accumulator_root: HashValue,
    pub block_accumulator_root: HashValue,
    pub state_root: HashValue,
    pub gas_used: StrView<u64>,
    pub difficulty: U256,
    pub body_hash: HashValue,
    pub chain_id: u8,
    pub nonce: u32,
    pub extra: BlockHeaderExtra,
}

/// The view a header renders to.
pub open spec fn header_view_spec(h: BlockHeader) -> BlockHeaderView {
    BlockHeaderView {
        block_hash: h.block_hash,
        parent_hash: h.parent_hash,
        timestamp: StrView(h.timestamp),
        number: StrView(h.number),
        author: h.author,
        author_auth_key: h.author_auth_key,
        txn_accumulator_root: h.txn_accumulator_root,
        block_accumulator_root: h.block_accumulator_root,
        state_root: h.state_root,
        gas_used: StrView(h.gas_used),
        difficulty: h.difficulty,
        body_hash: h.body_hash,
        chain_id: h.chain_id.spec_id(),
        nonce: h.nonce,
        extra: h.extra,
    }
}

impl BlockHeaderView {
    /// Renders a header.
    pub fn from_header(h: BlockHeader) -> (r: BlockHeaderView)
        ensures
            r == header_view_spec(h),
    {
        let BlockHeader {
            block_hash,
            parent_hash,
            timestamp,
            number,
            author,
            author_auth_key,
            txn_accumulator_root,
            block_accumulator_root,
            state_root,
            gas_used,
            difficulty,
            body_hash,
            chain_id,
            nonce,
            extra,
        } = h;
        BlockHeaderView {
            block_hash,
            parent_hash,
            timestamp: StrView(timestamp),
            number: StrView(number),
            author,
            author_auth_key,
            txn_accumulator_root,
            block_accumulator_root,
            state_root,
            gas_used: StrView(gas_used),
            difficulty,
            body_hash,
            chain_id: chain_id.id(),
            nonce,
            extra,
        }
    }
}

// ---------------------------------------------------------------------------
// block metadata
// ---------------------------------------------------------------------------

/// The metadata transaction that opens a block.
#[derive(Debug, PartialEq, Eq)]
pub struct BlockMetadata {
    pub parent_hash: HashValue,
    pub timestamp: u64,
    pub author: AccountAddress,
    pub author_auth_key: Option<AuthenticationKey>,
    pub uncles: u64,
    pub number: u64,
    pub chain_id: ChainId,
    pub parent_gas_used: u64,
}

impl BlockMetadata {
    /// Bundles the metadata fields.
    pub fn new(
        parent_hash: HashValue,
        timestamp: u64,
        author: AccountAddress,
        author_auth_key: Option<AuthenticationKey>,
        uncles: u64,
        number: u64,
        chain_id: ChainId,
        parent_gas_used: u64,
    ) -> (r: BlockMetadata)
        ensures
            r == (BlockMetadata {
                parent_hash,
                timestamp,
                author,
                author_auth_key,
                uncles,
                number,
                chain_id,
                parent_gas_used,
            }),
    {
        BlockMetadata {
            parent_hash,
            timestamp,
            author,
            author_auth_key,
            uncles,
            number,
            chain_id,
            parent_gas_used,
        }
    }
}

/// Block metadata as it travels outbound.
#[derive(Debug, PartialEq, Eq)]
pub struct BlockMetadataView {
    pub parent_hash: HashValue,
    pub timestamp: StrView<u64>,
    pub author: AccountAddress,
    pub author_auth_key: Option<AuthenticationKey>,
    pub uncles: StrView<u64>,
    pub number: StrView<u64>,
    pub chain_id: u8,
    pub parent_gas_used: StrView<u64>,
}

/// The view metadata renders to.
pub open spec fn metadata_view_spec(m: BlockMetadata) -> BlockMetadataView {
    BlockMetadataView {
        parent_hash: m.parent_hash,
        timestamp: StrView(m.timestamp),
        author: m.author,
        author_auth_key: m.author_auth_key,
        uncles: StrView(m.uncles),
        number: StrView(m.number),
        chain_id: m.chain_id.spec_id(),
        parent_gas_used: StrView(m.parent_gas_used),
    }
}

impl BlockMetadataView {
    /// Renders block metadata.
    pub fn from_metadata(m: BlockMetadata) -> (r: BlockMetadataView)
        ensures
            r == metadata_view_spec(m),
    {
        let BlockMetadata {
            parent_hash,
            timestamp,
            author,
            author_auth_key,
            uncles,
            number,
            chain_id,
            parent_gas_used,
        } = m;
        BlockMetadataView {
            parent_hash,
            timestamp: StrView(timestamp),
            author,
            author_auth_key,
            uncles: StrView(uncles),
            number: StrView(number),
            chain_id: chain_id.id(),
            parent_gas_used: StrView(parent_gas_used),
        }
    }

    /// Reads the view back into metadata: the exact inverse of rendering.
    pub fn into_metadata(self) -> (r: BlockMetadata)
        ensures
            metadata_view_spec(r) == self,
    {
        let BlockMetadataView {
            parent_hash,
            timestamp,
            author,
            author_auth_key,
            uncles,
            number,
            chain_id,
            parent_gas_used,
        } = self;
        BlockMetadata::new(
            parent_hash,
            timestamp.0,
            author,
            author_auth_key,
            uncles.0,
            number.0,
            ChainId::new(chain_id),
            parent_gas_used.0,
        )
    }
}

// ---------------------------------------------------------------------------
// blocks
// ---------------------------------------------------------------------------

/// The transactions of a block, and its uncle headers if any.
#[derive(Debug, PartialEq, Eq)]
pub struct BlockBody {
    pub transactions: Vec<SignedUserTransaction>,
    pub uncles: Option<Vec<BlockHeader>>,
}

/// A block: header and body.
#[derive(Debug, PartialEq, Eq)]
pub struct Block {
    pub header: BlockHeader,
    pub body: BlockBody,
}

impl Block {
    /// The block's content-addressed identifier.
    pub fn id(&self) -> (r: &HashValue)
        ensures
            r == &self.header.block_hash,
    {
        &self.header.block_hash
    }

    /// The block's transactions.
    pub fn transactions(&self) -> (r: &Vec<SignedUserTransaction>)
        ensures
            r == &self.body.transactions,
    {
        &self.body.transactions
    }
}

/// A transaction as recorded in a block: a user transaction, or the
/// block-opening metadata with its content-addressed identifier.
#[derive(Debug, PartialEq, Eq)]
pub enum Transaction {
    UserTransaction(SignedUserTransaction),
    BlockMetadata(BlockMetadata, HashValue),
}

impl Transaction {
    /// The transaction's content-addressed identifier.
    pub open spec fn spec_id(&self) -> HashValue {
        match self {
            Transaction::UserTransaction(t) => t.id,
            Transaction::BlockMetadata(_, h) => *h,
        }
    }

    /// The transaction's content-addressed identifier.
    pub fn id(&self) -> (r: &HashValue)
        ensures
            *r == self.spec_id(),
    {
        match self {
            Transaction::UserTransaction(t) => &t.id,
            Transaction::BlockMetadata(_, h) => h,
        }
    }
}

// ---------------------------------------------------------------------------
// locating a transaction inside a block
// ---------------------------------------------------------------------------

/// Index of the first transaction with the given identifier, or `-1`.
pub open spec fn txn_position(txns: Seq<SignedUserTransaction>, id: Seq<u8>) -> int
    decreases txns.len(),
{
    if txns.len() == 0 {
        -1
    } else if txns[0].id@ == id {
        0
    } else {
        let r = txn_position(txns.drop_first(), id);
        if r < 0 {
            -1
        } else {
            1 + r
        }
    }
}

/// With a match at `j` and none before it, `j` is the position.
proof fn lemma_txn_position_at(txns: Seq<SignedUserTransaction>, id: Seq<u8>, j: int)
    requires
        0 <= j < txns.len(),
        txns[j].id@ == id,
        forall|k: int| 0 <= k < j ==> #[trigger] txns[k].id@ != id,
    ensures
        txn_position(txns, id) == j,
    decreases txns.len(),
{
    if j == 0 {
    } else {
        assert(txns[0].id@ != id);
        let p = txns.drop_first();
        assert(p[j - 1] == txns[j]);
        assert forall|k: int| 0 <= k < j - 1 implies #[trigger] p[k].id@ != id by {
            assert(p[k] == txns[k + 1]);
        }
        lemma_txn_position_at(p, id, j - 1);
    }
}

/// With no match anywhere, there is no position.
proof fn lemma_txn_position_none(txns: Seq<SignedUserTransaction>, id: Seq<u8>)
    requires
        forall|k: int| 0 <= k < txns.len() ==> #[trigger] txns[k].id@ != id,
    ensures
        txn_position(txns, id) == -1,
    decreases txns.len(),
{
    if txns.len() > 0 {
        let p = txns.drop_first();
        assert forall|k: int| 0 <= k < p.len() implies #[trigger] p[k].id@ != id by {
            assert(p[k] == txns[k + 1]);
        }
        lemma_txn_position_none(p, id);
    }
}

/// Compares two byte buffers.
fn bytes_equal(a: &Vec<u8>, b: &Vec<u8>) -> (r: bool)
    ensures
        r == (a@ == b@),
{
    if a.len() != b.len() {
        proof {
            assert(a@ != b@);
        }
        return false;
    }
    let mut i: usize = 0;
    while i < a.len()
        invariant
            i <= a@.len(),
            a@.len() == b@.len(),
            forall|j: int| 0 <= j < i ==> a@[j] == b@[j],
        decreases a@.len() - i,
    {
        if a[i] != b[i] {
            proof {
                assert(a@[i as int] != b@[i as int]);
            }
            return false;
        }
        i = i + 1;
    }
    proof {
        assert(a@ =~= b@);
    }
    true
}

/// Finds the first transaction with the given identifier.
pub fn find_txn_position(txns: &Vec<SignedUserTransaction>, id: &HashValue) -> (r: Option<usize>)
    ensures
        match r {
            Some(i) => txn_position(txns@, id@) == i && i < txns@.len(),
            None => txn_position(txns@, id@) == -1,
        },
{
    let mut i: usize = 0;
    while i < txns.len()
        invariant
            i <= txns@.len(),
            forall|k: int| 0 <= k < i ==> #[trigger] txns@[k].id@ != id@,
        decreases txns@.len() - i,
    {
        if bytes_equal(txns[i].id.as_bytes(), id.as_bytes()) {
            proof {
                lemma_txn_position_at(txns@, id@, i as int);
            }
            return Some(i);
        }
        i = i + 1;
    }
    proof {
        lemma_txn_position_none(txns@, id@);
    }
    None
}

// ---------------------------------------------------------------------------
// transaction-in-block view
// ---------------------------------------------------------------------------

/// A transaction in the context of its block. The metadata transaction of
/// a block has index `0`; user transactions are numbered from `1` in block
/// order.
#[derive(Debug, PartialEq, Eq)]
pub struct TransactionView {
    pub block_hash: HashValue,
    pub block_number: StrView<u64>,
    pub transaction_hash: HashValue,
    pub transaction_index: u32,
    pub block_metadata: Option<BlockMetadataView>,
    pub user_transaction: Option<SignedUserTransactionView>,
}

impl TransactionView {
    /// Renders a transaction against the block that holds it. The
    /// metadata transaction gets index `0`; a user transaction gets one
    /// more than its position among the block's transactions, and a
    /// transaction that is not in the block at all is an error.
    pub fn new(txn: Transaction, block: &Block) -> (r: Result<TransactionView, PipelineError>)
        requires
            txn matches Transaction::UserTransaction(t) ==> t.raw_txn.wf(),
            block.body.transactions@.len() < u32::MAX,
        ensures
            match r {
                Ok(v) => v.block_hash@ == block.header.block_hash@ && v.block_number.0
                    == block.header.number && v.transaction_hash@ == txn.spec_id()@ && match txn {
                    Transaction::BlockMetadata(m, _) => v.transaction_index == 0
                        && v.block_metadata == Some(metadata_view_spec(m)) && v.user_transaction
                        is None,
                    Transaction::UserTransaction(t) => txn_position(
                        block.body.transactions@,
                        t.id@,
                    ) >= 0 && v.transaction_index == 1 + txn_position(
                        block.body.transactions@,
                        t.id@,
                    ) && v.block_metadata is None && (v.user_transaction matches Some(ut)
                        && txn_view_mirrors(ut, t)),
                },
                Err(e) => txn matches Transaction::UserTransaction(t) && txn_position(
                    block.body.transactions@,
                    t.id@,
                ) == -1 && e == PipelineError::TransactionMissingFromBlock,
            },
    {
        let block_hash = block.header.block_hash.duplicate();
        let block_number = block.header.number;
        match txn {
            Transaction::BlockMetadata(m, h) => Ok(
                TransactionView {
                    block_hash,
                    block_number: StrView(block_number),
                    transaction_hash: h,
                    transaction_index: 0,
                    block_metadata: Some(BlockMetadataView::from_metadata(m)),
                    user_transaction: None,
                },
            ),
            Transaction::UserTransaction(t) => {
                let position = match find_txn_position(&block.body.transactions, &t.id) {
                    Some(p) => p,
                    None => {
                        return Err(PipelineError::TransactionMissingFromBlock);
                    },
                };
                let transaction_hash = t.id.duplicate();
                let view = SignedUserTransactionView::from_signed(t);
                Ok(
                    TransactionView {
                        block_hash,
                        block_number: StrView(block_number),
                        transaction_hash,
                        transaction_index: 1 + (position as u32),
                        block_metadata: None,
                        user_transaction: Some(view),
                    },
                )
            },
        }
    }
}

// ---------------------------------------------------------------------------
// block body views
// ---------------------------------------------------------------------------

/// The views of a list of hash values.
pub open spec fn hash_views(hs: Seq<HashValue>) -> Seq<Seq<u8>> {
    Seq::new(hs.len(), |i: int| hs[i]@)
}

/// The identifiers of a list of signed transactions.
pub open spec fn txn_ids_of(txns: Seq<SignedUserTransaction>) -> Seq<Seq<u8>> {
    Seq::new(txns.len(), |i: int| txns[i].id@)
}

/// The views of a list of block headers.
pub open spec fn header_views_of(hs: Seq<BlockHeader>) -> Seq<BlockHeaderView> {
    Seq::new(hs.len(), |i: int| header_view_spec(hs[i]))
}

/// The transactions of a block on the wire: either just their hashes (the
/// thin form) or the full transaction views.
#[derive(Debug, PartialEq, Eq)]
pub enum BlockTransactionsView {
    Hashes(Vec<HashValue>),
    Full(Vec<SignedUserTransactionView>),
}

impl BlockTransactionsView {
    /// The transaction hashes this view names, whichever form it takes.
    pub open spec fn hashes_spec(&self) -> Seq<Seq<u8>> {
        match self {
            BlockTransactionsView::Hashes(h) => hash_views(h@),
            BlockTransactionsView::Full(f) => Seq::new(f@.len(), |i: int| f@[i].transaction_hash@),
        }
    }

    /// The transaction hashes, whichever form the view holds.
    pub fn txn_hashes(&self) -> (r: Vec<HashValue>)
        ensures
            hash_views(r@) == self.hashes_spec(),
    {
        match self {
            BlockTransactionsView::Hashes(h) => {
                let mut out: Vec<HashValue> = Vec::new();
                let mut i: usize = 0;
                while i < h.len()
                    invariant
                        i <= h@.len(),
                        out@.len() == i,
                        forall|k: int| 0 <= k < i ==> #[trigger] out@[k]@ == h@[k]@,
                    decreases h@.len() - i,
                {
                    out.push(h[i].duplicate());
                    i = i + 1;
                }
                proof {
                    assert(hash_views(out@) =~~= self.hashes_spec());
                }
                out
            },
            BlockTransactionsView::Full(f) => {
                let mut out: Vec<HashValue> = Vec::new();
                let mut i: usize = 0;
                while i < f.len()
                    invariant
                        i <= f@.len(),
                        out@.len() == i,
                        forall|k: int| 0 <= k < i ==> #[trigger] out@[k]@ == f@[k].transaction_hash@,
                    decreases f@.len() - i,
                {
                    out.push(f[i].transaction_hash.duplicate());
                    i = i + 1;
                }
                proof {
                    assert(hash_views(out@) =~~= self.hashes_spec());
                }
                out
            },
        }
    }

    /// Renders every transaction in full.
    pub fn from_txns(txns: Vec<SignedUserTransaction>) -> (r: BlockTransactionsView)
        requires
            forall|i: int| 0 <= i < txns@.len() ==> (#[trigger] txns@[i].raw_txn).wf(),
        ensures
            r matches BlockTransactionsView::Full(f) && f@.len() == txns@.len() && (forall|i: int|
                0 <= i < f@.len() ==> txn_view_mirrors(#[trigger] f@[i], txns@[i])),
    {
        let ghost orig = txns@;
        let mut rest = txns;
        let mut out: Vec<SignedUserTransactionView> = Vec::new();
        let ghost mut k: int = 0;
        while rest.len() > 0
            invariant
                0 <= k,
                orig.len() == k + rest@.len(),
                rest@ == orig.skip(k),
                out@.len() == k,
                forall|i: int| 0 <= i < orig.len() ==> (#[trigger] orig[i].raw_txn).wf(),
                forall|i: int| 0 <= i < k ==> txn_view_mirrors(#[trigger] out@[i], orig[i]),
            decreases rest@.len(),
        {
            let t = rest.remove(0);
            proof {
                assert(t == orig[k]);
                assert(orig.skip(k).remove(0) =~= orig.skip(k + 1));
            }
            out.push(SignedUserTransactionView::from_signed(t));
            proof {
                k = k + 1;
            }
        }
        BlockTransactionsView::Full(out)
    }

    /// Wraps a list of transaction hashes as the thin form.
    pub fn from_hashes(hashes: Vec<HashValue>) -> (r: BlockTransactionsView)
        ensures
            r == BlockTransactionsView::Hashes(hashes),
    {
        BlockTransactionsView::Hashes(hashes)
    }
}

// ---------------------------------------------------------------------------
// whole-block views
// ---------------------------------------------------------------------------

/// A block as it travels outbound.
#[derive(Debug, PartialEq, Eq)]
pub struct BlockView {
    pub header: BlockHeaderView,
    pub body: BlockTransactionsView,
    pub uncles: Vec<BlockHeaderView>,
}

impl BlockView {
    /// Renders a block. In thin form the body carries only transaction
    /// hashes; otherwise it carries every transaction in full. A block
    /// with no uncle list renders an empty one.
    pub fn try_from_block(block: Block, thin: bool) -> (r: BlockView)
        requires
            !thin ==> forall|i: int|
                0 <= i < block.body.transactions@.len() ==> (#[trigger] block.body.transactions@[
                    i
                ].raw_txn).wf(),
        ensures
            r.header == header_view_spec(block.header),
            r.uncles@ == header_views_of(
                match block.body.uncles {
                    Some(u) => u@,
                    None => Seq::<BlockHeader>::empty(),
                },
            ),
            thin ==> (r.body matches BlockTransactionsView::Hashes(h) && hash_views(h@)
                == txn_ids_of(block.body.transactions@)),
            !thin ==> (r.body matches BlockTransactionsView::Full(f) && f@.len()
                == block.body.transactions@.len() && (forall|i: int|
                0 <= i < f@.len() ==> txn_view_mirrors(
                    #[trigger] f@[i],
                    block.body.transactions@[i],
                ))),
    {
        let Block { header, body } = block;
        let BlockBody { transactions, uncles } = body;
        let ghost txns0 = transactions@;
        let txns_view: BlockTransactionsView = if thin {
            let mut hashes: Vec<HashValue> = Vec::new();
            let mut i: usize = 0;
            while i < transactions.len()
                invariant
                    i <= transactions@.len(),
                    transactions@ == txns0,
                    hashes@.len() == i,
                    forall|k: int| 0 <= k < i ==> #[trigger] hashes@[k]@ == txns0[k].id@,
                decreases transactions@.len() - i,
            {
                hashes.push(transactions[i].id.duplicate());
                i = i + 1;
            }
            proof {
                assert(hash_views(hashes@) =~~= txn_ids_of(txns0));
            }
            BlockTransactionsView::Hashes(hashes)
        } else {
            BlockTransactionsView::from_txns(transactions)
        };
        let uncle_headers: Vec<BlockHeader> = match uncles {
            Some(u) => u,
            None => Vec::new(),
        };
        let ghost uncles0 = uncle_headers@;
        let mut rest = uncle_headers;
        let mut uncle_views: Vec<BlockHeaderView> = Vec::new();
        let ghost mut k: int = 0;
        while rest.len() > 0
            invariant
                0 <= k,
                uncles0.len() == k + rest@.len(),
                rest@ == uncles0.skip(k),
                uncle_views@.len() == k,
                forall|i: int|
                    0 <= i < k ==> #[trigger] uncle_views@[i] == header_view_spec(uncles0[i]),
            decreases rest@.len(),
        {
            let h = rest.remove(0);
            proof {
                assert(h == uncles0[k]);
                assert(uncles0.skip(k).remove(0) =~= uncles0.skip(k + 1));
            }
            uncle_views.push(BlockHeaderView::from_header(h));
            proof {
                k = k + 1;
            }
        }
        proof {
            assert(uncle_views@ =~= header_views_of(uncles0));
        }
        BlockView {
            header: BlockHeaderView::from_header(header),
            uncles: uncle_views,
            body: txns_view,
        }
    }
}

/// A block summary: its header and uncle headers.
#[derive(Debug, PartialEq, Eq)]
pub struct BlockSummary {
    pub block_header: BlockHeader,
    pub uncles: Vec<BlockHeader>,
}

/// A block summary as it travels outbound.
#[derive(Debug, PartialEq, Eq)]
pub struct BlockSummaryView {
    pub header: BlockHeaderView,
    pub uncles: Vec<BlockHeaderView>,
}

impl BlockSummaryView {
    /// Renders a block summary.
    pub fn from_summary(summary: BlockSummary) -> (r: BlockSummaryView)
        ensures
            r.header == header_view_spec(summary.block_header),
            r.uncles@ == header_views_of(summary.uncles@),
    {
        let BlockSummary { block_header, uncles } = summary;
        let ghost uncles0 = uncles@;
        let mut rest = uncles;
        let mut uncle_views: Vec<BlockHeaderView> = Vec::new();
        let ghost mut k: int = 0;
        while rest.len() > 0
            invariant
                0 <= k,
                uncles0.len() == k + rest@.len(),
                rest@ == uncles0.skip(k),
                uncle_views@.len() == k,
                forall|i: int|
                    0 <= i < k ==> #[trigger] uncle_views@[i] == header_view_spec(uncles0[i]),
            decreases rest@.len(),
        {
            let h = rest.remove(0);
            proof {
                assert(h == uncles0[k]);
                assert(uncles0.skip(k).remove(0) =~= uncles0.skip(k + 1));
            }
            uncle_views.push(BlockHeaderView::from_header(h));
            proof {
                k = k + 1;
            }
        }
        proof {
            assert(uncle_views@ =~= header_views_of(uncles0));
        }
        BlockSummaryView { header: BlockHeaderView::from_header(block_header), uncles: uncle_views }
    }
}

// ---------------------------------------------------------------------------
// uncle statistics
// ---------------------------------------------------------------------------

/// Aggregate statistics over the uncles of a range of blocks.
#[derive(Debug, Clone, Copy, PartialEq, Eq, Structural)]
pub struct UncleSummary {
    pub uncles: u64,
    pub sum: u64,
    pub avg: u64,
    pub time_sum: u64,
    pub time_avg: u64,
}

/// Uncle statistics as they travel outbound.
#[derive(Debug, Clone, Copy, PartialEq, Eq, Structural)]
pub struct UncleSummaryView {
    pub uncles: StrView<u64>,
    pub sum: StrView<u64>,
    pub avg: StrView<u64>,
    pub time_sum: StrView<u64>,
    pub time_avg: StrView<u64>,
}

/// The view uncle statistics render to.
pub open spec fn uncle_summary_view_spec(s: UncleSummary) -> UncleSummaryView {
    UncleSummaryView {
        uncles: StrView(s.uncles),
        sum: StrView(s.sum),
        avg: StrView(s.avg),
        time_sum: StrView(s.time_sum),
        time_avg: StrView(s.time_avg),
    }
}

impl UncleSummaryView {
    /// Renders uncle statistics.
    pub fn from_summary(s: UncleSummary) -> (r: UncleSummaryView)
        ensures
            r == uncle_summary_view_spec(s),
    {
        UncleSummaryView {
            uncles: StrView(s.uncles),
            sum: StrView(s.sum),
            avg: StrView(s.avg),
            time_sum: StrView(s.time_sum),
            time_avg: StrView(s.time_avg),
        }
    }
}

/// Uncle statistics for an epoch: by block number and by epoch.
#[derive(Debug, Clone, Copy, PartialEq, Eq, Structural)]
pub struct EpochUncleSummary {
    pub epoch: u64,
    pub number_summary: UncleSummary,
    pub epoch_summary: UncleSummary,
}

/// Epoch uncle statistics as they travel outbound.
#[derive(Debug, Clone, Copy, PartialEq, Eq, Structural)]
pub struct EpochUncleSummaryView {
    pub epoch: StrView<u64>,
    pub number_summary: UncleSummaryView,
    pub epoch_summary: UncleSummaryView,
}

impl EpochUncleSummaryView {
    /// Renders epoch uncle statistics.
    pub fn from_summary(s: EpochUncleSummary) -> (r: EpochUncleSummaryView)
        ensures
            r.epoch.0 == s.epoch,
            r.number_summary == uncle_summary_view_spec(s.number_summary),
            r.epoch_summary == uncle_summary_view_spec(s.epoch_summary),
    {
        EpochUncleSummaryView {
            epoch: StrView(s.epoch),
            number_summary: UncleSummaryView::from_summary(s.number_summary),
            epoch_summary: UncleSummaryView::from_summary(s.epoch_summary),
        }
    }
}

} // verus!
