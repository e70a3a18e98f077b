//! Execution outputs: events, the write set, and per-transaction info, with
//! their wire views. Both execution modes — local and remote — produce this
//! same output shape.

use vstd::prelude::*;

use crate::chain::{txn_position, Block};
use crate::errors::PipelineError;
use crate::hash::HashValue;
use crate::ids::AccountAddress;
use crate::status::{classify_kept, classify_status, KeptVMStatus, TransactionStatus,
    TransactionVMStatus};
use crate::typetag::TypeTag;
use crate::views::StrView;

verus! {

/// The key of an on-chain event stream: opaque bytes issued by the chain.
#[derive(Debug, PartialEq, Eq)]
pub struct EventKey {
    pub bytes: Vec<u8>,
}

/// An event emitted during execution.
#[derive(Debug, PartialEq, Eq)]
pub struct ContractEvent {
    pub key: EventKey,
    pub sequence_number: u64,
    pub type_tag: TypeTag,
    pub event_data: Vec<u8>,
}

/// An event located in its block and transaction.
#[derive(Debug, PartialEq, Eq)]
pub struct ContractEventInfo {
    pub block_hash: HashValue,
    pub block_number: u64,
    pub transaction_hash: HashValue,
    pub transaction_index: u32,
    pub event: ContractEvent,
}

/// An event as it travels outbound; the block and transaction context is
/// present when known.
#[derive(Debug, PartialEq, Eq)]
pub struct TransactionEventView {
    pub block_hash: Option<HashValue>,
    pub block_number: Option<StrView<u64>>,
    pub transaction_hash: Option<HashValue>,
    pub transaction_index: Option<u32>,
    pub data: StrView<Vec<u8>>,
    pub type_tag: TypeTag,
    pub event_key: EventKey,
    pub event_seq_number: StrView<u64>,
}

/// The view an event renders to, without block context.
pub open spec fn event_view_spec(e: ContractEvent) -> TransactionEventView {
    TransactionEventView {
        block_hash: None,
        block_number: None,
        transaction_hash: None,
        transaction_index: None,
        data: StrView(e.event_data),
        type_tag: e.type_tag,
        event_key: e.key,
        event_seq_number: StrView(e.sequence_number),
    }
}

impl TransactionEventView {
    /// Renders an event located in its block.
    pub fn from_info(info: ContractEventInfo) -> (r: TransactionEventView)
        ensures
            r.block_hash == Some(info.block_hash),
            r.block_number == Some(StrView(info.block_number)),
            r.transaction_hash == Some(info.transaction_hash),
            r.transaction_index == Some(info.transaction_index),
            r.data.0 == info.event.event_data,
            r.type_tag == info.event.type_tag,
            r.event_key == info.event.key,
            r.event_seq_number.0 == info.event.sequence_number,
    {
        let ContractEventInfo { block_hash, block_number, transaction_hash, transaction_index, event
        } = info;
        let ContractEvent { key, sequence_number, type_tag, event_data } = event;
        TransactionEventView {
            block_hash: Some(block_hash),
            block_number: Some(StrView(block_number)),
            transaction_hash: Some(transaction_hash),
            transaction_index: Some(transaction_index),
            data: StrView(event_data),
            type_tag,
            event_key: key,
            event_seq_number: StrView(sequence_number),
        }
    }

    /// Renders a bare event.
    pub fn from_event(event: ContractEvent) -> (r: TransactionEventView)
        ensures
            r == event_view_spec(event),
    {
        let ContractEvent { key, sequence_number, type_tag, event_data } = event;
        TransactionEventView {
            block_hash: None,
            block_number: None,
            transaction_hash: None,
            transaction_index: None,
            data: StrView(event_data),
            type_tag,
            event_key: key,
            event_seq_number: StrView(sequence_number),
        }
    }

    /// Renders an event with whatever block context the caller has.
    pub fn new(
        block_hash: Option<HashValue>,
        block_number: Option<u64>,
        transaction_hash: Option<HashValue>,
        transaction_index: Option<u32>,
        contract_event: ContractEvent,
    ) -> (r: TransactionEventView)
        ensures
            r.block_hash == block_hash,
            r.block_number == match block_number {
                Some(n) => Some(StrView(n)),
                None => None,
            },
            r.transaction_hash == transaction_hash,
            r.transaction_index == transaction_index,
            r.data.0 == contract_event.event_data,
            r.type_tag == contract_event.type_tag,
            r.event_key == contract_event.key,
            r.event_seq_number.0 == contract_event.sequence_number,
    {
        let ContractEvent { key, sequence_number, type_tag, event_data } = contract_event;
        let block_number_view = match block_number {
            Some(n) => Some(StrView(n)),
            None => None,
        };
        TransactionEventView {
            block_hash,
            block_number: block_number_view,
            transaction_hash,
            transaction_index,
            data: StrView(event_data),
            type_tag,
            event_key: key,
            event_seq_number: StrView(sequence_number),
        }
    }
}

// ---------------------------------------------------------------------------
// the write set
// ---------------------------------------------------------------------------

/// One write performed by a transaction: delete a slot, or store bytes.
#[derive(Debug, PartialEq, Eq)]
pub enum WriteOp {
    Deletion,
    Value(Vec<u8>),
}

/// A write as it travels outbound.
#[derive(Debug, PartialEq, Eq)]
pub enum WriteOpView {
    Deletion,
    Value(StrView<Vec<u8>>),
}

/// The view a write renders to.
pub open spec fn write_op_view_spec(op: WriteOp) -> WriteOpView {
    match op {
        WriteOp::Deletion => WriteOpView::Deletion,
        WriteOp::Value(v) => WriteOpView::Value(StrView(v)),
    }
}

impl WriteOpView {
    /// Renders a write.
    pub fn from_op(op: WriteOp) -> (r: WriteOpView)
        ensures
            r == write_op_view_spec(op),
    {
        match op {
            WriteOp::Deletion => WriteOpView::Deletion,
            WriteOp::Value(v) => WriteOpView::Value(StrView(v)),
        }
    }
}

/// Where a write lands: an account and the rendered data path under it.
#[derive(Debug, PartialEq, Eq)]
pub struct AccessPath {
    pub address: AccountAddress,
    pub path: String,
}

/// An access path as it travels outbound.
#[derive(Debug, PartialEq, Eq)]
pub struct AccessPathView {
    pub address: AccountAddress,
    pub path: String,
}

impl AccessPathView {
    /// Renders an access path.
    pub fn from_path(ap: AccessPath) -> (r: AccessPathView)
        ensures
            r.address == ap.address,
            r.path == ap.path,
    {
        let AccessPath { address, path } = ap;
        AccessPathView { address, path }
    }
}

/// One write-set entry as it travels outbound.
#[derive(Debug, PartialEq, Eq)]
pub struct TransactionOutputAction {
    pub access_path: AccessPathView,
    pub action: WriteOpView,
}

// ---------------------------------------------------------------------------
// transaction output
// ---------------------------------------------------------------------------

/// What executing a transaction produced: the write set, the events, the
/// gas used, and the raw status.
#[derive(Debug, PartialEq, Eq)]
pub struct TransactionOutput {
    pub write_set: Vec<(AccessPath, WriteOp)>,
    pub events: Vec<ContractEvent>,
    pub gas_used: u64,
    pub status: TransactionStatus,
}

/// A transaction output as it travels outbound, its status classified.
#[derive(Debug, PartialEq, Eq)]
pub struct TransactionOutputView {
    pub events: Vec<TransactionEventView>,
    pub gas_used: StrView<u64>,
    pub status: TransactionVMStatus,
    pub write_set: Vec<TransactionOutputAction>,
}

/// The views of a list of bare events.
pub open spec fn event_views_of(es: Seq<ContractEvent>) -> Seq<TransactionEventView> {
    Seq::new(es.len(), |i: int| event_view_spec(es[i]))
}

/// The views of a write set.
pub open spec fn write_set_views_of(ws: Seq<(AccessPath, WriteOp)>) -> Seq<
    TransactionOutputAction,
> {
    Seq::new(
        ws.len(),
        |i: int|
            TransactionOutputAction {
                access_path: AccessPathView { address: ws[i].0.address, path: ws[i].0.path },
                action: write_op_view_spec(ws[i].1),
            },
    )
}

impl TransactionOutputView {
    /// Renders a transaction output, classifying its status.
    pub fn from_output(o: TransactionOutput) -> (r: TransactionOutputView)
        ensures
            r.gas_used.0 == o.gas_used,
            r.status == classify_status(o.status),
            r.events@ == event_views_of(o.events@),
            r.write_set@ == write_set_views_of(o.write_set@),
    {
        let TransactionOutput { write_set, events, gas_used, status } = o;
        let ghost events0 = events@;
        let mut rest_events = events;
        let mut event_views: Vec<TransactionEventView> = Vec::new();
        let ghost mut k: int = 0;
        while rest_events.len() > 0
            invariant
                0 <= k,
                events0.len() == k + rest_events@.len(),
                rest_events@ == events0.skip(k),
                event_views@.len() == k,
                forall|i: int|
                    0 <= i < k ==> #[trigger] event_views@[i] == event_view_spec(events0[i]),
            decreases rest_events@.len(),
        {
            let e = rest_events.remove(0);
            proof {
                assert(e == events0[k]);
                assert(events0.skip(k).remove(0) =~= events0.skip(k + 1));
            }
            event_views.push(TransactionEventView::from_event(e));
            proof {
                k = k + 1;
            }
        }
        proof {
            assert(event_views@ =~= event_views_of(events0));
        }
        let ghost ws0 = write_set@;
        let mut rest_ws = write_set;
        let mut actions: Vec<TransactionOutputAction> = Vec::new();
        let ghost mut m: int = 0;
        while rest_ws.len() > 0
            invariant
                0 <= m,
                ws0.len() == m + rest_ws@.len(),
                rest_ws@ == ws0.skip(m),
                actions@.len() == m,
                forall|i: int| 0 <= i < m ==> #[trigger] actions@[i] == write_set_views_of(ws0)[i],
            decreases rest_ws@.len(),
        {
            let (p, w) = rest_ws.remove(0);
            proof {
                assert((p, w) == ws0[m]);
                assert(ws0.skip(m).remove(0) =~= ws0.skip(m + 1));
            }
            actions.push(
                TransactionOutputAction {
                    access_path: AccessPathView::from_path(p),
                    action: WriteOpView::from_op(w),
                },
            );
            proof {
                m = m + 1;
            }
        }
        proof {
            assert(actions@ =~= write_set_views_of(ws0));
        }
        TransactionOutputView {
            events: event_views,
            gas_used: StrView(gas_used),
            status: TransactionVMStatus::from_status(status),
            write_set: actions,
        }
    }
}

// ---------------------------------------------------------------------------
// transaction info
// ---------------------------------------------------------------------------

/// The on-chain record of one executed transaction.
#[derive(Debug, PartialEq, Eq)]
pub struct TransactionInfo {
    pub transaction_hash: HashValue,
    pub state_root_hash: HashValue,
    pub event_root_hash: HashValue,
    pub gas_used: u64,
    pub status: KeptVMStatus,
}

/// A transaction record as it travels outbound, located in its block.
#[derive(Debug, PartialEq, Eq)]
pub struct TransactionInfoView {
    pub block_hash: HashValue,
    pub block_number: StrView<u64>,
    pub transaction_hash: HashValue,
    pub transaction_index: u32,
    pub state_root_hash: HashValue,
    pub event_root_hash: HashValue,
    pub gas_used: StrView<u64>,
    pub status: TransactionVMStatus,
}

impl TransactionInfoView {
    /// Renders a transaction record against the block that holds it. A
    /// record not found among the block's user transactions is the block
    /// metadata transaction and gets index `0`; user transactions get one
    /// more than their position.
    pub fn new(txn_info: TransactionInfo, txn_block: &Block) -> (r: TransactionInfoView)
        requires
            txn_block.body.transactions@.len() < u32::MAX,
        ensures
            r.block_hash@ == txn_block.header.block_hash@,
            r.block_number.0 == txn_block.header.number,
            r.transaction_hash == txn_info.transaction_hash,
            r.transaction_index == (if txn_position(
                txn_block.body.transactions@,
                txn_info.transaction_hash@,
            ) >= 0 {
                1 + txn_position(txn_block.body.transactions@, txn_info.transaction_hash@)
            } else {
                0
            }),
            r.state_root_hash == txn_info.state_root_hash,
            r.event_root_hash == txn_info.event_root_hash,
            r.gas_used.0 == txn_info.gas_used,
            r.status == classify_kept(txn_info.status),
    {
        let block_hash = txn_block.header.block_hash.duplicate();
        let index: u32 = match crate::chain::find_txn_position(
            &txn_block.body.transactions,
            &txn_info.transaction_hash,
        ) {
            Some(i) => 1 + (i as u32),
            None => 0,
        };
        let TransactionInfo { transaction_hash, state_root_hash, event_root_hash, gas_used, status }
            = txn_info;
        TransactionInfoView {
            block_hash,
            block_number: StrView(txn_block.header.number),
            transaction_hash,
            transaction_index: index,
            state_root_hash,
            event_root_hash,
            gas_used: StrView(gas_used),
            status: TransactionVMStatus::from_kept(status),
        }
    }
}

} // verus!
