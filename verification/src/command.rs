//! The decision core of the execute command: everything the command decides
//! between its calls to the outside world — compiling, reading chain state,
//! signing, simulating, broadcasting and watching all happen elsewhere; the
//! choices between them are made and proved here.

use vstd::prelude::*;

use crate::errors::PipelineError;
use crate::genesis_config::ChainId;
use crate::hash::HashValue;
use crate::ids::{AccountAddress, FunctionId};
use crate::output::TransactionOutputView;
use crate::payload::{
    build_payload, built_payload_matches, payload_request_ambiguous, payload_request_missing,
    CompiledArtifact, TransactionPayload,
};
use crate::txn::{assemble_from_chain_reads, default_gas_token, default_gas_token_str,
    RawUserTransaction};
use crate::typetag::TypeTag;
use crate::args::TransactionArgument;

verus! {

/// The options of an execute request, as plain values: the target (a
/// compiled source or bytecode file, or a published function), the type
/// arguments and arguments, the gas budget, and the run mode.
#[derive(Debug, PartialEq, Eq)]
pub struct ExecuteOpt {
    pub sender: Option<AccountAddress>,
    pub type_tags: Vec<TypeTag>,
    pub args: Vec<TransactionArgument>,
    pub expiration_time: u64,
    pub max_gas_amount: u64,
    pub gas_price: u64,
    pub blocking: bool,
    pub dry_run: bool,
    pub local_mode: bool,
    pub script_function: Option<FunctionId>,
    pub move_file: Option<String>,
    pub deps: Vec<String>,
}

/// What a submitted transaction came to: its identifier, and the including
/// block once it is observed on chain.
#[derive(Debug, PartialEq, Eq)]
pub struct ExecutionOutputView {
    pub txn_hash: HashValue,
    pub block_number: Option<u64>,
    pub block_id: Option<HashValue>,
}

impl ExecutionOutputView {
    /// A freshly submitted transaction: accepted into the queue, not yet
    /// observed in a block.
    pub fn new(txn_hash: HashValue) -> (r: ExecutionOutputView)
        ensures
            r.txn_hash == txn_hash,
            r.block_number is None,
            r.block_id is None,
    {
        ExecutionOutputView { txn_hash, block_number: None, block_id: None }
    }
}

/// The result of an execute request: a submission outcome, or the dry-run
/// output when no broadcast was asked for.
#[derive(Debug, PartialEq, Eq)]
pub enum ExecuteResultView {
    Run(ExecutionOutputView),
    DryRun(TransactionOutputView),
}

/// The execute command.
#[derive(Debug, Clone, Copy, PartialEq, Eq, Structural)]
pub struct ExecuteCommand;

impl ExecuteCommand {
    /// Plans the unsigned transaction for a request: builds the payload
    /// from the compiled artifact or function reference, then combines it
    /// with the sequence number exactly as read from the sender's account
    /// and an expiration computed against the remote chain's clock, paying
    /// gas in the default token. A malformed target is rejected before any
    /// chain data is consulted; a sender with no account resource, or an
    /// unreadable chain clock, is rejected after.
    pub fn plan_transaction(
        sender: AccountAddress,
        artifact: Option<CompiledArtifact>,
        script_function: Option<FunctionId>,
        type_tags: Vec<TypeTag>,
        args: Vec<TransactionArgument>,
        max_gas_amount: u64,
        gas_price: u64,
        expiration_time: u64,
        chain_id: ChainId,
        account_sequence: Option<u64>,
        chain_now_seconds: Option<u64>,
    ) -> (r: Result<RawUserTransaction, PipelineError>)
        requires
            chain_now_seconds matches Some(now) ==> now + expiration_time <= u64::MAX,
        ensures
            match r {
                Ok(txn) => account_sequence matches Some(sq) && (chain_now_seconds matches Some(
                    now,
                ) && built_payload_matches(
                    txn.payload,
                    artifact,
                    script_function,
                    type_tags,
                    args@,
                ) && txn.sender == sender && txn.sequence_number == sq && txn.max_gas_amount
                    == max_gas_amount && txn.gas_unit_price == gas_price && txn.gas_token_code@
                    == default_gas_token_str() && txn.expiration_timestamp_secs == now
                    + expiration_time && txn.chain_id == chain_id),
                Err(e) => (payload_request_ambiguous(artifact, script_function) && e
                    == PipelineError::ConfigError(
                    crate::errors::ConfigIssue::AmbiguousTarget,
                )) || (payload_request_missing(artifact, script_function) && e
                    == PipelineError::ConfigError(crate::errors::ConfigIssue::MissingTarget)) || (
                !payload_request_ambiguous(artifact, script_function) && !payload_request_missing(
                    artifact,
                    script_function,
                ) && ((account_sequence is None && e == PipelineError::AccountNotFound) || (
                account_sequence is Some && chain_now_seconds is None && e
                    == PipelineError::ClockUnavailable))),
            },
    {
        let payload: TransactionPayload = match build_payload(
            artifact,
            script_function,
            type_tags,
            args,
        ) {
            Ok(p) => p,
            Err(e) => {
                return Err(e);
            },
        };
        assemble_from_chain_reads(
            sender,
            payload,
            max_gas_amount,
            gas_price,
            default_gas_token(),
            expiration_time,
            chain_id,
            account_sequence,
            chain_now_seconds,
        )
    }

    /// Decides what the command returns once the dry-run gate has passed.
    /// A dry run reports the simulated output and broadcasts nothing.
    /// Otherwise the transaction was broadcast: without blocking, the
    /// identifier alone comes back; with blocking, the including block —
    /// and a watch that ended without an inclusion is a confirmation
    /// timeout, since the transaction may still be included later and is
    /// never resubmitted from here.
    pub fn finalize(
        dry_run: bool,
        blocking: bool,
        txn_hash: HashValue,
        output: TransactionOutputView,
        inclusion: Option<(u64, HashValue)>,
    ) -> (r: Result<ExecuteResultView, PipelineError>)
        ensures
            match r {
                Ok(v) => (dry_run && v == ExecuteResultView::DryRun(output)) || (!dry_run && (v
                    matches ExecuteResultView::Run(o) && o.txn_hash == txn_hash && (if blocking {
                    inclusion matches Some(incl) && o.block_number == Some(incl.0) && o.block_id
                        == Some(incl.1)
                } else {
                    o.block_number is None && o.block_id is None
                }))),
                Err(e) => !dry_run && blocking && inclusion is None && e
                    == PipelineError::ConfirmationTimeout,
            },
    {
        if dry_run {
            return Ok(ExecuteResultView::DryRun(output));
        }
        if !blocking {
            return Ok(ExecuteResultView::Run(ExecutionOutputView::new(txn_hash)));
        }
        match inclusion {
            Some((block_number, block_id)) => Ok(
                ExecuteResultView::Run(
                    ExecutionOutputView {
                        txn_hash,
                        block_number: Some(block_number),
                        block_id: Some(block_id),
                    },
                ),
            ),
            None => Err(PipelineError::ConfirmationTimeout),
        }
    }
}

/// The options of the start-service command.
#[derive(Debug, PartialEq, Eq)]
pub struct StartOpt {
    pub name: String,
}

/// The start-service command. Its work is two calls to the node — start
/// the named service, then list the services — with no decision between
/// them, so nothing of it runs here.
#[derive(Debug, Clone, Copy, PartialEq, Eq, Structural)]
pub struct StartCommand;

} // verus!
