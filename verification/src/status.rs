//! Classification of raw VM execution results into a fixed outcome
//! taxonomy, and the dry-run gate that decides whether a gas-costing
//! broadcast is safe.
//!
//! The top-level split is discard versus keep: a discarded transaction
//! never entered a block and carries only a numeric status code; a kept
//! transaction carries one of four refined outcomes besides success.
//! Classification is deterministic and side-effect-free, and every outcome
//! belongs to exactly one class.

use vstd::prelude::*;

use crate::ids::ModuleId;

verus! {

/// Where an abort or execution failure happened: inside the transaction
/// script itself, or inside a published module.
#[derive(Debug, PartialEq, Eq)]
pub enum AbortLocation {
    Script,
    Module(ModuleId),
}

/// Refined outcome of a transaction that entered a block. `MoveAbort`
/// preserves the abort site and the application-defined abort code;
/// `ExecutionFailure` preserves the failing function index and the bytecode
/// offset within it, so a failure is diagnosable without re-execution.
#[derive(Debug, PartialEq, Eq)]
pub enum KeptVMStatus {
    Executed,
    OutOfGas,
    MoveAbort(AbortLocation, u64),
    ExecutionFailure { location: AbortLocation, function: u16, code_offset: u16 },
    MiscellaneousError,
}

/// Raw VM outcome: discarded before execution (with its numeric status
/// code), or kept on chain with a refined status.
#[derive(Debug, PartialEq, Eq)]
pub enum TransactionStatus {
    Discard(u64),
    Keep(KeptVMStatus),
}

/// The wire view of a VM status. On the wire its numeric fields travel as
/// decimal strings.
#[derive(Debug, PartialEq, Eq)]
pub enum TransactionVMStatus {
    Executed,
    OutOfGas,
    MoveAbort { location: AbortLocation, abort_code: u64 },
    ExecutionFailure { location: AbortLocation, function: u16, code_offset: u16 },
    MiscellaneousError,
    Discard { status_code: u64 },
}

/// How a kept status classifies.
pub open spec fn classify_kept(k: KeptVMStatus) -> TransactionVMStatus {
    match k {
        KeptVMStatus::Executed => TransactionVMStatus::Executed,
        KeptVMStatus::OutOfGas => TransactionVMStatus::OutOfGas,
        KeptVMStatus::MoveAbort(location, code) => TransactionVMStatus::MoveAbort {
            location,
            abort_code: code,
        },
        KeptVMStatus::ExecutionFailure { location, function, code_offset } =>
            TransactionVMStatus::ExecutionFailure { location, function, code_offset },
        KeptVMStatus::MiscellaneousError => TransactionVMStatus::MiscellaneousError,
    }
}

/// How a raw outcome classifies: discard and keep are mutually exclusive
/// and exhaustive.
pub open spec fn classify_status(s: TransactionStatus) -> TransactionVMStatus {
    match s {
        TransactionStatus::Discard(code) => TransactionVMStatus::Discard { status_code: code },
        TransactionStatus::Keep(k) => classify_kept(k),
    }
}

impl TransactionVMStatus {
    /// Classifies a kept status.
    pub fn from_kept(k: KeptVMStatus) -> (r: TransactionVMStatus)
        ensures
            r == classify_kept(k),
    {
        match k {
            KeptVMStatus::Executed => TransactionVMStatus::Executed,
            KeptVMStatus::OutOfGas => TransactionVMStatus::OutOfGas,
            KeptVMStatus::MoveAbort(location, code) => TransactionVMStatus::MoveAbort {
                location,
                abort_code: code,
            },
            KeptVMStatus::ExecutionFailure { location, function, code_offset } =>
                TransactionVMStatus::ExecutionFailure { location, function, code_offset },
            KeptVMStatus::MiscellaneousError => TransactionVMStatus::MiscellaneousError,
        }
    }

    /// Classifies a discard status code.
    pub fn from_discarded(status_code: u64) -> (r: TransactionVMStatus)
        ensures
            r == (TransactionVMStatus::Discard { status_code }),
    {
        TransactionVMStatus::Discard { status_code }
    }

    /// Classifies a raw outcome.
    pub fn from_status(s: TransactionStatus) -> (r: TransactionVMStatus)
        ensures
            r == classify_status(s),
    {
        match s {
            TransactionStatus::Discard(code) => TransactionVMStatus::Discard {
                status_code: code,
            },
            TransactionStatus::Keep(k) => TransactionVMStatus::from_kept(k),
        }
    }
}

/// Why a dry run rejected a transaction. `Aborted` carries the abort code
/// so the caller can decide the next action.
#[derive(Debug, PartialEq, Eq)]
pub enum DryRunRejected {
    Discarded { status_code: u64 },
    OutOfGas,
    Aborted { location: AbortLocation, abort_code: u64 },
    ExecutionFailed { location: AbortLocation, function: u16, code_offset: u16 },
    Miscellaneous,
}

/// The mandatory gating policy on a classified outcome: only a kept,
/// successfully executed transaction may proceed to broadcast; every other
/// outcome fails hard with its refined reason attached.
pub open spec fn dry_run_verdict(s: TransactionVMStatus) -> Result<(), DryRunRejected> {
    match s {
        TransactionVMStatus::Executed => Ok(()),
        TransactionVMStatus::OutOfGas => Err(DryRunRejected::OutOfGas),
        TransactionVMStatus::MoveAbort { location, abort_code } => Err(
            DryRunRejected::Aborted { location, abort_code },
        ),
        TransactionVMStatus::ExecutionFailure { location, function, code_offset } => Err(
            DryRunRejected::ExecutionFailed { location, function, code_offset },
        ),
        TransactionVMStatus::MiscellaneousError => Err(DryRunRejected::Miscellaneous),
        TransactionVMStatus::Discard { status_code } => Err(
            DryRunRejected::Discarded { status_code },
        ),
    }
}

/// Applies the gating policy to a classified status.
pub fn gate_dry_run(status: TransactionVMStatus) -> (r: Result<(), DryRunRejected>)
    ensures
        r == dry_run_verdict(status),
{
    match status {
        TransactionVMStatus::Executed => Ok(()),
        TransactionVMStatus::OutOfGas => Err(DryRunRejected::OutOfGas),
        TransactionVMStatus::MoveAbort { location, abort_code } => Err(
            DryRunRejected::Aborted { location, abort_code },
        ),
        TransactionVMStatus::ExecutionFailure { location, function, code_offset } => Err(
            DryRunRejected::ExecutionFailed { location, function, code_offset },
        ),
        TransactionVMStatus::MiscellaneousError => Err(DryRunRejected::Miscellaneous),
        TransactionVMStatus::Discard { status_code } => Err(
            DryRunRejected::Discarded { status_code },
        ),
    }
}

/// Classifies a raw outcome and applies the gating policy in one step: the
/// unconditional gate between assembly and broadcast.
pub fn gate_execution_outcome(s: TransactionStatus) -> (r: Result<(), DryRunRejected>)
    ensures
        r == dry_run_verdict(classify_status(s)),
{
    let classified = TransactionVMStatus::from_status(s);
    gate_dry_run(classified)
}

/// Only a kept and successfully executed outcome may proceed to
/// broadcast; every other outcome, discard included, is rejected.
pub proof fn lemma_gate_passes_only_executed(s: TransactionStatus)
    ensures
        dry_run_verdict(classify_status(s)) is Ok <==> s == TransactionStatus::Keep(
            KeptVMStatus::Executed,
        ),
{
}

} // verus!
