//! The error taxonomy of the pipeline. Every failure is surfaced to the
//! caller with enough structure to decide the next action; nothing is
//! silently swallowed and nothing is retried inside the core.

use vstd::prelude::*;

verus! {

/// A malformed or contradictory payload target.
#[derive(Clone, Copy, Debug, PartialEq, Eq, Structural)]
pub enum ConfigIssue {
    /// Both a script body and a function reference were given.
    AmbiguousTarget,
    /// Neither a script body nor a function reference was given.
    MissingTarget,
    /// A deploy was requested with no module at all.
    EmptyPackage,
    /// The request held a script body where a function reference was needed.
    NotAFunctionCall,
    /// The request held a function reference where a script body was needed.
    NotAScript,
    /// The compilation produced no unit to build a payload from.
    NoCompiledUnit,
}

/// Errors surfaced by the codec and pipeline stages.
#[derive(Clone, Debug, PartialEq, Eq)]
pub enum PipelineError {
    /// A malformed wire scalar or identifier.
    DecodeError,
    /// An ambiguous or missing payload target.
    ConfigError(ConfigIssue),
    /// Compiler diagnostics surfaced to the caller, not retried here.
    CompileError(String),
    /// The sender address has no account resource on chain.
    AccountNotFound,
    /// The remote chain's clock could not be read.
    ClockUnavailable,
    /// Transport failure or broadcast rejection.
    SubmissionFailed,
    /// A transaction was rendered against a block that does not hold it.
    TransactionMissingFromBlock,
    /// The inclusion watch was cancelled or timed out; the transaction may
    /// still be included later.
    ConfirmationTimeout,
}

} // verus!
