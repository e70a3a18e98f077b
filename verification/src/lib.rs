//! Building blocks for assembling, simulating, and submitting chain
//! transactions, together with the ambiguity-free wire encoding used to
//! exchange transactions, arguments, and execution statuses as text.

pub mod args;
pub mod canonical;
pub mod chain;
pub mod codec;
pub mod command;
pub mod errors;
pub mod genesis_config;
pub mod hash;
pub mod ids;
pub mod node;
pub mod output;
pub mod payload;
pub mod resource;
pub mod state_proof;
pub mod status;
pub mod txn;
pub mod typetag;
pub mod views;
