//! Integration layer between a chain's state-transition function and an
//! embedded deterministic bytecode virtual machine.
//!
//! The VM itself is an opaque collaborator: it executes scripts and publishes
//! modules, reporting a status and the gas it consumed. This library holds the
//! verified logic around it: decoding transaction envelopes, resolving signer
//! addresses, validating gas budgets, adapting the chain's flat key-value
//! storage, bridging VM events into chain events, managing the one VM instance
//! per process, and translating VM outcomes into the pallet error taxonomy
//! while conserving gas accounting. Functions that in a running chain would
//! invoke the VM instead take the VM's reported result as an argument, so the
//! decision logic is verified for every outcome the VM could report.

pub mod addr;
pub mod event;
pub mod gas;
pub mod mvm;
pub mod pipeline;
pub mod result;
pub mod storage;
pub mod tx;
pub mod xcm_poc;
