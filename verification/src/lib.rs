//! A process-isolation library, broker/target split: a trusted broker process
//! launches suspended target processes, transmits a security policy over a
//! one-shot channel once suspension is confirmed, and the target enacts the
//! policy on itself exactly once before doing further work.
//!
//! This crate holds the decision core: the policy model, the broker-side child
//! state machine, the target-side lockdown state machine, and the wire framing
//! of the policy handshake. The operating-system work around it (fork, exec,
//! signals, descriptor plumbing, the native sandbox entry point) lives in the
//! unverified host layer, which feeds observations into these functions and
//! carries out the actions they decide on.

pub mod child;
pub mod command;
pub mod encoding;
pub mod launcher;
pub mod error;
pub mod policy;
pub mod services;
pub mod wire;

use vstd::prelude::*;

verus! {

/// Largest frame the policy handshake channel accepts, in bytes. A policy
/// whose frame is larger is an explicit unsupported case: sending it fails
/// loudly rather than truncating.
pub const MAX_MESSAGE_SIZE: usize = 16384;

} // verus!
