//! A reputation and trust ledger for autonomous software agents.
//!
//! The ledger ingests feedback and violation reports, maintains a bounded,
//! time-decayed, stake-weighted score per agent, derives a discrete trust
//! tier from that score, and maps the tier to a concrete capability policy.
//! All state lives in an in-memory store; caller identity and the current
//! time are explicit parameters, so every operation is a deterministic
//! function of its inputs.

use vstd::prelude::*;

pub mod contract;
pub mod policy;
pub mod scoring;
pub mod types;

verus! {

/// The ways an operation on the ledger can be refused.
///
/// Every refusal leaves the ledger exactly as it was: validation is
/// atomic-or-nothing per call.
#[derive(Clone, Copy, Debug, PartialEq, Eq, Structural)]
pub enum ReputationError {
    /// The caller identity fails the authorization check for the operation.
    Unauthorized,
    /// The referenced agent has no record in the ledger.
    NotRegistered,
    /// The agent is already registered.
    AlreadyRegistered,
    /// A rating value lies outside the 0..=5 domain.
    InvalidRating,
    /// An unstake request exceeds the currently staked amount.
    InsufficientStake,
    /// An out-of-range violation reference.
    InvalidIndex,
    /// An external proof was rejected by the verifier.
    VerificationFailed,
    /// An external token transfer reported failure.
    TransferFailed,
}

} // verus!
