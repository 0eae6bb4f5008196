//! The state of proofs.

use crate::nuts::nut01::PublicKey;
use vstd::prelude::*;

verus! {

/// The state of a proof.
#[derive(Clone, Copy, Debug, PartialEq, Eq, Structural, Hash)]
pub enum State {
    /// Spent.
    Spent,
    /// Not spent.
    Unspent,
    /// Part of a transaction that is under way.
    Pending,
    /// Set aside by the wallet.
    Reserved,
    /// Spent in a transaction that is under way.
    PendingSpent,
}

/// The state of one proof, by the point of its secret.
#[derive(Debug, PartialEq, Eq)]
pub struct ProofState {
    /// The point that the secret of the proof is hashed to.
    pub y: PublicKey,
    /// The state of the proof.
    pub state: State,
    /// What unlocked the proof.
    pub witness: Option<String>,
}

} // verus!
