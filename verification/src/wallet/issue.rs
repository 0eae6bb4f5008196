//! Minting: from paid quotes to proofs.

pub mod batch;
pub mod issue_mining_share;
