//! Quotes to melt ecash.

use crate::amount::Amount;
use crate::nuts::nut00::BlindSignature;
use vstd::prelude::*;

verus! {

/// The state of a melt quote.
#[derive(Clone, Copy, Debug, PartialEq, Eq, Structural, Hash)]
pub enum MeltQuoteState {
    /// Not paid yet.
    Unpaid,
    /// Paid.
    Paid,
    /// Payment is under way.
    Pending,
    /// The state is not known.
    Unknown,
    /// Payment failed.
    Failed,
}

/// What a mint tells of a quote to melt ecash into a Lightning payment. `Q` is
/// the form of the quote's identifier.
#[derive(Debug, PartialEq, Eq)]
pub struct MeltQuoteBolt11Response<Q> {
    /// The identifier of the quote.
    pub quote: Q,
    /// The amount to melt.
    pub amount: Amount,
    /// What is held back for fees.
    pub fee_reserve: Amount,
    /// The state of the quote.
    pub state: MeltQuoteState,
    /// The time until which the quote is valid, in seconds since the epoch.
    pub expiry: u64,
    /// The preimage of the payment.
    pub payment_preimage: Option<String>,
    /// Signatures on the change.
    pub change: Option<Vec<BlindSignature>>,
}

} // verus!
