//! Records that a wallet keeps.

use crate::amount::Amount;
use crate::nuts::nut00::{CurrencyUnit, Proofs};
use crate::nuts::nut02::Id;
use vstd::prelude::*;

verus! {

/// Proofs by whether they can still be spent.
#[derive(Debug, PartialEq, Eq)]
pub struct ProofsStatus {
    /// Those that can be spent.
    pub spendable: Proofs,
    /// Those that are spent.
    pub spent: Proofs,
}

/// What came of melting proofs.
#[derive(Debug, PartialEq, Eq)]
pub struct Melted {
    /// Whether the payment was made.
    pub paid: bool,
    /// The preimage of the payment.
    pub preimage: Option<String>,
    /// The change.
    pub change: Option<Proofs>,
}

impl Default for Melted {
    fn default() -> (m: Melted)
        ensures
            !m.paid,
            m.preimage.is_none(),
            m.change.is_none(),
    {
        Melted { paid: false, preimage: None, change: None }
    }
}

/// The state of an invoice.
#[derive(Clone, Copy, Debug, PartialEq, Eq, Structural)]
pub enum InvoiceStatus {
    /// Not paid.
    Unpaid,
    /// Paid.
    Paid,
    /// Expired.
    Expired,
    /// Payment is under way.
    InFlight,
}

/// A quote to mint.
#[derive(Debug, PartialEq, Eq)]
pub struct MintQuote {
    /// The identifier of the quote.
    pub id: String,
    /// The amount.
    pub amount: Amount,
    /// The unit.
    pub unit: CurrencyUnit,
    /// The invoice to pay, as text.
    pub request: String,
    /// Whether it is paid.
    pub paid: bool,
    /// The time until which the quote is valid, in seconds since the epoch.
    pub expiry: u64,
}

/// A quote to melt.
#[derive(Debug, PartialEq, Eq)]
pub struct MeltQuote {
    /// The identifier of the quote.
    pub id: String,
    /// The amount.
    pub amount: Amount,
    /// The invoice to pay, as text.
    pub request: String,
    /// The unit.
    pub unit: CurrencyUnit,
    /// What is held back for fees.
    pub fee_reserve: Amount,
    /// Whether it is paid.
    pub paid: bool,
    /// The time until which the quote is valid, in seconds since the epoch.
    pub expiry: u64,
}

/// What a mint records of a keyset.
#[derive(Debug, PartialEq, Eq, Hash)]
pub struct KeysetInfo {
    /// The identifier of the keyset.
    pub id: Id,
    /// The time from which it is valid, in seconds since the epoch.
    pub valid_from: u64,
    /// The time until which it is valid.
    pub valid_to: Option<u64>,
    /// The derivation path of its keys, as text.
    pub derivation_path: String,
    /// The number of its keys: one for each power of two below 2 to this
    /// number.
    pub max_order: u8,
}

} // verus!
