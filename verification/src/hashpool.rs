//! Looking up mint quotes by the keys they are locked to.

use crate::amount::Amount;
use crate::nuts::nut00::{MintQuoteState, PaymentMethod};
use crate::nuts::nut01::PublicKey;
use crate::nuts::nut02::Id;
use vstd::prelude::*;

verus! {

/// Which quotes a lookup returns, by their state.
#[derive(Clone, Copy, Debug, PartialEq, Eq, Structural)]
pub enum MintQuoteStateFilter {
    /// All quotes.
    All,
    /// Quotes that are paid and can be minted.
    OnlyPaid,
    /// Quotes that are not paid.
    OnlyUnpaid,
    /// Quotes for which ecash has been issued.
    OnlyIssued,
    /// Quotes in one state.
    Specific(MintQuoteState),
}

impl Default for MintQuoteStateFilter {
    fn default() -> (f: MintQuoteStateFilter)
        ensures
            f == MintQuoteStateFilter::OnlyPaid,
    {
        MintQuoteStateFilter::OnlyPaid
    }
}

impl MintQuoteStateFilter {
    /// Whether the filter lets a quote in this state through.
    pub open spec fn admits(&self, state: MintQuoteState) -> bool {
        match *self {
            MintQuoteStateFilter::All => true,
            MintQuoteStateFilter::OnlyPaid => state == MintQuoteState::Paid,
            MintQuoteStateFilter::OnlyUnpaid => state == MintQuoteState::Unpaid,
            MintQuoteStateFilter::OnlyIssued => state == MintQuoteState::Issued,
            MintQuoteStateFilter::Specific(s) => state == s,
        }
    }

    /// Whether the filter lets a quote in this state through.
    pub fn matches(&self, state: MintQuoteState) -> (b: bool)
        ensures
            b == self.admits(state),
    {
        match self {
            MintQuoteStateFilter::All => true,
            MintQuoteStateFilter::OnlyPaid => state == MintQuoteState::Paid,
            MintQuoteStateFilter::OnlyUnpaid => state == MintQuoteState::Unpaid,
            MintQuoteStateFilter::OnlyIssued => state == MintQuoteState::Issued,
            MintQuoteStateFilter::Specific(s) => state == *s,
        }
    }
}

/// A request to look up quotes.
#[derive(Debug, PartialEq, Eq)]
pub struct PostMintQuoteLookupRequest {
    /// The keys whose quotes are asked for.
    pub pubkeys: Vec<PublicKey>,
    /// Which of the quotes to return.
    pub state_filter: MintQuoteStateFilter,
}

/// The answer to a lookup.
#[derive(Debug, PartialEq, Eq)]
pub struct PostMintQuoteLookupResponse {
    /// The quotes that were found.
    pub quotes: Vec<MintQuoteLookupItem>,
}

/// One quote of an answer to a lookup.
#[derive(Debug, PartialEq, Eq)]
pub struct MintQuoteLookupItem {
    /// The key that the quote is locked to.
    pub pubkey: PublicKey,
    /// The identifier of the quote.
    pub quote: String,
    /// How the quote is paid.
    pub method: PaymentMethod,
    /// The amount of the quote.
    pub amount: Amount,
    /// The keyset that signs the outputs of the quote.
    pub keyset_id: Id,
}

} // verus!
