//! The mint's quotes and the states they pass through.

use crate::amount::Amount;
use crate::error::Error;
use crate::nuts::nut00::{CurrencyUnit, MintQuoteState, PaymentMethod};
use crate::nuts::nut01::PublicKey;
use crate::nuts::nut02::Id;
use crate::nuts::nutxx::MAX_SHARE_AMOUNT;
use crate::quote_id::Uuid;
use vstd::prelude::*;

verus! {

/// A mint quote as the mint keeps it.
#[derive(Debug, PartialEq, Eq)]
pub struct MintQuote {
    /// The identifier of the quote.
    pub id: Uuid,
    /// How the quote is paid.
    pub payment_method: PaymentMethod,
    /// The unit of the amount.
    pub unit: CurrencyUnit,
    /// The amount of the quote.
    pub amount: Amount,
    /// What is to be paid: an invoice, or the hash of a block header as
    /// hexadecimal text.
    pub request: String,
    /// The key that the quote is locked to.
    pub pubkey: Option<PublicKey>,
    /// The state of the quote.
    pub state: MintQuoteState,
    /// The time until which the quote is valid, in seconds since the epoch;
    /// zero for a quote that does not expire.
    pub expiry: u64,
    /// The amount that has been paid.
    pub amount_paid: Amount,
    /// The amount for which ecash has been issued.
    pub amount_issued: Amount,
    /// The keyset that signs the outputs of the quote. A mining share quote
    /// has one from the start.
    pub keyset_id: Option<Id>,
}

impl Clone for MintQuote {
    fn clone(&self) -> (r: MintQuote)
        ensures
            r == *self,
    {
        MintQuote {
            id: self.id,
            payment_method: self.payment_method,
            unit: self.unit.clone(),
            amount: self.amount,
            request: self.request.clone(),
            pubkey: self.pubkey,
            state: self.state,
            expiry: self.expiry,
            amount_paid: self.amount_paid,
            amount_issued: self.amount_issued,
            keyset_id: self.keyset_id,
        }
    }
}

/// What happens to a quote.
#[derive(Clone, Copy, Debug, PartialEq, Eq, Structural)]
pub enum QuoteEvent {
    /// The payment came in.
    PaymentReceived,
    /// Issuance begins: the quote is leased to it.
    IssuanceBegins,
    /// The signatures are made and go out.
    SignaturesReturned,
    /// Issuance failed before the signatures went out: the lease ends.
    IssuanceFails,
}

/// The state that an event takes a quote to, if the event can happen in the
/// state of the quote.
pub open spec fn next_state(state: MintQuoteState, event: QuoteEvent) -> Option<MintQuoteState> {
    match (state, event) {
        (MintQuoteState::Unpaid, QuoteEvent::PaymentReceived) => Some(MintQuoteState::Paid),
        (MintQuoteState::Paid, QuoteEvent::IssuanceBegins) => Some(MintQuoteState::Pending),
        (MintQuoteState::Pending, QuoteEvent::SignaturesReturned) => Some(MintQuoteState::Issued),
        (MintQuoteState::Pending, QuoteEvent::IssuanceFails) => Some(MintQuoteState::Paid),
        _ => None,
    }
}

/// How far a state is on the way from unpaid to issued.
pub open spec fn rank(state: MintQuoteState) -> nat {
    match state {
        MintQuoteState::Unpaid => 0,
        MintQuoteState::Paid => 1,
        MintQuoteState::Pending => 2,
        MintQuoteState::Issued => 3,
    }
}

/// Why an event cannot happen in a state.
pub open spec fn refusal(state: MintQuoteState, event: QuoteEvent) -> Error {
    match state {
        MintQuoteState::Unpaid => Error::UnpaidQuote,
        MintQuoteState::Paid => match event {
            QuoteEvent::PaymentReceived => Error::PaidQuote,
            _ => Error::UnknownQuote,
        },
        MintQuoteState::Pending => Error::QuoteAlreadyIssued,
        MintQuoteState::Issued => Error::QuoteAlreadyIssued,
    }
}

/// The state that an event takes a quote to, or why the event cannot happen
/// in the state of the quote.
pub fn transition(state: MintQuoteState, event: QuoteEvent) -> (r: Result<MintQuoteState, Error>)
    ensures
        r == match next_state(state, event) {
            Some(next) => Ok(next),
            None => Err(refusal(state, event)),
        },
{
    match (state, event) {
        (MintQuoteState::Unpaid, QuoteEvent::PaymentReceived) => Ok(MintQuoteState::Paid),
        (MintQuoteState::Paid, QuoteEvent::IssuanceBegins) => Ok(MintQuoteState::Pending),
        (MintQuoteState::Pending, QuoteEvent::SignaturesReturned) => Ok(MintQuoteState::Issued),
        (MintQuoteState::Pending, QuoteEvent::IssuanceFails) => Ok(MintQuoteState::Paid),
        (MintQuoteState::Unpaid, _) => Err(Error::UnpaidQuote),
        (MintQuoteState::Paid, QuoteEvent::PaymentReceived) => Err(Error::PaidQuote),
        (MintQuoteState::Paid, _) => Err(Error::UnknownQuote),
        (MintQuoteState::Pending, _) => Err(Error::QuoteAlreadyIssued),
        (MintQuoteState::Issued, _) => Err(Error::QuoteAlreadyIssued),
    }
}

impl MintQuote {
    /// The amounts of the quote are in order, and a mining share quote is
    /// for 1 to 256 under a keyset and was never unpaid.
    pub open spec fn wf(&self) -> bool {
        &&& self.amount_issued.0 <= self.amount_paid.0 <= self.amount.0
        &&& self.state == MintQuoteState::Issued ==> self.amount_issued == self.amount
        &&& self.state != MintQuoteState::Issued ==> self.amount_issued == Amount(0)
        &&& self.state == MintQuoteState::Unpaid ==> self.amount_paid == Amount(0)
        &&& self.state != MintQuoteState::Unpaid ==> self.amount_paid == self.amount
        &&& self.payment_method == PaymentMethod::MiningShare ==> {
            &&& 1 <= self.amount.0 <= MAX_SHARE_AMOUNT
            &&& self.keyset_id.is_some()
            &&& self.pubkey.is_some()
            &&& self.state != MintQuoteState::Unpaid
            &&& self.expiry == 0
        }
    }

    /// Whether the quote has expired at `now`. A quote with the time zero
    /// never has.
    pub open spec fn expired(&self, now: u64) -> bool {
        self.expiry != 0 && now > self.expiry
    }

    /// Whether the quote has expired at `now`.
    pub fn is_expired(&self, now: u64) -> (b: bool)
        ensures
            b == self.expired(now),
    {
        self.expiry != 0 && now > self.expiry
    }
}

} // verus!
