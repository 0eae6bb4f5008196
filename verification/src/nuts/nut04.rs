//! Requests to mint ecash for one quote or for a batch of quotes.

use crate::amount::Amount;
use crate::nuts::nut00::{BlindedMessage, CurrencyUnit, MintQuoteState};
use crate::nuts::nut01::PublicKey;
use vstd::prelude::*;

verus! {

/// A request to mint the outputs for one quote.
#[derive(Debug, PartialEq, Eq)]
pub struct MintRequest {
    /// The quote, by its identifier as text.
    pub quote: String,
    /// The blinded messages to sign.
    pub outputs: Vec<BlindedMessage>,
    /// The signature under the key that the quote is locked to, as
    /// hexadecimal text.
    pub signature: Option<String>,
}

/// A request to mint one set of outputs for several quotes at once.
///
/// Without a list of signatures no quote is locked. With one, it has a place
/// for each quote, in the order of the quotes, and the place of a quote that is
/// not locked is empty.
#[derive(Debug, PartialEq, Eq)]
pub struct BatchMintRequest {
    /// The quotes, by their identifiers as text.
    pub quote: Vec<String>,
    /// The blinded messages to sign, for the sum of the quotes.
    pub outputs: Vec<BlindedMessage>,
    /// The signatures, one place for each quote.
    pub signature: Option<Vec<Option<String>>>,
}

/// A request for the state of several quotes at once.
#[derive(Debug, PartialEq, Eq)]
pub struct BatchQuoteStatusRequest {
    /// The quotes, by their identifiers as text.
    pub quote: Vec<String>,
}

/// A request for a quote that a Lightning invoice pays.
#[derive(Debug, PartialEq, Eq)]
pub struct MintQuoteBolt11Request {
    /// The amount to mint.
    pub amount: Amount,
    /// The unit of the amount.
    pub unit: CurrencyUnit,
    /// A description for the invoice.
    pub description: Option<String>,
    /// The key that the quote is to be locked to.
    pub pubkey: Option<PublicKey>,
}

/// What a mint tells of a quote that a Lightning invoice pays. `Q` is the form
/// of the quote's identifier.
#[derive(Debug, PartialEq, Eq)]
pub struct MintQuoteBolt11Response<Q> {
    /// The identifier of the quote.
    pub quote: Q,
    /// The invoice to pay.
    pub request: String,
    /// The amount.
    pub amount: Option<Amount>,
    /// The unit.
    pub unit: Option<CurrencyUnit>,
    /// The state of the quote.
    pub state: MintQuoteState,
    /// The time until which the quote is valid, in seconds since the epoch.
    pub expiry: Option<u64>,
    /// The key that the quote is locked to.
    pub pubkey: Option<PublicKey>,
}

/// What a mint answers to a request to mint.
#[derive(Debug, PartialEq, Eq)]
pub struct MintResponse {
    /// The blind signatures, in the order of the outputs.
    pub signatures: Vec<crate::nuts::nut00::BlindSignature>,
}

/// The texts of a list of strings, in their order.
pub open spec fn texts(strings: Seq<String>) -> Seq<Seq<char>> {
    Seq::new(strings.len(), |i: int| strings[i]@)
}

/// No text occurs twice.
pub open spec fn distinct(ids: Seq<Seq<char>>) -> bool {
    forall|i: int, j: int| 0 <= i < j < ids.len() ==> ids[i] != ids[j]
}

/// The most quotes that one batch may hold.
pub const MAX_BATCH_SIZE: usize = 100;

/// Whether a list of quote identifiers names some quote twice.
pub fn has_duplicate_quotes(quotes: &Vec<String>) -> (dup: bool)
    ensures
        dup == !distinct(texts(quotes@)),
{
    let mut j: usize = 0;
    while j < quotes.len()
        invariant
            j <= quotes.len(),
            forall|a: int, b: int| 0 <= a < b < j ==> quotes@[a]@ != quotes@[b]@,
        decreases quotes.len() - j,
    {
        let mut i: usize = 0;
        while i < j
            invariant
                i <= j,
                j < quotes.len(),
                forall|a: int| 0 <= a < i ==> quotes@[a]@ != quotes@[j as int]@,
            decreases j - i,
        {
            if quotes[i] == quotes[j] {
                proof {
                    let ids = texts(quotes@);
                    assert(ids[i as int] == ids[j as int]);
                }
                return true;
            }
            i = i + 1;
        }
        j = j + 1;
    }
    proof {
        let ids = texts(quotes@);
        assert forall|a: int, b: int| 0 <= a < b < ids.len() implies ids[a] != ids[b] by {
            assert(quotes@[a]@ != quotes@[b]@);
        }
    }
    false
}

} // verus!
