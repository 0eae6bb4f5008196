//! What a wallet records of quotes, proofs and transactions.

use crate::amount::Amount;
use crate::dhke::{curve_point, hash_to_curve};
use crate::nuts::nut00::{CurrencyUnit, MintQuoteState, PaymentMethod, Proof};
use crate::nuts::nut01::{PublicKey, SecretKey};
use crate::nuts::nut02::Id;
use crate::nuts::nut07::State;
use vstd::prelude::*;
use vstd::utf8::encode_utf8;

verus! {

/// A mint quote as the wallet keeps it.
#[derive(Debug, PartialEq, Eq)]
pub struct MintQuote {
    /// The identifier of the quote.
    pub id: String,
    /// The mint that gave the quote.
    pub mint_url: String,
    /// How the quote is paid.
    pub payment_method: PaymentMethod,
    /// The amount of the quote.
    pub amount: Option<Amount>,
    /// The unit of the amount.
    pub unit: CurrencyUnit,
    /// What is to be paid: an invoice, or the hash of a block header.
    pub request: String,
    /// The state of the quote.
    pub state: MintQuoteState,
    /// The time until which the quote is valid, in seconds since the epoch;
    /// zero for a quote that does not expire.
    pub expiry: u64,
    /// The key that signs requests to mint for the quote.
    pub secret_key: Option<SecretKey>,
    /// The amount for which ecash has been issued.
    pub amount_issued: Amount,
    /// The amount that has been paid.
    pub amount_paid: Amount,
    /// The keyset that signs the outputs of the quote.
    pub keyset_id: Option<Id>,
}

impl Clone for MintQuote {
    fn clone(&self) -> (r: MintQuote)
        ensures
            r == *self,
    {
        MintQuote {
            id: self.id.clone(),
            mint_url: self.mint_url.clone(),
            payment_method: self.payment_method,
            amount: self.amount,
            unit: self.unit.clone(),
            request: self.request.clone(),
            state: self.state,
            expiry: self.expiry,
            secret_key: self.secret_key,
            amount_issued: self.amount_issued,
            amount_paid: self.amount_paid,
            keyset_id: self.keyset_id,
        }
    }
}

/// The amount of a quote for which ecash can be minted now. A Lightning
/// invoice is paid in full or not at all; other quotes count what was paid
/// and what was issued.
pub open spec fn mintable(quote: MintQuote) -> Amount {
    if quote.payment_method == PaymentMethod::Bolt11 {
        if quote.state == MintQuoteState::Paid {
            match quote.amount {
                Some(a) => a,
                None => Amount(0),
            }
        } else {
            Amount(0)
        }
    } else if quote.amount_paid.0 > quote.amount_issued.0 {
        Amount((quote.amount_paid.0 - quote.amount_issued.0) as u64)
    } else {
        Amount(0)
    }
}

impl MintQuote {
    /// A quote that is not paid and for which nothing was issued.
    pub fn new(
        id: String,
        mint_url: String,
        payment_method: PaymentMethod,
        amount: Option<Amount>,
        unit: CurrencyUnit,
        request: String,
        expiry: u64,
        secret_key: Option<SecretKey>,
    ) -> (q: MintQuote)
        ensures
            q == (MintQuote {
                id,
                mint_url,
                payment_method,
                amount,
                unit,
                request,
                state: MintQuoteState::Unpaid,
                expiry,
                secret_key,
                amount_issued: Amount(0),
                amount_paid: Amount(0),
                keyset_id: None,
            }),
    {
        MintQuote {
            id,
            mint_url,
            payment_method,
            amount,
            unit,
            request,
            state: MintQuoteState::Unpaid,
            expiry,
            secret_key,
            amount_issued: Amount(0),
            amount_paid: Amount(0),
            keyset_id: None,
        }
    }

    /// The amount for which ecash can be minted now.
    pub fn amount_mintable(&self) -> (a: Amount)
        ensures
            a == mintable(*self),
    {
        if self.payment_method == PaymentMethod::Bolt11 {
            if self.state == MintQuoteState::Paid {
                match self.amount {
                    Some(a) => a,
                    None => Amount(0),
                }
            } else {
                Amount(0)
            }
        } else if self.amount_paid.0 > self.amount_issued.0 {
            Amount(self.amount_paid.0 - self.amount_issued.0)
        } else {
            Amount(0)
        }
    }
}

/// A proof with what the wallet knows of it.
#[derive(Debug, PartialEq, Eq)]
pub struct ProofInfo {
    /// The proof.
    pub proof: Proof,
    /// The point that the secret of the proof is hashed to.
    pub y: PublicKey,
    /// The mint that signed the proof.
    pub mint_url: String,
    /// The state of the proof.
    pub state: State,
    /// The unit of the proof.
    pub unit: CurrencyUnit,
}

impl Clone for ProofInfo {
    fn clone(&self) -> (r: ProofInfo)
        ensures
            r == *self,
    {
        ProofInfo {
            proof: self.proof.clone(),
            y: self.y,
            mint_url: self.mint_url.clone(),
            state: self.state,
            unit: self.unit.clone(),
        }
    }
}

impl ProofInfo {
    /// The record of a proof, with the point of its secret. It fails where
    /// the secret is hashed to no point.
    pub fn new(proof: Proof, mint_url: String, state: State, unit: CurrencyUnit) -> (r: Result<
        ProofInfo,
        crate::dhke::Error,
    >)
        ensures
            match r {
                Ok(info) => curve_point(encode_utf8(proof.secret@)) == Some(info.y@) && info.proof
                    == proof && info.mint_url == mint_url && info.state == state && info.unit == unit,
                Err(e) => e == crate::dhke::Error::NoValidPoint && curve_point(
                    encode_utf8(proof.secret@),
                ).is_none(),
            },
    {
        let bytes: Vec<u8> = proof.secret.to_bytes();
        match hash_to_curve(bytes.as_slice()) {
            Ok(y) => Ok(ProofInfo { proof, y, mint_url, state, unit }),
            Err(e) => Err(e),
        }
    }
}

/// Whether a transaction brought ecash in or sent it out.
#[derive(Clone, Copy, Debug, PartialEq, Eq, Structural)]
pub enum TransactionDirection {
    /// Ecash came in.
    Incoming,
    /// Ecash went out.
    Outgoing,
}

/// What the wallet records of a transaction.
#[derive(Debug, PartialEq, Eq)]
pub struct Transaction {
    /// The mint of the transaction.
    pub mint_url: String,
    /// Whether ecash came in or went out.
    pub direction: TransactionDirection,
    /// The amount.
    pub amount: Amount,
    /// The fee.
    pub fee: Amount,
    /// The unit.
    pub unit: CurrencyUnit,
    /// The points of the secrets of the proofs.
    pub ys: Vec<PublicKey>,
    /// The time of the transaction, in seconds since the epoch.
    pub timestamp: u64,
    /// A memo.
    pub memo: Option<String>,
    /// The quotes of the transaction, by their identifiers with commas
    /// between them.
    pub quote_id: Option<String>,
    /// What was paid.
    pub payment_request: Option<String>,
    /// The proof of payment.
    pub payment_proof: Option<String>,
}

/// A mining share quote that is to be minted in a batch.
#[derive(Debug, PartialEq, Eq)]
pub struct MiningShareBatchEntry {
    /// The identifier of the quote.
    pub quote_id: String,
    /// The amount of the quote.
    pub amount: Amount,
    /// The keyset that signs the outputs of the quote.
    pub keyset_id: Id,
}

/// What a mint supports for one payment method and one unit.
#[derive(Debug, PartialEq, Eq)]
pub struct MintMethodSettings {
    /// The payment method.
    pub method: PaymentMethod,
    /// The unit.
    pub unit: CurrencyUnit,
    /// Whether the mint takes a description with an invoice.
    pub description: bool,
}

/// What a wallet knows of a mint.
#[derive(Debug, PartialEq, Eq)]
pub struct MintInfo {
    /// The name of the mint.
    pub name: Option<String>,
    /// What the mint supports for minting, by method and unit.
    pub nut04: Vec<MintMethodSettings>,
}

/// Whether the first settings of a mint for a unit and a method take a
/// description; `None` where the mint has no such settings.
pub open spec fn description_support(
    settings: Seq<MintMethodSettings>,
    unit: CurrencyUnit,
    method: PaymentMethod,
) -> Option<bool>
    decreases settings.len(),
{
    if settings.len() == 0 {
        None
    } else if settings[0].method == method && settings[0].unit@ == unit@ {
        Some(settings[0].description)
    } else {
        description_support(settings.drop_first(), unit, method)
    }
}

impl MintInfo {
    /// Whether the mint takes a description for a unit and a method; `None`
    /// where it has no settings for them.
    pub fn get_settings(&self, unit: &CurrencyUnit, method: PaymentMethod) -> (r: Option<bool>)
        ensures
            r == description_support(self.nut04@, *unit, method),
    {
        let mut i: usize = 0;
        proof {
            assert(self.nut04@.skip(0) =~= self.nut04@);
        }
        while i < self.nut04.len()
            invariant
                i <= self.nut04.len(),
                description_support(self.nut04@, *unit, method) == description_support(
                    self.nut04@.skip(i as int),
                    *unit,
                    method,
                ),
            decreases self.nut04.len() - i,
        {
            if self.nut04[i].method == method && self.nut04[i].unit == *unit {
                return Some(self.nut04[i].description);
            }
            proof {
                assert(self.nut04@.skip(i as int).drop_first() =~= self.nut04@.skip(i + 1));
            }
            i = i + 1;
        }
        None
    }
}

} // verus!
