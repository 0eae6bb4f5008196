//! Mining shares as a way to pay a mint quote.

use crate::amount::Amount;
use crate::nuts::nut00::{BlindSignature, BlindedMessage, CurrencyUnit, MintQuoteState};
use crate::nuts::nut01::PublicKey;
use crate::nuts::nut02::Id;
use crate::quote_id::{uuid_text, Uuid};
use crate::util::unix_time;
use vstd::prelude::*;

verus! {

/// Why a mining share request or response was refused.
#[derive(Clone, Copy, Debug, PartialEq, Eq, Structural)]
pub enum Error {
    /// The text names no quote state.
    UnknownState,
    /// A sum of amounts does not fit in 64 bits.
    AmountOverflow,
    /// The request is not well formed.
    InvalidRequest,
    /// The header hash is all zeros.
    InvalidHeaderHash,
    /// The quote has expired.
    QuoteExpired,
    /// The amount is zero or above 256.
    InvalidAmount,
    /// The request has no outputs.
    NoOutputs,
    /// The request has no blinded messages.
    NoBlindedMessages,
}

impl Error {
    /// The message of the error.
    pub fn to_string(&self) -> (s: String)
        ensures
            s@ == match *self {
                Error::UnknownState => "Unknown Quote State"@,
                Error::AmountOverflow => "Amount overflow"@,
                Error::InvalidRequest => "Invalid Request"@,
                Error::InvalidHeaderHash => "Invalid header hash"@,
                Error::QuoteExpired => "Quote expired"@,
                Error::InvalidAmount => "Invalid amount: must be positive and not exceed 256"@,
                Error::NoOutputs => "No outputs provided in request"@,
                Error::NoBlindedMessages => "No blinded messages provided in request"@,
            },
    {
        match self {
            Error::UnknownState => "Unknown Quote State".to_owned(),
            Error::AmountOverflow => "Amount overflow".to_owned(),
            Error::InvalidRequest => "Invalid Request".to_owned(),
            Error::InvalidHeaderHash => "Invalid header hash".to_owned(),
            Error::QuoteExpired => "Quote expired".to_owned(),
            Error::InvalidAmount => "Invalid amount: must be positive and not exceed 256".to_owned(),
            Error::NoOutputs => "No outputs provided in request".to_owned(),
            Error::NoBlindedMessages => "No blinded messages provided in request".to_owned(),
        }
    }
}

/// The largest amount of one mining share quote.
pub const MAX_SHARE_AMOUNT: u64 = 256;

/// A request for a quote that a mining share pays.
#[derive(Debug, PartialEq, Eq)]
pub struct MintQuoteMiningShareRequest {
    /// The amount to mint.
    pub amount: Amount,
    /// The unit of the amount.
    pub unit: CurrencyUnit,
    /// The hash of the block header of the share.
    pub header_hash: [u8; 32],
    /// A description.
    pub description: Option<String>,
    /// The key that the quote is locked to.
    pub pubkey: PublicKey,
    /// The keyset of the blinded messages.
    pub keyset_id: Id,
    /// The blinded messages to sign once the share is accepted.
    pub blinded_messages: Vec<BlindedMessage>,
}

/// Every byte of a hash is zero.
pub open spec fn all_zero(hash: Seq<u8>) -> bool {
    forall|i: int| 0 <= i < hash.len() ==> hash[i] == 0
}

/// What the check of a request with these parts gives: the amount is from 1 to
/// 256, the header hash is not all zeros, and there is a blinded message. The
/// first of these that fails names the error.
pub open spec fn request_verdict(amount: Amount, header_hash: Seq<u8>, messages: nat) -> Result<
    (),
    Error,
> {
    if amount.0 == 0 || amount.0 > MAX_SHARE_AMOUNT {
        Err(Error::InvalidAmount)
    } else if all_zero(header_hash) {
        Err(Error::InvalidHeaderHash)
    } else if messages == 0 {
        Err(Error::NoBlindedMessages)
    } else {
        Ok(())
    }
}

impl MintQuoteMiningShareRequest {
    /// Checks the request: its amount, its header hash and that it has
    /// blinded messages.
    pub fn validate(&self) -> (r: Result<(), Error>)
        ensures
            r == request_verdict(self.amount, self.header_hash@, self.blinded_messages@.len()),
    {
        if self.amount.0 == 0 || self.amount.0 > MAX_SHARE_AMOUNT {
            return Err(Error::InvalidAmount);
        }
        if is_all_zero(&self.header_hash) {
            return Err(Error::InvalidHeaderHash);
        }
        if self.blinded_messages.len() == 0 {
            return Err(Error::NoBlindedMessages);
        }
        Ok(())
    }
}

/// Whether every byte of a hash is zero.
pub fn is_all_zero(hash: &[u8; 32]) -> (zero: bool)
    ensures
        zero == all_zero(hash@),
{
    let mut i: usize = 0;
    while i < 32
        invariant
            i <= 32,
            forall|k: int| 0 <= k < i ==> hash@[k] == 0,
        decreases 32 - i,
    {
        if hash[i] != 0 {
            return false;
        }
        i = i + 1;
    }
    true
}

/// The state of a mining share quote. Such a quote is paid from the start.
#[derive(Clone, Copy, Debug, PartialEq, Eq, Structural, Hash)]
pub enum QuoteState {
    /// The share was accepted; ecash can be issued.
    Paid,
    /// Issuance is under way.
    Pending,
    /// Ecash has been issued.
    Issued,
}

impl Default for QuoteState {
    fn default() -> (s: QuoteState)
        ensures
            s == QuoteState::Paid,
    {
        QuoteState::Paid
    }
}

/// The state that a text names, if it names one.
pub open spec fn state_named(text: Seq<char>) -> Option<QuoteState> {
    if text == "PAID"@ {
        Some(QuoteState::Paid)
    } else if text == "PENDING"@ {
        Some(QuoteState::Pending)
    } else if text == "ISSUED"@ {
        Some(QuoteState::Issued)
    } else {
        None
    }
}

impl QuoteState {
    /// The name of the state in upper case.
    pub fn to_string(&self) -> (s: String)
        ensures
            s@ == match *self {
                QuoteState::Paid => "PAID"@,
                QuoteState::Pending => "PENDING"@,
                QuoteState::Issued => "ISSUED"@,
            },
    {
        match self {
            QuoteState::Paid => "PAID".to_owned(),
            QuoteState::Pending => "PENDING".to_owned(),
            QuoteState::Issued => "ISSUED".to_owned(),
        }
    }

    /// The state that a text names.
    pub fn parse(state: &str) -> (r: Result<QuoteState, Error>)
        ensures
            r == match state_named(state@) {
                Some(s) => Ok(s),
                None => Err(Error::UnknownState),
            },
    {
        let text: String = state.to_owned();
        if text == "PAID".to_owned() {
            Ok(QuoteState::Paid)
        } else if text == "PENDING".to_owned() {
            Ok(QuoteState::Pending)
        } else if text == "ISSUED".to_owned() {
            Ok(QuoteState::Issued)
        } else {
            Err(Error::UnknownState)
        }
    }

    /// The state among those of all mint quotes.
    pub fn to_mint_quote_state(&self) -> (s: MintQuoteState)
        ensures
            s == mint_quote_state_of(*self),
    {
        match self {
            QuoteState::Paid => MintQuoteState::Paid,
            QuoteState::Pending => MintQuoteState::Pending,
            QuoteState::Issued => MintQuoteState::Issued,
        }
    }

    /// The state of a mining share quote for a state of a mint quote, if there
    /// is one: a mining share quote is never unpaid.
    pub fn from_mint_quote_state(state: MintQuoteState) -> (s: Option<QuoteState>)
        ensures
            match s {
                Some(q) => mint_quote_state_of(q) == state,
                None => state == MintQuoteState::Unpaid,
            },
    {
        match state {
            MintQuoteState::Unpaid => None,
            MintQuoteState::Paid => Some(QuoteState::Paid),
            MintQuoteState::Pending => Some(QuoteState::Pending),
            MintQuoteState::Issued => Some(QuoteState::Issued),
        }
    }
}

/// The state of a mining share quote among those of all mint quotes.
pub open spec fn mint_quote_state_of(state: QuoteState) -> MintQuoteState {
    match state {
        QuoteState::Paid => MintQuoteState::Paid,
        QuoteState::Pending => MintQuoteState::Pending,
        QuoteState::Issued => MintQuoteState::Issued,
    }
}

impl std::str::FromStr for QuoteState {
    type Err = Error;

    /// The state that a text names: `PAID`, `PENDING` or `ISSUED`, in upper
    /// case; any other text names none.
    fn from_str(state: &str) -> (r: Result<QuoteState, Error>)
        ensures
            r == match state_named(state@) {
                Some(s) => Ok(s),
                None => Err(Error::UnknownState),
            },
    {
        QuoteState::parse(state)
    }
}

/// What a mint tells of a mining share quote. `Q` is the form of the quote's
/// identifier: a [`Uuid`] inside the mint, text on the wire.
#[derive(Debug, PartialEq, Eq)]
pub struct MintQuoteMiningShareResponse<Q> {
    /// The identifier of the quote.
    pub quote: Q,
    /// What was submitted: the header hash as text.
    pub request: String,
    /// The amount.
    pub amount: Option<Amount>,
    /// The unit.
    pub unit: Option<CurrencyUnit>,
    /// The state of the quote.
    pub state: QuoteState,
    /// The time until which the quote is valid, in seconds since the epoch.
    pub expiry: Option<u64>,
    /// The key that the quote is locked to.
    pub pubkey: Option<PublicKey>,
    /// The amount that has been issued.
    pub amount_issued: Amount,
    /// The keyset that signs the outputs of the quote.
    pub keyset_id: Id,
}

/// Whether a quote that is valid until `expiry` has expired at `now`. A quote
/// without an expiry, or with the expiry zero, never expires.
pub open spec fn expired_at(expiry: Option<u64>, now: u64) -> bool {
    match expiry {
        Some(e) => e != 0 && now > e,
        None => false,
    }
}

/// What the check of a response gives at `now`: the quote has not expired, and
/// its amount, if it has one, is not zero.
pub open spec fn response_verdict(expiry: Option<u64>, amount: Option<Amount>, now: u64) -> Result<
    (),
    Error,
> {
    if expired_at(expiry, now) {
        Err(Error::QuoteExpired)
    } else if amount == Some(Amount(0)) {
        Err(Error::InvalidAmount)
    } else {
        Ok(())
    }
}

impl<Q> MintQuoteMiningShareResponse<Q> {
    /// Whether the quote has expired at `now`, in seconds since the epoch.
    pub fn is_expired_at(&self, now: u64) -> (expired: bool)
        ensures
            expired == expired_at(self.expiry, now),
    {
        match self.expiry {
            Some(expiry) => expiry != 0 && now > expiry,
            None => false,
        }
    }

    /// Whether the quote has expired by the machine's clock. A quote without
    /// an expiry, or with the expiry zero, never has.
    pub fn is_expired(&self) -> (expired: bool)
        ensures
            exists|now: u64| expired == #[trigger] expired_at(self.expiry, now),
            self.expiry.is_none() || self.expiry == Some(0u64) ==> !expired,
    {
        let now: u64 = unix_time();
        let expired: bool = self.is_expired_at(now);
        proof {
            assert(expired == expired_at(self.expiry, now));
        }
        expired
    }

    /// Checks the response at `now`, in seconds since the epoch.
    pub fn validate_at(&self, now: u64) -> (r: Result<(), Error>)
        ensures
            r == response_verdict(self.expiry, self.amount, now),
    {
        if self.is_expired_at(now) {
            return Err(Error::QuoteExpired);
        }
        if let Some(amount) = self.amount {
            if amount.0 == 0 {
                return Err(Error::InvalidAmount);
            }
        }
        Ok(())
    }

    /// Checks the response by the machine's clock.
    pub fn validate(&self) -> (r: Result<(), Error>)
        ensures
            exists|now: u64| r == #[trigger] response_verdict(self.expiry, self.amount, now),
            self.expiry.is_none() || self.expiry == Some(0u64) ==> r == response_verdict(
                self.expiry,
                self.amount,
                0,
            ),
    {
        let now: u64 = unix_time();
        let r: Result<(), Error> = self.validate_at(now);
        proof {
            assert(r == response_verdict(self.expiry, self.amount, now));
        }
        r
    }
}

impl MintQuoteMiningShareResponse<Uuid> {
    /// The response with the identifier of the quote as text.
    pub fn to_string_id(&self) -> (r: MintQuoteMiningShareResponse<String>)
        ensures
            r.quote@ == uuid_text(self.quote.0),
            r.request@ == self.request@,
            r.amount == self.amount,
            r.unit.is_some() == self.unit.is_some(),
            r.unit matches Some(u) ==> u@ == self.unit.unwrap()@,
            r.state == self.state,
            r.expiry == self.expiry,
            r.pubkey == self.pubkey,
            r.amount_issued == self.amount_issued,
            r.keyset_id == self.keyset_id,
    {
        MintQuoteMiningShareResponse {
            quote: self.quote.to_string(),
            request: self.request.clone(),
            amount: self.amount,
            unit: match &self.unit {
                Some(u) => Some(u.clone()),
                None => None,
            },
            state: self.state,
            expiry: self.expiry,
            pubkey: self.pubkey,
            amount_issued: self.amount_issued,
            keyset_id: self.keyset_id,
        }
    }
}

impl From<MintQuoteMiningShareResponse<Uuid>> for MintQuoteMiningShareResponse<String> {
    fn from(value: MintQuoteMiningShareResponse<Uuid>) -> (r: MintQuoteMiningShareResponse<String>) {
        value.to_string_id()
    }
}

/// The conversion is [`MintQuoteMiningShareResponse::to_string_id`], whose
/// contract says what it gives; `from_spec` names no value.
impl vstd::std_specs::convert::FromSpecImpl<MintQuoteMiningShareResponse<Uuid>> for MintQuoteMiningShareResponse<String> {
    open spec fn obeys_from_spec() -> bool {
        false
    }

    open spec fn from_spec(value: MintQuoteMiningShareResponse<Uuid>) -> MintQuoteMiningShareResponse<
        String,
    > {
        arbitrary()
    }
}

/// What a mint answers to a request to mint for a mining share quote.
#[derive(Debug, PartialEq, Eq)]
pub struct MintMiningShareResponse {
    /// The blind signatures, in the order of the outputs.
    pub signatures: Vec<BlindSignature>,
}

/// A request for a quote to melt ecash into mining shares.
#[derive(Debug, PartialEq, Eq)]
pub struct MeltQuoteMiningShareRequest {
    /// The unit of the amount.
    pub unit: CurrencyUnit,
    /// The amount to melt.
    pub amount: Amount,
    /// What ties the response to the request.
    pub request_id: Uuid,
    /// A description.
    pub description: Option<String>,
}

/// What a mint tells of a quote to melt ecash into mining shares.
#[derive(Debug, PartialEq, Eq)]
pub struct MeltQuoteMiningShareResponse<Q> {
    /// The identifier of the quote.
    pub quote: Q,
    /// The amount to melt.
    pub amount: Amount,
    /// What is held back for fees.
    pub fee_reserve: Amount,
    /// The state of the quote.
    pub state: QuoteState,
    /// The time until which the quote is valid, in seconds since the epoch.
    pub expiry: Option<u64>,
    /// What ties the response to the request.
    pub request_id: Uuid,
}

impl MeltQuoteMiningShareResponse<Uuid> {
    /// The response with the identifier of the quote as text.
    pub fn to_string_id(&self) -> (r: MeltQuoteMiningShareResponse<String>)
        ensures
            r.quote@ == uuid_text(self.quote.0),
            r.amount == self.amount,
            r.fee_reserve == self.fee_reserve,
            r.state == self.state,
            r.expiry == self.expiry,
            r.request_id == self.request_id,
    {
        MeltQuoteMiningShareResponse {
            quote: self.quote.to_string(),
            amount: self.amount,
            fee_reserve: self.fee_reserve,
            state: self.state,
            expiry: self.expiry,
            request_id: self.request_id,
        }
    }
}

impl From<MeltQuoteMiningShareResponse<Uuid>> for MeltQuoteMiningShareResponse<String> {
    fn from(value: MeltQuoteMiningShareResponse<Uuid>) -> (r: MeltQuoteMiningShareResponse<String>) {
        value.to_string_id()
    }
}

/// The conversion is [`MeltQuoteMiningShareResponse::to_string_id`], whose
/// contract says what it gives; `from_spec` names no value.
impl vstd::std_specs::convert::FromSpecImpl<MeltQuoteMiningShareResponse<Uuid>> for MeltQuoteMiningShareResponse<String> {
    open spec fn obeys_from_spec() -> bool {
        false
    }

    open spec fn from_spec(value: MeltQuoteMiningShareResponse<Uuid>) -> MeltQuoteMiningShareResponse<
        String,
    > {
        arbitrary()
    }
}

} // verus!
