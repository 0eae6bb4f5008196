//! Why an operation of the wallet or of the mint failed.

use vstd::prelude::*;

verus! {

/// The errors of the wallet and of the mint.
#[derive(Clone, Copy, Debug, PartialEq, Eq, Structural)]
pub enum Error {
    /// There is nothing to mint: no quote, or quotes that add up to nothing.
    AmountUndefined,
    /// A sum of amounts does not fit in 64 bits.
    AmountOverflow,
    /// The keyset has no key for an amount.
    AmountKey,
    /// The counter of a keyset does not fit in 32 bits.
    CounterOverflow,
    /// A proof that the advertised key signed did not verify.
    CouldNotVerifyDleq,
    /// The quote expired at the first time; the second is the time of the
    /// check.
    ExpiredQuote(u64, u64),
    /// The wallet does not know the mint.
    IncorrectMint,
    /// The mint takes no description with an invoice.
    InvoiceDescriptionUnsupported,
    /// No keyset of the unit is active.
    NoActiveKeyset,
    /// The quote exists already.
    PaidQuote,
    /// A quote with the identifier exists already.
    DuplicateQuote,
    /// A keyset has at most 64 keys.
    KeysetOrder,
    /// No quote has the identifier.
    UnknownQuote,
    /// No keyset has the identifier, or the keyset is not active.
    UnknownKeyset,
    /// The quotes are not all paid in the same way.
    UnsupportedPaymentMethod,
    /// The quotes are not all in the same unit.
    UnsupportedUnit,
    /// The quote has expired.
    QuoteExpired,
    /// The quote is not paid.
    UnpaidQuote,
    /// Ecash has been issued for the quote, or issuance is under way.
    QuoteAlreadyIssued,
    /// The quote is locked to a key and the request is not signed under it, or
    /// the quote is not locked and the request is signed.
    SignatureMissingOrInvalid,
    /// The outputs are not all of the keyset that the quote asks for.
    KeysetMismatch,
    /// The keyset has no key for the amount of an output.
    InvalidAmountDenomination,
    /// The outputs do not add up to the amount of the quote.
    AmountMismatch,
    /// The request has more outputs than the mint signs at once.
    OutputCountExceeded,
    /// The batch names no quote.
    BatchEmpty,
    /// The batch names more quotes than a batch may hold.
    BatchSizeExceeded,
    /// The quotes of the batch are not all paid in the same way.
    BatchPaymentMethodMismatch,
    /// The quotes of the batch are not all in the same unit.
    BatchCurrencyUnitMismatch,
    /// The quotes of the batch are not all of the same keyset.
    BatchKeysetMismatch,
    /// The batch names a quote twice.
    BatchDuplicateQuote,
    /// The batch has signatures, and not one place for each quote.
    SignatureCountMismatch,
    /// An amount could not be split.
    Amount(crate::amount::Error),
    /// A step of the key exchange failed.
    Dhke(crate::dhke::Error),
    /// A keyset was refused.
    Keyset(crate::nuts::nut02::Error),
    /// Secrets could not be derived.
    Derivation(crate::nuts::nut13::Error),
    /// A request could not be signed.
    Signature(crate::nuts::nut20::Error),
    /// A mining share request was refused.
    MiningShare(crate::nuts::nutxx::Error),
}

/// The class of an error as the mint's endpoints report it: 404 where no quote
/// has the identifier, 409 where the quote has been issued, 400 where the
/// request is at fault, 500 otherwise.
pub open spec fn status_of(e: Error) -> u16 {
    match e {
        Error::UnknownQuote => 404,
        Error::QuoteAlreadyIssued => 409,
        Error::QuoteExpired
        | Error::UnpaidQuote
        | Error::SignatureMissingOrInvalid
        | Error::UnknownKeyset
        | Error::KeysetMismatch
        | Error::InvalidAmountDenomination
        | Error::AmountMismatch
        | Error::OutputCountExceeded
        | Error::BatchEmpty
        | Error::BatchSizeExceeded
        | Error::BatchPaymentMethodMismatch
        | Error::BatchCurrencyUnitMismatch
        | Error::BatchKeysetMismatch
        | Error::BatchDuplicateQuote
        | Error::SignatureCountMismatch
        | Error::UnsupportedUnit
        | Error::UnsupportedPaymentMethod
        | Error::MiningShare(_) => 400,
        _ => 500,
    }
}

impl Error {
    /// The HTTP status under which the mint reports the error.
    pub fn http_status(&self) -> (status: u16)
        ensures
            status == status_of(*self),
    {
        match self {
            Error::UnknownQuote => 404,
            Error::QuoteAlreadyIssued => 409,
            Error::QuoteExpired
            | Error::UnpaidQuote
            | Error::SignatureMissingOrInvalid
            | Error::UnknownKeyset
            | Error::KeysetMismatch
            | Error::InvalidAmountDenomination
            | Error::AmountMismatch
            | Error::OutputCountExceeded
            | Error::BatchEmpty
            | Error::BatchSizeExceeded
            | Error::BatchPaymentMethodMismatch
            | Error::BatchCurrencyUnitMismatch
            | Error::BatchKeysetMismatch
            | Error::BatchDuplicateQuote
            | Error::SignatureCountMismatch
            | Error::UnsupportedUnit
            | Error::UnsupportedPaymentMethod
            | Error::MiningShare(_) => 400,
            _ => 500,
        }
    }

    /// Whether a wallet that works through many quotes passes over the error
    /// in silence: the quote is issued already or not known, so that trying
    /// again is no fault.
    pub fn is_silent(&self) -> (silent: bool)
        ensures
            silent == (*self == Error::QuoteAlreadyIssued || *self == Error::UnknownQuote),
    {
        match self {
            Error::QuoteAlreadyIssued => true,
            Error::UnknownQuote => true,
            _ => false,
        }
    }
}

} // verus!
