//! Issuing blind signatures for paid quotes, one quote at a time or several
//! at once.

use crate::amount::total;
use crate::dhke::{sign_message, signed};
use crate::error::Error;
use crate::mint::keysets::{pair_for, MintKeyPair, MintKeySet};
use crate::mint::quote::{transition, MintQuote, QuoteEvent};
use crate::mint::Mint;
use crate::nuts::nut00::{output_amounts, signature_amounts, BlindSignature, BlindedMessage, MintQuoteState, PaymentMethod};
use crate::nuts::nut02::Id;
use crate::nuts::nut04::MintRequest;
use crate::nuts::nut12::{calculate_dleq, dleq_can_fail, dleq_of_nonce};
use crate::nuts::nut20::{signature_verdict, verify_request_signature};
use crate::quote_id::uuid_text;
use crate::table::{find, is_first, lemma_find, lemma_find_none};
use vstd::prelude::*;

verus! {

/// The identifiers of a list of quotes as text, in their order.
pub open spec fn quote_texts(quotes: Seq<MintQuote>) -> Seq<Seq<char>> {
    Seq::new(quotes.len(), |i: int| uuid_text(quotes[i].id.0))
}

/// The identifiers of a list of keysets, in their order.
pub open spec fn keyset_ids(keysets: Seq<MintKeySet>) -> Seq<Seq<u8>> {
    Seq::new(keysets.len(), |i: int| keysets[i].id@)
}

/// The outputs are all of the keyset of the first.
pub open spec fn same_keyset(outputs: Seq<BlindedMessage>) -> bool {
    forall|i: int| 0 <= i < outputs.len() ==> (#[trigger] outputs[i]).keyset_id@ == outputs[0].keyset_id@
}

/// The keyset has a key for the amount of every output.
pub open spec fn all_signable(keys: Seq<MintKeyPair>, outputs: Seq<BlindedMessage>) -> bool {
    forall|i: int| 0 <= i < outputs.len() ==> pair_for(keys, (#[trigger] outputs[i]).amount.0).is_some()
}

/// Whether ecash can be issued for a quote at `now`: the quote has not
/// expired and is paid.
pub open spec fn quote_verdict(quote: MintQuote, now: u64) -> Result<(), Error> {
    if quote.expired(now) {
        Err(Error::QuoteExpired)
    } else {
        match quote.state {
            MintQuoteState::Unpaid => Err(Error::UnpaidQuote),
            MintQuoteState::Paid => Ok(()),
            MintQuoteState::Pending => Err(Error::QuoteAlreadyIssued),
            MintQuoteState::Issued => Err(Error::QuoteAlreadyIssued),
        }
    }
}

/// Whether a request is signed as its quote asks: under the key that the
/// quote is locked to, or not at all where the quote is not locked.
pub open spec fn lock_verdict(
    quote: MintQuote,
    quote_text: Seq<char>,
    outputs: Seq<BlindedMessage>,
    signature: Option<String>,
) -> Result<(), Error> {
    match quote.pubkey {
        Some(key) => if signature_verdict(quote_text, outputs, signature, key@).is_ok() {
            Ok(())
        } else {
            Err(Error::SignatureMissingOrInvalid)
        },
        None => if signature.is_none() {
            Ok(())
        } else {
            Err(Error::SignatureMissingOrInvalid)
        },
    }
}

/// The place of the keyset that signs the outputs of a quote, `None` where
/// there are no outputs. The outputs must all be of one keyset, which the mint
/// must have and which must be active; it must be the keyset of a mining share
/// quote, and count in the unit of the quote.
pub open spec fn keyset_verdict(keysets: Seq<MintKeySet>, quote: MintQuote, outputs: Seq<BlindedMessage>) -> Result<
    Option<int>,
    Error,
> {
    if outputs.len() == 0 {
        Ok(None)
    } else if !same_keyset(outputs) {
        Err(Error::KeysetMismatch)
    } else {
        match find(keyset_ids(keysets), outputs[0].keyset_id@) {
            None => Err(Error::UnknownKeyset),
            Some(k) => if !keysets[k].active {
                Err(Error::UnknownKeyset)
            } else if quote.payment_method == PaymentMethod::MiningShare && !(
            quote.keyset_id matches Some(id) && id@ == outputs[0].keyset_id@) {
                Err(Error::KeysetMismatch)
            } else if keysets[k].unit@ != quote.unit@ {
                Err(Error::KeysetMismatch)
            } else {
                Ok(Some(k))
            },
        }
    }
}

/// Whether the outputs are for an amount and can be signed: they add up to
/// the amount, the keyset has a key for each, and they are not too many.
pub open spec fn outputs_verdict(
    keys: Seq<MintKeyPair>,
    amount: nat,
    outputs: Seq<BlindedMessage>,
    max_outputs: usize,
) -> Result<(), Error> {
    if total(output_amounts(outputs)) != amount {
        Err(Error::AmountMismatch)
    } else if !all_signable(keys, outputs) {
        Err(Error::InvalidAmountDenomination)
    } else if outputs.len() > max_outputs {
        Err(Error::OutputCountExceeded)
    } else {
        Ok(())
    }
}

/// The keys of the keyset at a place, none where there is no place.
pub open spec fn keys_at(keysets: Seq<MintKeySet>, k: Option<int>) -> Seq<MintKeyPair> {
    match k {
        Some(i) => keysets[i].keys@,
        None => Seq::empty(),
    }
}

/// What the mint finds of a request to mint at `now`: the places of the quote
/// and of the keyset, or the error of the first check that fails. The checks
/// are, in this order: the quote exists; it has not expired; it is paid; the
/// request is signed as the quote asks; the outputs are of the right keyset;
/// they add up to the amount of the quote; the keyset has a key for each; they
/// are not too many.
pub open spec fn issue_verdict(mint: Mint, request: MintRequest, now: u64) -> Result<(int, Option<int>), Error> {
    match find(quote_texts(mint.quotes@), request.quote@) {
        None => Err(Error::UnknownQuote),
        Some(q) => {
            let quote = mint.quotes@[q];
            match quote_verdict(quote, now) {
                Err(e) => Err(e),
                Ok(()) => match lock_verdict(quote, request.quote@, request.outputs@, request.signature) {
                    Err(e) => Err(e),
                    Ok(()) => match keyset_verdict(mint.keysets@, quote, request.outputs@) {
                        Err(e) => Err(e),
                        Ok(k) => match outputs_verdict(
                            keys_at(mint.keysets@, k),
                            quote.amount.0 as nat,
                            request.outputs@,
                            mint.max_outputs,
                        ) {
                            Err(e) => Err(e),
                            Ok(()) => Ok((q, k)),
                        },
                    },
                },
            }
        },
    }
}

/// A quote once ecash has been issued for all of it.
pub open spec fn issued(quote: MintQuote) -> MintQuote {
    MintQuote { state: MintQuoteState::Issued, amount_issued: quote.amount, ..quote }
}

/// `signature` is a signature on an output under a keyset: for the amount
/// and the keyset of the output, made with the keyset's key for the amount,
/// and with a proof that this key made it.
pub open spec fn is_signature_of(signature: BlindSignature, output: BlindedMessage, keys: Seq<MintKeyPair>) -> bool {
    &&& signature.amount == output.amount
    &&& signature.keyset_id == output.keyset_id
    &&& pair_for(keys, output.amount.0) matches Some(pair)
    &&& signed(pair.secret_key@, output.blinded_secret@) == Ok::<Seq<u8>, crate::dhke::Error>(
        signature.c@,
    )
    &&& signature.dleq matches Some(d)
    &&& exists|nonce: Seq<u8>|
        #[trigger] dleq_of_nonce(nonce, signature.c@, output.blinded_secret@, pair.secret_key@) == Some(
            (d.e@, d.s@),
        )
}

/// The signatures are signatures on the outputs, one for one and in their
/// order.
pub open spec fn are_signatures_of(
    signatures: Seq<BlindSignature>,
    outputs: Seq<BlindedMessage>,
    keys: Seq<MintKeyPair>,
) -> bool {
    &&& signatures.len() == outputs.len()
    &&& forall|i: int|
        0 <= i < outputs.len() ==> is_signature_of(#[trigger] signatures[i], outputs[i], keys)
}

/// The curve refuses the signature on an output with the error `e`: the
/// keyset's key for the amount does not sign the output, which gives the error
/// of the signing; or some nonce that is a secret key gives no proof that the
/// key signed.
pub open spec fn is_refusal_of(e: Error, output: BlindedMessage, keys: Seq<MintKeyPair>) -> bool {
    pair_for(keys, output.amount.0) matches Some(pair) && match signed(
        pair.secret_key@,
        output.blinded_secret@,
    ) {
        Err(d) => e == Error::Dhke(d),
        Ok(c) => e == Error::Dhke(crate::dhke::Error::Secp256k1) && dleq_can_fail(
            c,
            output.blinded_secret@,
            pair.secret_key@,
        ),
    }
}

/// The keyset's key for the amount of an output signs the output.
pub open spec fn is_signed_output(output: BlindedMessage, keys: Seq<MintKeyPair>) -> bool {
    pair_for(keys, output.amount.0) matches Some(pair) && signed(
        pair.secret_key@,
        output.blinded_secret@,
    ).is_ok()
}

/// The signing of the outputs fails with the error `e`: the curve refuses the
/// signature on one of them, and the key signs each output before it.
pub open spec fn is_signing_failure(e: Error, outputs: Seq<BlindedMessage>, keys: Seq<MintKeyPair>) -> bool {
    exists|i: int|
        0 <= i < outputs.len() && is_refusal_of(e, #[trigger] outputs[i], keys) && forall|j: int|
            0 <= j < i ==> is_signed_output(#[trigger] outputs[j], keys)
}

/// Two mints have the same keysets and settings.
pub open spec fn same_registry(a: Mint, b: Mint) -> bool {
    &&& a.keysets == b.keysets
    &&& a.max_outputs == b.max_outputs
    &&& a.mint_ttl == b.mint_ttl
}

/// What [`Mint::process_mint_request`] does: `after` is the mint that it
/// leaves of the mint `before`, and `r` is what it returns.
///
/// Where a check fails the mint is as it was. Where all pass, the signatures
/// are made and the quote is issued, in one step; or the curve refuses the
/// signature on one of the outputs, and the mint is as it was. A request
/// without outputs that passes the checks is never refused.
pub open spec fn is_issued(
    before: Mint,
    after: Mint,
    request: MintRequest,
    now: u64,
    r: Result<Vec<BlindSignature>, Error>,
) -> bool {
    &&& same_registry(after, before)
    &&& match issue_verdict(before, request, now) {
        Err(e) => r == Err::<Vec<BlindSignature>, Error>(e) && after.quotes@ == before.quotes@,
        Ok((q, k)) => {
            &&& request.outputs@.len() == 0 ==> r.is_ok()
            &&& match r {
                Ok(signatures) => {
                    &&& are_signatures_of(signatures@, request.outputs@, keys_at(before.keysets@, k))
                    &&& after.quotes@ == before.quotes@.update(q, issued(before.quotes@[q]))
                },
                Err(e) => is_signing_failure(e, request.outputs@, keys_at(before.keysets@, k))
                    && after.quotes@ == before.quotes@,
            }
        },
    }
}

/// The place of the quote whose identifier has a text.
pub(crate) fn quote_position(quotes: &Vec<MintQuote>, id: &String) -> (r: Option<usize>)
    ensures
        match r {
            Some(i) => find(quote_texts(quotes@), id@) == Some(i as int) && i < quotes@.len(),
            None => find(quote_texts(quotes@), id@).is_none(),
        },
{
    let mut i: usize = 0;
    while i < quotes.len()
        invariant
            i <= quotes.len(),
            forall|j: int| 0 <= j < i ==> quote_texts(quotes@)[j] != id@,
        decreases quotes.len() - i,
    {
        let text: String = quotes[i].id.to_string();
        if text == *id {
            proof {
                assert(is_first(quote_texts(quotes@), id@, i as int));
                lemma_find(quote_texts(quotes@), id@, i as int);
            }
            return Some(i);
        }
        i = i + 1;
    }
    proof {
        lemma_find_none(quote_texts(quotes@), id@);
    }
    None
}

/// The place of the keyset with an identifier.
pub(crate) fn keyset_position(keysets: &Vec<MintKeySet>, id: &Id) -> (r: Option<usize>)
    ensures
        match r {
            Some(i) => find(keyset_ids(keysets@), id@) == Some(i as int) && i < keysets@.len(),
            None => find(keyset_ids(keysets@), id@).is_none(),
        },
{
    let mut i: usize = 0;
    while i < keysets.len()
        invariant
            i <= keysets.len(),
            forall|j: int| 0 <= j < i ==> keyset_ids(keysets@)[j] != id@,
        decreases keysets.len() - i,
    {
        if keysets[i].id == *id {
            proof {
                assert(is_first(keyset_ids(keysets@), id@, i as int));
                lemma_find(keyset_ids(keysets@), id@, i as int);
            }
            return Some(i);
        }
        i = i + 1;
    }
    proof {
        lemma_find_none(keyset_ids(keysets@), id@);
    }
    None
}

/// Whether a quote can be issued at `now`.
pub(crate) fn check_quote(quote: &MintQuote, now: u64) -> (r: Result<(), Error>)
    ensures
        r == quote_verdict(*quote, now),
{
    if quote.is_expired(now) {
        return Err(Error::QuoteExpired);
    }
    match quote.state {
        MintQuoteState::Unpaid => Err(Error::UnpaidQuote),
        MintQuoteState::Paid => Ok(()),
        MintQuoteState::Pending => Err(Error::QuoteAlreadyIssued),
        MintQuoteState::Issued => Err(Error::QuoteAlreadyIssued),
    }
}

/// Whether a request is signed as its quote asks.
pub(crate) fn check_lock(quote: &MintQuote, quote_text: &String, outputs: &Vec<BlindedMessage>, signature: &Option<String>) -> (r:
    Result<(), Error>)
    ensures
        r == lock_verdict(*quote, quote_text@, outputs@, *signature),
{
    match &quote.pubkey {
        Some(key) => match verify_request_signature(quote_text, outputs, signature, key) {
            Ok(()) => Ok(()),
            Err(_) => Err(Error::SignatureMissingOrInvalid),
        },
        None => if signature.is_none() {
            Ok(())
        } else {
            Err(Error::SignatureMissingOrInvalid)
        },
    }
}

/// The place of the keyset that signs the outputs of a quote.
pub(crate) fn check_keyset(keysets: &Vec<MintKeySet>, quote: &MintQuote, outputs: &Vec<BlindedMessage>) -> (r: Result<
    Option<usize>,
    Error,
>)
    ensures
        match r {
            Ok(Some(k)) => keyset_verdict(keysets@, *quote, outputs@) == Ok::<Option<int>, Error>(
                Some(k as int),
            ) && k < keysets@.len(),
            Ok(None) => keyset_verdict(keysets@, *quote, outputs@) == Ok::<Option<int>, Error>(None),
            Err(e) => keyset_verdict(keysets@, *quote, outputs@) == Err::<Option<int>, Error>(e),
        },
{
    if outputs.len() == 0 {
        return Ok(None);
    }
    let keyset_id: Id = outputs[0].keyset_id;
    let mut i: usize = 0;
    while i < outputs.len()
        invariant
            i <= outputs.len(),
            outputs@.len() > 0,
            keyset_id == outputs@[0].keyset_id,
            forall|j: int| 0 <= j < i ==> (#[trigger] outputs@[j]).keyset_id@ == outputs@[0].keyset_id@,
        decreases outputs.len() - i,
    {
        if outputs[i].keyset_id != keyset_id {
            return Err(Error::KeysetMismatch);
        }
        i = i + 1;
    }
    let k: usize = match keyset_position(keysets, &keyset_id) {
        Some(k) => k,
        None => {
            return Err(Error::UnknownKeyset);
        },
    };
    if !keysets[k].active {
        return Err(Error::UnknownKeyset);
    }
    if quote.payment_method == PaymentMethod::MiningShare {
        let matches: bool = match &quote.keyset_id {
            Some(id) => *id == keyset_id,
            None => false,
        };
        if !matches {
            return Err(Error::KeysetMismatch);
        }
    }
    if keysets[k].unit != quote.unit {
        return Err(Error::KeysetMismatch);
    }
    Ok(Some(k))
}

/// Whether the outputs are for an amount and can be signed.
#[verifier::loop_isolation(false)]
pub(crate) fn check_outputs(keyset: Option<&MintKeySet>, amount: u128, outputs: &Vec<BlindedMessage>, max_outputs: usize) -> (r:
    Result<(), Error>)
    ensures
        r == outputs_verdict(
            match keyset {
                Some(k) => k.keys@,
                None => Seq::empty(),
            },
            amount as nat,
            outputs@,
            max_outputs,
        ),
{
    if outputs_sum(outputs) != amount {
        return Err(Error::AmountMismatch);
    }
    let mut i: usize = 0;
    while i < outputs.len()
        invariant
            i <= outputs.len(),
            forall|j: int|
                0 <= j < i ==> pair_for(
                    match keyset {
                        Some(k) => k.keys@,
                        None => Seq::empty(),
                    },
                    (#[trigger] outputs@[j]).amount.0,
                ).is_some(),
        decreases outputs.len() - i,
    {
        let found: bool = match keyset {
            Some(k) => k.pair(outputs[i].amount.0).is_some(),
            None => false,
        };
        if !found {
            proof {
                assert(pair_for(
                    match keyset {
                        Some(k) => k.keys@,
                        None => Seq::empty(),
                    },
                    outputs@[i as int].amount.0,
                ).is_none());
            }
            return Err(Error::InvalidAmountDenomination);
        }
        i = i + 1;
    }
    if outputs.len() > max_outputs {
        return Err(Error::OutputCountExceeded);
    }
    Ok(())
}

/// The sum of the amounts of a list of outputs.
fn outputs_sum(outputs: &Vec<BlindedMessage>) -> (sum: u128)
    ensures
        sum as nat == total(output_amounts(outputs@)),
{
    let mut sum: u128 = 0;
    let mut i: usize = 0;
    while i < outputs.len()
        invariant
            i <= outputs.len(),
            sum as nat == total(output_amounts(outputs@.take(i as int))),
            sum <= i * 0xffff_ffff_ffff_ffff,
        decreases outputs.len() - i,
    {
        proof {
            assert(output_amounts(outputs@.take(i + 1)).drop_last() =~= output_amounts(
                outputs@.take(i as int),
            ));
            assert((i + 1) * 0xffff_ffff_ffff_ffff == i * 0xffff_ffff_ffff_ffff + 0xffff_ffff_ffff_ffff)
                by (nonlinear_arith);
            assert((i + 1) * 0xffff_ffff_ffff_ffff <= 0x1_0000_0000_0000_0000 * 0xffff_ffff_ffff_ffff)
                by (nonlinear_arith)
                requires
                    i + 1 <= 0x1_0000_0000_0000_0000,
            ;
        }
        sum = sum + outputs[i].amount.0 as u128;
        i = i + 1;
    }
    proof {
        assert(outputs@.take(i as int) =~= outputs@);
    }
    sum
}

/// Signs each output with the keyset's key for its amount and adds the proof
/// that this key signed. The keyset must have a key for each amount. It fails
/// at the first output whose signature the curve refuses, and so never where
/// there is no output.
pub(crate) fn sign_outputs(keyset: Option<&MintKeySet>, outputs: &Vec<BlindedMessage>) -> (r: Result<
    Vec<BlindSignature>,
    Error,
>)
    requires
        all_signable(
            match keyset {
                Some(k) => k.keys@,
                None => Seq::empty(),
            },
            outputs@,
        ),
    ensures
        match r {
            Ok(signatures) => are_signatures_of(
                signatures@,
                outputs@,
                match keyset {
                    Some(k) => k.keys@,
                    None => Seq::empty(),
                },
            ),
            Err(e) => is_signing_failure(
                e,
                outputs@,
                match keyset {
                    Some(k) => k.keys@,
                    None => Seq::empty(),
                },
            ),
        },
        outputs@.len() == 0 ==> r.is_ok(),
{
    let ghost keys = match keyset {
        Some(k) => k.keys@,
        None => Seq::empty(),
    };
    let mut signatures: Vec<BlindSignature> = Vec::new();
    let mut i: usize = 0;
    while i < outputs.len()
        invariant
            i <= outputs.len(),
            signatures@.len() == i,
            keys == match keyset {
                Some(k) => k.keys@,
                None => Seq::<MintKeyPair>::empty(),
            },
            forall|j: int| 0 <= j < i ==> is_signed_output(#[trigger] outputs@[j], keys),
            all_signable(
                match keyset {
                    Some(k) => k.keys@,
                    None => Seq::empty(),
                },
                outputs@,
            ),
            forall|j: int|
                0 <= j < i ==> is_signature_of(
                    #[trigger] signatures@[j],
                    outputs@[j],
                    match keyset {
                        Some(k) => k.keys@,
                        None => Seq::empty(),
                    },
                ),
        decreases outputs.len() - i,
    {
        let output: BlindedMessage = outputs[i];
        proof {
            assert(pair_for(
                match keyset {
                    Some(k) => k.keys@,
                    None => Seq::empty(),
                },
                outputs@[i as int].amount.0,
            ).is_some());
        }
        let pair: MintKeyPair = match keyset {
            Some(k) => match k.pair(output.amount.0) {
                Some(pair) => pair,
                None => {
                    return Err(Error::Dhke(crate::dhke::Error::Secp256k1));
                },
            },
            None => {
                return Err(Error::Dhke(crate::dhke::Error::Secp256k1));
            },
        };
        let c = match sign_message(&pair.secret_key, &output.blinded_secret) {
            Ok(c) => c,
            Err(e) => {
                proof {
                    assert(is_refusal_of(Error::Dhke(e), outputs@[i as int], keys));
                    assert(is_signing_failure(Error::Dhke(e), outputs@, keys));
                }
                return Err(Error::Dhke(e));
            },
        };
        let dleq = match calculate_dleq(c, &output.blinded_secret, &pair.secret_key) {
            Ok(d) => d,
            Err(_) => {
                proof {
                    assert(is_refusal_of(
                        Error::Dhke(crate::dhke::Error::Secp256k1),
                        outputs@[i as int],
                        keys,
                    ));
                    assert(is_signing_failure(Error::Dhke(crate::dhke::Error::Secp256k1), outputs@, keys));
                }
                return Err(Error::Dhke(crate::dhke::Error::Secp256k1));
            },
        };
        proof {
            assert(is_signed_output(outputs@[i as int], keys));
        }
        signatures.push(
            BlindSignature { amount: output.amount, keyset_id: output.keyset_id, c, dleq: Some(dleq) },
        );
        i = i + 1;
    }
    Ok(signatures)
}

impl Mint {
    /// Checks a request to mint at `now`, without issuing anything.
    pub fn verify_mint_request(&self, request: &MintRequest, now: u64) -> (r: Result<(usize, Option<usize>), Error>)
        ensures
            match r {
                Ok((q, k)) => issue_verdict(*self, *request, now) == Ok::<(int, Option<int>), Error>(
                    (
                        q as int,
                        match k {
                            Some(i) => Some(i as int),
                            None => None,
                        },
                    ),
                ) && q < self.quotes@.len() && (k matches Some(i) ==> i < self.keysets@.len()),
                Err(e) => issue_verdict(*self, *request, now) == Err::<(int, Option<int>), Error>(e),
            },
    {
        let q: usize = match quote_position(&self.quotes, &request.quote) {
            Some(q) => q,
            None => {
                return Err(Error::UnknownQuote);
            },
        };
        let quote: &MintQuote = &self.quotes[q];
        match check_quote(quote, now) {
            Ok(()) => {},
            Err(e) => {
                return Err(e);
            },
        }
        match check_lock(quote, &request.quote, &request.outputs, &request.signature) {
            Ok(()) => {},
            Err(e) => {
                return Err(e);
            },
        }
        let k: Option<usize> = match check_keyset(&self.keysets, quote, &request.outputs) {
            Ok(k) => k,
            Err(e) => {
                return Err(e);
            },
        };
        let keyset: Option<&MintKeySet> = match k {
            Some(i) => Some(&self.keysets[i]),
            None => None,
        };
        match check_outputs(keyset, quote.amount.0 as u128, &request.outputs, self.max_outputs) {
            Ok(()) => {},
            Err(e) => {
                return Err(e);
            },
        }
        Ok((q, k))
    }

    /// Issues blind signatures for a paid quote at `now`: the request is
    /// checked, the quote is leased to the issuance, each output is signed
    /// with the key for its amount, in the order of the outputs, and the
    /// quote is issued with the whole of its amount. The lease and the
    /// issuing are one step: the mint that is left has the quote issued, or is
    /// as it was.
    pub fn process_mint_request(&mut self, request: &MintRequest, now: u64) -> (r: Result<
        Vec<BlindSignature>,
        Error,
    >)
        ensures
            is_issued(*old(self), *final(self), *request, now, r),
            r matches Ok(signatures) ==> total(signature_amounts(signatures@)) == total(
                output_amounts(request.outputs@),
            ),
    {
        let (q, k): (usize, Option<usize>) = match self.verify_mint_request(request, now) {
            Ok(found) => found,
            Err(e) => {
                return Err(e);
            },
        };
        let leased: MintQuoteState = match transition(self.quotes[q].state, QuoteEvent::IssuanceBegins) {
            Ok(s) => s,
            Err(e) => {
                return Err(e);
            },
        };
        let keyset: Option<&MintKeySet> = match k {
            Some(i) => Some(&self.keysets[i]),
            None => None,
        };
        let signatures: Vec<BlindSignature> = match sign_outputs(keyset, &request.outputs) {
            Ok(signatures) => signatures,
            Err(e) => {
                return Err(e);
            },
        };
        let state: MintQuoteState = match transition(leased, QuoteEvent::SignaturesReturned) {
            Ok(s) => s,
            Err(e) => {
                return Err(e);
            },
        };
        let mut quote: MintQuote = self.quotes[q].clone();
        quote.state = state;
        quote.amount_issued = quote.amount;
        self.quotes[q] = quote;
        proof {
            assert(signature_amounts(signatures@) =~= output_amounts(request.outputs@));
        }
        Ok(signatures)
    }
}

} // verus!
