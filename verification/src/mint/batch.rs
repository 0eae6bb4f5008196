//! Issuing blind signatures for several quotes at once: all of them, or none.

use crate::amount::total;
use crate::error::Error;
use crate::mint::issue::{are_signatures_of, check_keyset, check_lock, check_outputs, check_quote, is_signing_failure, issued, keys_at, keyset_verdict, lock_verdict, outputs_verdict, quote_position, quote_texts, quote_verdict, same_registry, sign_outputs};
use crate::mint::keysets::MintKeySet;
use crate::mint::quote::MintQuote;
use crate::mint::Mint;
use crate::nuts::nut00::{output_amounts, signature_amounts, BlindSignature, PaymentMethod};
use crate::nuts::nut02::Id;
use crate::nuts::nut04::{distinct, has_duplicate_quotes, texts, BatchMintRequest, MAX_BATCH_SIZE};
use crate::table::find;
use vstd::prelude::*;

verus! {

/// The signature for the quote at a place of a batch: the one at the place of
/// the list of signatures, none where the batch has no list.
pub open spec fn slot(signature: Option<Vec<Option<String>>>, i: int) -> Option<String> {
    match signature {
        Some(list) => list@[i],
        None => None,
    }
}

/// The place in the mint's list of the quote at a place of a batch.
pub open spec fn place(quotes: Seq<MintQuote>, ids: Seq<String>, i: int) -> int {
    find(quote_texts(quotes), ids[i]@).unwrap()
}

/// The keyset of a quote as bytes.
pub open spec fn keyset_view(id: Option<Id>) -> Option<Seq<u8>> {
    match id {
        Some(k) => Some(k@),
        None => None,
    }
}

/// The error of the first of the first `n` quotes of a batch for which ecash
/// cannot be issued at `now`: it does not exist, has expired or is not paid.
pub open spec fn first_quote_failure(quotes: Seq<MintQuote>, ids: Seq<String>, now: u64, n: int) -> Option<
    Error,
>
    decreases n,
{
    if n <= 0 {
        None
    } else {
        match first_quote_failure(quotes, ids, now, n - 1) {
            Some(e) => Some(e),
            None => match find(quote_texts(quotes), ids[n - 1]@) {
                None => Some(Error::UnknownQuote),
                Some(q) => match quote_verdict(quotes[q], now) {
                    Err(e) => Some(e),
                    Ok(()) => None,
                },
            },
        }
    }
}

/// The error of the first of the first `n` quotes of a batch that the batch
/// is not signed for as the quote asks.
pub open spec fn first_lock_failure(quotes: Seq<MintQuote>, request: BatchMintRequest, n: int) -> Option<Error>
    decreases n,
{
    if n <= 0 {
        None
    } else {
        match first_lock_failure(quotes, request, n - 1) {
            Some(e) => Some(e),
            None => match lock_verdict(
                quotes[place(quotes, request.quote@, n - 1)],
                request.quote@[n - 1]@,
                request.outputs@,
                slot(request.signature, n - 1),
            ) {
                Err(e) => Some(e),
                Ok(()) => None,
            },
        }
    }
}

/// The sum of the amounts of the first `n` quotes of a batch.
pub open spec fn batch_amount(quotes: Seq<MintQuote>, ids: Seq<String>, n: int) -> nat
    decreases n,
{
    if n <= 0 {
        0
    } else {
        batch_amount(quotes, ids, n - 1) + quotes[place(quotes, ids, n - 1)].amount.0 as nat
    }
}

/// A list of quotes with the first `n` quotes of a batch issued.
pub open spec fn issued_all(quotes: Seq<MintQuote>, ids: Seq<String>, n: int) -> Seq<MintQuote>
    decreases n,
{
    if n <= 0 {
        quotes
    } else {
        issued_all(quotes, ids, n - 1).update(
            place(quotes, ids, n - 1),
            issued(quotes[place(quotes, ids, n - 1)]),
        )
    }
}

/// What the mint finds of a batch at `now`: the place of the keyset that
/// signs, or the error of the first check that fails. The checks are, in this
/// order: the batch names a quote, and no more than a hundred, and none
/// twice; its signatures, if it has any, have a place for each quote; each
/// quote exists, has not expired and is paid; the quotes are all paid in the
/// way of the endpoint, in one unit, and of one keyset; the batch is signed
/// for each quote as the quote asks; the outputs are of the right keyset; they
/// add up to the sum of the quotes; the keyset has a key for each; they are
/// not too many.
pub open spec fn batch_verdict(mint: Mint, request: BatchMintRequest, method: PaymentMethod, now: u64) -> Result<
    Option<int>,
    Error,
> {
    let ids = request.quote@;
    let quotes = mint.quotes@;
    if ids.len() == 0 {
        Err(Error::BatchEmpty)
    } else if ids.len() > MAX_BATCH_SIZE {
        Err(Error::BatchSizeExceeded)
    } else if !distinct(texts(ids)) {
        Err(Error::BatchDuplicateQuote)
    } else if request.signature matches Some(list) && list@.len() != ids.len() {
        Err(Error::SignatureCountMismatch)
    } else {
        match first_quote_failure(quotes, ids, now, ids.len() as int) {
            Some(e) => Err(e),
            None => {
                let first = quotes[place(quotes, ids, 0)];
                if exists|i: int|
                    0 <= i < ids.len() && quotes[#[trigger] place(quotes, ids, i)].payment_method
                        != method {
                    Err(Error::BatchPaymentMethodMismatch)
                } else if exists|i: int|
                    0 <= i < ids.len() && quotes[#[trigger] place(quotes, ids, i)].unit@ != first.unit@ {
                    Err(Error::BatchCurrencyUnitMismatch)
                } else if exists|i: int|
                    0 <= i < ids.len() && keyset_view(quotes[#[trigger] place(quotes, ids, i)].keyset_id)
                        != keyset_view(first.keyset_id) {
                    Err(Error::BatchKeysetMismatch)
                } else {
                    match first_lock_failure(quotes, request, ids.len() as int) {
                        Some(e) => Err(e),
                        None => match keyset_verdict(mint.keysets@, first, request.outputs@) {
                            Err(Error::KeysetMismatch) => Err(Error::BatchKeysetMismatch),
                            Err(e) => Err(e),
                            Ok(k) => match outputs_verdict(
                                keys_at(mint.keysets@, k),
                                batch_amount(quotes, ids, ids.len() as int),
                                request.outputs@,
                                mint.max_outputs,
                            ) {
                                Err(e) => Err(e),
                                Ok(()) => Ok(k),
                            },
                        },
                    }
                }
            },
        }
    }
}

/// What [`Mint::process_batch_mint_request`] does: `after` is the mint that
/// it leaves of the mint `before`, and `r` is what it returns.
///
/// Where a check fails the mint is as it was. Where all pass, the signatures
/// are made over the outputs as one set and every quote is issued, in one
/// step; or the curve refuses the signature on one of the outputs, and the
/// mint is as it was. A batch without outputs that passes the checks is never
/// refused.
pub open spec fn is_batch_issued(
    before: Mint,
    after: Mint,
    request: BatchMintRequest,
    method: PaymentMethod,
    now: u64,
    r: Result<Vec<BlindSignature>, Error>,
) -> bool {
    &&& same_registry(after, before)
    &&& match batch_verdict(before, request, method, now) {
        Err(e) => r == Err::<Vec<BlindSignature>, Error>(e) && after.quotes@ == before.quotes@,
        Ok(k) => {
            &&& request.outputs@.len() == 0 ==> r.is_ok()
            &&& match r {
                Ok(signatures) => {
                    &&& are_signatures_of(signatures@, request.outputs@, keys_at(before.keysets@, k))
                    &&& after.quotes@ == issued_all(
                        before.quotes@,
                        request.quote@,
                        request.quote@.len() as int,
                    )
                },
                Err(e) => is_signing_failure(e, request.outputs@, keys_at(before.keysets@, k))
                    && after.quotes@ == before.quotes@,
            }
        },
    }
}

/// A failure among the first `n` quotes is the failure among any more.
proof fn lemma_quote_failure_stays(quotes: Seq<MintQuote>, ids: Seq<String>, now: u64, n: int, m: int)
    requires
        0 <= n <= m,
        first_quote_failure(quotes, ids, now, n).is_some(),
    ensures
        first_quote_failure(quotes, ids, now, m) == first_quote_failure(quotes, ids, now, n),
    decreases m - n,
{
    if n < m {
        lemma_quote_failure_stays(quotes, ids, now, n, m - 1);
    }
}

/// A failure among the first `n` signatures is the failure among any more.
proof fn lemma_lock_failure_stays(quotes: Seq<MintQuote>, request: BatchMintRequest, n: int, m: int)
    requires
        0 <= n <= m,
        first_lock_failure(quotes, request, n).is_some(),
    ensures
        first_lock_failure(quotes, request, m) == first_lock_failure(quotes, request, n),
    decreases m - n,
{
    if n < m {
        lemma_lock_failure_stays(quotes, request, n, m - 1);
    }
}

/// Where no quote among the first `n` fails, each has its place.
proof fn lemma_quotes_found(quotes: Seq<MintQuote>, ids: Seq<String>, now: u64, n: int, i: int)
    requires
        0 <= i < n,
        first_quote_failure(quotes, ids, now, n).is_none(),
    ensures
        find(quote_texts(quotes), ids[i]@).is_some(),
        quote_verdict(quotes[place(quotes, ids, i)], now).is_ok(),
    decreases n,
{
    if i < n - 1 {
        lemma_quotes_found(quotes, ids, now, n - 1, i);
    }
}

impl Mint {
    /// Issues blind signatures for several paid quotes at once, at `now`, on
    /// the endpoint of the payment method `method`: the batch is checked as a
    /// whole and quote by quote, the outputs are signed as one set, in their
    /// order, and every quote is issued with the whole of its amount. The
    /// mint that is left has all the quotes issued, or is as it was.
    #[verifier::loop_isolation(false)]
    pub fn process_batch_mint_request(&mut self, request: &BatchMintRequest, method: PaymentMethod, now: u64) -> (r:
        Result<Vec<BlindSignature>, Error>)
        ensures
            is_batch_issued(*old(self), *final(self), *request, method, now, r),
            r matches Ok(signatures) ==> total(signature_amounts(signatures@)) == total(
                output_amounts(request.outputs@),
            ),
    {
        let n: usize = request.quote.len();
        if n == 0 {
            return Err(Error::BatchEmpty);
        }
        if n > MAX_BATCH_SIZE {
            return Err(Error::BatchSizeExceeded);
        }
        if has_duplicate_quotes(&request.quote) {
            return Err(Error::BatchDuplicateQuote);
        }
        match &request.signature {
            Some(list) => {
                if list.len() != n {
                    return Err(Error::SignatureCountMismatch);
                }
            },
            None => {},
        }
        let ghost quotes = self.quotes@;
        let ghost ids = request.quote@;
        let mut places: Vec<usize> = Vec::new();
        let mut i: usize = 0;
        while i < n
            invariant
                i <= n,
                places@.len() == i,
                first_quote_failure(quotes, ids, now, i as int).is_none(),
                forall|j: int|
                    0 <= j < i ==> find(quote_texts(quotes), ids[j]@) == Some(
                        (#[trigger] places@[j]) as int,
                    ) && places@[j] < quotes.len(),
            decreases n - i,
        {
            let q: usize = match quote_position(&self.quotes, &request.quote[i]) {
                Some(q) => q,
                None => {
                    proof {
                        lemma_quote_failure_stays(quotes, ids, now, i + 1, n as int);
                    }
                    return Err(Error::UnknownQuote);
                },
            };
            match check_quote(&self.quotes[q], now) {
                Ok(()) => {},
                Err(e) => {
                    proof {
                        lemma_quote_failure_stays(quotes, ids, now, i + 1, n as int);
                    }
                    return Err(e);
                },
            }
            places.push(q);
            i = i + 1;
        }
        proof {
            assert forall|j: int| 0 <= j < n implies place(quotes, ids, j) == #[trigger] places@[j] by {}
        }
        i = 0;
        while i < n
            invariant
                i <= n,
                forall|j: int|
                    0 <= j < i ==> quotes[#[trigger] place(quotes, ids, j)].payment_method == method,
            decreases n - i,
        {
            assert(place(quotes, ids, i as int) == places@[i as int]);
            if self.quotes[places[i]].payment_method != method {
                return Err(Error::BatchPaymentMethodMismatch);
            }
            i = i + 1;
        }
        i = 0;
        while i < n
            invariant
                i <= n,
                forall|j: int|
                    0 <= j < i ==> quotes[#[trigger] place(quotes, ids, j)].unit@ == quotes[place(
                        quotes,
                        ids,
                        0,
                    )].unit@,
            decreases n - i,
        {
            assert(place(quotes, ids, i as int) == places@[i as int]);
            assert(place(quotes, ids, 0) == places@[0]);
            if self.quotes[places[i]].unit != self.quotes[places[0]].unit {
                return Err(Error::BatchCurrencyUnitMismatch);
            }
            i = i + 1;
        }
        i = 0;
        while i < n
            invariant
                i <= n,
                forall|j: int|
                    0 <= j < i ==> keyset_view(quotes[#[trigger] place(quotes, ids, j)].keyset_id)
                        == keyset_view(quotes[place(quotes, ids, 0)].keyset_id),
            decreases n - i,
        {
            assert(place(quotes, ids, i as int) == places@[i as int]);
            assert(place(quotes, ids, 0) == places@[0]);
            let same: bool = match (&self.quotes[places[i]].keyset_id, &self.quotes[places[0]].keyset_id) {
                (Some(a), Some(b)) => *a == *b,
                (None, None) => true,
                _ => false,
            };
            if !same {
                return Err(Error::BatchKeysetMismatch);
            }
            i = i + 1;
        }
        i = 0;
        while i < n
            invariant
                i <= n,
                first_lock_failure(quotes, *request, i as int).is_none(),
            decreases n - i,
        {
            assert(place(quotes, ids, i as int) == places@[i as int]);
            let none: Option<String> = None;
            let signature: &Option<String> = match &request.signature {
                Some(list) => &list[i],
                None => &none,
            };
            match check_lock(&self.quotes[places[i]], &request.quote[i], &request.outputs, signature) {
                Ok(()) => {},
                Err(e) => {
                    proof {
                        lemma_lock_failure_stays(quotes, *request, i + 1, n as int);
                    }
                    return Err(e);
                },
            }
            i = i + 1;
        }
        assert(place(quotes, ids, 0) == places@[0]);
        let k: Option<usize> = match check_keyset(&self.keysets, &self.quotes[places[0]], &request.outputs) {
            Ok(k) => k,
            Err(Error::KeysetMismatch) => {
                return Err(Error::BatchKeysetMismatch);
            },
            Err(e) => {
                return Err(e);
            },
        };
        let mut amount: u128 = 0;
        i = 0;
        while i < n
            invariant
                i <= n,
                amount as nat == batch_amount(quotes, ids, i as int),
                amount <= i * 0xffff_ffff_ffff_ffff,
            decreases n - i,
        {
            assert(place(quotes, ids, i as int) == places@[i as int]);
            proof {
                assert((i + 1) * 0xffff_ffff_ffff_ffff == i * 0xffff_ffff_ffff_ffff
                    + 0xffff_ffff_ffff_ffff) by (nonlinear_arith);
                assert((i + 1) * 0xffff_ffff_ffff_ffff <= 100 * 0xffff_ffff_ffff_ffff)
                    by (nonlinear_arith)
                    requires
                        i + 1 <= 100,
                ;
            }
            amount = amount + self.quotes[places[i]].amount.0 as u128;
            i = i + 1;
        }
        let keyset: Option<&MintKeySet> = match k {
            Some(at) => Some(&self.keysets[at]),
            None => None,
        };
        match check_outputs(keyset, amount, &request.outputs, self.max_outputs) {
            Ok(()) => {},
            Err(e) => {
                return Err(e);
            },
        }
        let signatures: Vec<BlindSignature> = match sign_outputs(keyset, &request.outputs) {
            Ok(signatures) => signatures,
            Err(e) => {
                return Err(e);
            },
        };
        let mut found: Vec<MintQuote> = Vec::new();
        i = 0;
        while i < n
            invariant
                i <= n,
                found@.len() == i,
                self.quotes@ == quotes,
                forall|j: int| 0 <= j < i ==> #[trigger] found@[j] == quotes[place(quotes, ids, j)],
            decreases n - i,
        {
            assert(place(quotes, ids, i as int) == places@[i as int]);
            found.push(self.quotes[places[i]].clone());
            i = i + 1;
        }
        i = 0;
        while i < n
            invariant
                i <= n,
                self.quotes@ == issued_all(quotes, ids, i as int),
                self.quotes@.len() == quotes.len(),
                same_registry(*self, *old(self)),
            decreases n - i,
        {
            assert(place(quotes, ids, i as int) == places@[i as int]);
            let mut quote: MintQuote = found[i].clone();
            quote.state = crate::nuts::nut00::MintQuoteState::Issued;
            quote.amount_issued = quote.amount;
            self.quotes[places[i]] = quote;
            i = i + 1;
        }
        proof {
            assert(signature_amounts(signatures@) =~= output_amounts(request.outputs@));
        }
        Ok(signatures)
    }
}

} // verus!
