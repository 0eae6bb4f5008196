//! What holds of the mint and of the wallet across their operations.

use crate::amount::{total, Amount, SplitTarget};
use crate::error::{status_of, Error};
use crate::mint::batch::{batch_amount, batch_verdict, first_quote_failure, is_batch_issued, issued_all, place};
use crate::mint::issue::{is_issued, is_signature_of, issue_verdict, issued, keys_at, keyset_ids, quote_texts};
use crate::mint::keysets::pair_for;
use crate::mint::quote::{next_state, rank, MintQuote, QuoteEvent};
use crate::mint::Mint;
use crate::nuts::nut00::{output_amounts, premint_amounts, proof_amounts, signature_amounts, BlindSignature, MintQuoteState, PaymentMethod, PreMintSecrets};
use crate::nuts::nut02::Id;
use crate::nuts::nut04::{BatchMintRequest, MintRequest};
use crate::nuts::nut13::{derivation_path, is_derived, split_result};
use crate::table::{find, lemma_found};
use crate::wallet::issue::issue_mining_share::{is_finalized, is_prepared, keyset_amounts};
use crate::wallet::mint::{same_but_quote_tables, with_counters_of};
use crate::wallet::store::{counter_of, is_incremented, lemma_with_counter, WalletStore};
use crate::wallet::Wallet;
use vstd::prelude::*;

verus! {

/// An event moves a quote towards issued, but for the failure of an issuance,
/// which takes it back to paid; and nothing leaves issued.
pub proof fn law_transitions(state: MintQuoteState, event: QuoteEvent)
    ensures
        next_state(state, event) matches Some(next) ==> (if event == QuoteEvent::IssuanceFails {
            state == MintQuoteState::Pending && next == MintQuoteState::Paid
        } else {
            rank(next) == rank(state) + 1
        }),
        state == MintQuoteState::Issued ==> next_state(state, event).is_none(),
        next_state(state, event) == Some(MintQuoteState::Pending) ==> state == MintQuoteState::Paid,
{
}

/// A signature is for an amount of a keyset that the mint has, and the keyset
/// is active.
pub open spec fn is_in_registry(mint: Mint, signature: BlindSignature) -> bool {
    exists|k: int|
        0 <= k < mint.keysets@.len() && (#[trigger] mint.keysets@[k]).id@ == signature.keyset_id@
            && mint.keysets@[k].active && pair_for(mint.keysets@[k].keys@, signature.amount.0).is_some()
}

/// Where a request to mint succeeds, its outputs and the signatures on them
/// add up to the amount of the quote.
pub proof fn law_issued_amount(
    before: Mint,
    after: Mint,
    request: MintRequest,
    now: u64,
    r: Result<Vec<BlindSignature>, Error>,
)
    requires
        is_issued(before, after, request, now, r),
        r.is_ok(),
    ensures
        find(quote_texts(before.quotes@), request.quote@) matches Some(q) && total(
            output_amounts(request.outputs@),
        ) == before.quotes@[q].amount.0 && total(signature_amounts(r.unwrap()@))
            == before.quotes@[q].amount.0,
{
    let signatures = r.unwrap()@;
    assert(signature_amounts(signatures) =~= output_amounts(request.outputs@));
}

/// Where a batch succeeds, its outputs and the signatures on them add up to
/// the sum of the amounts of its quotes.
pub proof fn law_batch_issued_amount(
    before: Mint,
    after: Mint,
    request: BatchMintRequest,
    method: PaymentMethod,
    now: u64,
    r: Result<Vec<BlindSignature>, Error>,
)
    requires
        is_batch_issued(before, after, request, method, now, r),
        r.is_ok(),
    ensures
        total(output_amounts(request.outputs@)) == batch_amount(
            before.quotes@,
            request.quote@,
            request.quote@.len() as int,
        ),
        total(signature_amounts(r.unwrap()@)) == batch_amount(
            before.quotes@,
            request.quote@,
            request.quote@.len() as int,
        ),
{
    let signatures = r.unwrap()@;
    assert(signature_amounts(signatures) =~= output_amounts(request.outputs@));
}

/// Every signature that a request to mint returns is for an amount of an
/// active keyset of the mint.
pub proof fn law_signatures_in_registry(
    before: Mint,
    after: Mint,
    request: MintRequest,
    now: u64,
    r: Result<Vec<BlindSignature>, Error>,
)
    requires
        is_issued(before, after, request, now, r),
        r.is_ok(),
    ensures
        forall|i: int| 0 <= i < r.unwrap()@.len() ==> is_in_registry(before, #[trigger] r.unwrap()@[i]),
{
    let signatures = r.unwrap()@;
    let verdict = issue_verdict(before, request, now);
    let q = verdict.unwrap().0;
    let k = verdict.unwrap().1;
    assert forall|i: int| 0 <= i < signatures.len() implies is_in_registry(
        before,
        #[trigger] signatures[i],
    ) by {
        assert(is_signature_of(signatures[i], request.outputs@[i], keys_at(before.keysets@, k)));
        lemma_found(keyset_ids(before.keysets@), request.outputs@[0].keyset_id@);
        let at = k.unwrap();
        assert(before.keysets@[at].id@ == request.outputs@[0].keyset_id@);
        assert(request.outputs@[i].keyset_id@ == request.outputs@[0].keyset_id@);
    }
}

/// Every signature that a batch returns is for an amount of an active keyset
/// of the mint.
pub proof fn law_batch_signatures_in_registry(
    before: Mint,
    after: Mint,
    request: BatchMintRequest,
    method: PaymentMethod,
    now: u64,
    r: Result<Vec<BlindSignature>, Error>,
)
    requires
        is_batch_issued(before, after, request, method, now, r),
        r.is_ok(),
    ensures
        forall|i: int| 0 <= i < r.unwrap()@.len() ==> is_in_registry(before, #[trigger] r.unwrap()@[i]),
{
    let signatures = r.unwrap()@;
    let k = batch_verdict(before, request, method, now).unwrap();
    assert forall|i: int| 0 <= i < signatures.len() implies is_in_registry(
        before,
        #[trigger] signatures[i],
    ) by {
        assert(is_signature_of(signatures[i], request.outputs@[i], keys_at(before.keysets@, k)));
        lemma_found(keyset_ids(before.keysets@), request.outputs@[0].keyset_id@);
        let at = k.unwrap();
        assert(before.keysets@[at].id@ == request.outputs@[0].keyset_id@);
        assert(request.outputs@[i].keyset_id@ == request.outputs@[0].keyset_id@);
    }
}

/// Two raisings of the counter of a keyset, one after the other, give two
/// ranges of counters that do not overlap and leave no gap: the second begins
/// where the first ends. The counters of other keysets stay as they were.
pub proof fn law_counter_ranges(
    first: WalletStore,
    second: WalletStore,
    third: WalletStore,
    id: Id,
    count_one: u32,
    count_two: u32,
    r_one: Result<u32, Error>,
    r_two: Result<u32, Error>,
    other: Id,
)
    requires
        is_incremented(first, second, id, count_one, r_one),
        is_incremented(second, third, id, count_two, r_two),
        r_one.is_ok(),
        r_two.is_ok(),
    ensures
        r_one.unwrap() - count_one == counter_of(first.keyset_counters@, id@),
        r_two.unwrap() - count_two == r_one.unwrap(),
        counter_of(third.keyset_counters@, id@) == r_two.unwrap(),
        other@ != id@ ==> counter_of(third.keyset_counters@, other@) == counter_of(
            first.keyset_counters@,
            other@,
        ),
{
    lemma_with_counter(first.keyset_counters@, id, r_one.unwrap(), other@);
    lemma_with_counter(second.keyset_counters@, id, r_two.unwrap(), other@);
}

/// The sum of the first `n` counts of a list.
pub open spec fn counts_sum(counts: Seq<u32>, n: int) -> int
    decreases n,
{
    if n <= 0 {
        0
    } else {
        counts_sum(counts, n - 1) + counts[n - 1]
    }
}

/// Any number of raisings of the counter of a keyset, in whatever order they
/// take place one after another, give ranges of counters that do not overlap
/// and leave no gap: each range begins where the one before it ends, the first
/// at the counter before them all, and the counter after them all is the sum
/// of the counts beyond it.
pub proof fn law_counter_ranges_of_many(
    stores: Seq<WalletStore>,
    id: Id,
    counts: Seq<u32>,
    results: Seq<Result<u32, Error>>,
)
    requires
        stores.len() == counts.len() + 1,
        results.len() == counts.len(),
        forall|i: int|
            0 <= i < counts.len() ==> is_incremented(
                stores[i],
                stores[i + 1],
                id,
                counts[i],
                #[trigger] results[i],
            ) && results[i].is_ok(),
    ensures
        forall|i: int|
            0 <= i < counts.len() ==> (#[trigger] results[i]).unwrap() - counts[i] == counter_of(
                stores[0].keyset_counters@,
                id@,
            ) + counts_sum(counts, i) && results[i].unwrap() == counter_of(
                stores[0].keyset_counters@,
                id@,
            ) + counts_sum(counts, i + 1),
        forall|i: int, j: int|
            0 <= i < j < counts.len() ==> (#[trigger] results[i]).unwrap() <= (
            #[trigger] results[j]).unwrap() - counts[j],
        counter_of(stores.last().keyset_counters@, id@) == counter_of(stores[0].keyset_counters@, id@)
            + counts_sum(counts, counts.len() as int),
{
    let start = counter_of(stores[0].keyset_counters@, id@);
    assert forall|i: int| 0 <= i < counts.len() implies (#[trigger] results[i]).unwrap() - counts[i]
        == start + counts_sum(counts, i) && results[i].unwrap() == start + counts_sum(counts, i + 1) by {
        lemma_counter_after(stores, id, counts, results, i);
    }
    lemma_counter_after(stores, id, counts, results, counts.len() as int);
    assert forall|i: int, j: int| 0 <= i < j < counts.len() implies (#[trigger] results[i]).unwrap() <= (
    #[trigger] results[j]).unwrap() - counts[j] by {
        lemma_counts_sum_grows(counts, i + 1, j);
    }
}

/// After the first `n` raisings the counter is the counter before them and
/// the sum of their counts.
proof fn lemma_counter_after(
    stores: Seq<WalletStore>,
    id: Id,
    counts: Seq<u32>,
    results: Seq<Result<u32, Error>>,
    n: int,
)
    requires
        0 <= n <= counts.len(),
        stores.len() == counts.len() + 1,
        results.len() == counts.len(),
        forall|i: int|
            0 <= i < counts.len() ==> is_incremented(
                stores[i],
                stores[i + 1],
                id,
                counts[i],
                #[trigger] results[i],
            ) && results[i].is_ok(),
    ensures
        counter_of(stores[n].keyset_counters@, id@) == counter_of(stores[0].keyset_counters@, id@)
            + counts_sum(counts, n),
    decreases n,
{
    if n > 0 {
        lemma_counter_after(stores, id, counts, results, n - 1);
        assert(is_incremented(stores[n - 1], stores[n - 1 + 1], id, counts[n - 1], results[n - 1]));
        lemma_with_counter(stores[n - 1].keyset_counters@, id, results[n - 1].unwrap(), id@);
    }
}

/// The sum of more counts is no smaller.
proof fn lemma_counts_sum_grows(counts: Seq<u32>, n: int, m: int)
    requires
        0 <= n <= m,
    ensures
        counts_sum(counts, n) <= counts_sum(counts, m),
    decreases m - n,
{
    if n < m {
        lemma_counts_sum_grows(counts, n, m - 1);
    }
}

/// The counter of a keyset never goes back: after a raising it is no smaller
/// than before, whether the raising succeeded or not.
pub proof fn law_counter_never_rewinds(
    before: WalletStore,
    after: WalletStore,
    id: Id,
    count: u32,
    r: Result<u32, Error>,
)
    requires
        is_incremented(before, after, id, count, r),
    ensures
        counter_of(after.keyset_counters@, id@) >= counter_of(before.keyset_counters@, id@),
{
    if r.is_ok() {
        lemma_with_counter(before.keyset_counters@, id, r.unwrap(), id@);
    }
}

/// Two preparations of secrets under one keyset, one after the other, derive
/// their secrets at counters that do not overlap: every counter of the second
/// is beyond every counter of the first, and the paths at which the secrets
/// are derived differ.
pub proof fn law_prepared_ranges(
    first: Wallet,
    second: Wallet,
    third: Wallet,
    keyset_id: Id,
    amount_one: Amount,
    amount_two: Amount,
    r_one: Result<PreMintSecrets, Error>,
    r_two: Result<PreMintSecrets, Error>,
)
    requires
        is_prepared(first, second, keyset_id, amount_one, SplitTarget::NoTarget, r_one),
        is_prepared(second, third, keyset_id, amount_two, SplitTarget::NoTarget, r_two),
        r_one.is_ok(),
        r_two.is_ok(),
    ensures
        ({
            let start_one = counter_of(first.localstore.keyset_counters@, keyset_id@);
            let start_two = counter_of(second.localstore.keyset_counters@, keyset_id@);
            let one = r_one.unwrap().secrets@;
            let two = r_two.unwrap().secrets@;
            &&& start_two == start_one + one.len()
            &&& counter_of(third.localstore.keyset_counters@, keyset_id@) == start_two + two.len()
            &&& forall|i: int, j: int|
                #![trigger one[i], two[j]]
                0 <= i < one.len() && 0 <= j < two.len() ==> start_one + i < start_two + j
                    && derivation_path(keyset_id@, (start_one + i) as u32, 0) != derivation_path(
                    keyset_id@,
                    (start_two + j) as u32,
                    0,
                )
        }),
{
    let start_one = counter_of(first.localstore.keyset_counters@, keyset_id@);
    let start_two = counter_of(second.localstore.keyset_counters@, keyset_id@);
    let one = r_one.unwrap().secrets@;
    let two = r_two.unwrap().secrets@;
    let amounts_one = keyset_amounts(first.localstore, first.mint_url@, keyset_id@).unwrap();
    let parts_one = split_result(amount_one, SplitTarget::NoTarget, amounts_one).unwrap();
    let amounts_two = keyset_amounts(second.localstore, second.mint_url@, keyset_id@).unwrap();
    let parts_two = split_result(amount_two, SplitTarget::NoTarget, amounts_two).unwrap();
    assert(premint_amounts(one).len() == one.len());
    assert(premint_amounts(two).len() == two.len());
    lemma_with_counter(
        first.localstore.keyset_counters@,
        keyset_id,
        (start_one + parts_one.len()) as u32,
        keyset_id@,
    );
    lemma_with_counter(
        second.localstore.keyset_counters@,
        keyset_id,
        (start_two + parts_two.len()) as u32,
        keyset_id@,
    );
    assert forall|i: int, j: int|
        #![trigger one[i], two[j]]
        0 <= i < one.len() && 0 <= j < two.len() implies start_one + i < start_two + j
            && derivation_path(keyset_id@, (start_one + i) as u32, 0) != derivation_path(
        keyset_id@,
        (start_two + j) as u32,
        0,
    ) by {
        assert(is_derived(one[i], first.seed@, keyset_id, start_one + i, parts_one[i]));
        assert(is_derived(two[j], second.seed@, keyset_id, start_two + j, parts_two[j]));
        let a = derivation_path(keyset_id@, (start_one + i) as u32, 0);
        let b = derivation_path(keyset_id@, (start_two + j) as u32, 0);
        assert(a[3] != b[3]);
    }
}

/// Two makings of a quote with its secrets under one keyset, one after the
/// other, whether by [`Wallet::create_mining_share_quote`] or by
/// [`Wallet::create_premint_secrets`]: the secrets of the second are derived
/// at the counters that follow those of the first, none is derived at a
/// counter of the other, and the counter is raised by the number of both.
pub proof fn law_quote_secrets_ranges(
    first: Wallet,
    second: Wallet,
    third: Wallet,
    keyset_id: Id,
    amount_one: Amount,
    amount_two: Amount,
    r_one: Result<PreMintSecrets, Error>,
    r_two: Result<PreMintSecrets, Error>,
)
    requires
        is_prepared(
            first,
            with_counters_of(first, second),
            keyset_id,
            amount_one,
            SplitTarget::NoTarget,
            r_one,
        ),
        second.seed == first.seed,
        second.mint_url == first.mint_url,
        second.unit == first.unit,
        same_but_quote_tables(second.localstore, first.localstore),
        is_prepared(
            second,
            with_counters_of(second, third),
            keyset_id,
            amount_two,
            SplitTarget::NoTarget,
            r_two,
        ),
        r_one.is_ok(),
        r_two.is_ok(),
    ensures
        ({
            let start_one = counter_of(first.localstore.keyset_counters@, keyset_id@);
            let start_two = counter_of(second.localstore.keyset_counters@, keyset_id@);
            let one = r_one.unwrap().secrets@;
            let two = r_two.unwrap().secrets@;
            &&& start_two == start_one + one.len()
            &&& counter_of(third.localstore.keyset_counters@, keyset_id@) == start_one + one.len()
                + two.len()
            &&& forall|i: int|
                0 <= i < one.len() ==> is_derived(
                    #[trigger] one[i],
                    first.seed@,
                    keyset_id,
                    start_one + i,
                    one[i].amount,
                )
            &&& forall|j: int|
                0 <= j < two.len() ==> is_derived(
                    #[trigger] two[j],
                    first.seed@,
                    keyset_id,
                    start_one + one.len() + j,
                    two[j].amount,
                )
            &&& forall|i: int, j: int|
                #![trigger one[i], two[j]]
                0 <= i < one.len() && 0 <= j < two.len() ==> start_one + i < start_two + j
                    && derivation_path(keyset_id@, (start_one + i) as u32, 0) != derivation_path(
                    keyset_id@,
                    (start_two + j) as u32,
                    0,
                )
        }),
{
    let middle = with_counters_of(first, second);
    let last = with_counters_of(second, third);
    assert(middle.localstore.keyset_counters == second.localstore.keyset_counters);
    assert(last.localstore.keyset_counters == third.localstore.keyset_counters);
    let start_one = counter_of(first.localstore.keyset_counters@, keyset_id@);
    let start_two = counter_of(second.localstore.keyset_counters@, keyset_id@);
    let one = r_one.unwrap().secrets@;
    let two = r_two.unwrap().secrets@;
    let amounts_one = keyset_amounts(first.localstore, first.mint_url@, keyset_id@).unwrap();
    let parts_one = split_result(amount_one, SplitTarget::NoTarget, amounts_one).unwrap();
    let amounts_two = keyset_amounts(second.localstore, second.mint_url@, keyset_id@).unwrap();
    let parts_two = split_result(amount_two, SplitTarget::NoTarget, amounts_two).unwrap();
    assert(premint_amounts(one).len() == one.len());
    assert(premint_amounts(two).len() == two.len());
    lemma_with_counter(
        first.localstore.keyset_counters@,
        keyset_id,
        (start_one + parts_one.len()) as u32,
        keyset_id@,
    );
    lemma_with_counter(
        second.localstore.keyset_counters@,
        keyset_id,
        (start_two + parts_two.len()) as u32,
        keyset_id@,
    );
    assert forall|i: int| 0 <= i < one.len() implies is_derived(
        #[trigger] one[i],
        first.seed@,
        keyset_id,
        start_one + i,
        one[i].amount,
    ) by {
        assert(is_derived(one[i], first.seed@, keyset_id, start_one + i, parts_one[i]));
    }
    assert forall|j: int| 0 <= j < two.len() implies is_derived(
        #[trigger] two[j],
        first.seed@,
        keyset_id,
        start_one + one.len() + j,
        two[j].amount,
    ) by {
        assert(is_derived(two[j], second.seed@, keyset_id, start_two + j, parts_two[j]));
    }
    assert forall|i: int, j: int|
        #![trigger one[i], two[j]]
        0 <= i < one.len() && 0 <= j < two.len() implies start_one + i < start_two + j
            && derivation_path(keyset_id@, (start_one + i) as u32, 0) != derivation_path(
        keyset_id@,
        (start_two + j) as u32,
        0,
    ) by {
        let a = derivation_path(keyset_id@, (start_one + i) as u32, 0);
        let b = derivation_path(keyset_id@, (start_two + j) as u32, 0);
        assert(a[3] != b[3]);
    }
}

/// A request that is signed with the secret key of the key that a quote is
/// locked to is signed as the quote asks.
pub proof fn law_signed_request_unlocks(
    quote: MintQuote,
    quote_text: Seq<char>,
    outputs: Seq<crate::nuts::nut00::BlindedMessage>,
    signature: String,
    secret_key: crate::nuts::nut01::SecretKey,
)
    requires
        quote.pubkey matches Some(key) && crate::secp::public_point(secret_key@) == Some(key@),
        crate::nuts::nut20::is_signed_by(
            quote_text,
            outputs,
            signature@,
            crate::secp::public_point(secret_key@).unwrap(),
        ),
    ensures
        crate::mint::issue::lock_verdict(quote, quote_text, outputs, Some(signature)).is_ok(),
{
}

/// Ecash is issued at most once for a quote: of two requests for one quote,
/// one after the other, at most one succeeds. Where the first succeeds, the
/// second is told that the quote was issued already, unless the quote has
/// expired by the time of the second, which is then told so.
pub proof fn law_at_most_once(
    first: Mint,
    second: Mint,
    third: Mint,
    request_one: MintRequest,
    request_two: MintRequest,
    now_one: u64,
    now_two: u64,
    r_one: Result<Vec<BlindSignature>, Error>,
    r_two: Result<Vec<BlindSignature>, Error>,
)
    requires
        is_issued(first, second, request_one, now_one, r_one),
        is_issued(second, third, request_two, now_two, r_two),
        request_one.quote@ == request_two.quote@,
    ensures
        !(r_one.is_ok() && r_two.is_ok()),
        r_one.is_ok() ==> ({
            let q = find(quote_texts(first.quotes@), request_one.quote@).unwrap();
            if first.quotes@[q].expired(now_two) {
                r_two == Err::<Vec<BlindSignature>, Error>(Error::QuoteExpired)
            } else {
                r_two == Err::<Vec<BlindSignature>, Error>(Error::QuoteAlreadyIssued)
            }
        }),
{
    if r_one.is_ok() {
        let q = issue_verdict(first, request_one, now_one).unwrap().0;
        lemma_found(quote_texts(first.quotes@), request_one.quote@);
        assert(quote_texts(second.quotes@) =~= quote_texts(first.quotes@));
        assert(second.quotes@[q].state == MintQuoteState::Issued);
        assert(second.quotes@[q].expiry == first.quotes@[q].expiry);
    }
}

/// What the wallet keeps for a quote is the amount of the quote: where the
/// mint issues for a request and the wallet turns the mint's signatures into
/// proofs, the proofs are one for each output, of the amounts and the keyset
/// of the signatures, they add up to the amount of the quote, and they are the
/// proofs that the wallet stores.
pub proof fn law_minted_amount(
    mint_before: Mint,
    mint_after: Mint,
    request: MintRequest,
    now: u64,
    answer: Result<Vec<BlindSignature>, Error>,
    wallet_before: Wallet,
    wallet_after: Wallet,
    premints: Seq<crate::nuts::nut00::PreMint>,
    keyset_id: Id,
    quote_ids: Seq<String>,
    payment_request: Option<String>,
    then: u64,
    r: Result<Vec<crate::nuts::nut00::Proof>, Error>,
)
    requires
        is_issued(mint_before, mint_after, request, now, answer),
        answer.is_ok(),
        is_finalized(
            wallet_before,
            wallet_after,
            answer.unwrap()@,
            premints,
            keyset_id,
            quote_ids,
            payment_request,
            then,
            r,
        ),
        r.is_ok(),
    ensures
        find(quote_texts(mint_before.quotes@), request.quote@) matches Some(q) && total(
            proof_amounts(r.unwrap()@),
        ) == mint_before.quotes@[q].amount.0,
        r.unwrap()@.len() == request.outputs@.len(),
        forall|i: int|
            0 <= i < r.unwrap()@.len() ==> (#[trigger] r.unwrap()@[i]).amount == request.outputs@[i].amount
                && r.unwrap()@[i].keyset_id == request.outputs@[i].keyset_id && r.unwrap()@[i].secret@
                == premints[i].secret@,
        wallet_after.localstore.proofs@.len() == wallet_before.localstore.proofs@.len()
            + request.outputs@.len(),
        wallet_after.localstore.transactions@.last().amount.0 == total(proof_amounts(r.unwrap()@)),
{
    let signatures = answer.unwrap()@;
    let proofs = r.unwrap()@;
    let k = issue_verdict(mint_before, request, now).unwrap().1;
    assert forall|i: int| 0 <= i < proofs.len() implies (#[trigger] proofs[i]).amount
        == request.outputs@[i].amount && proofs[i].keyset_id == request.outputs@[i].keyset_id
        && proofs[i].secret@ == premints[i].secret@ by {
        assert(is_signature_of(signatures[i], request.outputs@[i], keys_at(mint_before.keysets@, k)));
    }
    assert(proof_amounts(proofs) =~= output_amounts(request.outputs@));
}

/// Minting again for a quote that is issued: whatever the wallet prepared,
/// the mint answers that the quote was issued already, an error that the
/// wallet passes over in silence, and keeps the quote as it is; and the
/// wallet, which stores proofs only for an answer with signatures, has the
/// proofs and the transactions that it had.
pub proof fn law_duplicate_issuance(
    wallet_before: Wallet,
    wallet_after: Wallet,
    keyset_id: Id,
    amount: Amount,
    prepared: Result<PreMintSecrets, Error>,
    mint_before: Mint,
    mint_after: Mint,
    request: MintRequest,
    now: u64,
    answer: Result<Vec<BlindSignature>, Error>,
)
    requires
        is_prepared(wallet_before, wallet_after, keyset_id, amount, SplitTarget::NoTarget, prepared),
        is_issued(mint_before, mint_after, request, now, answer),
        find(quote_texts(mint_before.quotes@), request.quote@) matches Some(q) && mint_before.quotes@[q].state
            == MintQuoteState::Issued && !mint_before.quotes@[q].expired(now),
    ensures
        answer == Err::<Vec<BlindSignature>, Error>(Error::QuoteAlreadyIssued),
        status_of(answer.unwrap_err()) == 409,
        mint_after.quotes@ == mint_before.quotes@,
        wallet_after.localstore.proofs == wallet_before.localstore.proofs,
        wallet_after.localstore.transactions == wallet_before.localstore.transactions,
        wallet_after.localstore.mint_quotes == wallet_before.localstore.mint_quotes,
{
}

/// A batch that the mint refuses: whatever the wallet prepared, the mint
/// keeps every quote as it is, so that those that were paid can be minted for
/// again; and the wallet, which stores proofs only for an answer with
/// signatures, has the proofs and the transactions that it had. A batch with
/// quotes, no more than a hundred and none twice, whose signatures have not a
/// place for each quote is refused for that.
pub proof fn law_refused_batch(
    wallet_before: Wallet,
    wallet_after: Wallet,
    keyset_id: Id,
    amount: Amount,
    prepared: Result<PreMintSecrets, Error>,
    mint_before: Mint,
    mint_after: Mint,
    request: BatchMintRequest,
    method: PaymentMethod,
    now: u64,
    answer: Result<Vec<BlindSignature>, Error>,
)
    requires
        is_prepared(wallet_before, wallet_after, keyset_id, amount, SplitTarget::NoTarget, prepared),
        is_batch_issued(mint_before, mint_after, request, method, now, answer),
        answer.is_err(),
    ensures
        mint_after.quotes@ == mint_before.quotes@,
        wallet_after.localstore.proofs == wallet_before.localstore.proofs,
        wallet_after.localstore.transactions == wallet_before.localstore.transactions,
        wallet_after.localstore.mint_quotes == wallet_before.localstore.mint_quotes,
        0 < request.quote@.len() <= crate::nuts::nut04::MAX_BATCH_SIZE && crate::nuts::nut04::distinct(
            crate::nuts::nut04::texts(request.quote@),
        ) && (request.signature matches Some(list) && list@.len() != request.quote@.len()) ==> answer
            == Err::<Vec<BlindSignature>, Error>(Error::SignatureCountMismatch),
{
}

/// A request that fails leaves the mint's quotes as they were; one that
/// succeeds changes the quote of the request, and of it the state and the
/// amount issued and nothing else: the keyset of the quote, once recorded,
/// stays.
pub proof fn law_issue_touches_one_quote(
    before: Mint,
    after: Mint,
    request: MintRequest,
    now: u64,
    r: Result<Vec<BlindSignature>, Error>,
)
    requires
        is_issued(before, after, request, now, r),
    ensures
        r.is_err() ==> after.quotes@ == before.quotes@,
        after.quotes@.len() == before.quotes@.len(),
        forall|i: int|
            0 <= i < before.quotes@.len() ==> {
                let old_quote = before.quotes@[i];
                let new_quote = #[trigger] after.quotes@[i];
                &&& new_quote == old_quote || (r.is_ok() && Some(i) == find(
                    quote_texts(before.quotes@),
                    request.quote@,
                ) && old_quote.state == MintQuoteState::Paid && new_quote == issued(old_quote))
                &&& new_quote.keyset_id == old_quote.keyset_id
                &&& new_quote.amount == old_quote.amount
                &&& new_quote.id == old_quote.id
            },
{
    if r.is_ok() {
        lemma_found(quote_texts(before.quotes@), request.quote@);
    }
}

/// A batch that fails changes nothing: every quote is in the state that it
/// was in, so that each quote of the batch that was paid is still paid.
pub proof fn law_batch_atomic(
    before: Mint,
    after: Mint,
    request: BatchMintRequest,
    method: PaymentMethod,
    now: u64,
    r: Result<Vec<BlindSignature>, Error>,
)
    requires
        is_batch_issued(before, after, request, method, now, r),
        r.is_err(),
    ensures
        after.quotes@ == before.quotes@,
        after.keysets == before.keysets,
        forall|i: int|
            0 <= i < request.quote@.len() ==> {
                let q = #[trigger] find(quote_texts(before.quotes@), request.quote@[i]@);
                q.is_some() && before.quotes@[q.unwrap()].state == MintQuoteState::Paid
                    ==> after.quotes@[q.unwrap()].state == MintQuoteState::Paid
            },
{
}

/// A batch that succeeds issues every quote that it names: each was paid and
/// is issued with the whole of its amount.
pub proof fn law_batch_issues_all(
    before: Mint,
    after: Mint,
    request: BatchMintRequest,
    method: PaymentMethod,
    now: u64,
    r: Result<Vec<BlindSignature>, Error>,
)
    requires
        is_batch_issued(before, after, request, method, now, r),
        r.is_ok(),
    ensures
        after.quotes@.len() == before.quotes@.len(),
        forall|i: int|
            0 <= i < request.quote@.len() ==> {
                let at = #[trigger] place(before.quotes@, request.quote@, i);
                &&& 0 <= at < before.quotes@.len()
                &&& before.quotes@[at].state == MintQuoteState::Paid
                &&& after.quotes@[at] == issued(before.quotes@[at])
            },
{
    let quotes = before.quotes@;
    let ids = request.quote@;
    let n = ids.len() as int;
    lemma_issued_all(quotes, ids, now, n, n);
    assert forall|i: int| 0 <= i < n implies {
        let at = #[trigger] place(quotes, ids, i);
        &&& 0 <= at < quotes.len()
        &&& quotes[at].state == MintQuoteState::Paid
        &&& after.quotes@[at] == issued(quotes[at])
    } by {
        lemma_issued_all(quotes, ids, now, n, n);
        lemma_place(quotes, ids, now, n, i);
        lemma_issued_at(quotes, ids, now, n, n, i);
    }
}

/// Where no quote among the first `n` of a batch fails, each has its place in
/// the mint's list and is paid.
proof fn lemma_place(quotes: Seq<MintQuote>, ids: Seq<String>, now: u64, n: int, i: int)
    requires
        0 <= i < n,
        first_quote_failure(quotes, ids, now, n).is_none(),
    ensures
        0 <= place(quotes, ids, i) < quotes.len(),
        quotes[place(quotes, ids, i)].state == MintQuoteState::Paid,
        quote_texts(quotes)[place(quotes, ids, i)] == ids[i]@,
    decreases n,
{
    if i < n - 1 {
        lemma_place(quotes, ids, now, n - 1, i);
    } else {
        lemma_found(quote_texts(quotes), ids[i]@);
    }
}

/// Issuing the first `m` quotes of a batch keeps the length of the list.
proof fn lemma_issued_all(quotes: Seq<MintQuote>, ids: Seq<String>, now: u64, n: int, m: int)
    requires
        0 <= m <= n,
        first_quote_failure(quotes, ids, now, n).is_none(),
    ensures
        issued_all(quotes, ids, m).len() == quotes.len(),
    decreases m,
{
    if m > 0 {
        lemma_issued_all(quotes, ids, now, n, m - 1);
        lemma_place(quotes, ids, now, n, m - 1);
    }
}

/// After the first `m` quotes of a batch without duplicates are issued, the
/// quote at the place of the `i`-th is the issued one where `i` is below `m`.
proof fn lemma_issued_at(quotes: Seq<MintQuote>, ids: Seq<String>, now: u64, n: int, m: int, i: int)
    requires
        0 <= i < m <= n,
        first_quote_failure(quotes, ids, now, n).is_none(),
        crate::nuts::nut04::distinct(crate::nuts::nut04::texts(ids)),
        n <= ids.len(),
    ensures
        issued_all(quotes, ids, m)[place(quotes, ids, i)] == issued(quotes[place(quotes, ids, i)]),
    decreases m,
{
    lemma_issued_all(quotes, ids, now, n, m - 1);
    lemma_place(quotes, ids, now, n, m - 1);
    lemma_place(quotes, ids, now, n, i);
    if i < m - 1 {
        lemma_issued_at(quotes, ids, now, n, m - 1, i);
        let a = place(quotes, ids, i);
        let b = place(quotes, ids, m - 1);
        assert(crate::nuts::nut04::texts(ids)[i] != crate::nuts::nut04::texts(ids)[m - 1]);
        assert(a != b);
    }
}

/// A mint whose quotes have their amounts in order still has them so after a
/// request to mint, whatever came of it.
pub proof fn law_issue_keeps_order(
    before: Mint,
    after: Mint,
    request: MintRequest,
    now: u64,
    r: Result<Vec<BlindSignature>, Error>,
)
    requires
        before.wf(),
        is_issued(before, after, request, now, r),
    ensures
        after.wf(),
{
    if r.is_ok() {
        lemma_found(quote_texts(before.quotes@), request.quote@);
        let q = issue_verdict(before, request, now).unwrap().0;
        assert(before.quotes@[q].wf());
        assert forall|i: int| 0 <= i < after.quotes@.len() implies (#[trigger] after.quotes@[i]).wf() by {
            if i != q {
                assert(before.quotes@[i].wf());
            }
        }
    } else {
        assert forall|i: int| 0 <= i < after.quotes@.len() implies (#[trigger] after.quotes@[i]).wf() by {
            assert(before.quotes@[i].wf());
        }
    }
}

/// A mint whose quotes have their amounts in order still has them so after a
/// batch, whatever came of it.
pub proof fn law_batch_keeps_order(
    before: Mint,
    after: Mint,
    request: BatchMintRequest,
    method: PaymentMethod,
    now: u64,
    r: Result<Vec<BlindSignature>, Error>,
)
    requires
        before.wf(),
        is_batch_issued(before, after, request, method, now, r),
    ensures
        after.wf(),
{
    let quotes = before.quotes@;
    let ids = request.quote@;
    let n = ids.len() as int;
    if r.is_ok() {
        lemma_issued_all_ordered(quotes, ids, now, n, n);
    } else {
        assert forall|i: int| 0 <= i < after.quotes@.len() implies (#[trigger] after.quotes@[i]).wf() by {
            assert(quotes[i].wf());
        }
    }
}

/// Issuing the first `m` quotes of a batch, each of which is paid, keeps the
/// amounts of every quote in order.
proof fn lemma_issued_all_ordered(quotes: Seq<MintQuote>, ids: Seq<String>, now: u64, n: int, m: int)
    requires
        0 <= m <= n,
        first_quote_failure(quotes, ids, now, n).is_none(),
        forall|i: int| 0 <= i < quotes.len() ==> (#[trigger] quotes[i]).wf(),
    ensures
        issued_all(quotes, ids, m).len() == quotes.len(),
        forall|i: int| 0 <= i < quotes.len() ==> (#[trigger] issued_all(quotes, ids, m)[i]).wf(),
    decreases m,
{
    if m > 0 {
        lemma_issued_all_ordered(quotes, ids, now, n, m - 1);
        lemma_place(quotes, ids, now, n, m - 1);
        let at = place(quotes, ids, m - 1);
        assert(quotes[at].wf());
        let before = issued_all(quotes, ids, m - 1);
        let after = issued_all(quotes, ids, m);
        assert forall|i: int| 0 <= i < quotes.len() implies (#[trigger] after[i]).wf() by {
            if i != at {
                assert(before[i].wf());
            }
        }
    }
}

} // verus!
