//! Minting ecash for several quotes in one request.

use crate::amount::{Amount, FeeAndAmounts, SplitTarget};
use crate::dhke::curve_point;
use crate::error::Error;
use crate::nuts::nut00::{premint_messages, BlindSignature, CurrencyUnit, MintQuoteState, PreMint, PreMintSecrets, Proof, Proofs};
use crate::nuts::nut01::PublicKey;
use crate::nuts::nut02::{Id, KeySetInfo};
use crate::nuts::nut04::{texts, BatchMintRequest, BatchQuoteStatusRequest};
use crate::nuts::nut11::SpendingConditions;
use crate::nuts::nut13::split_result;
use crate::wallet::issue::issue_mining_share::{are_minted, finalize_failure, is_incoming, is_prepared, join_ids, keyset_amounts};
use crate::wallet::keysets::{is_pick, none_eligible};
use crate::wallet::mint::is_conditional_result;
use crate::wallet::store::{keysets_of, quote_of, without_quote, WalletStore};
use crate::wallet::types::{mintable, MintQuote, ProofInfo, Transaction, TransactionDirection};
use crate::wallet::Wallet;
use vstd::prelude::*;

verus! {

/// A request to mint for several quotes at once, with what the wallet needs
/// to turn the mint's answer into proofs.
#[derive(Debug, PartialEq, Eq)]
pub struct BatchMint {
    /// The request for the state of the quotes, to send first.
    pub status_request: BatchQuoteStatusRequest,
    /// The request to mint.
    pub request: BatchMintRequest,
    /// The secrets behind the outputs of the request.
    pub premint_secrets: PreMintSecrets,
    /// The keyset of the outputs.
    pub keyset_id: Id,
    /// The unit of the quotes.
    pub unit: CurrencyUnit,
    /// The request of the first quote.
    pub payment_request: String,
}

/// The sum of what can be minted for the quotes with the first `n`
/// identifiers. Each identifier must have a quote.
pub open spec fn batch_total(quotes: Seq<MintQuote>, ids: Seq<String>, n: int) -> nat
    decreases n,
{
    if n <= 0 {
        0
    } else {
        batch_total(quotes, ids, n - 1) + mintable(quote_of(quotes, ids[n - 1]@).unwrap()).0 as nat
    }
}

/// What is wrong with the quotes of a batch, if anything: the first of these
/// that holds. No quote is named; an identifier has no quote; the quotes are
/// not all paid in the same way; they are not all in the same unit; one is not
/// paid; what can be minted does not fit in 64 bits, or is nothing.
pub open spec fn batch_quotes_failure(quotes: Seq<MintQuote>, ids: Seq<String>) -> Option<Error> {
    if ids.len() == 0 {
        Some(Error::AmountUndefined)
    } else if exists|i: int| 0 <= i < ids.len() && quote_of(quotes, (#[trigger] ids[i])@).is_none() {
        Some(Error::UnknownQuote)
    } else {
        let first = quote_of(quotes, ids[0]@).unwrap();
        if exists|i: int|
            0 <= i < ids.len() && quote_of(quotes, (#[trigger] ids[i])@).unwrap().payment_method
                != first.payment_method {
            Some(Error::UnsupportedPaymentMethod)
        } else if exists|i: int|
            0 <= i < ids.len() && quote_of(quotes, (#[trigger] ids[i])@).unwrap().unit@ != first.unit@ {
            Some(Error::UnsupportedUnit)
        } else if exists|i: int|
            0 <= i < ids.len() && quote_of(quotes, (#[trigger] ids[i])@).unwrap().state
                != MintQuoteState::Paid {
            Some(Error::UnknownQuote)
        } else if batch_total(quotes, ids, ids.len() as int) > u64::MAX {
            Some(Error::AmountOverflow)
        } else if batch_total(quotes, ids, ids.len() as int) == 0 {
            Some(Error::AmountUndefined)
        } else {
            None
        }
    }
}

/// A list of quotes without the quotes that have the identifiers of another
/// list.
pub open spec fn without_quotes(quotes: Seq<MintQuote>, ids: Seq<String>) -> Seq<MintQuote>
    decreases ids.len(),
{
    if ids.len() == 0 {
        quotes
    } else {
        without_quote(without_quotes(quotes, ids.drop_last()), ids.last()@)
    }
}

/// What is prepared of a batch: the secrets, or the error.
pub open spec fn prepared_of(r: Result<BatchMint, Error>) -> Result<PreMintSecrets, Error> {
    match r {
        Ok(m) => Ok(m.premint_secrets),
        Err(e) => Err(e),
    }
}

/// The request of a batch names the quotes, in their order, and carries the
/// outputs of the secrets and no signature.
pub open spec fn is_batch_request(m: BatchMint, quotes: Seq<MintQuote>, ids: Seq<String>, keyset_id: Id) -> bool {
    &&& texts(m.request.quote@) == texts(ids)
    &&& texts(m.status_request.quote@) == texts(ids)
    &&& m.request.outputs@ == premint_messages(m.premint_secrets.secrets@)
    &&& m.request.signature.is_none()
    &&& m.keyset_id == keyset_id
    &&& m.unit == quote_of(quotes, ids[0]@).unwrap().unit
    &&& m.payment_request == quote_of(quotes, ids[0]@).unwrap().request
}

/// What [`Wallet::mint_batch`] does, once the quotes of the batch are found
/// in order and the keyset `keyset_id` is picked: `after` is the wallet that
/// it leaves of the wallet `before`, and `r` is what it returns.
pub open spec fn is_batch_prepared(
    before: Wallet,
    after: Wallet,
    ids: Seq<String>,
    target: SplitTarget,
    conditions: Option<SpendingConditions>,
    keyset_id: Id,
    r: Result<BatchMint, Error>,
) -> bool {
    let amount = Amount(batch_total(before.localstore.mint_quotes@, ids, ids.len() as int) as u64);
    &&& r matches Ok(m) ==> is_batch_request(m, before.localstore.mint_quotes@, ids, keyset_id)
    &&& match conditions {
        None => is_prepared(before, after, keyset_id, amount, target, prepared_of(r)),
        Some(c) => after == before && match keyset_amounts(
            before.localstore,
            before.mint_url@,
            keyset_id@,
        ) {
            None => r == Err::<BatchMint, Error>(Error::UnknownKeyset),
            Some(amounts) => match split_result(amount, target, amounts) {
                Err(e) => r == Err::<BatchMint, Error>(
                    Error::Derivation(crate::nuts::nut13::Error::Amount(e)),
                ),
                Ok(parts) => is_conditional_result(prepared_of(r), c, keyset_id, amount, parts),
            },
        },
    }
}

/// What [`Wallet::mint_batch_finish`] does: `after` is the wallet that it
/// leaves of the wallet `before`, and `r` is what it returns.
pub open spec fn is_batch_finished(
    before: Wallet,
    after: Wallet,
    signatures: Seq<BlindSignature>,
    premints: Seq<PreMint>,
    keyset_id: Id,
    unit: CurrencyUnit,
    quote_ids: Seq<String>,
    payment_request: String,
    now: u64,
    r: Result<Vec<Proof>, Error>,
) -> bool {
    match finalize_failure(before.localstore.keys@, signatures, premints, keyset_id) {
        Some(e) => r == Err::<Vec<Proof>, Error>(e) && after == before,
        None => {
            let stored = before.localstore.proofs@.len() as int;
            &&& r matches Ok(proofs)
            &&& are_minted(
                proofs@,
                after.localstore.proofs@.skip(stored),
                before.localstore.keys@,
                signatures,
                premints,
                keyset_id,
                before.mint_url,
                unit,
            )
            &&& after.localstore.proofs@.take(stored) == before.localstore.proofs@
            &&& after.mint_url == before.mint_url
            &&& after.unit == before.unit
            &&& after.seed == before.seed
            &&& after.localstore == (WalletStore {
                proofs: after.localstore.proofs,
                transactions: after.localstore.transactions,
                mint_quotes: after.localstore.mint_quotes,
                ..before.localstore
            })
            &&& after.localstore.mint_quotes@ == without_quotes(
                before.localstore.mint_quotes@,
                quote_ids,
            )
            &&& after.localstore.transactions@.len() == before.localstore.transactions@.len() + 1
            &&& after.localstore.transactions@.drop_last() == before.localstore.transactions@
            &&& is_incoming(
                after.localstore.transactions@.last(),
                before,
                proofs@,
                quote_ids,
                Some(payment_request),
                now,
            )
        },
    }
}

impl Wallet {
    /// The quotes with the identifiers of a list, in the order of the list.
    fn batch_quotes(&self, quote_ids: &Vec<String>) -> (r: Option<Vec<MintQuote>>)
        ensures
            match r {
                Some(found) => {
                    &&& found@.len() == quote_ids@.len()
                    &&& forall|i: int|
                        0 <= i < found@.len() ==> quote_of(
                            self.localstore.mint_quotes@,
                            (#[trigger] quote_ids@[i])@,
                        ) == Some(found@[i])
                },
                None => exists|i: int|
                    0 <= i < quote_ids@.len() && quote_of(
                        self.localstore.mint_quotes@,
                        (#[trigger] quote_ids@[i])@,
                    ).is_none(),
            },
    {
        let mut found: Vec<MintQuote> = Vec::new();
        let mut i: usize = 0;
        while i < quote_ids.len()
            invariant
                i <= quote_ids.len(),
                found@.len() == i,
                forall|k: int|
                    0 <= k < i ==> quote_of(self.localstore.mint_quotes@, (#[trigger] quote_ids@[k])@)
                        == Some(found@[k]),
            decreases quote_ids.len() - i,
        {
            match self.localstore.get_mint_quote(quote_ids[i].as_str()) {
                Some(quote) => {
                    found.push(quote.clone());
                },
                None => {
                    return None;
                },
            }
            i = i + 1;
        }
        Some(found)
    }

    /// Makes the request to mint for several quotes at once: one set of
    /// blinded messages for the sum of what can be minted for the quotes,
    /// under the keyset that the wallet mints with. With it comes what
    /// [`Wallet::mint_batch_finish`] needs for the mint's answer.
    ///
    /// The quotes must be known, paid, and all be paid in the same way and in
    /// the same unit. With spending conditions the secrets carry them and are
    /// random; without, they are derived from the seed and the keyset's
    /// counter is raised.
    #[verifier::loop_isolation(false)]
    pub fn mint_batch(
        &mut self,
        quote_ids: Vec<String>,
        amount_split_target: SplitTarget,
        spending_conditions: Option<SpendingConditions>,
    ) -> (r: Result<BatchMint, Error>)
        ensures
            match batch_quotes_failure(old(self).localstore.mint_quotes@, quote_ids@) {
                Some(e) => r == Err::<BatchMint, Error>(e) && *final(self) == *old(self),
                None => if none_eligible(
                    keysets_of(old(self).localstore.keysets@, old(self).mint_url@),
                    old(self).unit,
                ) {
                    r == Err::<BatchMint, Error>(Error::NoActiveKeyset) && *final(self) == *old(self)
                } else {
                    exists|pick: KeySetInfo|
                        #![trigger pick.id]
                        is_pick(
                            pick,
                            keysets_of(old(self).localstore.keysets@, old(self).mint_url@),
                            old(self).unit,
                        ) && is_batch_prepared(
                            *old(self),
                            *final(self),
                            quote_ids@,
                            amount_split_target,
                            spending_conditions,
                            pick.id,
                            r,
                        )
                },
            },
    {
        if quote_ids.len() == 0 {
            return Err(Error::AmountUndefined);
        }
        let quote_infos: Vec<MintQuote> = match self.batch_quotes(&quote_ids) {
            Some(found) => found,
            None => {
                return Err(Error::UnknownQuote);
            },
        };
        let ghost stored = self.localstore.mint_quotes@;
        let mut i: usize = 0;
        while i < quote_infos.len()
            invariant
                i <= quote_infos.len(),
                forall|k: int|
                    0 <= k < i ==> (#[trigger] quote_infos@[k]).payment_method
                        == quote_infos@[0].payment_method,
            decreases quote_infos.len() - i,
        {
            if quote_infos[i].payment_method != quote_infos[0].payment_method {
                proof {
                    assert(quote_of(stored, quote_ids@[i as int]@) == Some(quote_infos@[i as int]));
                }
                return Err(Error::UnsupportedPaymentMethod);
            }
            i = i + 1;
        }
        proof {
            assert forall|k: int| 0 <= k < quote_ids@.len() implies quote_of(
                stored,
                (#[trigger] quote_ids@[k])@,
            ).unwrap().payment_method == quote_of(stored, quote_ids@[0]@).unwrap().payment_method by {
                assert(quote_infos@[k].payment_method == quote_infos@[0].payment_method);
            }
        }
        i = 0;
        while i < quote_infos.len()
            invariant
                i <= quote_infos.len(),
                forall|k: int| 0 <= k < i ==> (#[trigger] quote_infos@[k]).unit@ == quote_infos@[0].unit@,
            decreases quote_infos.len() - i,
        {
            if quote_infos[i].unit != quote_infos[0].unit {
                proof {
                    assert(quote_of(stored, quote_ids@[i as int]@) == Some(quote_infos@[i as int]));
                }
                return Err(Error::UnsupportedUnit);
            }
            i = i + 1;
        }
        proof {
            assert forall|k: int| 0 <= k < quote_ids@.len() implies quote_of(
                stored,
                (#[trigger] quote_ids@[k])@,
            ).unwrap().unit@ == quote_of(stored, quote_ids@[0]@).unwrap().unit@ by {
                assert(quote_infos@[k].unit@ == quote_infos@[0].unit@);
            }
        }
        i = 0;
        while i < quote_infos.len()
            invariant
                i <= quote_infos.len(),
                forall|k: int| 0 <= k < i ==> (#[trigger] quote_infos@[k]).state == MintQuoteState::Paid,
            decreases quote_infos.len() - i,
        {
            if quote_infos[i].state != MintQuoteState::Paid {
                proof {
                    assert(quote_of(stored, quote_ids@[i as int]@) == Some(quote_infos@[i as int]));
                }
                return Err(Error::UnknownQuote);
            }
            i = i + 1;
        }
        proof {
            assert forall|k: int| 0 <= k < quote_ids@.len() implies quote_of(
                stored,
                (#[trigger] quote_ids@[k])@,
            ).unwrap().state == MintQuoteState::Paid by {
                assert(quote_infos@[k].state == MintQuoteState::Paid);
            }
        }
        let mut total_amount: u64 = 0;
        i = 0;
        while i < quote_infos.len()
            invariant
                i <= quote_infos.len(),
                total_amount as nat == batch_total(stored, quote_ids@, i as int),
            decreases quote_infos.len() - i,
        {
            proof {
                assert(quote_of(stored, quote_ids@[i as int]@) == Some(quote_infos@[i as int]));
                lemma_batch_total_grows(stored, quote_ids@, i + 1, quote_ids@.len() as int);
            }
            total_amount = match total_amount.checked_add(quote_infos[i].amount_mintable().0) {
                Some(t) => t,
                None => {
                    return Err(Error::AmountOverflow);
                },
            };
            i = i + 1;
        }
        if total_amount == 0 {
            return Err(Error::AmountUndefined);
        }
        let active_keyset_id: Id = match self.get_active_mint_keyset_local() {
            Ok(pick) => pick.id,
            Err(e) => {
                return Err(e);
            },
        };
        let premint_secrets: PreMintSecrets = match &spending_conditions {
            Some(conditions) => {
                let fee_and_amounts: FeeAndAmounts = match self.get_keyset_fees_and_amounts_by_id(
                    active_keyset_id,
                ) {
                    Ok(f) => f,
                    Err(e) => {
                        return Err(e);
                    },
                };
                match PreMintSecrets::with_conditions(
                    active_keyset_id,
                    Amount(total_amount),
                    &amount_split_target,
                    conditions,
                    &fee_and_amounts,
                ) {
                    Ok(pre) => pre,
                    Err(e) => {
                        return Err(Error::Derivation(e));
                    },
                }
            },
            None => match self.prepare_premint_secrets_for(
                active_keyset_id,
                Amount(total_amount),
                &amount_split_target,
            ) {
                Ok(pre) => pre,
                Err(e) => {
                    return Err(e);
                },
            },
        };
        let mut ids: Vec<String> = Vec::new();
        let mut n: usize = 0;
        while n < quote_ids.len()
            invariant
                n <= quote_ids.len(),
                ids@.len() == n,
                forall|k: int| 0 <= k < n ==> (#[trigger] ids@[k])@ == quote_ids@[k]@,
            decreases quote_ids.len() - n,
        {
            ids.push(quote_ids[n].clone());
            n = n + 1;
        }
        proof {
            assert(texts(ids@) =~= texts(quote_ids@));
            assert(quote_of(stored, quote_ids@[0]@) == Some(quote_infos@[0]));
        }
        Ok(
            BatchMint {
                status_request: BatchQuoteStatusRequest { quote: ids },
                request: BatchMintRequest {
                    quote: quote_ids,
                    outputs: premint_secrets.blinded_messages(),
                    signature: None,
                },
                premint_secrets,
                keyset_id: active_keyset_id,
                unit: quote_infos[0].unit.clone(),
                payment_request: quote_infos[0].request.clone(),
            },
        )
    }

    /// Turns the mint's signatures for a batch into proofs and keeps them:
    /// the proofs that the signatures carry are checked, each signature is
    /// unblinded with the blinding factor at its place, the quotes of the
    /// batch leave the store, and the proofs are stored with a record of the
    /// transaction at the time `now`.
    ///
    /// On an error the wallet is as it was.
    pub fn mint_batch_finish(
        &mut self,
        quote_ids: &Vec<String>,
        premint_secrets: PreMintSecrets,
        keyset_id: Id,
        unit: CurrencyUnit,
        payment_request: String,
        signatures: Vec<BlindSignature>,
        now: u64,
    ) -> (r: Result<Proofs, Error>)
        ensures
            is_batch_finished(
                *old(self),
                *final(self),
                signatures@,
                premint_secrets.secrets@,
                keyset_id,
                unit,
                quote_ids@,
                payment_request,
                now,
                r,
            ),
    {
        let (proofs, records, ys): (Vec<Proof>, Vec<ProofInfo>, Vec<PublicKey>) = match self.mint_proofs(
            signatures,
            &premint_secrets,
            keyset_id,
            &unit,
        ) {
            Ok(minted) => minted,
            Err(e) => {
                return Err(e);
            },
        };
        let amount: Amount = match crate::nuts::nut00::proofs_total_amount(&proofs) {
            Ok(a) => a,
            Err(e) => {
                return Err(Error::Amount(e));
            },
        };
        let batch_ids: String = join_ids(quote_ids);
        let mut i: usize = 0;
        while i < quote_ids.len()
            invariant
                i <= quote_ids.len(),
                self.localstore.mint_quotes@ == without_quotes(
                    old(self).localstore.mint_quotes@,
                    quote_ids@.take(i as int),
                ),
                self.localstore == (WalletStore {
                    mint_quotes: self.localstore.mint_quotes,
                    ..old(self).localstore
                }),
                self.mint_url == old(self).mint_url,
                self.unit == old(self).unit,
                self.seed == old(self).seed,
            decreases quote_ids.len() - i,
        {
            proof {
                assert(quote_ids@.take(i + 1).drop_last() =~= quote_ids@.take(i as int));
            }
            self.localstore.remove_mint_quote(quote_ids[i].as_str());
            i = i + 1;
        }
        proof {
            assert(quote_ids@.take(i as int) =~= quote_ids@);
        }
        let ghost stored = self.localstore.proofs@;
        let ghost added = records@;
        let ghost points = ys@;
        self.localstore.add_proofs(records);
        self.localstore.add_transaction(
            Transaction {
                mint_url: self.mint_url.clone(),
                direction: TransactionDirection::Incoming,
                amount,
                fee: Amount(0),
                unit: self.unit.clone(),
                ys,
                timestamp: now,
                memo: None,
                quote_id: Some(batch_ids),
                payment_request: Some(payment_request),
                payment_proof: None,
            },
        );
        proof {
            assert(self.localstore.proofs@.take(stored.len() as int) =~= stored);
            assert(self.localstore.proofs@.skip(stored.len() as int) =~= added);
            assert(self.localstore.transactions@.drop_last() =~= old(self).localstore.transactions@);
            let transaction = self.localstore.transactions@.last();
            assert(transaction.ys@ == points);
            assert forall|i: int| 0 <= i < proofs@.len() implies curve_point(
                vstd::utf8::encode_utf8(proofs@[i].secret@),
            ) == Some(#[trigger] transaction.ys@[i]@) by {
                assert(crate::wallet::issue::issue_mining_share::is_record_of(
                    added[i],
                    proofs@[i],
                    self.mint_url,
                    unit,
                ));
                assert(points[i] == added[i].y);
            }
        }
        Ok(proofs)
    }
}

/// The sum over more quotes is no smaller.
proof fn lemma_batch_total_grows(quotes: Seq<MintQuote>, ids: Seq<String>, n: int, m: int)
    requires
        0 <= n <= m,
    ensures
        batch_total(quotes, ids, n) <= batch_total(quotes, ids, m),
    decreases m - n,
{
    if n < m {
        lemma_batch_total_grows(quotes, ids, n, m - 1);
    }
}

} // verus!
