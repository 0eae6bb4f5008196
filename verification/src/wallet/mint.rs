//! Quotes for Lightning payments and their minting, mining share quotes, and
//! the minting for a share from the secrets that were made with its quote.

use crate::amount::{Amount, FeeAndAmounts, SplitTarget};
use crate::error::Error;
use crate::hashpool::MintQuoteLookupItem;
use crate::nuts::nut00::{premint_messages, BlindSignature, CurrencyUnit, MintQuoteState, PaymentMethod, PreMint, PreMintSecrets, Proof, Proofs};
use crate::nuts::nut01::{PublicKey, SecretKey};
use crate::nuts::nut02::{Id, KeySetInfo};
use crate::nuts::nut04::{MintQuoteBolt11Request, MintQuoteBolt11Response, MintRequest};
use crate::nuts::nut11::{are_conditional, is_conditional_failure, SpendingConditions};
use crate::nuts::nut13::{first_underivable, is_derived, split_result};
use crate::nuts::nutxx::{all_zero, MintQuoteMiningShareRequest, MAX_SHARE_AMOUNT};
use crate::secp::public_point;
use crate::util::{ascii_chars, ascii_string, hex_encode, hex_of};
use crate::wallet::issue::issue_mining_share::{are_minted, is_prepared, keyset_amounts, minting_failure};
use crate::wallet::keysets::{is_pick, none_eligible};
use crate::wallet::store::{counter_of, keys_of, keysets_of, mint_of, premint_ids, premint_of, quote_of, with_counter, with_quote, without_quote, WalletStore};
use crate::table::find;
use crate::wallet::types::{description_support, MiningShareBatchEntry, MintQuote, ProofInfo};
use crate::wallet::Wallet;
use vstd::prelude::*;

verus! {

/// A request to mint for one quote, with what the wallet needs to turn the
/// mint's answer into proofs.
#[derive(Debug, PartialEq, Eq)]
pub struct QuoteMint {
    /// The request to send to the mint.
    pub request: MintRequest,
    /// The secrets behind the outputs of the request.
    pub premint_secrets: PreMintSecrets,
    /// The keyset of the outputs.
    pub keyset_id: Id,
    /// The unit of the quote.
    pub unit: CurrencyUnit,
}

/// A mining share quote that the wallet has made, with the request that
/// takes it to the pool.
#[derive(Debug, PartialEq, Eq)]
pub struct MiningShareQuote {
    /// The wallet's record of the quote.
    pub quote: MintQuote,
    /// The request for the pool.
    pub request: MintQuoteMiningShareRequest,
    /// The secrets behind the blinded messages of the request.
    pub premint_secrets: PreMintSecrets,
}

/// What is to be done with a quote whose state the mint has told.
#[derive(Clone, Copy, Debug, PartialEq, Eq, Structural)]
pub enum QuoteCheck {
    /// The quote is paid: mint for it.
    Mint,
    /// The quote was not paid in time: it has left the store.
    Removed,
    /// The quote stays as it is.
    Kept,
}

/// Why a quote for an invoice with a description cannot be asked for, if it
/// cannot: the wallet does not know the mint, the mint has no settings for the
/// unit, or it takes no description.
pub open spec fn description_failure(wallet: Wallet) -> Option<Error> {
    match mint_of(wallet.localstore.mints@, wallet.mint_url@) {
        None => Some(Error::IncorrectMint),
        Some(info) => match description_support(info.nut04@, wallet.unit, PaymentMethod::Bolt11) {
            None => Some(Error::UnsupportedUnit),
            Some(false) => Some(Error::InvoiceDescriptionUnsupported),
            Some(true) => None,
        },
    }
}

/// A quote has expired at `now`: its time is up and it is not one of those
/// that never expire, which have the time zero.
pub open spec fn is_expired(quote: MintQuote, now: u64) -> bool {
    quote.expiry <= now && quote.expiry != 0
}

/// What is prepared of a request: the secrets, or the error.
pub open spec fn prepared_of(r: Result<QuoteMint, Error>) -> Result<PreMintSecrets, Error> {
    match r {
        Ok(m) => Ok(m.premint_secrets),
        Err(e) => Err(e),
    }
}

/// What is prepared of a quote: the secrets of its request, or the error.
pub open spec fn prepared_of_quote(r: Result<MiningShareQuote, Error>) -> Result<PreMintSecrets, Error> {
    match r {
        Ok(made) => Ok(made.premint_secrets),
        Err(e) => Err(e),
    }
}

/// What the wallet's making of secrets that carry a condition gives for the
/// parts of an amount: the secrets, or the error of a secret that is not
/// blinded. Where there are no parts it does not fail.
pub open spec fn is_conditional_result(
    r: Result<PreMintSecrets, Error>,
    conditions: SpendingConditions,
    keyset_id: Id,
    amount: Amount,
    parts: Seq<Amount>,
) -> bool {
    &&& parts.len() == 0 ==> r.is_ok()
    &&& match r {
        Ok(pre) => are_conditional(pre, conditions, keyset_id, amount, parts),
        Err(e) => (e matches Error::Derivation(d) && is_conditional_failure(d, conditions)),
    }
}

/// What [`Wallet::generate_premint_secrets`] returns for a keyset with the
/// amounts `amounts`.
pub open spec fn is_generated(
    seed: Seq<u8>,
    keyset_id: Id,
    amount: Amount,
    target: SplitTarget,
    conditions: Option<SpendingConditions>,
    count: u32,
    amounts: Seq<u64>,
    r: Result<PreMintSecrets, Error>,
) -> bool {
    match split_result(amount, target, amounts) {
        Err(e) => r == Err::<PreMintSecrets, Error>(
            Error::Derivation(crate::nuts::nut13::Error::Amount(e)),
        ),
        Ok(parts) => match conditions {
            Some(c) => is_conditional_result(r, c, keyset_id, amount, parts),
            None => match first_underivable(seed, keyset_id@, count as int, parts.len() as int) {
                Some(e) => r == Err::<PreMintSecrets, Error>(Error::Derivation(e)),
                None => {
                    &&& r matches Ok(pre)
                    &&& pre.keyset_id == keyset_id
                    &&& crate::nuts::nut00::premint_amounts(pre.secrets@) == parts
                    &&& forall|i: int|
                        0 <= i < parts.len() ==> is_derived(
                            #[trigger] pre.secrets@[i],
                            seed,
                            keyset_id,
                            count + i,
                            parts[i],
                        )
                },
            },
        },
    }
}

/// The quotes of a lookup that mining shares pay, as entries to mint, in the
/// order of the lookup.
pub open spec fn share_entries(items: Seq<MintQuoteLookupItem>) -> Seq<(Seq<char>, Amount, Id)>
    decreases items.len(),
{
    if items.len() == 0 {
        Seq::empty()
    } else if items.last().method == PaymentMethod::MiningShare {
        share_entries(items.drop_last()).push(
            (items.last().quote@, items.last().amount, items.last().keyset_id),
        )
    } else {
        share_entries(items.drop_last())
    }
}

/// A list of entries as identifiers, amounts and keysets.
pub open spec fn entries_view(entries: Seq<MiningShareBatchEntry>) -> Seq<(Seq<char>, Amount, Id)> {
    Seq::new(entries.len(), |i: int| (entries[i].quote_id@, entries[i].amount, entries[i].keyset_id))
}

/// Why minting for a quote cannot begin at `now`, if it cannot: the first of
/// these that holds. The wallet has no such quote; the quote has expired; it
/// has no amount; the bytes of its key are no secret key; no keyset of the
/// wallet's unit is active.
pub open spec fn mint_failure(wallet: Wallet, quote_id: Seq<char>, now: u64) -> Option<Error> {
    match quote_of(wallet.localstore.mint_quotes@, quote_id) {
        None => Some(Error::UnknownQuote),
        Some(quote) => if is_expired(quote, now) {
            Some(Error::ExpiredQuote(quote.expiry, now))
        } else if quote.amount.is_none() {
            Some(Error::AmountUndefined)
        } else if quote.secret_key matches Some(key) && !key.valid() {
            Some(Error::Signature(crate::nuts::nut20::Error::InvalidSecretKey))
        } else if none_eligible(
            keysets_of(wallet.localstore.keysets@, wallet.mint_url@),
            wallet.unit,
        ) {
            Some(Error::NoActiveKeyset)
        } else {
            None
        },
    }
}

/// What [`Wallet::mint`] does once it can begin and the keyset `keyset_id` is
/// picked: `after` is the wallet that it leaves of the wallet `before`, and
/// `r` is what it returns.
pub open spec fn is_mint_prepared(
    before: Wallet,
    after: Wallet,
    quote: MintQuote,
    target: SplitTarget,
    conditions: Option<SpendingConditions>,
    keyset_id: Id,
    r: Result<QuoteMint, Error>,
) -> bool {
    let amount = quote.amount.unwrap();
    &&& r matches Ok(m) ==> {
        &&& m.request.quote@ == quote.id@
        &&& m.request.outputs@ == premint_messages(m.premint_secrets.secrets@)
        &&& match quote.secret_key {
            Some(key) => crate::wallet::issue::issue_mining_share::is_signature_for(
                m.request.signature,
                quote.id@,
                m.request.outputs@,
                key,
            ),
            None => m.request.signature.is_none(),
        }
        &&& m.keyset_id == keyset_id
        &&& m.unit == quote.unit
    }
    &&& match conditions {
        None => is_prepared(before, after, keyset_id, amount, target, prepared_of(r)),
        Some(c) => after == before && match keyset_amounts(
            before.localstore,
            before.mint_url@,
            keyset_id@,
        ) {
            None => r == Err::<QuoteMint, Error>(Error::UnknownKeyset),
            Some(amounts) => match split_result(amount, target, amounts) {
                Err(e) => r == Err::<QuoteMint, Error>(
                    Error::Derivation(crate::nuts::nut13::Error::Amount(e)),
                ),
                Ok(parts) => is_conditional_result(prepared_of(r), c, keyset_id, amount, parts),
            },
        },
    }
}

/// What [`Wallet::mint_finish`] does: `after` is the wallet that it leaves of
/// the wallet `before`, and `r` is what it returns.
pub open spec fn is_mint_finished(
    before: Wallet,
    after: Wallet,
    quote_id: Seq<char>,
    signatures: Seq<BlindSignature>,
    premints: Seq<PreMint>,
    keyset_id: Id,
    unit: CurrencyUnit,
    r: Result<Vec<Proof>, Error>,
) -> bool {
    match minting_failure(before.localstore.keys@, signatures, premints, keyset_id) {
        Some(e) => r == Err::<Vec<Proof>, Error>(e) && after == before,
        None => {
            let stored = before.localstore.proofs@.len() as int;
            &&& r matches Ok(proofs)
            &&& are_minted(
                proofs@,
                after.localstore.proofs@.skip(stored),
                before.localstore.keys@,
                signatures,
                premints,
                keyset_id,
                before.mint_url,
                unit,
            )
            &&& after.localstore.proofs@.take(stored) == before.localstore.proofs@
            &&& after.mint_url == before.mint_url
            &&& after.unit == before.unit
            &&& after.seed == before.seed
            &&& after.localstore == (WalletStore {
                proofs: after.localstore.proofs,
                mint_quotes: after.localstore.mint_quotes,
                ..before.localstore
            })
            &&& after.localstore.mint_quotes@ == without_quote(before.localstore.mint_quotes@, quote_id)
        },
    }
}

/// Why a mining share quote cannot be made, if it cannot: the first of these
/// that holds. The amount is not from 1 to 256; the header hash is all zeros;
/// the wallet has a quote for the share; no keyset of the wallet's unit is
/// active.
pub open spec fn share_quote_failure(wallet: Wallet, amount: Amount, header_hash: Seq<u8>) -> Option<Error> {
    if amount.0 == 0 || amount.0 > MAX_SHARE_AMOUNT {
        Some(Error::MiningShare(crate::nuts::nutxx::Error::InvalidAmount))
    } else if all_zero(header_hash) {
        Some(Error::MiningShare(crate::nuts::nutxx::Error::InvalidHeaderHash))
    } else if quote_of(wallet.localstore.mint_quotes@, ascii_chars(hex_of(header_hash))).is_some() {
        Some(Error::PaidQuote)
    } else if none_eligible(
        keysets_of(wallet.localstore.keysets@, wallet.mint_url@),
        wallet.unit,
    ) {
        Some(Error::NoActiveKeyset)
    } else {
        None
    }
}

/// The wallet with the counters of another.
pub open spec fn with_counters_of(wallet: Wallet, other: Wallet) -> Wallet {
    Wallet {
        localstore: WalletStore {
            keyset_counters: other.localstore.keyset_counters,
            ..wallet.localstore
        },
        ..wallet
    }
}

/// A store is another but for its quotes, its pre-mint secrets and its
/// counters.
pub open spec fn same_but_quote_tables(after: WalletStore, before: WalletStore) -> bool {
    after == (WalletStore {
        mint_quotes: after.mint_quotes,
        premint_secrets: after.premint_secrets,
        keyset_counters: after.keyset_counters,
        ..before
    })
}

/// A list of pre-mint secrets with those of a quote at the end.
pub open spec fn has_premint_added(
    after: Seq<(String, PreMintSecrets)>,
    before: Seq<(String, PreMintSecrets)>,
    quote_id: Seq<char>,
    pre: PreMintSecrets,
) -> bool {
    match find(premint_ids(before), quote_id) {
        Some(i) => after.len() == before.len() && after[i].0@ == quote_id && after[i].1.keyset_id
            == pre.keyset_id && after[i].1.secrets@ == pre.secrets@ && forall|j: int|
            0 <= j < before.len() && j != i ==> after[j] == before[j],
        None => after.len() == before.len() + 1 && after.drop_last() == before && after.last().0@
            == quote_id && after.last().1.keyset_id == pre.keyset_id && after.last().1.secrets@
            == pre.secrets@,
    }
}

/// Why minting for a share from the secrets made with its quote cannot
/// begin under the keyset `keyset_id`, if it cannot: the first of these that
/// holds. The wallet has no quote for the share; it lacks the keys of the
/// keyset; it has no secrets for the share; the secrets are of another
/// keyset.
pub open spec fn share_proofs_failure(wallet: Wallet, share_hash: Seq<char>, keyset_id: Id) -> Option<Error> {
    if quote_of(wallet.localstore.mint_quotes@, share_hash).is_none() {
        Some(Error::UnknownQuote)
    } else if keys_of(wallet.localstore.keys@, keyset_id@).is_none() {
        Some(Error::UnknownKeyset)
    } else {
        match premint_of(wallet.localstore.premint_secrets@, share_hash) {
            None => Some(Error::UnknownQuote),
            Some(pre) => if pre.keyset_id@ != keyset_id@ {
                Some(Error::UnknownKeyset)
            } else {
                None
            },
        }
    }
}

/// What stands in the way of [`Wallet::get_mining_share_proofs_finish`], if
/// anything: the first of these that holds. The wallet has no quote or no
/// secrets for the share; the signatures give no proofs; the counter of the
/// keyset would not fit in 32 bits.
pub open spec fn share_finish_failure(wallet: Wallet, share_hash: Seq<char>, signatures: Seq<BlindSignature>) -> Option<
    Error,
> {
    match (
        quote_of(wallet.localstore.mint_quotes@, share_hash),
        premint_of(wallet.localstore.premint_secrets@, share_hash),
    ) {
        (Some(quote), Some(pre)) => match minting_failure(
            wallet.localstore.keys@,
            signatures,
            pre.secrets@,
            pre.keyset_id,
        ) {
            Some(e) => Some(e),
            None => if counter_of(wallet.localstore.keyset_counters@, pre.keyset_id@) + signatures.len()
                > u32::MAX {
                Some(Error::CounterOverflow)
            } else {
                None
            },
        },
        _ => Some(Error::UnknownQuote),
    }
}

/// What [`Wallet::get_mining_share_proofs_finish`] does: `after` is the
/// wallet that it leaves of the wallet `before`, and `r` is what it returns.
pub open spec fn is_share_finished(
    before: Wallet,
    after: Wallet,
    share_hash: Seq<char>,
    signatures: Seq<BlindSignature>,
    r: Result<Vec<Proof>, Error>,
) -> bool {
    match share_finish_failure(before, share_hash, signatures) {
        Some(e) => r == Err::<Vec<Proof>, Error>(e) && after == before,
        None => {
            let quote = quote_of(before.localstore.mint_quotes@, share_hash).unwrap();
            let pre = premint_of(before.localstore.premint_secrets@, share_hash).unwrap();
            let stored = before.localstore.proofs@.len() as int;
            &&& r matches Ok(proofs)
            &&& are_minted(
                proofs@,
                after.localstore.proofs@.skip(stored),
                before.localstore.keys@,
                signatures,
                pre.secrets@,
                pre.keyset_id,
                before.mint_url,
                quote.unit,
            )
            &&& after.localstore.proofs@.take(stored) == before.localstore.proofs@
            &&& after.mint_url == before.mint_url
            &&& after.unit == before.unit
            &&& after.seed == before.seed
            &&& after.localstore == (WalletStore {
                proofs: after.localstore.proofs,
                mint_quotes: after.localstore.mint_quotes,
                premint_secrets: after.localstore.premint_secrets,
                keyset_counters: after.localstore.keyset_counters,
                ..before.localstore
            })
            &&& after.localstore.mint_quotes@ == without_quote(before.localstore.mint_quotes@, share_hash)
            &&& after.localstore.premint_secrets@ == before.localstore.premint_secrets@.remove(
                find(premint_ids(before.localstore.premint_secrets@), share_hash).unwrap(),
            )
            &&& after.localstore.keyset_counters@ == with_counter(
                before.localstore.keyset_counters@,
                pre.keyset_id,
                (counter_of(before.localstore.keyset_counters@, pre.keyset_id@) + signatures.len()) as u32,
            )
        },
    }
}

impl Wallet {
    /// Makes the request for a quote that a Lightning invoice pays, locked to
    /// a fresh random key; the key comes with the request. A description is
    /// taken only where the mint is known to take one.
    pub fn mint_quote(&self, amount: Amount, description: Option<String>) -> (r: Result<
        (MintQuoteBolt11Request, SecretKey),
        Error,
    >)
        ensures
            match r {
                Ok((request, secret_key)) => {
                    &&& description.is_some() ==> description_failure(*self).is_none()
                    &&& request.amount == amount
                    &&& request.unit == self.unit
                    &&& request.description == description
                    &&& request.pubkey matches Some(key) && public_point(secret_key@) == Some(key@)
                },
                Err(e) => description.is_some() && description_failure(*self) == Some(e),
            },
    {
        if description.is_some() {
            let info = match self.localstore.get_mint(&self.mint_url) {
                Some(info) => info,
                None => {
                    return Err(Error::IncorrectMint);
                },
            };
            match info.get_settings(&self.unit, PaymentMethod::Bolt11) {
                None => {
                    return Err(Error::UnsupportedUnit);
                },
                Some(false) => {
                    return Err(Error::InvoiceDescriptionUnsupported);
                },
                Some(true) => {},
            }
        }
        let secret_key: SecretKey = SecretKey::generate();
        let pubkey: PublicKey = match secret_key.public_key() {
            Ok(key) => key,
            Err(_) => {
                // A generated key has a public key.
                proof {
                    assert(false);
                }
                return Err(Error::IncorrectMint);
            },
        };
        Ok(
            (
                MintQuoteBolt11Request { amount, unit: self.unit.clone(), description, pubkey: Some(pubkey) },
                secret_key,
            ),
        )
    }

    /// Keeps the quote that the mint gave for a request of
    /// [`Wallet::mint_quote`], with the key that it is locked to, and returns
    /// the wallet's record of it.
    pub fn mint_quote_finish(
        &mut self,
        response: MintQuoteBolt11Response<String>,
        amount: Amount,
        secret_key: SecretKey,
    ) -> (quote: MintQuote)
        ensures
            quote == (MintQuote {
                id: response.quote,
                mint_url: old(self).mint_url,
                payment_method: PaymentMethod::Bolt11,
                amount: Some(amount),
                unit: old(self).unit,
                request: response.request,
                state: response.state,
                expiry: match response.expiry {
                    Some(e) => e,
                    None => 0,
                },
                secret_key: Some(secret_key),
                amount_issued: Amount(0),
                amount_paid: Amount(0),
                keyset_id: None,
            }),
            final(self).localstore.mint_quotes@ == with_quote(old(self).localstore.mint_quotes@, quote),
            final(self).localstore == (WalletStore {
                mint_quotes: final(self).localstore.mint_quotes,
                ..old(self).localstore
            }),
            final(self).mint_url == old(self).mint_url,
            final(self).unit == old(self).unit,
            final(self).seed == old(self).seed,
    {
        let quote = MintQuote {
            id: response.quote,
            mint_url: self.mint_url.clone(),
            payment_method: PaymentMethod::Bolt11,
            amount: Some(amount),
            unit: self.unit.clone(),
            request: response.request,
            state: response.state,
            expiry: match response.expiry {
                Some(e) => e,
                None => 0,
            },
            secret_key: Some(secret_key),
            amount_issued: Amount(0),
            amount_paid: Amount(0),
            keyset_id: None,
        };
        self.localstore.add_mint_quote(quote.clone());
        quote
    }

    /// Takes the state of a quote that the mint told, `response`, into the
    /// wallet's record of the quote, if it has one. The response is handed
    /// back.
    pub fn mint_quote_state(&mut self, quote_id: &str, response: MintQuoteBolt11Response<String>) -> (r:
        Result<MintQuoteBolt11Response<String>, Error>)
        ensures
            r == Ok::<MintQuoteBolt11Response<String>, Error>(response),
            final(self).localstore.mint_quotes@ == match quote_of(
                old(self).localstore.mint_quotes@,
                quote_id@,
            ) {
                Some(quote) => with_quote(
                    old(self).localstore.mint_quotes@,
                    MintQuote { state: response.state, ..quote },
                ),
                None => old(self).localstore.mint_quotes@,
            },
            final(self).localstore == (WalletStore {
                mint_quotes: final(self).localstore.mint_quotes,
                ..old(self).localstore
            }),
            final(self).mint_url == old(self).mint_url,
            final(self).unit == old(self).unit,
            final(self).seed == old(self).seed,
    {
        let updated: Option<MintQuote> = match self.localstore.get_mint_quote(quote_id) {
            Some(quote) => {
                let mut quote: MintQuote = quote.clone();
                quote.state = response.state;
                Some(quote)
            },
            None => None,
        };
        match updated {
            Some(quote) => {
                self.localstore.add_mint_quote(quote);
            },
            None => {},
        }
        Ok(response)
    }

    /// Decides what is to be done with a quote once the mint has told its
    /// state at the time `now`: a paid quote is to be minted; one that is not
    /// paid and has expired leaves the store; any other stays. A quote that
    /// the wallet does not have stays out.
    pub fn check_mint_quote(&mut self, quote_id: &str, state: MintQuoteState, now: u64) -> (check: QuoteCheck)
        ensures
            check == match quote_of(old(self).localstore.mint_quotes@, quote_id@) {
                None => QuoteCheck::Kept,
                Some(quote) => if state == MintQuoteState::Paid {
                    QuoteCheck::Mint
                } else if is_expired(quote, now) {
                    QuoteCheck::Removed
                } else {
                    QuoteCheck::Kept
                },
            },
            final(self).localstore.mint_quotes@ == if check == QuoteCheck::Removed {
                without_quote(old(self).localstore.mint_quotes@, quote_id@)
            } else {
                old(self).localstore.mint_quotes@
            },
            final(self).localstore == (WalletStore {
                mint_quotes: final(self).localstore.mint_quotes,
                ..old(self).localstore
            }),
            final(self).mint_url == old(self).mint_url,
            final(self).unit == old(self).unit,
            final(self).seed == old(self).seed,
    {
        let expired: bool = match self.localstore.get_mint_quote(quote_id) {
            Some(quote) => quote.expiry <= now && quote.expiry != 0,
            None => {
                return QuoteCheck::Kept;
            },
        };
        if state == MintQuoteState::Paid {
            QuoteCheck::Mint
        } else if expired {
            self.localstore.remove_mint_quote(quote_id);
            QuoteCheck::Removed
        } else {
            QuoteCheck::Kept
        }
    }

    /// The identifiers of the quotes that the wallet has, in the order of the
    /// store: those whose state [`Wallet::check_mint_quote`] is to be told.
    pub fn check_all_mint_quotes(&self) -> (ids: Vec<String>)
        ensures
            crate::nuts::nut04::texts(ids@) == crate::wallet::store::quote_ids(self.localstore.mint_quotes@),
    {
        let mut ids: Vec<String> = Vec::new();
        let mut i: usize = 0;
        while i < self.localstore.mint_quotes.len()
            invariant
                i <= self.localstore.mint_quotes.len(),
                ids@.len() == i,
                forall|k: int| 0 <= k < i ==> (#[trigger] ids@[k])@ == self.localstore.mint_quotes@[k].id@,
            decreases self.localstore.mint_quotes.len() - i,
        {
            ids.push(self.localstore.mint_quotes[i].id.clone());
            i = i + 1;
        }
        proof {
            assert(crate::nuts::nut04::texts(ids@) =~= crate::wallet::store::quote_ids(
                self.localstore.mint_quotes@,
            ));
        }
        ids
    }

    /// Makes the blinded messages for an amount under a keyset that the wallet
    /// has: with spending conditions, secrets that carry them, random; without,
    /// the secrets of the counters from `count` on. Nothing is stored and no
    /// counter is raised.
    pub fn generate_premint_secrets(
        &self,
        active_keyset_id: Id,
        quote_info_amount: Amount,
        amount_split_target: &SplitTarget,
        spending_conditions: Option<&SpendingConditions>,
        count: u32,
    ) -> (r: Result<PreMintSecrets, Error>)
        ensures
            match keyset_amounts(self.localstore, self.mint_url@, active_keyset_id@) {
                None => r == Err::<PreMintSecrets, Error>(Error::UnknownKeyset),
                Some(amounts) => is_generated(
                    self.seed@,
                    active_keyset_id,
                    quote_info_amount,
                    *amount_split_target,
                    match spending_conditions {
                        Some(c) => Some(*c),
                        None => None,
                    },
                    count,
                    amounts,
                    r,
                ),
            },
    {
        let fee_and_amounts: FeeAndAmounts = match self.get_keyset_fees_and_amounts_by_id(
            active_keyset_id,
        ) {
            Ok(f) => f,
            Err(e) => {
                return Err(e);
            },
        };
        let made = match spending_conditions {
            Some(conditions) => PreMintSecrets::with_conditions(
                active_keyset_id,
                quote_info_amount,
                amount_split_target,
                conditions,
                &fee_and_amounts,
            ),
            None => PreMintSecrets::from_seed(
                active_keyset_id,
                count,
                self.seed.as_slice(),
                quote_info_amount,
                amount_split_target,
                &fee_and_amounts,
            ),
        };
        match made {
            Ok(pre) => Ok(pre),
            Err(e) => Err(Error::Derivation(e)),
        }
    }

    /// The quotes of a lookup for which the wallet mints: those that mining
    /// shares pay, as entries with their amounts and keysets. The others are
    /// passed over.
    pub fn mint_tokens_for_pubkey(&self, items: &Vec<MintQuoteLookupItem>) -> (entries: Vec<
        MiningShareBatchEntry,
    >)
        ensures
            entries_view(entries@) == share_entries(items@),
    {
        let mut entries: Vec<MiningShareBatchEntry> = Vec::new();
        let mut i: usize = 0;
        while i < items.len()
            invariant
                i <= items.len(),
                entries_view(entries@) == share_entries(items@.take(i as int)),
            decreases items.len() - i,
        {
            proof {
                assert(items@.take(i + 1).drop_last() =~= items@.take(i as int));
            }
            if items[i].method == PaymentMethod::MiningShare {
                let entry = MiningShareBatchEntry {
                    quote_id: items[i].quote.clone(),
                    amount: items[i].amount,
                    keyset_id: items[i].keyset_id,
                };
                proof {
                    assert(entries_view(entries@.push(entry)) =~= entries_view(entries@).push(
                        (entry.quote_id@, entry.amount, entry.keyset_id),
                    ));
                }
                entries.push(entry);
            }
            i = i + 1;
        }
        proof {
            assert(items@.take(i as int) =~= items@);
        }
        entries
    }

    /// Makes the request to mint for a quote at the time `now`: blinded
    /// messages for the amount of the quote under the keyset that the wallet
    /// mints with, in a request that is signed where the quote has a key.
    /// With it comes what [`Wallet::mint_finish`] needs for the mint's answer.
    ///
    /// With spending conditions the secrets carry them and are random;
    /// without, they are derived from the seed and the keyset's counter is
    /// raised before they are.
    pub fn mint(
        &mut self,
        quote_id: &str,
        amount_split_target: SplitTarget,
        spending_conditions: Option<SpendingConditions>,
        now: u64,
    ) -> (r: Result<QuoteMint, Error>)
        ensures
            match mint_failure(*old(self), quote_id@, now) {
                Some(e) => r == Err::<QuoteMint, Error>(e) && *final(self) == *old(self),
                None => exists|pick: KeySetInfo|
                    #![trigger pick.id]
                    is_pick(
                        pick,
                        keysets_of(old(self).localstore.keysets@, old(self).mint_url@),
                        old(self).unit,
                    ) && is_mint_prepared(
                        *old(self),
                        *final(self),
                        quote_of(old(self).localstore.mint_quotes@, quote_id@).unwrap(),
                        amount_split_target,
                        spending_conditions,
                        pick.id,
                        r,
                    ),
            },
    {
        let quote_info: MintQuote = match self.localstore.get_mint_quote(quote_id) {
            Some(quote) => quote.clone(),
            None => {
                return Err(Error::UnknownQuote);
            },
        };
        if quote_info.expiry <= now && quote_info.expiry != 0 {
            return Err(Error::ExpiredQuote(quote_info.expiry, now));
        }
        let amount: Amount = match quote_info.amount {
            Some(a) => a,
            None => {
                return Err(Error::AmountUndefined);
            },
        };
        match &quote_info.secret_key {
            Some(key) => {
                if key.public_key().is_err() {
                    return Err(Error::Signature(crate::nuts::nut20::Error::InvalidSecretKey));
                }
            },
            None => {},
        }
        let active_keyset_id: Id = match self.get_active_mint_keyset_local() {
            Ok(pick) => pick.id,
            Err(e) => {
                return Err(e);
            },
        };
        let premint_secrets: PreMintSecrets = match &spending_conditions {
            Some(conditions) => {
                let fee_and_amounts: FeeAndAmounts = match self.get_keyset_fees_and_amounts_by_id(
                    active_keyset_id,
                ) {
                    Ok(f) => f,
                    Err(e) => {
                        return Err(e);
                    },
                };
                match PreMintSecrets::with_conditions(
                    active_keyset_id,
                    amount,
                    &amount_split_target,
                    conditions,
                    &fee_and_amounts,
                ) {
                    Ok(pre) => pre,
                    Err(e) => {
                        return Err(Error::Derivation(e));
                    },
                }
            },
            None => match self.prepare_premint_secrets_for(
                active_keyset_id,
                amount,
                &amount_split_target,
            ) {
                Ok(pre) => pre,
                Err(e) => {
                    return Err(e);
                },
            },
        };
        let mut request = MintRequest {
            quote: quote_info.id.clone(),
            outputs: premint_secrets.blinded_messages(),
            signature: None,
        };
        match quote_info.secret_key {
            Some(key) => {
                match request.sign(key) {
                    Ok(()) => {},
                    Err(e) => {
                        return Err(Error::Signature(e));
                    },
                }
            },
            None => {},
        }
        proof {
            crate::table::lemma_found(
                crate::wallet::store::quote_ids(old(self).localstore.mint_quotes@),
                quote_id@,
            );
        }
        Ok(QuoteMint { request, premint_secrets, keyset_id: active_keyset_id, unit: quote_info.unit.clone() })
    }

    /// Turns the mint's signatures for a quote into proofs and keeps them: the
    /// proofs that the signatures carry are checked, each signature is
    /// unblinded with the blinding factor at its place, the quote leaves the
    /// store and the proofs are stored.
    ///
    /// On an error the wallet is as it was.
    pub fn mint_finish(
        &mut self,
        quote_id: &str,
        premint_secrets: PreMintSecrets,
        keyset_id: Id,
        unit: CurrencyUnit,
        signatures: Vec<BlindSignature>,
    ) -> (r: Result<Proofs, Error>)
        ensures
            is_mint_finished(
                *old(self),
                *final(self),
                quote_id@,
                signatures@,
                premint_secrets.secrets@,
                keyset_id,
                unit,
                r,
            ),
    {
        let (proofs, records, _ys): (Vec<Proof>, Vec<ProofInfo>, Vec<PublicKey>) = match self.mint_proofs(
            signatures,
            &premint_secrets,
            keyset_id,
            &unit,
        ) {
            Ok(minted) => minted,
            Err(e) => {
                return Err(e);
            },
        };
        self.localstore.remove_mint_quote(quote_id);
        let ghost stored = self.localstore.proofs@;
        let ghost added = records@;
        self.localstore.add_proofs(records);
        proof {
            assert(self.localstore.proofs@.take(stored.len() as int) =~= stored);
            assert(self.localstore.proofs@.skip(stored.len() as int) =~= added);
        }
        Ok(proofs)
    }

    /// Makes a quote for a mining share and the request that takes it to the
    /// pool: the amount must be from 1 to 256 and the header hash not all
    /// zeros. Blinded messages for the amount are made under the keyset that
    /// the wallet mints with, the keyset's counter being raised before they
    /// are derived; the quote, which is paid from the start and does not
    /// expire, and the secrets are kept under the header hash as hexadecimal
    /// text.
    ///
    /// The wallet is as it was on an error, but for the counter where the
    /// derivation fails after it was raised.
    pub fn create_mining_share_quote(&mut self, amount: Amount, header_hash: [u8; 32], locking_pubkey: PublicKey) -> (r:
        Result<MiningShareQuote, Error>)
        ensures
            final(self).mint_url == old(self).mint_url,
            final(self).unit == old(self).unit,
            final(self).seed == old(self).seed,
            same_but_quote_tables(final(self).localstore, old(self).localstore),
            match share_quote_failure(*old(self), amount, header_hash@) {
                Some(e) => r == Err::<MiningShareQuote, Error>(e) && *final(self) == *old(self),
                None => exists|pick: KeySetInfo|
                    #![trigger pick.id]
                    {
                        &&& is_pick(
                            pick,
                            keysets_of(old(self).localstore.keysets@, old(self).mint_url@),
                            old(self).unit,
                        )
                        &&& is_prepared(
                            *old(self),
                            with_counters_of(*old(self), *final(self)),
                            pick.id,
                            amount,
                            SplitTarget::NoTarget,
                            prepared_of_quote(r),
                        )
                        &&& match r {
                            Err(_) => final(self).localstore.mint_quotes == old(self).localstore.mint_quotes
                                && final(self).localstore.premint_secrets
                                == old(self).localstore.premint_secrets,
                            Ok(made) => {
                                &&& made.request.amount == amount
                                &&& made.request.unit == old(self).unit
                                &&& made.request.header_hash == header_hash
                                &&& made.request.description.is_none()
                                &&& made.request.pubkey == locking_pubkey
                                &&& made.request.keyset_id == pick.id
                                &&& made.request.blinded_messages@ == premint_messages(
                                    made.premint_secrets.secrets@,
                                )
                                &&& made.quote.id@ == ascii_chars(hex_of(header_hash@))
                                &&& made.quote.mint_url == old(self).mint_url
                                &&& made.quote.payment_method == PaymentMethod::MiningShare
                                &&& made.quote.amount == Some(amount)
                                &&& made.quote.unit == old(self).unit
                                &&& made.quote.request@ == ascii_chars(hex_of(header_hash@))
                                &&& made.quote.state == MintQuoteState::Paid
                                &&& made.quote.expiry == 0
                                &&& made.quote.secret_key.is_none()
                                &&& made.quote.amount_issued == Amount(0)
                                &&& made.quote.amount_paid == amount
                                &&& made.quote.keyset_id == Some(pick.id)
                                &&& final(self).localstore.mint_quotes@ == old(
                                    self,
                                ).localstore.mint_quotes@.push(made.quote)
                                &&& has_premint_added(
                                    final(self).localstore.premint_secrets@,
                                    old(self).localstore.premint_secrets@,
                                    made.quote.id@,
                                    made.premint_secrets,
                                )
                            },
                        }
                    },
            },
    {
        if amount.0 == 0 || amount.0 > MAX_SHARE_AMOUNT {
            return Err(Error::MiningShare(crate::nuts::nutxx::Error::InvalidAmount));
        }
        if crate::nuts::nutxx::is_all_zero(&header_hash) {
            return Err(Error::MiningShare(crate::nuts::nutxx::Error::InvalidHeaderHash));
        }
        let id: String = ascii_string(hex_encode(header_hash.as_slice()));
        if self.localstore.get_mint_quote(id.as_str()).is_some() {
            return Err(Error::PaidQuote);
        }
        let pick: KeySetInfo = match self.get_active_mint_keyset_local() {
            Ok(pick) => pick,
            Err(e) => {
                return Err(e);
            },
        };
        let keyset_id: Id = pick.id;
        let prepared: Result<PreMintSecrets, Error> = self.prepare_premint_secrets(keyset_id, amount);
        let ghost mid = *self;
        proof {
            assert(with_counters_of(*old(self), mid) == mid);
        }
        let premint_secrets: PreMintSecrets = match prepared {
            Ok(pre) => pre,
            Err(e) => {
                return Err(e);
            },
        };
        let quote = MintQuote {
            id: id.clone(),
            mint_url: self.mint_url.clone(),
            payment_method: PaymentMethod::MiningShare,
            amount: Some(amount),
            unit: self.unit.clone(),
            request: id.clone(),
            state: MintQuoteState::Paid,
            expiry: 0,
            secret_key: None,
            amount_issued: Amount(0),
            amount_paid: amount,
            keyset_id: Some(keyset_id),
        };
        let request = MintQuoteMiningShareRequest {
            amount,
            unit: self.unit.clone(),
            header_hash,
            description: None,
            pubkey: locking_pubkey,
            keyset_id,
            blinded_messages: premint_secrets.blinded_messages(),
        };
        proof {
            crate::table::lemma_found(premint_ids(self.localstore.premint_secrets@), id@);
        }
        self.localstore.add_mint_quote(quote.clone());
        let ghost before = self.localstore.premint_secrets@;
        self.localstore.add_premint_secrets(id, premint_secrets.copy());
        proof {
            assert(with_counters_of(*old(self), *self) == mid);
            assert(self.localstore.mint_quotes@ == old(self).localstore.mint_quotes@.push(quote));
            if find(premint_ids(before), quote.id@).is_none() {
                assert(self.localstore.premint_secrets@.drop_last() =~= before);
            }
            assert(has_premint_added(
                self.localstore.premint_secrets@,
                old(self).localstore.premint_secrets@,
                quote.id@,
                premint_secrets,
            ));
        }
        Ok(MiningShareQuote { quote, request, premint_secrets })
    }

    /// Makes blinded messages for a quote that is paid already and keeps both:
    /// the quote, which the wallet must not have yet, and the secrets, under
    /// the quote's identifier, which is also its request. The messages are for the amount under the
    /// keyset that the wallet mints with, the keyset's counter being raised
    /// before they are derived.
    ///
    /// The wallet is as it was on an error, but for the counter where the
    /// derivation fails after it was raised.
    pub fn create_premint_secrets(
        &mut self,
        amount: u64,
        quote_id: &str,
        mint_url: &str,
        currency_unit: CurrencyUnit,
    ) -> (r: Result<PreMintSecrets, Error>)
        ensures
            final(self).mint_url == old(self).mint_url,
            final(self).unit == old(self).unit,
            final(self).seed == old(self).seed,
            same_but_quote_tables(final(self).localstore, old(self).localstore),
            if quote_of(old(self).localstore.mint_quotes@, quote_id@).is_some() {
                r == Err::<PreMintSecrets, Error>(Error::PaidQuote) && *final(self) == *old(self)
            } else if none_eligible(
                keysets_of(old(self).localstore.keysets@, old(self).mint_url@),
                old(self).unit,
            ) {
                r == Err::<PreMintSecrets, Error>(Error::NoActiveKeyset) && *final(self) == *old(self)
            } else {
                exists|pick: KeySetInfo|
                    #![trigger pick.id]
                    {
                        &&& is_pick(
                            pick,
                            keysets_of(old(self).localstore.keysets@, old(self).mint_url@),
                            old(self).unit,
                        )
                        &&& is_prepared(
                            *old(self),
                            with_counters_of(*old(self), *final(self)),
                            pick.id,
                            Amount(amount),
                            SplitTarget::NoTarget,
                            r,
                        )
                        &&& match r {
                            Err(_) => final(self).localstore.mint_quotes == old(self).localstore.mint_quotes
                                && final(self).localstore.premint_secrets
                                == old(self).localstore.premint_secrets,
                            Ok(pre) => {
                                &&& final(self).localstore.mint_quotes@.len() == old(
                                    self,
                                ).localstore.mint_quotes@.len() + 1
                                &&& final(self).localstore.mint_quotes@.drop_last() == old(
                                    self,
                                ).localstore.mint_quotes@
                                &&& ({
                                    let quote = final(self).localstore.mint_quotes@.last();
                                    &&& quote.id@ == quote_id@
                                    &&& quote.mint_url@ == mint_url@
                                    &&& quote.payment_method == PaymentMethod::MiningShare
                                    &&& quote.amount == Some(Amount(amount))
                                    &&& quote.unit == currency_unit
                                    &&& quote.request@ == quote_id@
                                    &&& quote.state == MintQuoteState::Paid
                                    &&& quote.expiry == u64::MAX
                                    &&& quote.secret_key.is_none()
                                    &&& quote.amount_issued == Amount(0)
                                    &&& quote.amount_paid == Amount(amount)
                                    &&& quote.keyset_id == Some(pick.id)
                                })
                                &&& has_premint_added(
                                    final(self).localstore.premint_secrets@,
                                    old(self).localstore.premint_secrets@,
                                    quote_id@,
                                    pre,
                                )
                            },
                        }
                    }
            },
    {
        if self.localstore.get_mint_quote(quote_id).is_some() {
            return Err(Error::PaidQuote);
        }
        let pick: KeySetInfo = match self.get_active_mint_keyset_local() {
            Ok(pick) => pick,
            Err(e) => {
                return Err(e);
            },
        };
        let active_keyset_id: Id = pick.id;
        let prepared: Result<PreMintSecrets, Error> = self.prepare_premint_secrets(
            active_keyset_id,
            Amount(amount),
        );
        let ghost mid = *self;
        proof {
            assert(with_counters_of(*old(self), mid) == mid);
        }
        let premint_secrets: PreMintSecrets = match prepared {
            Ok(pre) => pre,
            Err(e) => {
                return Err(e);
            },
        };
        let mint_quote = MintQuote {
            id: quote_id.to_owned(),
            mint_url: mint_url.to_owned(),
            payment_method: PaymentMethod::MiningShare,
            amount: Some(Amount(amount)),
            unit: currency_unit,
            request: quote_id.to_owned(),
            state: MintQuoteState::Paid,
            expiry: u64::MAX,
            secret_key: None,
            amount_issued: Amount(0),
            amount_paid: Amount(amount),
            keyset_id: Some(active_keyset_id),
        };
        proof {
            crate::table::lemma_found(premint_ids(self.localstore.premint_secrets@), quote_id@);
        }
        self.localstore.add_mint_quote(mint_quote);
        let ghost before = self.localstore.premint_secrets@;
        self.localstore.add_premint_secrets(quote_id.to_owned(), premint_secrets.copy());
        proof {
            assert(with_counters_of(*old(self), *self) == mid);
            assert(self.localstore.mint_quotes@.drop_last() =~= old(self).localstore.mint_quotes@);
            if find(premint_ids(before), quote_id@).is_none() {
                assert(self.localstore.premint_secrets@.drop_last() =~= before);
            }
            assert(has_premint_added(
                self.localstore.premint_secrets@,
                old(self).localstore.premint_secrets@,
                quote_id@,
                premint_secrets,
            ));
        }
        Ok(premint_secrets)
    }

    /// Makes the request to mint for a share whose secrets were made with its
    /// quote: the outputs are the blinded messages that the wallet keeps for
    /// the share, and the request names the quote as the mint knows it,
    /// `quote_id`. The secrets must be of the keyset that the wallet mints
    /// with now.
    pub fn get_mining_share_proofs(&self, quote_id: &str, share_hash: &str) -> (r: Result<MintRequest, Error>)
        ensures
            if quote_of(self.localstore.mint_quotes@, share_hash@).is_none() {
                r == Err::<MintRequest, Error>(Error::UnknownQuote)
            } else if none_eligible(keysets_of(self.localstore.keysets@, self.mint_url@), self.unit) {
                r == Err::<MintRequest, Error>(Error::NoActiveKeyset)
            } else {
                exists|pick: KeySetInfo|
                    #![trigger pick.id]
                    is_pick(pick, keysets_of(self.localstore.keysets@, self.mint_url@), self.unit)
                        && match share_proofs_failure(*self, share_hash@, pick.id) {
                        Some(e) => r == Err::<MintRequest, Error>(e),
                        None => {
                            &&& r matches Ok(request)
                            &&& request.quote@ == quote_id@
                            &&& request.outputs@ == premint_messages(
                                premint_of(self.localstore.premint_secrets@, share_hash@).unwrap().secrets@,
                            )
                            &&& request.signature.is_none()
                        },
                    }
            },
    {
        if self.localstore.get_mint_quote(share_hash).is_none() {
            return Err(Error::UnknownQuote);
        }
        let pick: KeySetInfo = match self.get_active_mint_keyset_local() {
            Ok(pick) => pick,
            Err(e) => {
                return Err(e);
            },
        };
        let active_keyset_id: Id = pick.id;
        if self.localstore.get_keys(&active_keyset_id).is_none() {
            return Err(Error::UnknownKeyset);
        }
        let premint_secrets: &PreMintSecrets = match self.localstore.get_premint_secrets(share_hash) {
            Some(pre) => pre,
            None => {
                return Err(Error::UnknownQuote);
            },
        };
        if premint_secrets.keyset_id != active_keyset_id {
            return Err(Error::UnknownKeyset);
        }
        Ok(
            MintRequest {
                quote: quote_id.to_owned(),
                outputs: premint_secrets.blinded_messages(),
                signature: None,
            },
        )
    }

    /// Turns the mint's signatures for a share into proofs and keeps them:
    /// the proofs that the signatures carry are checked, each signature is
    /// unblinded with the blinding factor that the wallet keeps for the share,
    /// the counter of the keyset is raised by the number of proofs, the quote
    /// and the secrets leave the store and the proofs are stored.
    ///
    /// On an error the wallet is as it was.
    pub fn get_mining_share_proofs_finish(&mut self, share_hash: &str, signatures: Vec<BlindSignature>) -> (r:
        Result<Proofs, Error>)
        ensures
            is_share_finished(*old(self), *final(self), share_hash@, signatures@, r),
    {
        let unit: CurrencyUnit = match self.localstore.get_mint_quote(share_hash) {
            Some(quote) => quote.unit.clone(),
            None => {
                return Err(Error::UnknownQuote);
            },
        };
        let premint_secrets: PreMintSecrets = match self.localstore.get_premint_secrets(share_hash) {
            Some(pre) => pre.copy(),
            None => {
                return Err(Error::UnknownQuote);
            },
        };
        let keyset_id: Id = premint_secrets.keyset_id;
        let ghost count = signatures@.len();
        let (proofs, records, _ys): (Vec<Proof>, Vec<ProofInfo>, Vec<PublicKey>) = match self.mint_proofs(
            signatures,
            &premint_secrets,
            keyset_id,
            &unit,
        ) {
            Ok(minted) => minted,
            Err(e) => {
                return Err(e);
            },
        };
        if proofs.len() > 0xffff_ffff {
            return Err(Error::CounterOverflow);
        }
        match self.localstore.increment_keyset_counter(&keyset_id, proofs.len() as u32) {
            Ok(_) => {},
            Err(e) => {
                return Err(e);
            },
        }
        proof {
            crate::table::lemma_found(
                premint_ids(self.localstore.premint_secrets@),
                share_hash@,
            );
        }
        self.localstore.remove_mint_quote(share_hash);
        self.localstore.remove_premint_secrets(share_hash);
        let ghost stored = self.localstore.proofs@;
        let ghost added = records@;
        self.localstore.add_proofs(records);
        proof {
            assert(self.localstore.proofs@.take(stored.len() as int) =~= stored);
            assert(self.localstore.proofs@.skip(stored.len() as int) =~= added);
        }
        Ok(proofs)
    }
}

} // verus!
