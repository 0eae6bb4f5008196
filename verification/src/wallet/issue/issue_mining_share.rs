//! Minting ecash for mining share quotes, one at a time or in a batch, and
//! keeping the wallet's record of such a quote in step with the mint.

use crate::amount::{total, Amount, FeeAndAmounts, SplitTarget};
use crate::dhke::{construct_proofs, curve_point, first_failure, is_proof_of};
use crate::error::Error;
use crate::nuts::nut00::{premint_amounts, premint_factors, premint_messages, premint_secrets, proof_amounts, signature_amounts, BlindSignature, BlindedMessage, CurrencyUnit, MintQuoteState, PaymentMethod, PreMint, PreMintSecrets, Proof, Proofs, Secret};
use crate::nuts::nut01::{amounts_of, key_for, Keys, PublicKey, SecretKey};
use crate::nuts::nut02::Id;
use crate::nuts::nut04::{texts, BatchMintRequest, MintRequest};
use crate::nuts::nut07::State;
use crate::nuts::nut12::dleq_verdict;
use crate::nuts::nut13::{first_underivable, is_derived, split_result};
use crate::nuts::nut20::{is_signed_by, sign_request};
use crate::secp::public_point;
use crate::nuts::nutxx::{mint_quote_state_of, MintQuoteMiningShareResponse};
use crate::wallet::store::{counter_of, keys_of, keyset_ids, quote_of, with_counter, with_quote, WalletStore};
use crate::table::find;
use crate::wallet::types::{MiningShareBatchEntry, MintQuote, ProofInfo, Transaction, TransactionDirection};
use crate::wallet::Wallet;
use vstd::prelude::*;
use vstd::string::StringExecFns;
use vstd::utf8::encode_utf8;

verus! {

/// A request to mint for one mining share quote, with what the wallet needs
/// to turn the mint's answer into proofs.
#[derive(Debug, PartialEq, Eq)]
pub struct MiningShareMint {
    /// The request to send to the mint.
    pub request: MintRequest,
    /// The secrets behind the outputs of the request.
    pub premint_secrets: PreMintSecrets,
    /// The request of the quote, if the wallet has the quote.
    pub payment_request: Option<String>,
}

/// A request to mint for several mining share quotes at once, with what the
/// wallet needs to turn the mint's answer into proofs.
#[derive(Debug, PartialEq, Eq)]
pub struct MiningShareBatchMint {
    /// The request to send to the mint.
    pub request: BatchMintRequest,
    /// The secrets behind the outputs of the request.
    pub premint_secrets: PreMintSecrets,
    /// The request of the first quote, if the wallet has the quote.
    pub payment_request: Option<String>,
}

/// The amounts that a keyset of the wallet's mint has keys for; `None` where
/// the wallet has no record of the keyset with the mint, or lacks its keys.
pub open spec fn keyset_amounts(store: WalletStore, mint_url: Seq<char>, keyset_id: Seq<u8>) -> Option<
    Seq<u64>,
> {
    if find(keyset_ids(store.keysets@), (mint_url, keyset_id)).is_none() {
        None
    } else {
        match keys_of(store.keys@, keyset_id) {
            Some(keys) => Some(amounts_of(keys@)),
            None => None,
        }
    }
}

/// The texts of a list with commas between them.
pub open spec fn joined(ids: Seq<String>) -> Seq<char>
    decreases ids.len(),
{
    if ids.len() == 0 {
        Seq::empty()
    } else if ids.len() == 1 {
        ids[0]@
    } else {
        joined(ids.drop_last()) + ","@ + ids.last()@
    }
}

/// The texts of a list with commas between them.
pub fn join_ids(ids: &Vec<String>) -> (text: String)
    ensures
        text@ == joined(ids@),
{
    let mut text: String = String::new();
    let mut i: usize = 0;
    while i < ids.len()
        invariant
            i <= ids.len(),
            text@ == joined(ids@.take(i as int)),
        decreases ids.len() - i,
    {
        proof {
            assert(ids@.take(i + 1).drop_last() =~= ids@.take(i as int));
            if i == 0 {
                assert(Seq::<char>::empty() + ids@[0]@ =~= ids@[0]@);
            }
        }
        if i > 0 {
            text.append(",");
        }
        text.append(ids[i].as_str());
        i = i + 1;
    }
    proof {
        assert(ids@.take(i as int) =~= ids@);
    }
    text
}

/// What the check of the proof on one signature gives the wallet: the
/// signature's keyset must be known and have a key for the amount; a proof
/// that is missing is let through, one that does not verify is not.
pub open spec fn dleq_check(signature: BlindSignature, premint: PreMint, keys: Seq<(Id, Keys)>) -> Result<
    (),
    Error,
> {
    match keys_of(keys, signature.keyset_id@) {
        None => Err(Error::UnknownKeyset),
        Some(table) => match key_for(table@, signature.amount.0) {
            None => Err(Error::AmountKey),
            Some(key) => match signature.dleq {
                None => Ok(()),
                Some(d) => if dleq_verdict(
                    premint.blinded_message.blinded_secret@,
                    signature.c@,
                    d.e@,
                    d.s@,
                    key@,
                ).is_ok() {
                    Ok(())
                } else {
                    Err(Error::CouldNotVerifyDleq)
                },
            },
        },
    }
}

/// The error of the first of the first `n` signatures whose check fails.
pub open spec fn first_dleq_failure(
    signatures: Seq<BlindSignature>,
    premints: Seq<PreMint>,
    keys: Seq<(Id, Keys)>,
    n: int,
) -> Option<Error>
    decreases n,
{
    if n <= 0 {
        None
    } else {
        match first_dleq_failure(signatures, premints, keys, n - 1) {
            Some(e) => Some(e),
            None => match dleq_check(signatures[n - 1], premints[n - 1], keys) {
                Err(e) => Some(e),
                Ok(()) => None,
            },
        }
    }
}

/// The smaller of two lengths.
pub open spec fn shorter(a: nat, b: nat) -> int {
    if a <= b {
        a as int
    } else {
        b as int
    }
}

/// The texts of the secrets of a list of proofs, in their order.
pub open spec fn proof_secrets(proofs: Seq<Proof>) -> Seq<Seq<char>> {
    Seq::new(proofs.len(), |i: int| proofs[i].secret@)
}

/// The texts of a list of secrets, in their order.
pub open spec fn secret_texts(secrets: Seq<Secret>) -> Seq<Seq<char>> {
    Seq::new(secrets.len(), |i: int| secrets[i]@)
}

/// The error of the first of the first `n` secrets that is hashed to no
/// point.
pub open spec fn first_pointless(secrets: Seq<Seq<char>>, n: int) -> Option<Error>
    decreases n,
{
    if n <= 0 {
        None
    } else {
        match first_pointless(secrets, n - 1) {
            Some(e) => Some(e),
            None => if curve_point(encode_utf8(secrets[n - 1])).is_none() {
                Some(Error::Dhke(crate::dhke::Error::NoValidPoint))
            } else {
                None
            },
        }
    }
}

/// `info` is the wallet's record of a proof that it has just minted.
pub open spec fn is_record_of(info: ProofInfo, proof: Proof, mint_url: String, unit: CurrencyUnit) -> bool {
    &&& info.proof == proof
    &&& curve_point(encode_utf8(proof.secret@)) == Some(info.y@)
    &&& info.mint_url == mint_url
    &&& info.state == State::Unspent
    &&& info.unit == unit
}

/// A failure among the first `n` checks is the failure among any more.
proof fn lemma_dleq_failure_stays(
    signatures: Seq<BlindSignature>,
    premints: Seq<PreMint>,
    keys: Seq<(Id, Keys)>,
    n: int,
    m: int,
)
    requires
        0 <= n <= m,
        first_dleq_failure(signatures, premints, keys, n).is_some(),
    ensures
        first_dleq_failure(signatures, premints, keys, m) == first_dleq_failure(
            signatures,
            premints,
            keys,
            n,
        ),
    decreases m - n,
{
    if n < m {
        lemma_dleq_failure_stays(signatures, premints, keys, n, m - 1);
    }
}

/// The sum of a prefix of batch entries is the sum of the shorter prefix and
/// the amount after it, and no more than the sum of all.
proof fn lemma_entries_total_prefix(entries: Seq<MiningShareBatchEntry>, n: int)
    requires
        0 < n <= entries.len(),
    ensures
        entries_total(entries.take(n)) == entries_total(entries.take(n - 1)) + entries[n
            - 1].amount.0 as nat,
        entries_total(entries.take(n)) <= entries_total(entries),
    decreases entries.len() - n,
{
    assert(entries.take(n).drop_last() =~= entries.take(n - 1));
    if n < entries.len() {
        lemma_entries_total_prefix(entries, n + 1);
    } else {
        assert(entries.take(n) =~= entries);
    }
}

/// A failure among the first `n` proofs is the failure among any more.
proof fn lemma_pointless_stays(secrets: Seq<Seq<char>>, n: int, m: int)
    requires
        0 <= n <= m,
        first_pointless(secrets, n).is_some(),
    ensures
        first_pointless(secrets, m) == first_pointless(secrets, n),
    decreases m - n,
{
    if n < m {
        lemma_pointless_stays(secrets, n, m - 1);
    }
}

/// What [`Wallet::prepare_premint_secrets_for`] does: `after` is the wallet that
/// it leaves of the wallet `before`, and `r` is what it returns.
pub open spec fn is_prepared(
    before: Wallet,
    after: Wallet,
    keyset_id: Id,
    amount: Amount,
    target: SplitTarget,
    r: Result<PreMintSecrets, Error>,
) -> bool {
    &&& after.mint_url == before.mint_url
    &&& after.unit == before.unit
    &&& after.seed == before.seed
    &&& after.localstore == (WalletStore {
        keyset_counters: after.localstore.keyset_counters,
        ..before.localstore
    })
    &&& match keyset_amounts(before.localstore, before.mint_url@, keyset_id@) {
        None => r == Err::<PreMintSecrets, Error>(Error::UnknownKeyset) && after == before,
        Some(amounts) => match split_result(amount, target, amounts) {
            Err(e) => r == Err::<PreMintSecrets, Error>(Error::Amount(e)) && after == before,
            Ok(parts) => {
                let counter = counter_of(before.localstore.keyset_counters@, keyset_id@);
                if counter + parts.len() > u32::MAX {
                    r == Err::<PreMintSecrets, Error>(Error::CounterOverflow) && after == before
                } else {
                    &&& after.localstore.keyset_counters@ == with_counter(
                        before.localstore.keyset_counters@,
                        keyset_id,
                        (counter + parts.len()) as u32,
                    )
                    &&& match first_underivable(
                        before.seed@,
                        keyset_id@,
                        counter as int,
                        parts.len() as int,
                    ) {
                        Some(e) => r == Err::<PreMintSecrets, Error>(Error::Derivation(e)),
                        None => {
                            &&& r matches Ok(pre)
                            &&& pre.keyset_id == keyset_id
                            &&& premint_amounts(pre.secrets@) == parts
                            &&& total(premint_amounts(pre.secrets@)) == amount.0
                            &&& forall|i: int|
                                0 <= i < parts.len() ==> is_derived(
                                    #[trigger] pre.secrets@[i],
                                    before.seed@,
                                    keyset_id,
                                    counter + i,
                                    parts[i],
                                )
                        },
                    }
                }
            },
        },
    }
}

/// What stands in the way of turning the mint's signatures into proofs, if
/// anything: the first of these that holds. A proof that the advertised key
/// signed does not verify; the keyset is unknown; the signatures do not match
/// the blinded messages one for one; a signature cannot be unblinded; a secret
/// is hashed to no point.
pub open spec fn minting_failure(
    keys: Seq<(Id, Keys)>,
    signatures: Seq<BlindSignature>,
    premints: Seq<PreMint>,
    keyset_id: Id,
) -> Option<Error> {
    match first_dleq_failure(signatures, premints, keys, shorter(signatures.len(), premints.len())) {
        Some(e) => Some(e),
        None => match keys_of(keys, keyset_id@) {
            None => Some(Error::UnknownKeyset),
            Some(table) => if signatures.len() != premints.len() {
                Some(Error::Dhke(crate::dhke::Error::CouldNotGetProofs))
            } else {
                match first_failure(
                    signatures,
                    premint_factors(premints),
                    table@,
                    signatures.len() as int,
                ) {
                    Some(e) => Some(Error::Dhke(e)),
                    None => first_pointless(
                        secret_texts(premint_secrets(premints)),
                        premints.len() as int,
                    ),
                }
            },
        },
    }
}

/// `proofs` are the proofs of the mint's signatures, and `records` the
/// wallet's records of them.
pub open spec fn are_minted(
    proofs: Seq<Proof>,
    records: Seq<ProofInfo>,
    keys: Seq<(Id, Keys)>,
    signatures: Seq<BlindSignature>,
    premints: Seq<PreMint>,
    keyset_id: Id,
    mint_url: String,
    unit: CurrencyUnit,
) -> bool {
    &&& proofs.len() == signatures.len()
    &&& records.len() == signatures.len()
    &&& keys_of(keys, keyset_id@) matches Some(table)
    &&& forall|i: int|
        0 <= i < proofs.len() ==> is_proof_of(
            #[trigger] proofs[i],
            signatures[i],
            premints[i].r,
            premints[i].secret,
            table@,
        )
    &&& forall|i: int|
        0 <= i < proofs.len() ==> is_record_of(#[trigger] records[i], proofs[i], mint_url, unit)
}

/// What stands in the way of [`Wallet::finalize_mining_share_proofs`], if
/// anything: what stands in the way of the proofs, or else that their amounts
/// do not fit in 64 bits.
pub open spec fn finalize_failure(
    keys: Seq<(Id, Keys)>,
    signatures: Seq<BlindSignature>,
    premints: Seq<PreMint>,
    keyset_id: Id,
) -> Option<Error> {
    match minting_failure(keys, signatures, premints, keyset_id) {
        Some(e) => Some(e),
        None => if total(signature_amounts(signatures)) > u64::MAX {
            Some(Error::Amount(crate::amount::Error::AmountOverflow))
        } else {
            None
        },
    }
}

/// `transaction` is the record of proofs that came in for quotes.
pub open spec fn is_incoming(
    transaction: Transaction,
    wallet: Wallet,
    proofs: Seq<Proof>,
    quote_ids: Seq<String>,
    payment_request: Option<String>,
    now: u64,
) -> bool {
    &&& transaction.mint_url == wallet.mint_url
    &&& transaction.direction == TransactionDirection::Incoming
    &&& transaction.amount.0 == total(proof_amounts(proofs))
    &&& transaction.fee == Amount(0)
    &&& transaction.unit == wallet.unit
    &&& transaction.ys@.len() == proofs.len()
    &&& forall|i: int|
        0 <= i < proofs.len() ==> curve_point(encode_utf8(proofs[i].secret@)) == Some(
            #[trigger] transaction.ys@[i]@,
        )
    &&& transaction.timestamp == now
    &&& transaction.memo.is_none()
    &&& transaction.quote_id matches Some(ids) && ids@ == joined(quote_ids)
    &&& transaction.payment_request == payment_request
    &&& transaction.payment_proof.is_none()
}

/// What [`Wallet::finalize_mining_share_proofs`] does: `after` is the wallet
/// that it leaves of the wallet `before`, and `r` is what it returns.
pub open spec fn is_finalized(
    before: Wallet,
    after: Wallet,
    signatures: Seq<BlindSignature>,
    premints: Seq<PreMint>,
    keyset_id: Id,
    quote_ids: Seq<String>,
    payment_request: Option<String>,
    now: u64,
    r: Result<Vec<Proof>, Error>,
) -> bool {
    match finalize_failure(before.localstore.keys@, signatures, premints, keyset_id) {
        Some(e) => r == Err::<Vec<Proof>, Error>(e) && after == before,
        None => {
            &&& r matches Ok(proofs)
            &&& proofs@.len() == signatures.len()
            &&& keys_of(before.localstore.keys@, keyset_id@) matches Some(table)
            &&& forall|i: int|
                0 <= i < proofs@.len() ==> is_proof_of(
                    #[trigger] proofs@[i],
                    signatures[i],
                    premints[i].r,
                    premints[i].secret,
                    table@,
                )
            &&& after.mint_url == before.mint_url
            &&& after.unit == before.unit
            &&& after.seed == before.seed
            &&& after.localstore == (WalletStore {
                proofs: after.localstore.proofs,
                transactions: after.localstore.transactions,
                ..before.localstore
            })
            &&& after.localstore.proofs@.len() == before.localstore.proofs@.len() + proofs@.len()
            &&& after.localstore.proofs@.take(before.localstore.proofs@.len() as int)
                == before.localstore.proofs@
            &&& forall|i: int|
                0 <= i < proofs@.len() ==> is_record_of(
                    #[trigger] after.localstore.proofs@[before.localstore.proofs@.len() + i],
                    proofs@[i],
                    before.mint_url,
                    before.unit,
                )
            &&& after.localstore.transactions@.len() == before.localstore.transactions@.len() + 1
            &&& after.localstore.transactions@.drop_last() == before.localstore.transactions@
            &&& is_incoming(
                after.localstore.transactions@.last(),
                before,
                proofs@,
                quote_ids,
                payment_request,
                now,
            )
        },
    }
}

/// The place of a signature holds one: 128 hexadecimal digits that are a
/// signature of the request for a quote with outputs, under the public key of
/// a secret key.
pub open spec fn is_signature_for(
    place: Option<String>,
    quote: Seq<char>,
    outputs: Seq<BlindedMessage>,
    secret_key: SecretKey,
) -> bool {
    place matches Some(text) && text@.len() == 128 && is_signed_by(
        quote,
        outputs,
        text@,
        public_point(secret_key@).unwrap(),
    )
}

/// The request of a quote, if the store has the quote.
pub open spec fn request_of(quotes: Seq<MintQuote>, id: Seq<char>) -> Option<String> {
    match quote_of(quotes, id) {
        Some(q) => Some(q.request),
        None => None,
    }
}

/// What is prepared of a request: the secrets, or the error.
pub open spec fn prepared_of_mint(r: Result<MiningShareMint, Error>) -> Result<PreMintSecrets, Error> {
    match r {
        Ok(m) => Ok(m.premint_secrets),
        Err(e) => Err(e),
    }
}

/// What is prepared of a batch request: the secrets, or the error.
pub open spec fn prepared_of_batch(r: Result<MiningShareBatchMint, Error>) -> Result<
    PreMintSecrets,
    Error,
> {
    match r {
        Ok(m) => Ok(m.premint_secrets),
        Err(e) => Err(e),
    }
}

/// The sum of the amounts of a list of batch entries.
pub open spec fn entries_total(entries: Seq<MiningShareBatchEntry>) -> nat
    decreases entries.len(),
{
    if entries.len() == 0 {
        0
    } else {
        entries_total(entries.drop_last()) + entries.last().amount.0 as nat
    }
}

/// The identifiers of the quotes of a list of batch entries, in their order.
pub open spec fn entry_ids(entries: Seq<MiningShareBatchEntry>) -> Seq<Seq<char>> {
    Seq::new(entries.len(), |i: int| entries[i].quote_id@)
}

/// What is wrong with a list of batch entries, if anything: the first of
/// these that holds. It is empty; its quotes are not all of the keyset of the
/// first; its amounts do not fit in 64 bits; its amounts add up to nothing.
pub open spec fn batch_entries_failure(entries: Seq<MiningShareBatchEntry>) -> Option<Error> {
    if entries.len() == 0 {
        Some(Error::BatchEmpty)
    } else if exists|i: int|
        0 <= i < entries.len() && (#[trigger] entries[i]).keyset_id@ != entries[0].keyset_id@ {
        Some(Error::BatchKeysetMismatch)
    } else if entries_total(entries) > u64::MAX {
        Some(Error::AmountOverflow)
    } else if entries_total(entries) == 0 {
        Some(Error::AmountUndefined)
    } else {
        None
    }
}

/// The wallet's record of a mining share quote once the mint has told its
/// state: the record that the wallet had, brought up to date, or a new one.
pub open spec fn is_recorded(
    quote: MintQuote,
    had: Option<MintQuote>,
    wallet: Wallet,
    quote_id: Seq<char>,
    response: MintQuoteMiningShareResponse<String>,
) -> bool {
    let paid = match response.amount {
        Some(a) => a,
        None => Amount(0),
    };
    match had {
        Some(q) => quote == (MintQuote {
            state: mint_quote_state_of(response.state),
            keyset_id: Some(response.keyset_id),
            amount_issued: response.amount_issued,
            amount_paid: paid,
            ..q
        }),
        None => {
            &&& quote.id@ == quote_id
            &&& quote.mint_url == wallet.mint_url
            &&& quote.payment_method == PaymentMethod::MiningShare
            &&& quote.amount == response.amount
            &&& quote.unit == match response.unit {
                Some(u) => u,
                None => wallet.unit,
            }
            &&& quote.request == response.request
            &&& quote.state == mint_quote_state_of(response.state)
            &&& quote.expiry == match response.expiry {
                Some(e) => e,
                None => 0,
            }
            &&& quote.secret_key.is_none()
            &&& quote.amount_issued == response.amount_issued
            &&& quote.amount_paid == paid
            &&& quote.keyset_id == Some(response.keyset_id)
        },
    }
}

impl Wallet {
    /// Checks the proofs that the mint's signatures carry, each against the
    /// blinded message at its place.
    pub fn verify_dleqs(&self, signatures: &Vec<BlindSignature>, premint_secrets: &PreMintSecrets) -> (r:
        Result<(), Error>)
        ensures
            r == match first_dleq_failure(
                signatures@,
                premint_secrets.secrets@,
                self.localstore.keys@,
                shorter(signatures@.len(), premint_secrets.secrets@.len()),
            ) {
                Some(e) => Err(e),
                None => Ok(()),
            },
    {
        let n: usize = if signatures.len() <= premint_secrets.secrets.len() {
            signatures.len()
        } else {
            premint_secrets.secrets.len()
        };
        let mut i: usize = 0;
        while i < n
            invariant
                i <= n,
                n == shorter(signatures@.len(), premint_secrets.secrets@.len()),
                first_dleq_failure(
                    signatures@,
                    premint_secrets.secrets@,
                    self.localstore.keys@,
                    i as int,
                ).is_none(),
            decreases n - i,
        {
            let signature: BlindSignature = signatures[i];
            let check: Result<(), Error> = match self.localstore.get_keys(&signature.keyset_id) {
                None => Err(Error::UnknownKeyset),
                Some(keys) => match keys.amount_key(signature.amount.0) {
                    None => Err(Error::AmountKey),
                    Some(key) => match signature.verify_dleq(
                        key,
                        premint_secrets.secrets[i].blinded_message.blinded_secret,
                    ) {
                        Ok(()) => Ok(()),
                        Err(crate::nuts::nut12::Error::MissingDleqProof) => Ok(()),
                        Err(_) => Err(Error::CouldNotVerifyDleq),
                    },
                },
            };
            match check {
                Ok(()) => {},
                Err(e) => {
                    proof {
                        lemma_dleq_failure_stays(
                            signatures@,
                            premint_secrets.secrets@,
                            self.localstore.keys@,
                            i + 1,
                            n as int,
                        );
                    }
                    return Err(e);
                },
            }
            i = i + 1;
        }
        Ok(())
    }

    /// Makes the blinded messages for an amount under a keyset: the amount is
    /// split as `target` asks into the keyset's denominations, the keyset's
    /// counter is raised by the number of parts, and the secrets are derived
    /// at the counters that the wallet thereby has for its own, from the
    /// counter before on.
    ///
    /// The counter stays raised where the derivation then fails: counters
    /// that go unused do no harm. Before that point an error leaves the wallet
    /// as it was.
    pub fn prepare_premint_secrets_for(&mut self, keyset_id: Id, amount: Amount, target: &SplitTarget) -> (r:
        Result<PreMintSecrets, Error>)
        ensures
            is_prepared(*old(self), *final(self), keyset_id, amount, *target, r),
    {
        let fee_and_amounts: FeeAndAmounts = match self.get_keyset_fees_and_amounts_by_id(keyset_id) {
            Ok(f) => f,
            Err(e) => {
                return Err(e);
            },
        };
        let amount_split: Vec<Amount> = match amount.split_targeted(target, &fee_and_amounts) {
            Ok(parts) => parts,
            Err(e) => {
                return Err(Error::Amount(e));
            },
        };
        if amount_split.len() > 0xffff_ffff {
            return Err(Error::CounterOverflow);
        }
        let num_secrets: u32 = amount_split.len() as u32;
        let new_counter: u32 = match self.localstore.increment_keyset_counter(&keyset_id, num_secrets) {
            Ok(c) => c,
            Err(e) => {
                return Err(e);
            },
        };
        let count: u32 = new_counter - num_secrets;
        match PreMintSecrets::from_seed(
            keyset_id,
            count,
            self.seed.as_slice(),
            amount,
            target,
            &fee_and_amounts,
        ) {
            Ok(pre) => Ok(pre),
            Err(e) => Err(Error::Derivation(e)),
        }
    }

    /// Makes the blinded messages for an amount under a keyset, in the fewest
    /// parts: see [`Wallet::prepare_premint_secrets_for`].
    pub fn prepare_premint_secrets(&mut self, keyset_id: Id, amount: Amount) -> (r: Result<
        PreMintSecrets,
        Error,
    >)
        ensures
            is_prepared(*old(self), *final(self), keyset_id, amount, SplitTarget::NoTarget, r),
    {
        let split_target = SplitTarget::NoTarget;
        self.prepare_premint_secrets_for(keyset_id, amount, &split_target)
    }

    /// Turns the mint's signatures into proofs, with the wallet's records of
    /// them in the unit `unit` and the points of their secrets: the proofs
    /// that the signatures carry are checked, and each signature is unblinded
    /// with the blinding factor at its place. Nothing is stored.
    #[verifier::loop_isolation(false)]
    pub fn mint_proofs(
        &self,
        signatures: Vec<BlindSignature>,
        premint_secrets: &PreMintSecrets,
        keyset_id: Id,
        unit: &CurrencyUnit,
    ) -> (r: Result<(Vec<Proof>, Vec<ProofInfo>, Vec<PublicKey>), Error>)
        ensures
            match minting_failure(
                self.localstore.keys@,
                signatures@,
                premint_secrets.secrets@,
                keyset_id,
            ) {
                Some(e) => r == Err::<(Vec<Proof>, Vec<ProofInfo>, Vec<PublicKey>), Error>(e),
                None => {
                    &&& r matches Ok((proofs, records, ys))
                    &&& are_minted(
                        proofs@,
                        records@,
                        self.localstore.keys@,
                        signatures@,
                        premint_secrets.secrets@,
                        keyset_id,
                        self.mint_url,
                        *unit,
                    )
                    &&& proof_amounts(proofs@) == signature_amounts(signatures@)
                    &&& ys@.len() == proofs@.len()
                    &&& forall|i: int| 0 <= i < ys@.len() ==> #[trigger] ys@[i] == records@[i].y
                },
            },
    {
        match self.verify_dleqs(&signatures, premint_secrets) {
            Ok(()) => {},
            Err(e) => {
                return Err(e);
            },
        }
        let keys: Keys = match self.load_keyset_keys(keyset_id) {
            Ok(keys) => keys,
            Err(e) => {
                return Err(e);
            },
        };
        let rs: Vec<SecretKey> = premint_secrets.rs();
        let secrets: Vec<Secret> = premint_secrets.secrets();
        let ghost sigs = signatures@;
        let proofs: Vec<Proof> = match construct_proofs(signatures, rs, secrets, &keys) {
            Ok(proofs) => proofs,
            Err(e) => {
                return Err(Error::Dhke(e));
            },
        };
        proof {
            assert(proof_secrets(proofs@) =~= secret_texts(
                crate::nuts::nut00::premint_secrets(premint_secrets.secrets@),
            ));
            assert(proof_amounts(proofs@) =~= signature_amounts(sigs));
        }
        let mut records: Vec<ProofInfo> = Vec::new();
        let mut ys: Vec<PublicKey> = Vec::new();
        let mut i: usize = 0;
        while i < proofs.len()
            invariant
                i <= proofs.len(),
                records@.len() == i,
                ys@.len() == i,
                first_pointless(proof_secrets(proofs@), i as int).is_none(),
                forall|k: int|
                    0 <= k < i ==> is_record_of(#[trigger] records@[k], proofs@[k], self.mint_url, *unit),
                forall|k: int| 0 <= k < i ==> #[trigger] ys@[k] == records@[k].y,
            decreases proofs.len() - i,
        {
            match ProofInfo::new(proofs[i].clone(), self.mint_url.clone(), State::Unspent, unit.clone()) {
                Ok(info) => {
                    ys.push(info.y);
                    records.push(info);
                },
                Err(e) => {
                    proof {
                        lemma_pointless_stays(proof_secrets(proofs@), i + 1, proofs@.len() as int);
                    }
                    return Err(Error::Dhke(e));
                },
            }
            i = i + 1;
        }
        Ok((proofs, records, ys))
    }

    /// Turns the mint's signatures into proofs and keeps them: the proofs that
    /// the signatures carry are checked, each signature is unblinded with the
    /// blinding factor at its place, and the proofs are stored with a record
    /// of the transaction at the time `now`.
    ///
    /// On an error the wallet is as it was.
    pub fn finalize_mining_share_proofs(
        &mut self,
        signatures: Vec<BlindSignature>,
        premint_secrets: PreMintSecrets,
        keyset_id: Id,
        quote_ids: &Vec<String>,
        payment_request: Option<String>,
        now: u64,
    ) -> (r: Result<Proofs, Error>)
        ensures
            is_finalized(
                *old(self),
                *final(self),
                signatures@,
                premint_secrets.secrets@,
                keyset_id,
                quote_ids@,
                payment_request,
                now,
                r,
            ),
    {
        let unit: CurrencyUnit = self.unit.clone();
        let (proofs, records, ys): (Vec<Proof>, Vec<ProofInfo>, Vec<PublicKey>) = match self.mint_proofs(
            signatures,
            &premint_secrets,
            keyset_id,
            &unit,
        ) {
            Ok(minted) => minted,
            Err(e) => {
                return Err(e);
            },
        };
        let amount: Amount = match crate::nuts::nut00::proofs_total_amount(&proofs) {
            Ok(a) => a,
            Err(e) => {
                return Err(Error::Amount(e));
            },
        };
        let batch_ids: String = join_ids(quote_ids);
        let ghost stored = self.localstore.proofs@;
        let ghost added = records@;
        let ghost points = ys@;
        self.localstore.add_proofs(records);
        self.localstore.add_transaction(
            Transaction {
                mint_url: self.mint_url.clone(),
                direction: TransactionDirection::Incoming,
                amount,
                fee: Amount(0),
                unit: self.unit.clone(),
                ys,
                timestamp: now,
                memo: None,
                quote_id: Some(batch_ids),
                payment_request,
                payment_proof: None,
            },
        );
        proof {
            assert(self.localstore.proofs@.take(stored.len() as int) =~= stored);
            assert(self.localstore.transactions@.drop_last() =~= old(self).localstore.transactions@);
            assert forall|i: int| 0 <= i < proofs@.len() implies is_record_of(
                #[trigger] self.localstore.proofs@[stored.len() + i],
                proofs@[i],
                self.mint_url,
                self.unit,
            ) by {
                assert(self.localstore.proofs@[stored.len() + i] == added[i]);
            }
            let transaction = self.localstore.transactions@.last();
            assert(transaction.ys@ == points);
            assert forall|i: int| 0 <= i < proofs@.len() implies curve_point(
                encode_utf8(proofs@[i].secret@),
            ) == Some(#[trigger] transaction.ys@[i]@) by {
                assert(is_record_of(added[i], proofs@[i], self.mint_url, self.unit));
                assert(points[i] == added[i].y);
            }
        }
        Ok(proofs)
    }

    /// Makes the request to mint for a mining share quote: blinded messages
    /// for the amount under the keyset, in a request that is signed with the
    /// key of the quote. With it comes what
    /// [`Wallet::finalize_mining_share_proofs`] needs for the mint's answer.
    ///
    /// A key whose bytes are no secret key is refused before anything is
    /// done.
    pub fn mint_mining_share(
        &mut self,
        quote_id: &str,
        amount: Amount,
        keyset_id: Id,
        secret_key: SecretKey,
    ) -> (r: Result<MiningShareMint, Error>)
        ensures
            if !secret_key.valid() {
                r == Err::<MiningShareMint, Error>(
                    Error::Signature(crate::nuts::nut20::Error::InvalidSecretKey),
                ) && *final(self) == *old(self)
            } else {
                &&& is_prepared(
                    *old(self),
                    *final(self),
                    keyset_id,
                    amount,
                    SplitTarget::NoTarget,
                    prepared_of_mint(r),
                )
                &&& r matches Ok(m) ==> {
                    &&& m.request.quote@ == quote_id@
                    &&& m.request.outputs@ == premint_messages(m.premint_secrets.secrets@)
                    &&& is_signature_for(
                        m.request.signature,
                        quote_id@,
                        m.request.outputs@,
                        secret_key,
                    )
                    &&& m.payment_request == request_of(old(self).localstore.mint_quotes@, quote_id@)
                }
            },
    {
        if secret_key.public_key().is_err() {
            return Err(Error::Signature(crate::nuts::nut20::Error::InvalidSecretKey));
        }
        let payment_request: Option<String> = match self.localstore.get_mint_quote(quote_id) {
            Some(quote) => Some(quote.request.clone()),
            None => None,
        };
        let premint_secrets: PreMintSecrets = match self.prepare_premint_secrets(keyset_id, amount) {
            Ok(pre) => pre,
            Err(e) => {
                return Err(e);
            },
        };
        let mut request = MintRequest {
            quote: quote_id.to_owned(),
            outputs: premint_secrets.blinded_messages(),
            signature: None,
        };
        match request.sign(secret_key) {
            Ok(()) => {},
            Err(e) => {
                return Err(Error::Signature(e));
            },
        }
        Ok(MiningShareMint { request, premint_secrets, payment_request })
    }

    /// Makes the request to mint for several mining share quotes at once: one
    /// set of blinded messages for the sum of the amounts, and for each quote
    /// a signature that binds the outputs to it. With it comes what
    /// [`Wallet::finalize_mining_share_proofs`] needs for the mint's answer.
    ///
    /// The quotes must all be of one keyset. A key whose bytes are no secret
    /// key is refused before anything is done.
    pub fn mint_mining_share_batch(
        &mut self,
        quotes: &Vec<MiningShareBatchEntry>,
        secret_key: &SecretKey,
    ) -> (r: Result<MiningShareBatchMint, Error>)
        ensures
            match batch_entries_failure(quotes@) {
                Some(e) => r == Err::<MiningShareBatchMint, Error>(e) && *final(self) == *old(self),
                None => if !secret_key.valid() {
                    r == Err::<MiningShareBatchMint, Error>(
                        Error::Signature(crate::nuts::nut20::Error::InvalidSecretKey),
                    ) && *final(self) == *old(self)
                } else {
                    &&& is_prepared(
                        *old(self),
                        *final(self),
                        quotes@[0].keyset_id,
                        Amount(entries_total(quotes@) as u64),
                        SplitTarget::NoTarget,
                        prepared_of_batch(r),
                    )
                    &&& r matches Ok(m) ==> {
                        &&& texts(m.request.quote@) == entry_ids(quotes@)
                        &&& m.request.outputs@ == premint_messages(m.premint_secrets.secrets@)
                        &&& m.request.signature matches Some(signatures)
                        &&& signatures@.len() == quotes@.len()
                        &&& forall|i: int|
                            0 <= i < signatures@.len() ==> is_signature_for(
                                #[trigger] signatures@[i],
                                quotes@[i].quote_id@,
                                m.request.outputs@,
                                *secret_key,
                            )
                        &&& m.payment_request == request_of(
                            old(self).localstore.mint_quotes@,
                            quotes@[0].quote_id@,
                        )
                    }
                },
            },
    {
        if quotes.len() == 0 {
            return Err(Error::BatchEmpty);
        }
        let keyset_id: Id = quotes[0].keyset_id;
        let mut k: usize = 0;
        while k < quotes.len()
            invariant
                k <= quotes.len(),
                quotes@.len() > 0,
                keyset_id == quotes@[0].keyset_id,
                forall|i: int| 0 <= i < k ==> (#[trigger] quotes@[i]).keyset_id@ == quotes@[0].keyset_id@,
            decreases quotes.len() - k,
        {
            if quotes[k].keyset_id != keyset_id {
                return Err(Error::BatchKeysetMismatch);
            }
            k = k + 1;
        }
        let mut total_amount: u64 = 0;
        let mut j: usize = 0;
        while j < quotes.len()
            invariant
                j <= quotes.len(),
                quotes@.len() > 0,
                forall|i: int|
                    0 <= i < quotes@.len() ==> (#[trigger] quotes@[i]).keyset_id@
                        == quotes@[0].keyset_id@,
                total_amount as nat == entries_total(quotes@.take(j as int)),
            decreases quotes.len() - j,
        {
            proof {
                assert(quotes@.take(j + 1).drop_last() =~= quotes@.take(j as int));
                lemma_entries_total_prefix(quotes@, j + 1);
            }
            total_amount = match total_amount.checked_add(quotes[j].amount.0) {
                Some(t) => t,
                None => {
                    return Err(Error::AmountOverflow);
                },
            };
            j = j + 1;
        }
        proof {
            assert(quotes@.take(j as int) =~= quotes@);
        }
        if total_amount == 0 {
            return Err(Error::AmountUndefined);
        }
        if secret_key.public_key().is_err() {
            return Err(Error::Signature(crate::nuts::nut20::Error::InvalidSecretKey));
        }
        let payment_request: Option<String> = match self.localstore.get_mint_quote(
            quotes[0].quote_id.as_str(),
        ) {
            Some(quote) => Some(quote.request.clone()),
            None => None,
        };
        let premint_secrets: PreMintSecrets = match self.prepare_premint_secrets(
            keyset_id,
            Amount(total_amount),
        ) {
            Ok(pre) => pre,
            Err(e) => {
                return Err(e);
            },
        };
        let blinded_messages: Vec<BlindedMessage> = premint_secrets.blinded_messages();
        let mut batch_signatures: Vec<Option<String>> = Vec::new();
        let mut quote_ids: Vec<String> = Vec::new();
        let mut n: usize = 0;
        while n < quotes.len()
            invariant
                n <= quotes.len(),
                secret_key.valid(),
                quote_ids@.len() == n,
                batch_signatures@.len() == n,
                forall|i: int| 0 <= i < n ==> (#[trigger] quote_ids@[i])@ == quotes@[i].quote_id@,
                forall|i: int|
                    0 <= i < n ==> is_signature_for(
                        #[trigger] batch_signatures@[i],
                        quotes@[i].quote_id@,
                        blinded_messages@,
                        *secret_key,
                    ),
            decreases quotes.len() - n,
        {
            let signature: String = match sign_request(
                &quotes[n].quote_id,
                &blinded_messages,
                secret_key,
            ) {
                Ok(s) => s,
                Err(e) => {
                    return Err(Error::Signature(e));
                },
            };
            quote_ids.push(quotes[n].quote_id.clone());
            batch_signatures.push(Some(signature));
            n = n + 1;
        }
        proof {
            assert(texts(quote_ids@) =~= entry_ids(quotes@));
        }
        Ok(
            MiningShareBatchMint {
                request: BatchMintRequest {
                    quote: quote_ids,
                    outputs: blinded_messages,
                    signature: Some(batch_signatures),
                },
                premint_secrets,
                payment_request,
            },
        )
    }

    /// Takes the state of a mining share quote that the mint told,
    /// `response`, into the wallet's record of the quote: the record is
    /// brought up to date, or made where the wallet had none. The response is
    /// handed back.
    pub fn mint_quote_state_mining_share(
        &mut self,
        quote_id: &str,
        response: MintQuoteMiningShareResponse<String>,
    ) -> (r: Result<MintQuoteMiningShareResponse<String>, Error>)
        ensures
            r == Ok::<MintQuoteMiningShareResponse<String>, Error>(response),
            final(self).mint_url == old(self).mint_url,
            final(self).unit == old(self).unit,
            final(self).seed == old(self).seed,
            final(self).localstore == (WalletStore {
                mint_quotes: final(self).localstore.mint_quotes,
                ..old(self).localstore
            }),
            quote_of(final(self).localstore.mint_quotes@, quote_id@) matches Some(quote) && is_recorded(
                quote,
                quote_of(old(self).localstore.mint_quotes@, quote_id@),
                *old(self),
                quote_id@,
                response,
            ) && final(self).localstore.mint_quotes@ == with_quote(
                old(self).localstore.mint_quotes@,
                quote,
            ),
    {
        let paid: Amount = match response.amount {
            Some(a) => a,
            None => Amount(0),
        };
        let state: MintQuoteState = response.state.to_mint_quote_state();
        let quote: MintQuote = match self.localstore.get_mint_quote(quote_id) {
            Some(had) => {
                let mut quote: MintQuote = had.clone();
                quote.state = state;
                quote.keyset_id = Some(response.keyset_id);
                quote.amount_issued = response.amount_issued;
                quote.amount_paid = paid;
                proof {
                    crate::table::lemma_found(
                        crate::wallet::store::quote_ids(self.localstore.mint_quotes@),
                        quote_id@,
                    );
                }
                quote
            },
            None => MintQuote {
                id: quote_id.to_owned(),
                mint_url: self.mint_url.clone(),
                payment_method: PaymentMethod::MiningShare,
                amount: response.amount,
                unit: match &response.unit {
                    Some(u) => u.clone(),
                    None => self.unit.clone(),
                },
                request: response.request.clone(),
                state,
                expiry: match response.expiry {
                    Some(e) => e,
                    None => 0,
                },
                secret_key: None,
                amount_issued: response.amount_issued,
                amount_paid: paid,
                keyset_id: Some(response.keyset_id),
            },
        };
        proof {
            crate::wallet::store::lemma_with_quote(self.localstore.mint_quotes@, quote, quote_id@);
        }
        self.localstore.add_mint_quote(quote);
        Ok(response)
    }
}

} // verus!
