use cdk::amount::{Amount, Error as AmountError, SplitTarget};
use cdk::dhke::blind_message;
use cdk::error::Error;
use cdk::hashpool::MintQuoteLookupItem;
use cdk::mint::keysets::MintKeySet;
use cdk::mint::Mint;
use cdk::nuts::nut00::{BlindSignature, CurrencyUnit, MintQuoteState, PaymentMethod, PreMintSecrets, Secret};
use cdk::nuts::nut01::{Keys, PublicKey, SecretKey};
use cdk::nuts::nut02::{Error as KeysetError, Id, KeySet, KeySetInfo};
use cdk::nuts::nut04::{MintQuoteBolt11Response, MintRequest};
use cdk::nuts::nut11::SpendingConditions;
use cdk::nuts::nut13::Error as DerivationError;
use cdk::nuts::nut20::Error as SignatureError;
use cdk::nuts::nutxx::Error as ShareError;
use cdk::quote_id::Uuid;
use cdk::wallet::issue::issue_mining_share::join_ids;
use cdk::wallet::keysets::lowest_fee_keyset;
use cdk::wallet::mint::QuoteCheck;
use cdk::wallet::store::WalletStore;
use cdk::wallet::types::{MiningShareBatchEntry, MintInfo, MintMethodSettings, MintQuote};
use cdk::wallet::Wallet;

const URL: &str = "https://mint.example";

fn hash_unit() -> CurrencyUnit {
    CurrencyUnit::Custom("HASH".to_string())
}

fn mint_keyset(seed: u8, unit: CurrencyUnit, active: bool, fee: u64) -> MintKeySet {
    let path = vec![0x8000_0000, 0x8000_0000 + 1337, 0x8000_0000];
    MintKeySet::generate(&[seed; 32], &path, 9, unit, active, fee).unwrap()
}

fn empty_wallet() -> Wallet {
    Wallet::new(URL.to_string(), hash_unit(), vec![5; 64])
}

fn setup() -> (Mint, Wallet, Id) {
    let keyset = mint_keyset(3, hash_unit(), true, 0);
    let id = keyset.id;
    let mut wallet = empty_wallet();
    wallet.add_keyset(Keys::new(keyset.public_keys()).unwrap(), true, 0).unwrap();
    let mut mint = Mint::new(100, 1000);
    mint.add_keyset(keyset);
    (mint, wallet, id)
}

fn info(id: u8, unit: CurrencyUnit, active: bool, fee: u64) -> KeySetInfo {
    KeySetInfo { id: Id { bytes: [0, id, 0, 0, 0, 0, 0, 0] }, unit, active, input_fee_ppk: fee }
}

fn quote(id: &str, amount: u64, state: MintQuoteState) -> MintQuote {
    let mut q = MintQuote::new(
        id.to_string(),
        URL.to_string(),
        PaymentMethod::Bolt11,
        Some(Amount(amount)),
        hash_unit(),
        format!("lnbc-{}", id),
        0,
        None,
    );
    q.state = state;
    q
}

fn paid_lightning_quote(mint: &mut Mint, wallet: &mut Wallet, n: u128, amount: u64) -> String {
    mint.create_mint_bolt11_quote(Uuid(n), Amount(amount), hash_unit(), "lnbc".to_string(), None, 0).unwrap();
    mint.pay_mint_quote(Uuid(n)).unwrap();
    let id = Uuid(n).to_string();
    wallet.localstore.add_mint_quote(quote(&id, amount, MintQuoteState::Paid));
    id
}

#[test]
fn store_keeps_one_quote_for_each_identifier() {
    let mut store = WalletStore::new();
    assert_eq!(store, WalletStore::default());
    assert_eq!(store.get_mint_quote("a"), None);
    store.add_mint_quote(quote("a", 1, MintQuoteState::Unpaid));
    store.add_mint_quote(quote("b", 2, MintQuoteState::Unpaid));
    store.add_mint_quote(quote("a", 3, MintQuoteState::Paid));
    assert_eq!(store.mint_quotes.len(), 2);
    assert_eq!(store.get_mint_quote("a"), Some(&quote("a", 3, MintQuoteState::Paid)));
    assert_eq!(store.get_mint_quote("b").unwrap().amount, Some(Amount(2)));
    store.remove_mint_quote("c");
    assert_eq!(store.mint_quotes.len(), 2);
    store.remove_mint_quote("a");
    assert_eq!(store.get_mint_quote("a"), None);
    assert_eq!(store.mint_quotes.len(), 1);
}

#[test]
fn store_counters_go_up() {
    let mut store = WalletStore::new();
    let (a, b) = (Id { bytes: [1; 8] }, Id { bytes: [2; 8] });
    assert_eq!(store.get_keyset_counter(&a), None);
    assert_eq!(store.increment_keyset_counter(&a, 3), Ok(3));
    assert_eq!(store.increment_keyset_counter(&a, 2), Ok(5));
    assert_eq!(store.increment_keyset_counter(&b, 1), Ok(1));
    assert_eq!(store.increment_keyset_counter(&a, 0), Ok(5));
    assert_eq!(store.get_keyset_counter(&a), Some(5));
    assert_eq!(store.get_keyset_counter(&b), Some(1));
    assert_eq!(store.increment_keyset_counter(&a, u32::MAX - 5), Ok(u32::MAX));
    let before = store.keyset_counters.clone();
    assert_eq!(store.increment_keyset_counter(&a, 1), Err(Error::CounterOverflow));
    assert_eq!(store.keyset_counters, before);
}

#[test]
fn store_keeps_keysets_by_mint() {
    let mut store = WalletStore::new();
    let url = URL.to_string();
    let other = "https://other.example".to_string();
    assert_eq!(store.get_mint_keysets(&url), None);
    store.add_mint_keyset(url.clone(), info(1, hash_unit(), true, 0));
    store.add_mint_keyset(other.clone(), info(1, hash_unit(), true, 7));
    store.add_mint_keyset(url.clone(), info(2, hash_unit(), false, 0));
    store.add_mint_keyset(url.clone(), info(1, hash_unit(), false, 9));
    assert_eq!(
        store.get_mint_keysets(&url),
        Some(vec![info(1, hash_unit(), false, 9), info(2, hash_unit(), false, 0)])
    );
    assert_eq!(store.get_mint_keysets(&other), Some(vec![info(1, hash_unit(), true, 7)]));
    assert_eq!(store.get_keyset(&url, &Id { bytes: [0, 2, 0, 0, 0, 0, 0, 0] }), Some(&info(2, hash_unit(), false, 0)));
    assert_eq!(store.get_keyset(&other, &Id { bytes: [0, 2, 0, 0, 0, 0, 0, 0] }), None);
    let key = SecretKey::generate().public_key().unwrap();
    let id = Id { bytes: [3; 8] };
    assert_eq!(store.get_keys(&id), None);
    store.add_keys(id, Keys::new(vec![(1, key)]).unwrap());
    store.add_keys(id, Keys::new(vec![]).unwrap());
    assert_eq!(store.get_keys(&id), Some(&Keys::new(vec![(1, key)]).unwrap()));
    assert!(store.get_mint(&url).is_none());
    store.add_mint(url.clone(), MintInfo { name: None, nut04: vec![] });
    store.add_mint(url.clone(), MintInfo { name: Some("m".to_string()), nut04: vec![] });
    assert_eq!(store.mints.len(), 1);
    assert_eq!(store.get_mint(&url).unwrap().name, Some("m".to_string()));
}

#[test]
fn store_keeps_premint_secrets_by_quote() {
    let mut store = WalletStore::new();
    let id = Id { bytes: [1; 8] };
    assert_eq!(store.get_premint_secrets("a"), None);
    store.add_premint_secrets("a".to_string(), PreMintSecrets::new(id));
    store.add_premint_secrets("b".to_string(), PreMintSecrets::new(Id { bytes: [2; 8] }));
    store.add_premint_secrets("a".to_string(), PreMintSecrets::new(Id { bytes: [3; 8] }));
    assert_eq!(store.premint_secrets.len(), 2);
    assert_eq!(store.get_premint_secrets("a").unwrap().keyset_id, Id { bytes: [3; 8] });
    store.remove_premint_secrets("a");
    store.remove_premint_secrets("zz");
    assert_eq!(store.get_premint_secrets("a"), None);
    assert_eq!(store.get_premint_secrets("b").unwrap().keyset_id, Id { bytes: [2; 8] });
    assert_eq!(PreMintSecrets::new(id).copy(), PreMintSecrets::new(id));
}

#[test]
fn the_wallet_mints_with_the_cheapest_active_keyset() {
    let mut wallet = empty_wallet();
    assert_eq!(wallet.get_active_mint_keyset_local(), Err(Error::NoActiveKeyset));
    let keysets = vec![
        info(5, hash_unit(), true, 10),
        info(4, hash_unit(), true, 2),
        info(3, hash_unit(), false, 0),
        info(2, CurrencyUnit::Sat, true, 0),
        info(1, hash_unit(), true, 2),
    ];
    assert_eq!(lowest_fee_keyset(&keysets, &hash_unit()), Ok(info(1, hash_unit(), true, 2)));
    assert_eq!(lowest_fee_keyset(&keysets, &CurrencyUnit::Sat), Ok(info(2, CurrencyUnit::Sat, true, 0)));
    assert_eq!(lowest_fee_keyset(&keysets, &CurrencyUnit::Usd), Err(Error::NoActiveKeyset));
    assert_eq!(lowest_fee_keyset(&vec![], &hash_unit()), Err(Error::NoActiveKeyset));

    assert_eq!(wallet.get_mint_keysets(keysets.clone()), Ok(keysets.clone()));
    assert_eq!(wallet.localstore.keysets.len(), 5);
    assert_eq!(wallet.get_active_mint_keyset_local(), Ok(info(1, hash_unit(), true, 2)));
    // Keysets of another mint do not count.
    wallet.localstore.add_mint_keyset("https://other.example".to_string(), info(9, hash_unit(), true, 0));
    assert_eq!(wallet.get_active_mint_keyset_local(), Ok(info(1, hash_unit(), true, 2)));
}

#[test]
fn fetched_keysets_are_stored_and_sorted_out() {
    let (_mint, mut wallet, id) = setup();
    let known = KeySetInfo { id, unit: hash_unit(), active: true, input_fee_ppk: 3 };
    let keysets = vec![
        info(5, hash_unit(), true, 10),
        known.clone(),
        info(3, hash_unit(), false, 0),
        info(2, CurrencyUnit::Sat, true, 0),
    ];
    let (active, to_fetch) = wallet.get_active_mint_keysets(keysets.clone()).unwrap();
    assert_eq!(active, vec![info(5, hash_unit(), true, 10), known.clone()]);
    assert_eq!(to_fetch, vec![keysets[0].id, keysets[2].id, keysets[3].id]);
    // The record of the known keyset is brought up to date.
    assert_eq!(wallet.localstore.get_keyset(&URL.to_string(), &id), Some(&known));
    let (pick, to_fetch) = wallet.get_active_mint_keyset(keysets.clone()).unwrap();
    assert_eq!(pick, known);
    assert_eq!(to_fetch.len(), 3);
    assert_eq!(
        wallet.get_active_mint_keyset(vec![info(3, hash_unit(), false, 0)]),
        Err(Error::NoActiveKeyset)
    );
}

#[test]
fn keys_of_a_keyset_come_from_the_store_or_from_the_mint() {
    let (_mint, mut wallet, id) = setup();
    let stored = wallet.load_keyset_keys(id).unwrap();
    assert_eq!(wallet.get_keyset_keys(id, None), Ok(stored.copy()));
    let other = mint_keyset(9, hash_unit(), true, 0);
    assert_eq!(wallet.load_keyset_keys(other.id), Err(Error::UnknownKeyset));
    assert_eq!(wallet.get_keyset_keys(other.id, None), Err(Error::UnknownKeyset));
    let keys = Keys::new(other.public_keys()).unwrap();
    let wrong = KeySet { id: Id { bytes: [0; 8] }, unit: hash_unit(), keys: keys.copy() };
    assert_eq!(
        wallet.get_keyset_keys(other.id, Some(wrong)),
        Err(Error::Keyset(KeysetError::IncorrectKeysetId))
    );
    assert_eq!(wallet.load_keyset_keys(other.id), Err(Error::UnknownKeyset));
    let fetched = KeySet { id: other.id, unit: hash_unit(), keys: keys.copy() };
    assert_eq!(wallet.get_keyset_keys(other.id, Some(fetched)), Ok(keys.copy()));
    assert_eq!(wallet.load_keyset_keys(other.id), Ok(keys));
}

#[test]
fn add_keyset_keeps_keys_and_record() {
    let mut wallet = empty_wallet();
    let keyset = mint_keyset(3, hash_unit(), true, 0);
    let keys = Keys::new(keyset.public_keys()).unwrap();
    assert_eq!(wallet.add_keyset(keys.copy(), true, 7), Ok(()));
    assert_eq!(wallet.load_keyset_keys(keyset.id), Ok(keys));
    let active = wallet.get_active_mint_keyset_local().unwrap();
    assert_eq!(active, KeySetInfo { id: keyset.id, unit: hash_unit(), active: true, input_fee_ppk: 7 });
    let f = wallet.get_keyset_fees_and_amounts_by_id(keyset.id).unwrap();
    assert_eq!(f.fee, 7);
    assert_eq!(f.amounts, vec![1, 2, 4, 8, 16, 32, 64, 128, 256]);
    assert_eq!(wallet.get_keyset_fees_and_amounts_by_id(Id { bytes: [9; 8] }), Err(Error::UnknownKeyset));
}

#[test]
fn prepare_raises_the_counter_before_it_derives() {
    let (_mint, mut wallet, id) = setup();
    let seed = vec![5u8; 64];
    let first = wallet.prepare_premint_secrets(id, Amount(5)).unwrap();
    assert_eq!(wallet.localstore.get_keyset_counter(&id), Some(2));
    let second = wallet.prepare_premint_secrets(id, Amount(7)).unwrap();
    assert_eq!(wallet.localstore.get_keyset_counter(&id), Some(5));
    let derived: Vec<Secret> = (0..5).map(|c| Secret::from_seed(&seed, id, c).unwrap()).collect();
    assert_eq!(first.secrets(), derived[0..2].to_vec());
    assert_eq!(second.secrets(), derived[2..5].to_vec());
    assert_eq!(first.total_amount(), Ok(Amount(5)));
    assert_eq!(second.total_amount(), Ok(Amount(7)));
    let with_target = wallet
        .prepare_premint_secrets_for(id, Amount(6), &SplitTarget::Value(Amount(2)))
        .unwrap();
    let amounts: Vec<u64> = with_target.secrets.iter().map(|p| p.amount.0).collect();
    assert_eq!(amounts, vec![2, 2, 2]);
    assert_eq!(wallet.localstore.get_keyset_counter(&id), Some(8));
    // Nothing to derive raises nothing.
    assert!(wallet.prepare_premint_secrets(id, Amount(0)).unwrap().is_empty());
    assert_eq!(wallet.localstore.get_keyset_counter(&id), Some(8));
}

#[test]
fn prepare_leaves_the_wallet_as_it_was_on_an_error() {
    let (_mint, mut wallet, id) = setup();
    wallet.localstore.increment_keyset_counter(&id, 4).unwrap();
    let before = wallet.localstore.keyset_counters.clone();
    assert_eq!(wallet.prepare_premint_secrets(Id { bytes: [9; 8] }, Amount(5)), Err(Error::UnknownKeyset));
    // The keyset has no key for 512.
    assert_eq!(
        wallet.prepare_premint_secrets(id, Amount(512)),
        Err(Error::Amount(AmountError::InvalidDenomination))
    );
    assert_eq!(
        wallet.prepare_premint_secrets_for(id, Amount(5), &SplitTarget::Values(vec![Amount(8)])),
        Err(Error::Amount(AmountError::SplitValuesGreater))
    );
    assert_eq!(wallet.localstore.keyset_counters, before);
    wallet.localstore.increment_keyset_counter(&id, u32::MAX - 5).unwrap();
    let before = wallet.localstore.keyset_counters.clone();
    assert_eq!(wallet.prepare_premint_secrets(id, Amount(3)), Err(Error::CounterOverflow));
    assert_eq!(wallet.localstore.keyset_counters, before);
}

#[test]
fn prepare_keeps_the_counter_where_the_derivation_fails() {
    let (_mint, mut wallet, id) = setup();
    // The counters from 2^31 - 1 on: the second is beyond the hardened range.
    wallet.localstore.increment_keyset_counter(&id, 0x7fff_ffff).unwrap();
    assert_eq!(
        wallet.prepare_premint_secrets(id, Amount(3)),
        Err(Error::Derivation(DerivationError::InvalidChildNumber))
    );
    assert_eq!(wallet.localstore.get_keyset_counter(&id), Some(0x8000_0001));
}

#[test]
fn mint_mining_share_refuses_what_is_no_key() {
    let (_mint, mut wallet, id) = setup();
    let before = wallet.localstore.keyset_counters.clone();
    assert_eq!(
        wallet.mint_mining_share("q", Amount(5), id, SecretKey { bytes: [0; 32] }),
        Err(Error::Signature(SignatureError::InvalidSecretKey))
    );
    assert_eq!(wallet.localstore.keyset_counters, before);
    assert_eq!(
        wallet.mint_mining_share("q", Amount(5), Id { bytes: [9; 8] }, SecretKey::generate()),
        Err(Error::UnknownKeyset)
    );
    let key = SecretKey::generate();
    let m = wallet.mint_mining_share("q", Amount(5), id, key).unwrap();
    assert_eq!(m.request.outputs, m.premint_secrets.blinded_messages());
    assert_eq!(m.payment_request, None);
    assert_eq!(m.request.verify_signature(key.public_key().unwrap()), Ok(()));
}

fn entry(quote: &str, amount: u64, keyset_id: Id) -> MiningShareBatchEntry {
    MiningShareBatchEntry { quote_id: quote.to_string(), amount: Amount(amount), keyset_id }
}

#[test]
fn mining_share_batch_is_checked() {
    let (_mint, mut wallet, id) = setup();
    let key = SecretKey::generate();
    let before = wallet.localstore.keyset_counters.clone();
    let other = Id { bytes: [9; 8] };
    let cases: Vec<(Vec<MiningShareBatchEntry>, Error)> = vec![
        (vec![], Error::BatchEmpty),
        (vec![entry("a", 1, id), entry("b", 2, other)], Error::BatchKeysetMismatch),
        (vec![entry("a", u64::MAX, id), entry("b", 1, id)], Error::AmountOverflow),
        (vec![entry("a", 0, id), entry("b", 0, id)], Error::AmountUndefined),
        (vec![entry("a", 1, other)], Error::UnknownKeyset),
        (vec![entry("a", 512, id)], Error::Amount(AmountError::InvalidDenomination)),
    ];
    for (entries, error) in cases {
        assert_eq!(wallet.mint_mining_share_batch(&entries, &key), Err(error));
        assert_eq!(wallet.localstore.keyset_counters, before);
    }
    // The keyset mismatch is found before the overflow, and the overflow before the key.
    assert_eq!(
        wallet.mint_mining_share_batch(&vec![entry("a", u64::MAX, id), entry("b", 1, other)], &key),
        Err(Error::BatchKeysetMismatch)
    );
    assert_eq!(
        wallet.mint_mining_share_batch(&vec![entry("a", 1, id)], &SecretKey { bytes: [0; 32] }),
        Err(Error::Signature(SignatureError::InvalidSecretKey))
    );
}

#[test]
fn mining_share_batch_mints_for_all_quotes() {
    let (mut mint, mut wallet, id) = setup();
    let key = SecretKey::generate();
    let mut entries = Vec::new();
    for (n, amount) in [1u64, 2, 4].iter().enumerate() {
        let made = wallet
            .create_mining_share_quote(Amount(*amount), [n as u8 + 1; 32], key.public_key().unwrap())
            .unwrap();
        let response = mint.create_mint_mining_share_quote(Uuid(n as u128), &made.request).unwrap();
        wallet.mint_quote_state_mining_share(&response.quote.to_string(), response.to_string_id()).unwrap();
        entries.push(entry(&response.quote.to_string(), *amount, id));
    }
    entries.push(entry("nothing", 0, id));
    entries.pop();
    let m = wallet.mint_mining_share_batch(&entries, &key).unwrap();
    assert_eq!(m.request.quote, entries.iter().map(|e| e.quote_id.clone()).collect::<Vec<_>>());
    assert_eq!(m.request.outputs, m.premint_secrets.blinded_messages());
    assert_eq!(m.premint_secrets.total_amount(), Ok(Amount(7)));
    assert_eq!(m.payment_request, Some("01".repeat(32)));
    let signatures = m.request.signature.clone().unwrap();
    assert_eq!(signatures.len(), 3);
    for (quote, signature) in m.request.quote.iter().zip(&signatures) {
        let single = MintRequest { quote: quote.clone(), outputs: m.request.outputs.clone(), signature: signature.clone() };
        assert_eq!(single.verify_signature(key.public_key().unwrap()), Ok(()));
    }
    let answer = mint.process_batch_mint_request(&m.request, PaymentMethod::MiningShare, 5).unwrap();
    let proofs = wallet
        .finalize_mining_share_proofs(answer, m.premint_secrets, id, &m.request.quote, m.payment_request, 5)
        .unwrap();
    assert_eq!(proofs.iter().map(|p| p.amount.0).collect::<Vec<_>>(), vec![4, 2, 1]);
    assert!(mint.quotes.iter().all(|q| q.state == MintQuoteState::Issued));
    assert_eq!(wallet.localstore.transactions[0].quote_id, Some(m.request.quote.join(",")));
}

fn minted(mint: &mut Mint, wallet: &mut Wallet, id: Id, amount: u64, n: u128) -> (Vec<BlindSignature>, PreMintSecrets) {
    let quote = paid_lightning_quote(mint, wallet, n, amount);
    let premint = wallet.prepare_premint_secrets(id, Amount(amount)).unwrap();
    let request = MintRequest { quote, outputs: premint.blinded_messages(), signature: None };
    (mint.process_mint_request(&request, 0).unwrap(), premint)
}

#[test]
fn finalize_refuses_signatures_that_do_not_verify() {
    let (mut mint, mut wallet, id) = setup();
    let (signatures, premint) = minted(&mut mint, &mut wallet, id, 5, 1);
    let ids = vec!["q".to_string()];
    let before_proofs = wallet.localstore.proofs.len();

    // A signature with the proof of another.
    let mut swapped = signatures.clone();
    swapped[0].dleq = signatures[1].dleq;
    assert_eq!(
        wallet.finalize_mining_share_proofs(swapped, premint.copy(), id, &ids, None, 0),
        Err(Error::CouldNotVerifyDleq)
    );
    // A signature for another amount: the proof is checked against another key.
    let mut other_amount = signatures.clone();
    other_amount[0].amount = Amount(2);
    assert_eq!(
        wallet.finalize_mining_share_proofs(other_amount, premint.copy(), id, &ids, None, 0),
        Err(Error::CouldNotVerifyDleq)
    );
    // A changed signature.
    let mut other_c = signatures.clone();
    other_c[1].c = signatures[0].c;
    assert_eq!(
        wallet.finalize_mining_share_proofs(other_c, premint.copy(), id, &ids, None, 0),
        Err(Error::CouldNotVerifyDleq)
    );
    // An amount that the keyset has no key for.
    let mut no_key = signatures.clone();
    no_key[0].amount = Amount(3);
    assert_eq!(
        wallet.finalize_mining_share_proofs(no_key, premint.copy(), id, &ids, None, 0),
        Err(Error::AmountKey)
    );
    // A keyset that the wallet does not know.
    let mut unknown = signatures.clone();
    unknown[0].keyset_id = Id { bytes: [9; 8] };
    assert_eq!(
        wallet.finalize_mining_share_proofs(unknown, premint.copy(), id, &ids, None, 0),
        Err(Error::UnknownKeyset)
    );
    assert_eq!(
        wallet.finalize_mining_share_proofs(signatures.clone(), premint.copy(), Id { bytes: [9; 8] }, &ids, None, 0),
        Err(Error::UnknownKeyset)
    );
    // Fewer signatures than blinded messages.
    assert_eq!(
        wallet.finalize_mining_share_proofs(vec![signatures[0]], premint.copy(), id, &ids, None, 0),
        Err(Error::Dhke(cdk::dhke::Error::CouldNotGetProofs))
    );
    assert_eq!(wallet.localstore.proofs.len(), before_proofs);
    assert!(wallet.localstore.transactions.is_empty());

    // A signature without a proof is let through.
    let mut bare = signatures.clone();
    bare[0].dleq = None;
    let proofs = wallet.finalize_mining_share_proofs(bare, premint, id, &ids, None, 0).unwrap();
    assert_eq!(proofs.len(), 2);
    assert!(proofs[0].dleq.is_none());
    let d = signatures[1].dleq.unwrap();
    assert_eq!(proofs[1].dleq.map(|p| (p.e, p.s)), Some((d.e, d.s)));
}

#[test]
fn mint_batch_is_checked() {
    let (_mint, mut wallet, _id) = setup();
    wallet.localstore.add_mint_quote(quote("paid", 100, MintQuoteState::Paid));
    wallet.localstore.add_mint_quote(quote("unpaid", 200, MintQuoteState::Unpaid));
    let mut sat = quote("sat", 100, MintQuoteState::Paid);
    sat.unit = CurrencyUnit::Sat;
    wallet.localstore.add_mint_quote(sat);
    let mut bolt12 = quote("bolt12", 100, MintQuoteState::Paid);
    bolt12.payment_method = PaymentMethod::Bolt12;
    wallet.localstore.add_mint_quote(bolt12);
    wallet.localstore.add_mint_quote(quote("zero", 0, MintQuoteState::Paid));
    let mut max = quote("max", u64::MAX, MintQuoteState::Paid);
    max.amount = Some(Amount(u64::MAX));
    wallet.localstore.add_mint_quote(max);
    let before = wallet.localstore.mint_quotes.clone();
    let ids = |names: &[&str]| -> Vec<String> { names.iter().map(|n| n.to_string()).collect() };
    let cases: Vec<(Vec<String>, Error)> = vec![
        (ids(&[]), Error::AmountUndefined),
        (ids(&["nonexistent"]), Error::UnknownQuote),
        (ids(&["paid", "nonexistent"]), Error::UnknownQuote),
        (ids(&["paid", "bolt12"]), Error::UnsupportedPaymentMethod),
        (ids(&["paid", "sat"]), Error::UnsupportedUnit),
        (ids(&["paid", "unpaid"]), Error::UnknownQuote),
        (ids(&["max", "paid"]), Error::AmountOverflow),
        (ids(&["zero"]), Error::AmountUndefined),
        (ids(&["paid", "paid", "paid", "paid", "paid", "paid"]), Error::Amount(AmountError::InvalidDenomination)),
    ];
    for (quotes, error) in cases {
        assert_eq!(wallet.mint_batch(quotes, SplitTarget::NoTarget, None), Err(error));
        assert_eq!(wallet.localstore.mint_quotes, before);
        assert!(wallet.localstore.keyset_counters.is_empty());
    }
    let mut no_keyset = empty_wallet();
    no_keyset.localstore.add_mint_quote(quote("paid", 100, MintQuoteState::Paid));
    assert_eq!(
        no_keyset.mint_batch(ids(&["paid"]), SplitTarget::NoTarget, None),
        Err(Error::NoActiveKeyset)
    );
}

#[test]
fn mint_batch_mints_and_forgets_the_quotes() {
    let (mut mint, mut wallet, id) = setup();
    let q1 = paid_lightning_quote(&mut mint, &mut wallet, 1, 100);
    let q2 = paid_lightning_quote(&mut mint, &mut wallet, 2, 50);
    wallet.localstore.add_mint_quote(quote("other", 1, MintQuoteState::Paid));
    let batch = wallet.mint_batch(vec![q1.clone(), q2.clone()], SplitTarget::NoTarget, None).unwrap();
    assert_eq!(batch.request.quote, vec![q1.clone(), q2.clone()]);
    assert_eq!(batch.status_request.quote, vec![q1.clone(), q2.clone()]);
    assert_eq!(batch.request.signature, None);
    assert_eq!(batch.keyset_id, id);
    assert_eq!(batch.unit, hash_unit());
    assert_eq!(batch.payment_request, format!("lnbc-{}", q1));
    assert_eq!(batch.premint_secrets.total_amount(), Ok(Amount(150)));
    let amounts: Vec<u64> = batch.request.outputs.iter().map(|o| o.amount.0).collect();
    assert_eq!(amounts, vec![128, 16, 4, 2]);
    assert_eq!(wallet.localstore.get_keyset_counter(&id), Some(4));
    let signatures = mint.process_batch_mint_request(&batch.request, PaymentMethod::Bolt11, 7).unwrap();
    let proofs = wallet
        .mint_batch_finish(
            &batch.request.quote,
            batch.premint_secrets,
            batch.keyset_id,
            batch.unit,
            batch.payment_request.clone(),
            signatures,
            7,
        )
        .unwrap();
    assert_eq!(proofs.iter().map(|p| p.amount.0).collect::<Vec<_>>(), vec![128, 16, 4, 2]);
    assert_eq!(wallet.localstore.get_mint_quote(&q1), None);
    assert_eq!(wallet.localstore.get_mint_quote(&q2), None);
    assert!(wallet.localstore.get_mint_quote("other").is_some());
    assert_eq!(wallet.localstore.proofs.len(), 4);
    let transaction = &wallet.localstore.transactions[0];
    assert_eq!(transaction.amount, Amount(150));
    assert_eq!(transaction.quote_id, Some(format!("{},{}", q1, q2)));
    assert_eq!(transaction.payment_request, Some(batch.payment_request));
    assert_eq!(transaction.timestamp, 7);
}

#[test]
fn mint_batch_finish_leaves_the_wallet_as_it_was_on_an_error() {
    let (mut mint, mut wallet, id) = setup();
    let (signatures, premint) = minted(&mut mint, &mut wallet, id, 5, 1);
    let ids = vec![Uuid(1).to_string()];
    let mut tampered = signatures.clone();
    tampered[0].c = signatures[1].c;
    assert_eq!(
        wallet.mint_batch_finish(&ids, premint, id, hash_unit(), "r".to_string(), tampered, 0),
        Err(Error::CouldNotVerifyDleq)
    );
    assert!(wallet.localstore.get_mint_quote(&ids[0]).is_some());
    assert!(wallet.localstore.proofs.is_empty());
    assert!(wallet.localstore.transactions.is_empty());
}

#[test]
fn mint_batch_with_conditions_makes_random_secrets() {
    let (mut mint, mut wallet, id) = setup();
    let q1 = paid_lightning_quote(&mut mint, &mut wallet, 1, 3);
    let lock = SecretKey::generate().public_key().unwrap();
    let conditions = SpendingConditions::P2PK { data: lock };
    let batch = wallet.mint_batch(vec![q1.clone()], SplitTarget::NoTarget, Some(conditions)).unwrap();
    // No counter is raised.
    assert_eq!(wallet.localstore.get_keyset_counter(&id), None);
    assert_eq!(batch.premint_secrets.len(), 2);
    let texts: Vec<String> = batch.premint_secrets.secrets.iter().map(|p| p.secret.text.clone()).collect();
    assert_ne!(texts[0], texts[1]);
    for (text, premint) in texts.iter().zip(&batch.premint_secrets.secrets) {
        assert!(text.starts_with("[\"P2PK\",{\"nonce\":\""));
        assert!(text.ends_with(&format!("\",\"data\":\"{}\"}}]", lock.to_hex())));
        assert_eq!(text.len(), 18 + 64 + 10 + 66 + 3);
        let (b, _) = blind_message(text.as_bytes(), Some(premint.r)).unwrap();
        assert_eq!(premint.blinded_message.blinded_secret, b);
    }
    let signatures = mint.process_batch_mint_request(&batch.request, PaymentMethod::Bolt11, 0).unwrap();
    let proofs = wallet
        .mint_batch_finish(&vec![q1], batch.premint_secrets, id, batch.unit, batch.payment_request, signatures, 0)
        .unwrap();
    assert_eq!(proofs[0].secret.text, texts[0]);
}

#[test]
fn conditions_are_written_into_the_secret() {
    let lock = PublicKey::from_hex("0279be667ef9dcbbac55a06295ce870b07029bfcdb2dce28d959f2815b16f81798").unwrap();
    let mut nonce = [0u8; 32];
    nonce[31] = 0xab;
    assert_eq!(
        SpendingConditions::P2PK { data: lock }.to_secret(&nonce).text,
        format!(
            "[\"P2PK\",{{\"nonce\":\"{}ab\",\"data\":\"0279be667ef9dcbbac55a06295ce870b07029bfcdb2dce28d959f2815b16f81798\"}}]",
            "00".repeat(31)
        )
    );
    assert_eq!(
        SpendingConditions::HTLC { hash: [0x11; 32] }.to_secret(&nonce).text,
        format!("[\"HTLC\",{{\"nonce\":\"{}ab\",\"data\":\"{}\"}}]", "00".repeat(31), "11".repeat(32))
    );
}

#[test]
fn a_quote_with_a_description_needs_a_mint_that_takes_one() {
    let mut wallet = empty_wallet();
    let (request, key) = wallet.mint_quote(Amount(100), None).unwrap();
    assert_eq!(request.amount, Amount(100));
    assert_eq!(request.unit, hash_unit());
    assert_eq!(request.description, None);
    assert_eq!(request.pubkey, Some(key.public_key().unwrap()));
    let text = Some("coffee".to_string());
    assert_eq!(wallet.mint_quote(Amount(100), text.clone()), Err(Error::IncorrectMint));
    let settings = |unit: CurrencyUnit, method: PaymentMethod, description: bool| MintMethodSettings { method, unit, description };
    wallet.localstore.add_mint(URL.to_string(), MintInfo { name: None, nut04: vec![settings(CurrencyUnit::Sat, PaymentMethod::Bolt11, true), settings(hash_unit(), PaymentMethod::MiningShare, true)] });
    assert_eq!(wallet.mint_quote(Amount(100), text.clone()), Err(Error::UnsupportedUnit));
    wallet.localstore.add_mint(URL.to_string(), MintInfo { name: None, nut04: vec![settings(hash_unit(), PaymentMethod::Bolt11, false), settings(hash_unit(), PaymentMethod::Bolt11, true)] });
    assert_eq!(wallet.mint_quote(Amount(100), text.clone()), Err(Error::InvoiceDescriptionUnsupported));
    wallet.localstore.add_mint(URL.to_string(), MintInfo { name: None, nut04: vec![settings(hash_unit(), PaymentMethod::Bolt11, true)] });
    let (request, _) = wallet.mint_quote(Amount(100), text.clone()).unwrap();
    assert_eq!(request.description, text);
}

#[test]
fn a_lightning_quote_is_kept_minted_and_forgotten() {
    let (mut mint, mut wallet, id) = setup();
    let (request, key) = wallet.mint_quote(Amount(6), None).unwrap();
    let response = mint
        .create_mint_bolt11_quote(Uuid(1), request.amount, request.unit, "lnbc6".to_string(), request.pubkey, 100)
        .unwrap();
    let text = MintQuoteBolt11Response {
        quote: response.quote.to_string(),
        request: response.request.clone(),
        amount: response.amount,
        unit: response.unit.clone(),
        state: response.state,
        expiry: response.expiry,
        pubkey: response.pubkey,
    };
    let quote = wallet.mint_quote_finish(text, Amount(6), key);
    let quote_id = Uuid(1).to_string();
    assert_eq!(quote.id, quote_id);
    assert_eq!(quote.state, MintQuoteState::Unpaid);
    assert_eq!(quote.expiry, 1100);
    assert_eq!(quote.secret_key, Some(key));
    assert_eq!(quote.amount, Some(Amount(6)));
    assert_eq!(wallet.localstore.get_mint_quote(&quote_id), Some(&quote));
    assert_eq!(wallet.check_all_mint_quotes(), vec![quote_id.clone()]);

    // Not paid yet: the mint refuses, and the wallet keeps the quote.
    let early = wallet.mint(&quote_id, SplitTarget::NoTarget, None, 200).unwrap();
    assert_eq!(mint.process_mint_request(&early.request, 200), Err(Error::UnpaidQuote));
    assert_eq!(wallet.check_mint_quote(&quote_id, MintQuoteState::Unpaid, 200), QuoteCheck::Kept);

    mint.pay_mint_quote(Uuid(1)).unwrap();
    let told = MintQuoteBolt11Response {
        quote: quote_id.clone(),
        request: "lnbc6".to_string(),
        amount: Some(Amount(6)),
        unit: Some(hash_unit()),
        state: MintQuoteState::Paid,
        expiry: Some(1100),
        pubkey: response.pubkey,
    };
    wallet.mint_quote_state(&quote_id, told).unwrap();
    assert_eq!(wallet.localstore.get_mint_quote(&quote_id).unwrap().state, MintQuoteState::Paid);
    assert_eq!(wallet.check_mint_quote(&quote_id, MintQuoteState::Paid, 200), QuoteCheck::Mint);

    let m = wallet.mint(&quote_id, SplitTarget::NoTarget, None, 200).unwrap();
    assert_eq!(m.keyset_id, id);
    assert_eq!(m.unit, hash_unit());
    assert_eq!(m.request.verify_signature(key.public_key().unwrap()), Ok(()));
    let signatures = mint.process_mint_request(&m.request, 200).unwrap();
    let proofs = wallet.mint_finish(&quote_id, m.premint_secrets, m.keyset_id, m.unit, signatures).unwrap();
    assert_eq!(proofs.iter().map(|p| p.amount.0).collect::<Vec<_>>(), vec![4, 2]);
    assert_eq!(wallet.localstore.get_mint_quote(&quote_id), None);
    assert_eq!(wallet.localstore.proofs.len(), 2);
    assert!(wallet.localstore.transactions.is_empty());
}

#[test]
fn mint_is_checked() {
    let (_mint, mut wallet, _id) = setup();
    assert_eq!(wallet.mint("unknown", SplitTarget::NoTarget, None, 0), Err(Error::UnknownQuote));
    let mut expiring = quote("expiring", 5, MintQuoteState::Paid);
    expiring.expiry = 1000;
    wallet.localstore.add_mint_quote(expiring);
    assert_eq!(
        wallet.mint("expiring", SplitTarget::NoTarget, None, 1000),
        Err(Error::ExpiredQuote(1000, 1000))
    );
    assert_eq!(
        wallet.mint("expiring", SplitTarget::NoTarget, None, 5000),
        Err(Error::ExpiredQuote(1000, 5000))
    );
    assert!(wallet.mint("expiring", SplitTarget::NoTarget, None, 999).is_ok());
    // A quote with the time zero never expires.
    wallet.localstore.add_mint_quote(quote("never", 5, MintQuoteState::Paid));
    assert!(wallet.mint("never", SplitTarget::NoTarget, None, u64::MAX).is_ok());
    let mut open = quote("open", 5, MintQuoteState::Paid);
    open.amount = None;
    wallet.localstore.add_mint_quote(open);
    assert_eq!(wallet.mint("open", SplitTarget::NoTarget, None, 0), Err(Error::AmountUndefined));
    let mut bad_key = quote("bad-key", 5, MintQuoteState::Paid);
    bad_key.secret_key = Some(SecretKey { bytes: [0; 32] });
    wallet.localstore.add_mint_quote(bad_key);
    assert_eq!(
        wallet.mint("bad-key", SplitTarget::NoTarget, None, 0),
        Err(Error::Signature(SignatureError::InvalidSecretKey))
    );
    let mut no_keyset = empty_wallet();
    no_keyset.localstore.add_mint_quote(quote("never", 5, MintQuoteState::Paid));
    assert_eq!(no_keyset.mint("never", SplitTarget::NoTarget, None, 0), Err(Error::NoActiveKeyset));
}

#[test]
fn quotes_that_are_not_paid_in_time_are_removed() {
    let (_mint, mut wallet, _id) = setup();
    let mut expiring = quote("expiring", 5, MintQuoteState::Unpaid);
    expiring.expiry = 1000;
    wallet.localstore.add_mint_quote(expiring);
    wallet.localstore.add_mint_quote(quote("never", 5, MintQuoteState::Unpaid));
    assert_eq!(wallet.check_mint_quote("expiring", MintQuoteState::Unpaid, 999), QuoteCheck::Kept);
    assert_eq!(wallet.check_mint_quote("expiring", MintQuoteState::Paid, 5000), QuoteCheck::Mint);
    assert!(wallet.localstore.get_mint_quote("expiring").is_some());
    assert_eq!(wallet.check_mint_quote("expiring", MintQuoteState::Unpaid, 1000), QuoteCheck::Removed);
    assert!(wallet.localstore.get_mint_quote("expiring").is_none());
    assert_eq!(wallet.check_mint_quote("never", MintQuoteState::Issued, u64::MAX), QuoteCheck::Kept);
    assert!(wallet.localstore.get_mint_quote("never").is_some());
    assert_eq!(wallet.check_mint_quote("unknown", MintQuoteState::Paid, 0), QuoteCheck::Kept);
}

#[test]
fn the_state_of_a_quote_is_taken_from_the_mint() {
    let (_mint, mut wallet, _id) = setup();
    wallet.localstore.add_mint_quote(quote("a", 5, MintQuoteState::Unpaid));
    let told = |state: MintQuoteState| MintQuoteBolt11Response {
        quote: "a".to_string(),
        request: "x".to_string(),
        amount: None,
        unit: None,
        state,
        expiry: None,
        pubkey: None,
    };
    assert_eq!(wallet.mint_quote_state("a", told(MintQuoteState::Paid)), Ok(told(MintQuoteState::Paid)));
    assert_eq!(wallet.localstore.get_mint_quote("a"), Some(&quote("a", 5, MintQuoteState::Paid)));
    // A quote that the wallet does not have is not made.
    assert!(wallet.mint_quote_state("b", told(MintQuoteState::Paid)).is_ok());
    assert_eq!(wallet.localstore.get_mint_quote("b"), None);
    assert_eq!(wallet.localstore.mint_quotes.len(), 1);
}

#[test]
fn the_state_of_a_mining_share_quote_is_recorded() {
    let (mut mint, mut wallet, id) = setup();
    let key = SecretKey::generate();
    let made = wallet.create_mining_share_quote(Amount(5), [1; 32], key.public_key().unwrap()).unwrap();
    let response = mint.create_mint_mining_share_quote(Uuid(1), &made.request).unwrap();
    let quote_id = response.quote.to_string();
    // The wallet has no record under the mint's identifier: one is made.
    wallet.mint_quote_state_mining_share(&quote_id, response.to_string_id()).unwrap();
    let record = wallet.localstore.get_mint_quote(&quote_id).unwrap().clone();
    assert_eq!(record.id, quote_id);
    assert_eq!(record.mint_url, URL);
    assert_eq!(record.payment_method, PaymentMethod::MiningShare);
    assert_eq!(record.amount, Some(Amount(5)));
    assert_eq!(record.unit, hash_unit());
    assert_eq!(record.request, "01".repeat(32));
    assert_eq!(record.state, MintQuoteState::Paid);
    assert_eq!(record.expiry, 0);
    assert_eq!(record.secret_key, None);
    assert_eq!(record.amount_issued, Amount(0));
    assert_eq!(record.amount_paid, Amount(5));
    assert_eq!(record.keyset_id, Some(id));
    assert_eq!(record.amount_mintable(), Amount(5));
    // After the issue the record is brought up to date.
    let m = wallet.mint_mining_share(&quote_id, Amount(5), id, key).unwrap();
    mint.process_mint_request(&m.request, 0).unwrap();
    let told = mint.mint_quote_state_mining_share(Uuid(1)).unwrap().to_string_id();
    wallet.mint_quote_state_mining_share(&quote_id, told).unwrap();
    let record = wallet.localstore.get_mint_quote(&quote_id).unwrap();
    assert_eq!(record.state, MintQuoteState::Issued);
    assert_eq!(record.amount_issued, Amount(5));
    assert_eq!(record.amount_mintable(), Amount(0));
    assert_eq!(wallet.localstore.mint_quotes.len(), 2);
}

#[test]
fn mintable_amounts() {
    let mut q = quote("a", 7, MintQuoteState::Unpaid);
    assert_eq!(q.amount_mintable(), Amount(0));
    q.state = MintQuoteState::Paid;
    assert_eq!(q.amount_mintable(), Amount(7));
    q.amount = None;
    assert_eq!(q.amount_mintable(), Amount(0));
    q.state = MintQuoteState::Issued;
    q.amount = Some(Amount(7));
    assert_eq!(q.amount_mintable(), Amount(0));
    q.payment_method = PaymentMethod::MiningShare;
    q.amount_paid = Amount(7);
    q.amount_issued = Amount(3);
    assert_eq!(q.amount_mintable(), Amount(4));
    q.amount_issued = Amount(7);
    assert_eq!(q.amount_mintable(), Amount(0));
    q.amount_issued = Amount(9);
    assert_eq!(q.amount_mintable(), Amount(0));
}

#[test]
fn a_mining_share_quote_is_refused_by_the_wallet() {
    let (_mint, mut wallet, _id) = setup();
    let key = SecretKey::generate().public_key().unwrap();
    assert_eq!(
        wallet.create_mining_share_quote(Amount(0), [1; 32], key),
        Err(Error::MiningShare(ShareError::InvalidAmount))
    );
    assert_eq!(
        wallet.create_mining_share_quote(Amount(257), [1; 32], key),
        Err(Error::MiningShare(ShareError::InvalidAmount))
    );
    assert_eq!(
        wallet.create_mining_share_quote(Amount(5), [0; 32], key),
        Err(Error::MiningShare(ShareError::InvalidHeaderHash))
    );
    assert!(wallet.localstore.mint_quotes.is_empty());
    assert!(wallet.create_mining_share_quote(Amount(256), [1; 32], key).is_ok());
    assert!(wallet.create_mining_share_quote(Amount(1), [2; 32], key).is_ok());
    // The same share again.
    assert_eq!(wallet.create_mining_share_quote(Amount(5), [1; 32], key), Err(Error::PaidQuote));
    assert_eq!(wallet.localstore.mint_quotes.len(), 2);
    let mut no_keyset = empty_wallet();
    assert_eq!(no_keyset.create_mining_share_quote(Amount(5), [1; 32], key), Err(Error::NoActiveKeyset));
}

#[test]
fn secrets_made_with_the_quote_are_minted_later() {
    let (mut mint, mut wallet, id) = setup();
    let premint = wallet.create_premint_secrets(5, "share", "https://pool.example", hash_unit()).unwrap();
    assert_eq!(premint.total_amount(), Ok(Amount(5)));
    assert_eq!(premint.keyset_id, id);
    assert_eq!(wallet.localstore.get_keyset_counter(&id), Some(2));
    let record = wallet.localstore.get_mint_quote("share").unwrap().clone();
    assert_eq!(record.mint_url, "https://pool.example");
    assert_eq!(record.request, "share");
    assert_eq!(record.state, MintQuoteState::Paid);
    assert_eq!(record.expiry, u64::MAX);
    assert_eq!(record.amount, Some(Amount(5)));
    assert_eq!(wallet.localstore.get_premint_secrets("share"), Some(&premint));
    assert_eq!(
        wallet.create_premint_secrets(5, "share", "https://pool.example", hash_unit()),
        Err(Error::PaidQuote)
    );

    mint.create_mint_bolt11_quote(Uuid(1), Amount(5), hash_unit(), "share".to_string(), None, 0).unwrap();
    mint.pay_mint_quote(Uuid(1)).unwrap();
    let quote_id = Uuid(1).to_string();
    assert_eq!(wallet.get_mining_share_proofs(&quote_id, "unknown"), Err(Error::UnknownQuote));
    let request = wallet.get_mining_share_proofs(&quote_id, "share").unwrap();
    assert_eq!(request.quote, quote_id);
    assert_eq!(request.outputs, premint.blinded_messages());
    assert_eq!(request.signature, None);
    let signatures = mint.process_mint_request(&request, 0).unwrap();
    assert_eq!(wallet.get_mining_share_proofs_finish("unknown", signatures.clone()), Err(Error::UnknownQuote));
    let mut tampered = signatures.clone();
    tampered[0].c = signatures[1].c;
    assert_eq!(wallet.get_mining_share_proofs_finish("share", tampered), Err(Error::CouldNotVerifyDleq));
    assert!(wallet.localstore.get_mint_quote("share").is_some());
    let proofs = wallet.get_mining_share_proofs_finish("share", signatures).unwrap();
    assert_eq!(proofs.iter().map(|p| p.amount.0).collect::<Vec<_>>(), vec![4, 1]);
    assert_eq!(proofs[0].secret, premint.secrets[0].secret);
    assert_eq!(wallet.localstore.get_mint_quote("share"), None);
    assert_eq!(wallet.localstore.get_premint_secrets("share"), None);
    assert_eq!(wallet.localstore.get_keyset_counter(&id), Some(4));
    assert_eq!(wallet.localstore.proofs.len(), 2);
}

#[test]
fn secrets_of_another_keyset_are_not_minted() {
    let (_mint, mut wallet, id) = setup();
    wallet.create_premint_secrets(5, "share", URL, hash_unit()).unwrap();
    // A cheaper keyset comes along, whose keys the wallet has.
    let cheaper = mint_keyset(8, hash_unit(), true, 0);
    wallet.localstore.add_mint_keyset(URL.to_string(), KeySetInfo { id, unit: hash_unit(), active: true, input_fee_ppk: 5 });
    wallet.add_keyset(Keys::new(cheaper.public_keys()).unwrap(), true, 1).unwrap();
    assert_eq!(wallet.get_mining_share_proofs("q", "share"), Err(Error::UnknownKeyset));
    let mut no_keys = empty_wallet();
    no_keys.localstore.add_mint_quote(quote("share", 5, MintQuoteState::Paid));
    assert_eq!(no_keys.get_mining_share_proofs("q", "share"), Err(Error::NoActiveKeyset));
    no_keys.localstore.add_mint_keyset(URL.to_string(), info(1, hash_unit(), true, 0));
    assert_eq!(no_keys.get_mining_share_proofs("q", "share"), Err(Error::UnknownKeyset));
}

#[test]
fn generated_secrets_start_at_the_counter() {
    let (_mint, wallet, id) = setup();
    let seed = vec![5u8; 64];
    let pre = wallet.generate_premint_secrets(id, Amount(3), &SplitTarget::NoTarget, None, 10).unwrap();
    assert_eq!(
        pre.secrets(),
        vec![Secret::from_seed(&seed, id, 10).unwrap(), Secret::from_seed(&seed, id, 11).unwrap()]
    );
    assert_eq!(wallet.localstore.get_keyset_counter(&id), None);
    let again = wallet.generate_premint_secrets(id, Amount(3), &SplitTarget::NoTarget, None, 10).unwrap();
    assert_eq!(pre, again);
    let conditions = SpendingConditions::HTLC { hash: [7; 32] };
    let one = wallet.generate_premint_secrets(id, Amount(3), &SplitTarget::NoTarget, Some(&conditions), 10).unwrap();
    let two = wallet.generate_premint_secrets(id, Amount(3), &SplitTarget::NoTarget, Some(&conditions), 10).unwrap();
    assert_ne!(one, two);
    assert_eq!(one.total_amount(), Ok(Amount(3)));
    assert_eq!(
        wallet.generate_premint_secrets(Id { bytes: [9; 8] }, Amount(3), &SplitTarget::NoTarget, None, 0),
        Err(Error::UnknownKeyset)
    );
    assert_eq!(
        wallet.generate_premint_secrets(id, Amount(512), &SplitTarget::NoTarget, None, 0),
        Err(Error::Derivation(DerivationError::Amount(AmountError::InvalidDenomination)))
    );
}

#[test]
fn only_mining_share_quotes_of_a_lookup_are_minted() {
    let (_mint, wallet, id) = setup();
    let key = SecretKey::generate().public_key().unwrap();
    let item = |quote: &str, method: PaymentMethod, amount: u64| MintQuoteLookupItem {
        pubkey: key,
        quote: quote.to_string(),
        method,
        amount: Amount(amount),
        keyset_id: id,
    };
    let items = vec![
        item("a", PaymentMethod::MiningShare, 1),
        item("b", PaymentMethod::Bolt11, 2),
        item("c", PaymentMethod::MiningShare, 4),
        item("d", PaymentMethod::Bolt12, 8),
    ];
    assert_eq!(wallet.mint_tokens_for_pubkey(&items), vec![entry("a", 1, id), entry("c", 4, id)]);
    assert_eq!(wallet.mint_tokens_for_pubkey(&vec![]), vec![]);
}

#[test]
fn identifiers_are_joined_with_commas() {
    assert_eq!(join_ids(&vec![]), "");
    assert_eq!(join_ids(&vec!["a".to_string()]), "a");
    assert_eq!(join_ids(&vec!["a".to_string(), "b".to_string(), "".to_string(), "c".to_string()]), "a,b,,c");
}

#[test]
fn proofs_are_taken_out_by_their_points() {
    let (mut mint, mut wallet, id) = setup();
    let (signatures, premint) = minted(&mut mint, &mut wallet, id, 7, 1);
    let (proofs, records, ys) = wallet.mint_proofs(signatures, &premint, id, &hash_unit()).unwrap();
    assert_eq!(proofs.len(), 3);
    assert_eq!(ys, records.iter().map(|r| r.y).collect::<Vec<_>>());
    for (record, proof) in records.iter().zip(&proofs) {
        assert_eq!(&record.proof, proof);
        assert_eq!(record.y, cdk::dhke::hash_to_curve(&proof.secret.to_bytes()).unwrap());
        assert_eq!(record.mint_url, URL);
    }
    let last = records[2].clone();
    wallet.localstore.update_proofs(records, &vec![]);
    assert_eq!(wallet.localstore.proofs.len(), 3);
    let stranger = SecretKey::generate().public_key().unwrap();
    wallet.localstore.update_proofs(vec![], &vec![ys[0], stranger, ys[1]]);
    assert_eq!(wallet.localstore.proofs, vec![last.clone()]);
    // What is taken out and put in at once is in afterwards.
    wallet.localstore.update_proofs(vec![last.clone()], &vec![ys[2]]);
    assert_eq!(wallet.localstore.proofs, vec![last.clone()]);
    wallet.localstore.add_proofs(vec![last.clone()]);
    assert_eq!(wallet.localstore.proofs.len(), 2);
}
