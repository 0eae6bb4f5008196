use cdk::amount::Amount;
use cdk::dhke::verify_message;
use cdk::error::Error;
use cdk::hashpool::MintQuoteStateFilter;
use cdk::mint::keysets::MintKeySet;
use cdk::mint::Mint;
use cdk::nuts::nut00::{CurrencyUnit, MintQuoteState, PaymentMethod, Secret};
use cdk::nuts::nut01::{Keys, SecretKey};
use cdk::nuts::nut02::Id;
use cdk::nuts::nut04::BatchMintRequest;
use cdk::nuts::nut07::State;
use cdk::nuts::nut20::sign_request;
use cdk::quote_id::Uuid;
use cdk::wallet::types::TransactionDirection;
use cdk::wallet::Wallet;

fn hash_unit() -> CurrencyUnit {
    CurrencyUnit::Custom("HASH".to_string())
}

// A mint with one active keyset for the unit HASH, with the amounts 1, 2, 4,
// ..., 256, and a wallet that knows the keyset.
fn setup() -> (Mint, Wallet, Id) {
    let path = vec![0x8000_0000, 0x8000_0000 + 1337, 0x8000_0000];
    let keyset = MintKeySet::generate(&[3; 32], &path, 9, hash_unit(), true, 0).unwrap();
    let id = keyset.id;
    let mut wallet = Wallet::new("https://mint.example".to_string(), hash_unit(), vec![5; 64]);
    wallet.add_keyset(Keys::new(keyset.public_keys()).unwrap(), true, 0).unwrap();
    let mut mint = Mint::new(100, 1000);
    mint.add_keyset(keyset);
    (mint, wallet, id)
}

#[test]
fn single_mining_share_mint() {
    let (mut mint, mut wallet, id) = setup();
    let amounts: Vec<u64> = mint.keysets[0].keys.iter().map(|k| k.amount).collect();
    assert_eq!(amounts, vec![1, 2, 4, 8, 16, 32, 64, 128, 256]);
    let key = SecretKey::generate();
    let p = key.public_key().unwrap();

    // The wallet makes the quote.
    let made = wallet.create_mining_share_quote(Amount(5), [1; 32], p).unwrap();
    assert_eq!(made.request.amount, Amount(5));
    assert_eq!(made.request.unit, hash_unit());
    assert_eq!(made.request.header_hash, [1; 32]);
    assert_eq!(made.request.pubkey, p);
    assert_eq!(made.request.keyset_id, id);
    let parts: Vec<u64> = made.request.blinded_messages.iter().map(|m| m.amount.0).collect();
    assert_eq!(parts, vec![4, 1]);
    assert!(made.request.blinded_messages.iter().all(|m| m.keyset_id == id));
    assert_eq!(made.request.validate(), Ok(()));
    let share = "01".repeat(32);
    assert_eq!(wallet.localstore.get_mint_quote(&share), Some(&made.quote));
    assert_eq!(made.quote.state, MintQuoteState::Paid);
    assert_eq!(made.quote.amount, Some(Amount(5)));
    assert_eq!(made.quote.keyset_id, Some(id));
    assert_eq!(made.quote.expiry, 0);
    assert_eq!(wallet.localstore.get_premint_secrets(&share), Some(&made.premint_secrets));

    // The pool takes it to the mint.
    let response = mint.create_mint_mining_share_quote(Uuid(1), &made.request).unwrap();
    let quote_id = response.quote.to_string();
    let told = wallet.mint_quote_state_mining_share(&quote_id, response.to_string_id()).unwrap();
    assert_eq!(told.quote, quote_id);
    assert_eq!(wallet.localstore.get_mint_quote(&quote_id).unwrap().state, MintQuoteState::Paid);

    // The wallet mints.
    let m = wallet.mint_mining_share(&quote_id, Amount(5), id, key).unwrap();
    assert_eq!(m.request.quote, quote_id);
    assert_eq!(m.payment_request, Some(share.clone()));
    let signatures = mint.process_mint_request(&m.request, 100).unwrap();
    let proofs = wallet
        .finalize_mining_share_proofs(
            signatures,
            m.premint_secrets,
            id,
            &vec![quote_id.clone()],
            m.payment_request,
            100,
        )
        .unwrap();
    let amounts: Vec<u64> = proofs.iter().map(|p| p.amount.0).collect();
    assert_eq!(amounts, vec![4, 1]);
    for proof in &proofs {
        assert_eq!(proof.keyset_id, id);
        assert!(proof.dleq.is_some());
        let k = mint.keysets[0].pair(proof.amount.0).unwrap().secret_key;
        assert_eq!(verify_message(&k, proof.c, &proof.secret.to_bytes()), Ok(()));
    }
    assert_eq!(wallet.localstore.proofs.len(), 2);
    assert_eq!(wallet.localstore.proofs[0].proof, proofs[0]);
    assert_eq!(wallet.localstore.proofs[1].proof, proofs[1]);
    assert!(wallet.localstore.proofs.iter().all(|p| p.state == State::Unspent && p.unit == hash_unit()));
    assert_eq!(wallet.localstore.transactions.len(), 1);
    let transaction = &wallet.localstore.transactions[0];
    assert_eq!(transaction.amount, Amount(5));
    assert_eq!(transaction.fee, Amount(0));
    assert_eq!(transaction.direction, TransactionDirection::Incoming);
    assert_eq!(transaction.timestamp, 100);
    assert_eq!(transaction.quote_id, Some(quote_id.clone()));
    assert_eq!(transaction.payment_request, Some(share));
    assert_eq!(transaction.ys.len(), 2);
    assert_eq!(transaction.ys[0], wallet.localstore.proofs[0].y);
    assert_eq!(mint.quotes[0].state, MintQuoteState::Issued);
    assert_eq!(mint.quotes[0].amount_issued, Amount(5));
}

#[test]
fn mining_share_duplicate_issuance() {
    let (mut mint, mut wallet, id) = setup();
    let key = SecretKey::generate();
    let made = wallet.create_mining_share_quote(Amount(5), [1; 32], key.public_key().unwrap()).unwrap();
    let quote_id = mint.create_mint_mining_share_quote(Uuid(1), &made.request).unwrap().quote.to_string();
    let m = wallet.mint_mining_share(&quote_id, Amount(5), id, key).unwrap();
    let signatures = mint.process_mint_request(&m.request, 0).unwrap();
    wallet
        .finalize_mining_share_proofs(signatures, m.premint_secrets, id, &vec![quote_id.clone()], None, 0)
        .unwrap();
    assert_eq!(wallet.localstore.proofs.len(), 2);

    // Again, with the same quote.
    let again = wallet.mint_mining_share(&quote_id, Amount(5), id, key).unwrap();
    let answer = mint.process_mint_request(&again.request, 0);
    assert_eq!(answer, Err(Error::QuoteAlreadyIssued));
    assert!(answer.unwrap_err().is_silent());
    assert_eq!(Error::QuoteAlreadyIssued.http_status(), 409);
    assert_eq!(wallet.localstore.proofs.len(), 2);
    assert_eq!(wallet.localstore.transactions.len(), 1);
    assert_eq!(mint.quotes[0].amount_issued, Amount(5));
}

fn three_quotes(mint: &mut Mint, p: &SecretKey, p2: &SecretKey) -> Vec<String> {
    let locks = [Some(p.public_key().unwrap()), None, Some(p2.public_key().unwrap())];
    let mut ids = Vec::new();
    for (n, (amount, lock)) in [1u64, 2, 4].iter().zip(locks).enumerate() {
        let id = Uuid(n as u128 + 1);
        mint.create_mint_bolt11_quote(id, Amount(*amount), hash_unit(), "lnbc".to_string(), lock, 0).unwrap();
        mint.pay_mint_quote(id).unwrap();
        ids.push(id.to_string());
    }
    ids
}

#[test]
fn batch_mint_three_quotes_one_unlocked() {
    let (mut mint, mut wallet, id) = setup();
    let (p, p2) = (SecretKey::generate(), SecretKey::generate());
    let ids = three_quotes(&mut mint, &p, &p2);
    let premint = wallet.prepare_premint_secrets(id, Amount(7)).unwrap();
    let outputs = premint.blinded_messages();
    let total: u64 = outputs.iter().map(|o| o.amount.0).sum();
    assert_eq!(total, 7);
    let request = BatchMintRequest {
        quote: ids.clone(),
        outputs: outputs.clone(),
        signature: Some(vec![
            Some(sign_request(&ids[0], &outputs, &p).unwrap()),
            None,
            Some(sign_request(&ids[2], &outputs, &p2).unwrap()),
        ]),
    };
    let signatures = mint.process_batch_mint_request(&request, PaymentMethod::Bolt11, 10).unwrap();
    assert!(mint.quotes.iter().all(|q| q.state == MintQuoteState::Issued));
    let issued: Vec<u64> = mint.quotes.iter().map(|q| q.amount_issued.0).collect();
    assert_eq!(issued, vec![1, 2, 4]);
    assert_eq!(wallet.verify_dleqs(&signatures, &premint), Ok(()));
    assert!(signatures.iter().all(|s| s.dleq.is_some()));
    let proofs = wallet
        .finalize_mining_share_proofs(signatures, premint, id, &ids, None, 10)
        .unwrap();
    assert!(proofs.len() >= 3);
    let amounts: Vec<u64> = proofs.iter().map(|p| p.amount.0).collect();
    assert_eq!(amounts, vec![4, 2, 1]);
    assert_eq!(wallet.localstore.transactions[0].quote_id, Some(ids.join(",")));
    assert_eq!(wallet.localstore.transactions[0].amount, Amount(7));
}

#[test]
fn batch_mint_with_signature_count_mismatch() {
    let (mut mint, mut wallet, id) = setup();
    let (p, p2) = (SecretKey::generate(), SecretKey::generate());
    let ids = three_quotes(&mut mint, &p, &p2);
    let premint = wallet.prepare_premint_secrets(id, Amount(7)).unwrap();
    let outputs = premint.blinded_messages();
    let request = BatchMintRequest {
        quote: ids.clone(),
        outputs: outputs.clone(),
        signature: Some(vec![Some(sign_request(&ids[0], &outputs, &p).unwrap()), None]),
    };
    assert_eq!(
        mint.process_batch_mint_request(&request, PaymentMethod::Bolt11, 10),
        Err(Error::SignatureCountMismatch)
    );
    assert_eq!(Error::SignatureCountMismatch.http_status(), 400);
    assert!(mint.quotes.iter().all(|q| q.state == MintQuoteState::Paid));
    assert!(mint.quotes.iter().all(|q| q.amount_issued == Amount(0)));
}

#[test]
fn pubkey_lookup_with_state_filter() {
    let (mut mint, mut wallet, id) = setup();
    let (p, q) = (SecretKey::generate(), SecretKey::generate());
    let mut make = |n: u128, hash: u8, key: &SecretKey| -> String {
        let made = wallet.create_mining_share_quote(Amount(2), [hash; 32], key.public_key().unwrap()).unwrap();
        mint.create_mint_mining_share_quote(Uuid(n), &made.request).unwrap().quote.to_string()
    };
    let qa = make(1, 1, &p);
    let qb = make(2, 2, &p);
    let qc = make(3, 3, &q);
    let m = wallet.mint_mining_share(&qb, Amount(2), id, p).unwrap();
    mint.process_mint_request(&m.request, 0).unwrap();
    assert_eq!(mint.quotes[1].state, MintQuoteState::Issued);

    let lookup = |keys: Vec<&SecretKey>, filter: MintQuoteStateFilter| -> Vec<String> {
        let keys = keys.iter().map(|k| k.public_key().unwrap()).collect();
        let mut found: Vec<String> = mint
            .lookup_mint_quotes_by_pubkeys(&keys, filter)
            .unwrap()
            .into_iter()
            .map(|item| item.quote)
            .collect();
        found.sort();
        found
    };
    assert_eq!(lookup(vec![&p], MintQuoteStateFilter::OnlyPaid), vec![qa.clone()]);
    assert_eq!(lookup(vec![&p], MintQuoteStateFilter::All), vec![qa.clone(), qb.clone()]);
    assert_eq!(lookup(vec![&p, &q], MintQuoteStateFilter::OnlyPaid), vec![qa.clone(), qc.clone()]);
}

#[test]
fn counters_of_two_quotes_do_not_overlap() {
    let (_mint, mut wallet, id) = setup();
    let key = SecretKey::generate().public_key().unwrap();
    let one = wallet.create_mining_share_quote(Amount(3), [1; 32], key).unwrap();
    let two = wallet.create_mining_share_quote(Amount(3), [2; 32], key).unwrap();
    assert_eq!(one.premint_secrets.len(), 2);
    assert_eq!(two.premint_secrets.len(), 2);
    // The first has the counters 0 and 1, the second 2 and 3.
    let seed = vec![5u8; 64];
    let derived: Vec<Secret> = (0..4).map(|c| Secret::from_seed(&seed, id, c).unwrap()).collect();
    assert_eq!(one.premint_secrets.secrets(), derived[0..2].to_vec());
    assert_eq!(two.premint_secrets.secrets(), derived[2..4].to_vec());
    let mut all: Vec<String> = derived.iter().map(|s| s.text.clone()).collect();
    all.sort();
    all.dedup();
    assert_eq!(all.len(), 4);
    let mut blinded: Vec<_> = one
        .request
        .blinded_messages
        .iter()
        .chain(&two.request.blinded_messages)
        .map(|m| m.blinded_secret)
        .collect();
    blinded.sort();
    blinded.dedup();
    assert_eq!(blinded.len(), 4);
    assert_eq!(wallet.localstore.get_keyset_counter(&id), Some(4));
    assert!(wallet.localstore.get_mint_quote(&"01".repeat(32)).is_some());
    assert!(wallet.localstore.get_mint_quote(&"02".repeat(32)).is_some());
    assert_eq!(wallet.localstore.mint_quotes.len(), 2);
    assert_eq!(wallet.localstore.premint_secrets.len(), 2);
}

#[test]
fn secrets_of_two_paid_quotes_do_not_overlap() {
    let (_mint, mut wallet, id) = setup();
    wallet.localstore.increment_keyset_counter(&id, 7).unwrap();
    let url = "https://mint.example";
    let one = wallet.create_premint_secrets(3, "id1", url, hash_unit()).unwrap();
    let two = wallet.create_premint_secrets(3, "id2", url, hash_unit()).unwrap();
    let parts = |pre: &cdk::nuts::nut00::PreMintSecrets| -> Vec<u64> {
        pre.secrets.iter().map(|p| p.amount.0).collect()
    };
    assert_eq!(parts(&one), vec![2, 1]);
    assert_eq!(parts(&two), vec![2, 1]);
    // The first has the counters 7 and 8, the second 9 and 10.
    let seed = vec![5u8; 64];
    let derived: Vec<Secret> = (7..11).map(|c| Secret::from_seed(&seed, id, c).unwrap()).collect();
    assert_eq!(one.secrets(), derived[0..2].to_vec());
    assert_eq!(two.secrets(), derived[2..4].to_vec());
    assert_eq!(wallet.localstore.get_keyset_counter(&id), Some(11));
    let mut blinded: Vec<_> =
        one.blinded_messages().iter().chain(&two.blinded_messages()).map(|m| m.blinded_secret).collect();
    blinded.sort();
    blinded.dedup();
    assert_eq!(blinded.len(), 4);
    assert_eq!(wallet.localstore.get_premint_secrets("id1"), Some(&one));
    assert_eq!(wallet.localstore.get_premint_secrets("id2"), Some(&two));
    assert!(wallet.localstore.get_mint_quote("id1").is_some());
    assert!(wallet.localstore.get_mint_quote("id2").is_some());
}

#[test]
fn many_raisings_of_a_counter_leave_no_gap() {
    let (_mint, mut wallet, id) = setup();
    let counts: [u32; 5] = [3, 0, 1, 8, 2];
    let mut start: u32 = 0;
    for n in counts {
        let after = wallet.localstore.increment_keyset_counter(&id, n).unwrap();
        assert_eq!(after - n, start);
        start = after;
    }
    assert_eq!(start, 14);
    assert_eq!(wallet.localstore.get_keyset_counter(&id), Some(14));
}

#[test]
fn a_refused_batch_leaves_wallet_and_mint_as_they_were() {
    let (mut mint, mut wallet, id) = setup();
    let key = SecretKey::generate();
    let made = wallet.create_mining_share_quote(Amount(5), [1; 32], key.public_key().unwrap()).unwrap();
    let quote_id = mint.create_mint_mining_share_quote(Uuid(1), &made.request).unwrap().quote.to_string();
    let entries = vec![cdk::wallet::types::MiningShareBatchEntry {
        quote_id: quote_id.clone(),
        amount: Amount(4),
        keyset_id: id,
    }];
    // The wallet asks for less than the quote is for: the mint refuses.
    let batch = wallet.mint_mining_share_batch(&entries, &key).unwrap();
    let answer = mint.process_batch_mint_request(&batch.request, PaymentMethod::MiningShare, 0);
    assert_eq!(answer, Err(Error::AmountMismatch));
    assert_eq!(mint.quotes[0].state, MintQuoteState::Paid);
    assert_eq!(mint.quotes[0].amount_issued, Amount(0));
    assert!(wallet.localstore.proofs.is_empty());
    assert!(wallet.localstore.transactions.is_empty());
}
