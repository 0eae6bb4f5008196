use cdk::amount::{Amount, FeeAndAmounts, SplitTarget};
use cdk::error::Error;
use cdk::hashpool::MintQuoteStateFilter;
use cdk::mint::keysets::MintKeySet;
use cdk::mint::quote::{transition, QuoteEvent};
use cdk::mint::Mint;
use cdk::nuts::nut00::{BlindedMessage, CurrencyUnit, MintQuoteState, PaymentMethod, PreMintSecrets};
use cdk::nuts::nut01::{Keys, PublicKey, SecretKey};
use cdk::nuts::nut02::{Error as KeysetError, Id, KeySet};
use cdk::nuts::nut04::{BatchMintRequest, MintRequest};
use cdk::nuts::nut20::sign_request;
use cdk::nuts::nutxx::{Error as ShareError, MintQuoteMiningShareRequest, QuoteState};
use cdk::quote_id::Uuid;

fn hash_unit() -> CurrencyUnit {
    CurrencyUnit::Custom("HASH".to_string())
}

fn path() -> Vec<u32> {
    vec![0x8000_0000, 0x8000_0000 + 1337, 0x8000_0000]
}

fn keyset(seed: u8, unit: CurrencyUnit, active: bool, fee: u64) -> MintKeySet {
    MintKeySet::generate(&[seed; 32], &path(), 9, unit, active, fee).unwrap()
}

fn mint() -> (Mint, Id) {
    let mut mint = Mint::new(10, 1000);
    let keyset = keyset(1, hash_unit(), true, 0);
    let id = keyset.id;
    mint.add_keyset(keyset);
    (mint, id)
}

fn outputs(id: Id, counter: u32, amount: u64) -> Vec<BlindedMessage> {
    let amounts = FeeAndAmounts { fee: 0, amounts: (0..9).map(|i| 1u64 << i).collect() };
    PreMintSecrets::from_seed(id, counter, &[7; 64], Amount(amount), &SplitTarget::NoTarget, &amounts)
        .unwrap()
        .blinded_messages()
}

fn share_request(amount: u64, id: Id, pubkey: PublicKey) -> MintQuoteMiningShareRequest {
    MintQuoteMiningShareRequest {
        amount: Amount(amount),
        unit: hash_unit(),
        header_hash: [1; 32],
        description: None,
        pubkey,
        keyset_id: id,
        blinded_messages: outputs(id, 0, amount),
    }
}

fn share_quote(mint: &mut Mint, n: u128, amount: u64, id: Id, key: &SecretKey) -> String {
    let response = mint
        .create_mint_mining_share_quote(Uuid(n), &share_request(amount, id, key.public_key().unwrap()))
        .unwrap();
    response.quote.to_string()
}

fn signed(quote: &str, outputs: Vec<BlindedMessage>, key: &SecretKey) -> MintRequest {
    let signature = sign_request(&quote.to_string(), &outputs, key).unwrap();
    MintRequest { quote: quote.to_string(), outputs, signature: Some(signature) }
}

#[test]
fn a_keyset_has_a_key_for_each_power_of_two() {
    let keyset = keyset(1, hash_unit(), true, 0);
    assert_eq!(keyset.keys.len(), 9);
    for (i, pair) in keyset.keys.iter().enumerate() {
        assert_eq!(pair.amount, 1 << i);
        assert_eq!(pair.secret_key.public_key().unwrap(), pair.public_key);
        assert_eq!(keyset.pair(pair.amount), Some(*pair));
    }
    assert_eq!(keyset.pair(3), None);
    assert_eq!(keyset.pair(512), None);
    let entries = keyset.public_keys();
    assert_eq!(entries.len(), 9);
    assert_eq!(entries[8].0, 256);
    let keys = Keys::new(entries).unwrap();
    assert_eq!(keyset.id, Id::from_keys(&keys));
    assert_eq!(keyset.id.to_bytes()[0], 0);
    assert_eq!(keys.amounts(), vec![1, 2, 4, 8, 16, 32, 64, 128, 256]);
    assert_eq!(keys.amount_key(4), Some(keyset.keys[2].public_key));
    assert_eq!(keys.amount_key(3), None);
    let info = keyset.info();
    assert_eq!(info.id, keyset.id);
    assert_eq!(info.unit, hash_unit());
    assert!(info.active);
    assert_eq!(info.input_fee_ppk, 0);
    // The same seed gives the same keyset, another seed another.
    assert_eq!(keyset, self::keyset(1, hash_unit(), true, 0));
    assert_ne!(keyset.id, self::keyset(2, hash_unit(), true, 0).id);
}

#[test]
fn a_keyset_has_at_most_64_keys() {
    assert!(MintKeySet::generate(&[1; 32], &path(), 64, hash_unit(), true, 0).is_ok());
    assert_eq!(
        MintKeySet::generate(&[1; 32], &path(), 65, hash_unit(), true, 0),
        Err(Error::KeysetOrder)
    );
    let none = MintKeySet::generate(&[1; 32], &path(), 0, hash_unit(), true, 0).unwrap();
    assert!(none.keys.is_empty());
}

#[test]
fn a_keyset_identifier_is_checked_against_the_keys() {
    let keyset = keyset(1, hash_unit(), true, 0);
    let good = KeySet { id: keyset.id, unit: hash_unit(), keys: Keys::new(keyset.public_keys()).unwrap() };
    assert_eq!(good.verify_id(), Ok(()));
    let bad = KeySet { id: Id { bytes: [0; 8] }, unit: hash_unit(), keys: Keys::new(keyset.public_keys()).unwrap() };
    assert_eq!(bad.verify_id(), Err(KeysetError::IncorrectKeysetId));
    assert_eq!(Id::from_hex("00"), Err(KeysetError::Length));
    assert_eq!(Id::from_hex("0g"), Err(KeysetError::InvalidHex));
    assert_eq!(Id::from_bytes(&[1, 2, 3]), Err(KeysetError::Length));
    assert_eq!(Id::from_hex(&keyset.id.to_hex()), Ok(keyset.id));
}

#[test]
fn keys_must_ascend() {
    let a = SecretKey::generate().public_key().unwrap();
    assert!(Keys::new(vec![]).is_ok());
    assert!(Keys::new(vec![(1, a), (2, a)]).is_ok());
    assert_eq!(Keys::new(vec![(2, a), (1, a)]), Err(cdk::nuts::nut01::Error::KeysNotAscending));
    assert_eq!(Keys::new(vec![(1, a), (1, a)]), Err(cdk::nuts::nut01::Error::KeysNotAscending));
    let keys = Keys::new(vec![(1, a), (4, a)]).unwrap();
    assert_eq!(keys.len(), 2);
    assert_eq!(keys.entry(1), (4, a));
    assert_eq!(keys.copy(), keys);
}

#[test]
fn pick_active_takes_the_lowest_fee() {
    let mut mint = Mint::new(10, 1000);
    assert_eq!(mint.pick_active(&hash_unit()), Err(Error::NoActiveKeyset));
    let dear = keyset(1, hash_unit(), true, 10);
    let cheap = keyset(2, hash_unit(), true, 2);
    let idle = keyset(3, hash_unit(), false, 0);
    let sat = keyset(4, CurrencyUnit::Sat, true, 0);
    let cheap_id = cheap.id;
    let sat_id = sat.id;
    mint.add_keyset(dear);
    mint.add_keyset(cheap);
    mint.add_keyset(idle);
    mint.add_keyset(sat);
    assert_eq!(mint.pick_active(&hash_unit()), Ok(cheap_id));
    assert_eq!(mint.pick_active(&CurrencyUnit::Sat), Ok(sat_id));
    assert_eq!(mint.pick_active(&CurrencyUnit::Usd), Err(Error::NoActiveKeyset));
}

#[test]
fn pick_active_breaks_ties_by_the_identifier() {
    let a = keyset(1, hash_unit(), true, 5);
    let b = keyset(2, hash_unit(), true, 5);
    let smaller = if a.id.to_u64() < b.id.to_u64() { a.id } else { b.id };
    let mut one = Mint::new(10, 1000);
    one.add_keyset(keyset(1, hash_unit(), true, 5));
    one.add_keyset(keyset(2, hash_unit(), true, 5));
    let mut other = Mint::new(10, 1000);
    other.add_keyset(b);
    other.add_keyset(a);
    assert_eq!(one.pick_active(&hash_unit()), Ok(smaller));
    assert_eq!(other.pick_active(&hash_unit()), Ok(smaller));
}

#[test]
fn a_mining_share_quote_is_paid_from_the_start() {
    let (mut mint, id) = mint();
    let key = SecretKey::generate();
    let response = mint
        .create_mint_mining_share_quote(Uuid(1), &share_request(5, id, key.public_key().unwrap()))
        .unwrap();
    assert_eq!(response.quote, Uuid(1));
    assert_eq!(response.request, "01".repeat(32));
    assert_eq!(response.amount, Some(Amount(5)));
    assert_eq!(response.unit, Some(hash_unit()));
    assert_eq!(response.state, QuoteState::Paid);
    assert_eq!(response.expiry, None);
    assert_eq!(response.pubkey, Some(key.public_key().unwrap()));
    assert_eq!(response.amount_issued, Amount(0));
    assert_eq!(response.keyset_id, id);
    assert_eq!(mint.quotes.len(), 1);
    let quote = &mint.quotes[0];
    assert_eq!(quote.state, MintQuoteState::Paid);
    assert_eq!(quote.payment_method, PaymentMethod::MiningShare);
    assert_eq!(quote.expiry, 0);
    assert_eq!(quote.amount_paid, Amount(5));
    assert_eq!(quote.keyset_id, Some(id));
    assert_eq!(mint.mint_quote_state_mining_share(Uuid(1)), Ok(response));
    assert_eq!(mint.mint_quote_state_mining_share(Uuid(2)), Err(Error::UnknownQuote));
}

#[test]
fn a_mining_share_quote_is_refused() {
    let (mut mint, id) = mint();
    let idle = keyset(3, hash_unit(), false, 0);
    let sat = keyset(4, CurrencyUnit::Sat, true, 0);
    let (idle_id, sat_id) = (idle.id, sat.id);
    mint.add_keyset(idle);
    mint.add_keyset(sat);
    let key = SecretKey::generate().public_key().unwrap();
    let cases: Vec<(MintQuoteMiningShareRequest, Error)> = vec![
        (MintQuoteMiningShareRequest { amount: Amount(0), ..share_request(5, id, key) }, Error::MiningShare(ShareError::InvalidAmount)),
        (MintQuoteMiningShareRequest { amount: Amount(257), ..share_request(5, id, key) }, Error::MiningShare(ShareError::InvalidAmount)),
        (MintQuoteMiningShareRequest { header_hash: [0; 32], ..share_request(5, id, key) }, Error::MiningShare(ShareError::InvalidHeaderHash)),
        (MintQuoteMiningShareRequest { blinded_messages: vec![], ..share_request(5, id, key) }, Error::MiningShare(ShareError::NoBlindedMessages)),
        (MintQuoteMiningShareRequest { keyset_id: Id { bytes: [9; 8] }, ..share_request(5, id, key) }, Error::UnknownKeyset),
        (MintQuoteMiningShareRequest { keyset_id: idle_id, ..share_request(5, id, key) }, Error::UnknownKeyset),
        (MintQuoteMiningShareRequest { keyset_id: sat_id, ..share_request(5, id, key) }, Error::UnsupportedUnit),
    ];
    for (request, error) in cases {
        assert_eq!(mint.create_mint_mining_share_quote(Uuid(1), &request), Err(error));
        assert!(mint.quotes.is_empty());
    }
    assert!(mint.create_mint_mining_share_quote(Uuid(1), &share_request(5, id, key)).is_ok());
    assert_eq!(
        mint.create_mint_mining_share_quote(Uuid(1), &share_request(6, id, key)),
        Err(Error::DuplicateQuote)
    );
    assert_eq!(mint.quotes.len(), 1);
}

#[test]
fn a_lightning_quote_is_unpaid_and_expires() {
    let (mut mint, _id) = mint();
    let response = mint
        .create_mint_bolt11_quote(Uuid(1), Amount(100), hash_unit(), "lnbc1".to_string(), None, 5000)
        .unwrap();
    assert_eq!(response.state, MintQuoteState::Unpaid);
    assert_eq!(response.expiry, Some(6000));
    assert_eq!(response.amount, Some(Amount(100)));
    assert_eq!(response.request, "lnbc1");
    assert_eq!(mint.quotes[0].amount_paid, Amount(0));
    assert_eq!(mint.quotes[0].keyset_id, None);
    assert_eq!(
        mint.create_mint_bolt11_quote(Uuid(1), Amount(1), hash_unit(), "x".to_string(), None, 0),
        Err(Error::DuplicateQuote)
    );
    assert_eq!(
        mint.create_mint_bolt11_quote(Uuid(2), Amount(1), CurrencyUnit::Usd, "x".to_string(), None, 0),
        Err(Error::UnsupportedUnit)
    );
    // The expiry does not wrap.
    let late = mint
        .create_mint_bolt11_quote(Uuid(3), Amount(1), hash_unit(), "x".to_string(), None, u64::MAX - 5)
        .unwrap();
    assert_eq!(late.expiry, Some(u64::MAX));
    // A lightning quote is no mining share quote.
    assert_eq!(mint.mint_quote_state_mining_share(Uuid(1)), Err(Error::UnsupportedPaymentMethod));
}

#[test]
fn a_payment_makes_an_unpaid_quote_paid() {
    let (mut mint, id) = mint();
    mint.create_mint_bolt11_quote(Uuid(1), Amount(3), hash_unit(), "lnbc1".to_string(), None, 0).unwrap();
    assert_eq!(mint.pay_mint_quote(Uuid(9)), Err(Error::UnknownQuote));
    assert_eq!(mint.pay_mint_quote(Uuid(1)), Ok(MintQuoteState::Paid));
    assert_eq!(mint.quotes[0].state, MintQuoteState::Paid);
    assert_eq!(mint.quotes[0].amount_paid, Amount(3));
    // A second payment is not taken.
    assert_eq!(mint.pay_mint_quote(Uuid(1)), Err(Error::PaidQuote));
    assert_eq!(mint.quotes[0].state, MintQuoteState::Paid);
    let request = MintRequest { quote: Uuid(1).to_string(), outputs: outputs(id, 0, 3), signature: None };
    mint.process_mint_request(&request, 10).unwrap();
    assert_eq!(mint.pay_mint_quote(Uuid(1)), Err(Error::QuoteAlreadyIssued));
    assert_eq!(mint.quotes[0].state, MintQuoteState::Issued);
}

#[test]
fn quotes_move_through_their_states() {
    let (unpaid, paid, pending, issued) =
        (MintQuoteState::Unpaid, MintQuoteState::Paid, MintQuoteState::Pending, MintQuoteState::Issued);
    let (payment, begins, returned, fails) = (
        QuoteEvent::PaymentReceived,
        QuoteEvent::IssuanceBegins,
        QuoteEvent::SignaturesReturned,
        QuoteEvent::IssuanceFails,
    );
    assert_eq!(transition(unpaid, payment), Ok(paid));
    assert_eq!(transition(paid, begins), Ok(pending));
    assert_eq!(transition(pending, returned), Ok(issued));
    assert_eq!(transition(pending, fails), Ok(paid));
    // Pending is reached from paid only.
    assert_eq!(transition(unpaid, begins), Err(Error::UnpaidQuote));
    assert_eq!(transition(pending, begins), Err(Error::QuoteAlreadyIssued));
    assert_eq!(transition(issued, begins), Err(Error::QuoteAlreadyIssued));
    // Issued is the end.
    for event in [payment, begins, returned, fails] {
        assert_eq!(transition(issued, event), Err(Error::QuoteAlreadyIssued));
    }
    assert_eq!(transition(unpaid, returned), Err(Error::UnpaidQuote));
    assert_eq!(transition(unpaid, fails), Err(Error::UnpaidQuote));
    assert_eq!(transition(paid, payment), Err(Error::PaidQuote));
    assert_eq!(transition(paid, returned), Err(Error::UnknownQuote));
    assert_eq!(transition(paid, fails), Err(Error::UnknownQuote));
    assert_eq!(transition(pending, payment), Err(Error::QuoteAlreadyIssued));
}

#[test]
fn issue_signs_the_outputs_in_their_order() {
    let (mut mint, id) = mint();
    let key = SecretKey::generate();
    let quote = share_quote(&mut mint, 1, 5, id, &key);
    let outputs = outputs(id, 0, 5);
    let request = signed(&quote, outputs.clone(), &key);
    assert_eq!(mint.verify_mint_request(&request, 0), Ok((0, Some(0))));
    let signatures = mint.process_mint_request(&request, 0).unwrap();
    assert_eq!(signatures.len(), 2);
    assert_eq!(signatures[0].amount, Amount(4));
    assert_eq!(signatures[1].amount, Amount(1));
    for (signature, output) in signatures.iter().zip(&outputs) {
        assert_eq!(signature.keyset_id, id);
        assert_eq!(signature.amount, output.amount);
        let pair = mint.keysets[0].pair(output.amount.0).unwrap();
        assert_eq!(signature.c, cdk::dhke::sign_message(&pair.secret_key, &output.blinded_secret).unwrap());
        assert_eq!(signature.verify_dleq(pair.public_key, output.blinded_secret), Ok(()));
    }
    assert_eq!(mint.quotes[0].state, MintQuoteState::Issued);
    assert_eq!(mint.quotes[0].amount_issued, Amount(5));
    assert_eq!(mint.quotes[0].keyset_id, Some(id));
}

#[test]
fn issue_happens_at_most_once() {
    let (mut mint, id) = mint();
    let key = SecretKey::generate();
    let quote = share_quote(&mut mint, 1, 5, id, &key);
    let request = signed(&quote, outputs(id, 0, 5), &key);
    assert!(mint.process_mint_request(&request, 0).is_ok());
    let after = mint.quotes.clone();
    assert_eq!(mint.process_mint_request(&request, 0), Err(Error::QuoteAlreadyIssued));
    let other = signed(&quote, outputs(id, 2, 5), &key);
    assert_eq!(mint.process_mint_request(&other, 1), Err(Error::QuoteAlreadyIssued));
    assert_eq!(mint.quotes, after);
}

#[test]
fn issue_refuses_with_the_error_of_the_first_check_that_fails() {
    let (mut mint, id) = mint();
    let other_keyset = keyset(2, hash_unit(), true, 0);
    let idle = keyset(3, hash_unit(), false, 0);
    let sat = keyset(4, CurrencyUnit::Sat, true, 0);
    let (other_id, idle_id, sat_id) = (other_keyset.id, idle.id, sat.id);
    mint.add_keyset(other_keyset);
    mint.add_keyset(idle);
    mint.add_keyset(sat);
    let key = SecretKey::generate();
    let wrong = SecretKey::generate();
    let quote = share_quote(&mut mint, 1, 5, id, &key);
    mint.create_mint_bolt11_quote(Uuid(2), Amount(5), hash_unit(), "lnbc".to_string(), None, 0).unwrap();
    let unpaid = Uuid(2).to_string();
    mint.create_mint_bolt11_quote(Uuid(3), Amount(5), hash_unit(), "lnbc".to_string(), None, 0).unwrap();
    mint.pay_mint_quote(Uuid(3)).unwrap();
    let unlocked = Uuid(3).to_string();
    let before = mint.quotes.clone();

    let mixed = vec![outputs(id, 0, 4)[0], outputs(other_id, 0, 1)[0]];
    let mut too_many = outputs(id, 0, 1);
    while too_many.len() < 11 {
        too_many.push(too_many[0]);
    }
    let mut eleven = Mint::new(10, 1000);
    eleven.add_keyset(keyset(1, hash_unit(), true, 0));
    let cases: Vec<(MintRequest, u64, Error)> = vec![
        (signed("no-such-quote", outputs(id, 0, 5), &key), 0, Error::UnknownQuote),
        (MintRequest { quote: unpaid.clone(), outputs: outputs(id, 0, 5), signature: None }, 1000, Error::UnpaidQuote),
        (MintRequest { quote: unpaid.clone(), outputs: outputs(id, 0, 5), signature: None }, 1001, Error::QuoteExpired),
        (MintRequest { quote: quote.clone(), outputs: outputs(id, 0, 5), signature: None }, 0, Error::SignatureMissingOrInvalid),
        (signed(&quote, outputs(id, 0, 5), &wrong), 0, Error::SignatureMissingOrInvalid),
        (MintRequest { quote: quote.clone(), outputs: outputs(id, 0, 5), signature: Some("sig1".to_string()) }, 0, Error::SignatureMissingOrInvalid),
        (signed(&unlocked, outputs(id, 0, 5), &key), 0, Error::SignatureMissingOrInvalid),
        (signed(&quote, mixed, &key), 0, Error::KeysetMismatch),
        (signed(&quote, outputs(other_id, 0, 5), &key), 0, Error::KeysetMismatch),
        (signed(&quote, outputs(Id { bytes: [9; 8] }, 0, 5), &key), 0, Error::UnknownKeyset),
        (signed(&quote, outputs(idle_id, 0, 5), &key), 0, Error::UnknownKeyset),
        (MintRequest { quote: unlocked.clone(), outputs: outputs(sat_id, 0, 5), signature: None }, 0, Error::KeysetMismatch),
        (signed(&quote, outputs(id, 0, 4), &key), 0, Error::AmountMismatch),
        (signed(&quote, outputs(id, 0, 6), &key), 0, Error::AmountMismatch),
        (signed(&quote, vec![], &key), 0, Error::AmountMismatch),
        (signed(&quote, vec![BlindedMessage::new(Amount(5), id, outputs(id, 0, 1)[0].blinded_secret)], &key), 0, Error::InvalidAmountDenomination),
        (signed(&quote, vec![BlindedMessage::new(Amount(u64::MAX), id, outputs(id, 0, 1)[0].blinded_secret); 2], &key), 0, Error::AmountMismatch),
    ];
    for (request, now, error) in cases {
        assert_eq!(mint.verify_mint_request(&request, now), Err(error));
        assert_eq!(mint.process_mint_request(&request, now), Err(error));
        assert_eq!(mint.quotes, before);
    }
    // Too many outputs, though they add up and each has a key.
    eleven
        .create_mint_bolt11_quote(Uuid(1), Amount(11), hash_unit(), "lnbc".to_string(), None, 0)
        .unwrap();
    eleven.pay_mint_quote(Uuid(1)).unwrap();
    let request = MintRequest { quote: Uuid(1).to_string(), outputs: too_many.clone(), signature: None };
    assert_eq!(eleven.process_mint_request(&request, 0), Err(Error::OutputCountExceeded));
    too_many.pop();
    too_many.pop();
    too_many.push(outputs(id, 0, 2)[0]);
    let request = MintRequest { quote: Uuid(1).to_string(), outputs: too_many, signature: None };
    assert_eq!(eleven.process_mint_request(&request, 0).unwrap().len(), 10);
}

#[test]
fn a_signature_that_the_curve_refuses_leaves_the_quote_paid() {
    let (mut mint, id) = mint();
    let key = SecretKey::generate();
    let quote = share_quote(&mut mint, 1, 1, id, &key);
    // The blinded secret is no point: the checks pass, the signing fails.
    let outputs = vec![BlindedMessage::new(Amount(1), id, PublicKey { bytes: [0; 33] })];
    let request = signed(&quote, outputs, &key);
    assert_eq!(
        mint.process_mint_request(&request, 0),
        Err(Error::Dhke(cdk::dhke::Error::Secp256k1))
    );
    assert_eq!(mint.quotes[0].state, MintQuoteState::Paid);
    assert_eq!(mint.quotes[0].amount_issued, Amount(0));
    // The quote can still be issued.
    let request = signed(&quote, self::outputs(id, 0, 1), &key);
    assert!(mint.process_mint_request(&request, 0).is_ok());
}

#[test]
fn expired_quotes_are_removed_unless_issued() {
    let (mut mint, id) = mint();
    let key = SecretKey::generate();
    share_quote(&mut mint, 1, 5, id, &key);
    mint.create_mint_bolt11_quote(Uuid(2), Amount(5), hash_unit(), "a".to_string(), None, 0).unwrap();
    mint.create_mint_bolt11_quote(Uuid(3), Amount(5), hash_unit(), "b".to_string(), None, 500).unwrap();
    mint.create_mint_bolt11_quote(Uuid(4), Amount(2), hash_unit(), "c".to_string(), None, 0).unwrap();
    mint.pay_mint_quote(Uuid(4)).unwrap();
    let request = MintRequest { quote: Uuid(4).to_string(), outputs: outputs(id, 0, 2), signature: None };
    mint.process_mint_request(&request, 10).unwrap();
    assert_eq!(mint.remove_expired_quotes(1000), 0);
    assert_eq!(mint.quotes.len(), 4);
    // The quotes 2 and 4 expire at 1000; 4 is issued and stays; 1 never expires.
    assert_eq!(mint.remove_expired_quotes(1001), 1);
    let left: Vec<Uuid> = mint.quotes.iter().map(|q| q.id).collect();
    assert_eq!(left, vec![Uuid(1), Uuid(3), Uuid(4)]);
    assert_eq!(mint.remove_expired_quotes(u64::MAX), 1);
    let left: Vec<Uuid> = mint.quotes.iter().map(|q| q.id).collect();
    assert_eq!(left, vec![Uuid(1), Uuid(4)]);
    assert!(mint.quotes[0].is_expired(u64::MAX) == false);
}

#[test]
fn batch_issues_all_quotes_or_none() {
    let (mut mint, id) = mint();
    let key = SecretKey::generate();
    let q1 = share_quote(&mut mint, 1, 1, id, &key);
    let q2 = share_quote(&mut mint, 2, 2, id, &key);
    let q3 = share_quote(&mut mint, 3, 4, id, &key);
    let outputs = outputs(id, 0, 7);
    let signatures: Vec<Option<String>> = [&q1, &q2, &q3]
        .iter()
        .map(|q| Some(sign_request(&q.to_string(), &outputs, &key).unwrap()))
        .collect();
    let request = BatchMintRequest {
        quote: vec![q1, q2, q3],
        outputs: outputs.clone(),
        signature: Some(signatures),
    };
    let before = mint.quotes.clone();
    // On the endpoint of another payment method nothing is issued.
    assert_eq!(
        mint.process_batch_mint_request(&request, PaymentMethod::Bolt11, 0),
        Err(Error::BatchPaymentMethodMismatch)
    );
    assert_eq!(mint.quotes, before);
    let signed = mint.process_batch_mint_request(&request, PaymentMethod::MiningShare, 0).unwrap();
    assert_eq!(signed.len(), 3);
    let amounts: Vec<u64> = signed.iter().map(|s| s.amount.0).collect();
    assert_eq!(amounts, vec![4, 2, 1]);
    for (i, amount) in [1u64, 2, 4].iter().enumerate() {
        assert_eq!(mint.quotes[i].state, MintQuoteState::Issued);
        assert_eq!(mint.quotes[i].amount_issued, Amount(*amount));
    }
    // A second time every quote is issued already.
    assert_eq!(
        mint.process_batch_mint_request(&request, PaymentMethod::MiningShare, 0),
        Err(Error::QuoteAlreadyIssued)
    );
}

#[test]
fn batch_refuses_with_the_error_of_the_first_check_that_fails() {
    let (mut mint, id) = mint();
    let other_keyset = keyset(2, hash_unit(), true, 0);
    let sat = keyset(4, CurrencyUnit::Sat, true, 0);
    let (other_id, sat_id) = (other_keyset.id, sat.id);
    mint.add_keyset(other_keyset);
    mint.add_keyset(sat);
    let key = SecretKey::generate();
    let q1 = share_quote(&mut mint, 1, 1, id, &key);
    let q2 = share_quote(&mut mint, 2, 2, id, &key);
    let other = share_quote(&mut mint, 3, 2, other_id, &key);
    mint.create_mint_bolt11_quote(Uuid(4), Amount(2), hash_unit(), "a".to_string(), None, 0).unwrap();
    let unpaid = Uuid(4).to_string();
    mint.create_mint_bolt11_quote(Uuid(5), Amount(2), hash_unit(), "a".to_string(), None, 0).unwrap();
    mint.pay_mint_quote(Uuid(5)).unwrap();
    let lightning = Uuid(5).to_string();
    mint.create_mint_bolt11_quote(Uuid(6), Amount(2), CurrencyUnit::Sat, "a".to_string(), None, 0).unwrap();
    mint.pay_mint_quote(Uuid(6)).unwrap();
    let in_sat = Uuid(6).to_string();
    let before = mint.quotes.clone();
    let three = outputs(id, 0, 3);
    let sign = |quotes: &[&String], outputs: &Vec<BlindedMessage>| -> Option<Vec<Option<String>>> {
        Some(quotes.iter().map(|q| Some(sign_request(q, outputs, &key).unwrap())).collect())
    };
    let share = PaymentMethod::MiningShare;
    let cases: Vec<(BatchMintRequest, PaymentMethod, Error)> = vec![
        (BatchMintRequest { quote: vec![], outputs: three.clone(), signature: None }, share, Error::BatchEmpty),
        (BatchMintRequest { quote: (0..101).map(|i| format!("quote_{}", i)).collect(), outputs: three.clone(), signature: None }, share, Error::BatchSizeExceeded),
        (BatchMintRequest { quote: vec![q1.clone(), q2.clone(), q1.clone()], outputs: three.clone(), signature: None }, share, Error::BatchDuplicateQuote),
        (BatchMintRequest { quote: vec![q1.clone(), q2.clone()], outputs: three.clone(), signature: Some(vec![None]) }, share, Error::SignatureCountMismatch),
        (BatchMintRequest { quote: vec![q1.clone(), "nonexistent".to_string()], outputs: three.clone(), signature: sign(&[&q1, &q2], &three) }, share, Error::UnknownQuote),
        (BatchMintRequest { quote: vec![lightning.clone(), unpaid.clone()], outputs: three.clone(), signature: None }, PaymentMethod::Bolt11, Error::UnpaidQuote),
        (BatchMintRequest { quote: vec![q1.clone(), lightning.clone()], outputs: three.clone(), signature: sign(&[&q1, &q2], &three) }, share, Error::BatchPaymentMethodMismatch),
        (BatchMintRequest { quote: vec![lightning.clone(), in_sat.clone()], outputs: three.clone(), signature: None }, PaymentMethod::Bolt11, Error::BatchCurrencyUnitMismatch),
        (BatchMintRequest { quote: vec![q1.clone(), other.clone()], outputs: three.clone(), signature: sign(&[&q1, &other], &three) }, share, Error::BatchKeysetMismatch),
        (BatchMintRequest { quote: vec![q1.clone(), q2.clone()], outputs: three.clone(), signature: None }, share, Error::SignatureMissingOrInvalid),
        (BatchMintRequest { quote: vec![q1.clone(), q2.clone()], outputs: three.clone(), signature: Some(vec![sign(&[&q1], &three).unwrap()[0].clone(), None]) }, share, Error::SignatureMissingOrInvalid),
        (BatchMintRequest { quote: vec![q1.clone(), q2.clone()], outputs: three.clone(), signature: sign(&[&q2, &q1], &three) }, share, Error::SignatureMissingOrInvalid),
        (BatchMintRequest { quote: vec![lightning.clone()], outputs: outputs(id, 0, 2), signature: sign(&[&lightning], &outputs(id, 0, 2)) }, PaymentMethod::Bolt11, Error::SignatureMissingOrInvalid),
        (BatchMintRequest { quote: vec![q1.clone(), q2.clone()], outputs: outputs(other_id, 0, 3), signature: sign(&[&q1, &q2], &outputs(other_id, 0, 3)) }, share, Error::BatchKeysetMismatch),
        (BatchMintRequest { quote: vec![lightning.clone()], outputs: outputs(sat_id, 0, 2), signature: None }, PaymentMethod::Bolt11, Error::BatchKeysetMismatch),
        (BatchMintRequest { quote: vec![q1.clone(), q2.clone()], outputs: outputs(Id { bytes: [9; 8] }, 0, 3), signature: sign(&[&q1, &q2], &outputs(Id { bytes: [9; 8] }, 0, 3)) }, share, Error::UnknownKeyset),
        (BatchMintRequest { quote: vec![q1.clone(), q2.clone()], outputs: outputs(id, 0, 2), signature: sign(&[&q1, &q2], &outputs(id, 0, 2)) }, share, Error::AmountMismatch),
        (BatchMintRequest { quote: vec![q1.clone(), q2.clone()], outputs: vec![BlindedMessage::new(Amount(3), id, three[0].blinded_secret)], signature: sign(&[&q1, &q2], &vec![BlindedMessage::new(Amount(3), id, three[0].blinded_secret)]) }, share, Error::InvalidAmountDenomination),
    ];
    for (request, method, error) in cases {
        assert_eq!(mint.process_batch_mint_request(&request, method, 500), Err(error));
        assert_eq!(mint.quotes, before);
    }
    // An expired quote in the batch.
    mint.create_mint_bolt11_quote(Uuid(7), Amount(1), hash_unit(), "a".to_string(), None, 0).unwrap();
    mint.pay_mint_quote(Uuid(7)).unwrap();
    let request = BatchMintRequest { quote: vec![Uuid(7).to_string()], outputs: outputs(id, 0, 1), signature: None };
    assert_eq!(
        mint.process_batch_mint_request(&request, PaymentMethod::Bolt11, 1001),
        Err(Error::QuoteExpired)
    );
    assert!(mint.process_batch_mint_request(&request, PaymentMethod::Bolt11, 1000).is_ok());
}

#[test]
fn a_batch_of_a_hundred_quotes_is_taken() {
    let (mut mint, id) = mint();
    let mut quotes: Vec<String> = Vec::new();
    for n in 0..100u128 {
        mint.create_mint_bolt11_quote(Uuid(n), Amount(1), hash_unit(), "a".to_string(), None, 0).unwrap();
        mint.pay_mint_quote(Uuid(n)).unwrap();
        quotes.push(Uuid(n).to_string());
    }
    let request = BatchMintRequest { quote: quotes, outputs: outputs(id, 0, 100), signature: None };
    let signatures = mint.process_batch_mint_request(&request, PaymentMethod::Bolt11, 0).unwrap();
    let amounts: Vec<u64> = signatures.iter().map(|s| s.amount.0).collect();
    assert_eq!(amounts, vec![64, 32, 4]);
    assert!(mint.quotes.iter().all(|q| q.state == MintQuoteState::Issued));
}

#[test]
fn lookup_finds_quotes_by_key_and_state() {
    let (mut mint, id) = mint();
    let p = SecretKey::generate();
    let q = SecretKey::generate();
    let (pp, qp) = (p.public_key().unwrap(), q.public_key().unwrap());
    let qa = share_quote(&mut mint, 1, 1, id, &p);
    let qb = share_quote(&mut mint, 2, 2, id, &p);
    let qc = share_quote(&mut mint, 3, 4, id, &q);
    mint.create_mint_bolt11_quote(Uuid(4), Amount(8), hash_unit(), "a".to_string(), None, 0).unwrap();
    mint.process_mint_request(&signed(&qb, outputs(id, 0, 2), &p), 0).unwrap();

    let ids = |keys: &[PublicKey], filter: MintQuoteStateFilter| -> Vec<String> {
        let mut found: Vec<String> = mint
            .lookup_mint_quotes_by_pubkeys(&keys.to_vec(), filter)
            .unwrap()
            .into_iter()
            .map(|item| item.quote)
            .collect();
        found.sort();
        found
    };
    assert_eq!(ids(&[pp], MintQuoteStateFilter::OnlyPaid), vec![qa.clone()]);
    assert_eq!(ids(&[pp], MintQuoteStateFilter::All), vec![qa.clone(), qb.clone()]);
    assert_eq!(ids(&[pp, qp], MintQuoteStateFilter::OnlyPaid), vec![qa.clone(), qc.clone()]);
    assert_eq!(ids(&[pp], MintQuoteStateFilter::OnlyIssued), vec![qb.clone()]);
    assert_eq!(ids(&[pp], MintQuoteStateFilter::Specific(MintQuoteState::Issued)), vec![qb.clone()]);
    assert_eq!(ids(&[pp, qp], MintQuoteStateFilter::OnlyUnpaid), Vec::<String>::new());
    assert_eq!(ids(&[], MintQuoteStateFilter::All), Vec::<String>::new());
    let stranger = SecretKey::generate().public_key().unwrap();
    assert_eq!(ids(&[stranger], MintQuoteStateFilter::All), Vec::<String>::new());
    assert_eq!(ids(&[pp, pp], MintQuoteStateFilter::OnlyPaid), vec![qa.clone()]);

    let items = mint.lookup_mint_quotes_by_pubkeys(&vec![qp], MintQuoteStateFilter::default()).unwrap();
    assert_eq!(items.len(), 1);
    assert_eq!(items[0].pubkey, qp);
    assert_eq!(items[0].quote, qc);
    assert_eq!(items[0].method, PaymentMethod::MiningShare);
    assert_eq!(items[0].amount, Amount(4));
    assert_eq!(items[0].keyset_id, id);
}

#[test]
fn lookup_finds_lightning_quotes_that_are_locked() {
    let (mut mint, _id) = mint();
    let key = SecretKey::generate().public_key().unwrap();
    mint.create_mint_bolt11_quote(Uuid(1), Amount(100), hash_unit(), "a".to_string(), Some(key), 0).unwrap();
    mint.create_mint_bolt11_quote(Uuid(2), Amount(100), hash_unit(), "a".to_string(), None, 0).unwrap();
    let items = mint.lookup_mint_quotes_by_pubkeys(&vec![key], MintQuoteStateFilter::All).unwrap();
    assert_eq!(items.len(), 1);
    assert_eq!(items[0].pubkey, key);
    assert_eq!(items[0].quote, Uuid(1).to_string());
    assert_eq!(items[0].method, PaymentMethod::Bolt11);
    // A quote without a keyset yet is told with eight zero bytes.
    assert_eq!(items[0].keyset_id, Id { bytes: [0; 8] });
    assert!(mint.lookup_mint_quotes_by_pubkeys(&vec![key], MintQuoteStateFilter::OnlyPaid).unwrap().is_empty());
}

#[test]
fn a_lease_that_was_left_pending_is_released() {
    let (mut mint, id) = mint();
    let key = SecretKey::generate();
    let quote = share_quote(&mut mint, 1, 2, id, &key);
    share_quote(&mut mint, 2, 2, id, &key);
    mint.create_mint_bolt11_quote(Uuid(3), Amount(2), hash_unit(), "a".to_string(), None, 0).unwrap();
    // An issuance that broke off after the lease leaves the quote pending.
    mint.quotes[0].state = MintQuoteState::Pending;
    let request = signed(&quote, outputs(id, 0, 2), &key);
    assert_eq!(mint.process_mint_request(&request, 0), Err(Error::QuoteAlreadyIssued));
    assert_eq!(mint.release_pending_quotes(), 1);
    let states: Vec<MintQuoteState> = mint.quotes.iter().map(|q| q.state).collect();
    assert_eq!(states, vec![MintQuoteState::Paid, MintQuoteState::Paid, MintQuoteState::Unpaid]);
    assert_eq!(mint.release_pending_quotes(), 0);
    assert!(mint.process_mint_request(&request, 0).is_ok());
    assert_eq!(mint.release_pending_quotes(), 0);
    assert_eq!(mint.quotes[0].state, MintQuoteState::Issued);
}

#[test]
fn the_time_of_a_quote_can_be_set() {
    let (mut mint, _id) = mint();
    assert_eq!(mint.get_quote_ttl(), 1000);
    mint.create_mint_bolt11_quote(Uuid(1), Amount(2), hash_unit(), "a".to_string(), None, 50).unwrap();
    mint.set_quote_ttl(7);
    assert_eq!(mint.get_quote_ttl(), 7);
    mint.create_mint_bolt11_quote(Uuid(2), Amount(2), hash_unit(), "a".to_string(), None, 50).unwrap();
    assert_eq!(mint.quotes[0].expiry, 1050);
    assert_eq!(mint.quotes[1].expiry, 57);
}

#[test]
fn a_path_of_too_many_steps_derives_no_keys() {
    // A key can be 255 steps below the master key and no more.
    let deepest: Vec<u32> = vec![0x8000_0000; 254];
    assert!(MintKeySet::generate(&[3; 32], &deepest, 1, hash_unit(), true, 0).is_ok());
    let too_deep: Vec<u32> = vec![0x8000_0000; 255];
    assert_eq!(
        MintKeySet::generate(&[3; 32], &too_deep, 1, hash_unit(), true, 0),
        Err(Error::Derivation(cdk::nuts::nut13::Error::Bip32))
    );
}

#[test]
fn a_request_without_outputs_for_a_quote_of_nothing_is_issued() {
    let (mut mint, _id) = mint();
    mint.create_mint_bolt11_quote(Uuid(1), Amount(0), hash_unit(), "a".to_string(), None, 0).unwrap();
    mint.create_mint_bolt11_quote(Uuid(2), Amount(0), hash_unit(), "b".to_string(), None, 0).unwrap();
    mint.create_mint_bolt11_quote(Uuid(3), Amount(0), hash_unit(), "c".to_string(), None, 0).unwrap();
    for n in 1..4 {
        mint.pay_mint_quote(Uuid(n)).unwrap();
    }
    // No output is signed, so nothing can refuse.
    let request = MintRequest { quote: Uuid(1).to_string(), outputs: vec![], signature: None };
    assert_eq!(mint.process_mint_request(&request, 0), Ok(vec![]));
    assert_eq!(mint.quotes[0].state, MintQuoteState::Issued);
    assert_eq!(mint.process_mint_request(&request, 0), Err(Error::QuoteAlreadyIssued));
    let batch = BatchMintRequest {
        quote: vec![Uuid(2).to_string(), Uuid(3).to_string()],
        outputs: vec![],
        signature: None,
    };
    assert_eq!(mint.process_batch_mint_request(&batch, PaymentMethod::Bolt11, 0), Ok(vec![]));
    assert_eq!(mint.quotes[1].state, MintQuoteState::Issued);
    assert_eq!(mint.quotes[2].state, MintQuoteState::Issued);
}
