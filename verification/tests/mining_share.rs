use cdk::amount::Amount;
use cdk::dhke::blind_message;
use cdk::nuts::nut00::{BlindedMessage, CurrencyUnit, MintQuoteState};
use cdk::nuts::nut01::SecretKey;
use cdk::nuts::nut02::Id;
use cdk::nuts::nutxx::{
    Error, MeltQuoteMiningShareResponse, MintQuoteMiningShareRequest, MintQuoteMiningShareResponse,
    QuoteState,
};
use cdk::quote_id::Uuid;
use std::str::FromStr;

fn request(amount: u64, header_hash: [u8; 32], messages: usize) -> MintQuoteMiningShareRequest {
    let pubkey = SecretKey::generate().public_key().unwrap();
    let (b, _) = blind_message(b"secret", None).unwrap();
    MintQuoteMiningShareRequest {
        amount: Amount(amount),
        unit: CurrencyUnit::Custom("HASH".to_string()),
        header_hash,
        description: None,
        pubkey,
        keyset_id: Id { bytes: [0; 8] },
        blinded_messages: vec![BlindedMessage::new(Amount(amount), Id { bytes: [0; 8] }, b); messages],
    }
}

fn response(amount: Option<u64>, expiry: Option<u64>) -> MintQuoteMiningShareResponse<Uuid> {
    MintQuoteMiningShareResponse {
        quote: Uuid::from_u128(0xa1a2a3a4b1b2c1c2d1d2d3d4d5d6d7d8),
        request: "0101".to_string(),
        amount: amount.map(Amount),
        unit: Some(CurrencyUnit::Custom("HASH".to_string())),
        state: QuoteState::Paid,
        expiry,
        pubkey: None,
        amount_issued: Amount(0),
        keyset_id: Id { bytes: [0, 1, 2, 3, 4, 5, 6, 7] },
    }
}

#[test]
fn request_amount_is_from_1_to_256() {
    assert_eq!(request(0, [1; 32], 1).validate(), Err(Error::InvalidAmount));
    assert_eq!(request(1, [1; 32], 1).validate(), Ok(()));
    assert_eq!(request(5, [1; 32], 1).validate(), Ok(()));
    assert_eq!(request(256, [1; 32], 1).validate(), Ok(()));
    assert_eq!(request(257, [1; 32], 1).validate(), Err(Error::InvalidAmount));
    assert_eq!(request(u64::MAX, [1; 32], 1).validate(), Err(Error::InvalidAmount));
}

#[test]
fn request_header_hash_is_not_all_zeros() {
    assert_eq!(request(5, [0; 32], 1).validate(), Err(Error::InvalidHeaderHash));
    let mut last = [0u8; 32];
    last[31] = 1;
    assert_eq!(request(5, last, 1).validate(), Ok(()));
    let mut first = [0u8; 32];
    first[0] = 0x80;
    assert_eq!(request(5, first, 1).validate(), Ok(()));
}

#[test]
fn request_has_blinded_messages() {
    assert_eq!(request(5, [1; 32], 0).validate(), Err(Error::NoBlindedMessages));
    assert_eq!(request(5, [1; 32], 2).validate(), Ok(()));
}

#[test]
fn request_checks_come_in_order() {
    // The amount is looked at first, then the hash, then the messages.
    assert_eq!(request(0, [0; 32], 0).validate(), Err(Error::InvalidAmount));
    assert_eq!(request(5, [0; 32], 0).validate(), Err(Error::InvalidHeaderHash));
}

#[test]
fn response_expires_after_its_time() {
    let r = response(Some(5), Some(1000));
    assert!(!r.is_expired_at(0));
    assert!(!r.is_expired_at(999));
    assert!(!r.is_expired_at(1000));
    assert!(r.is_expired_at(1001));
    assert!(r.is_expired_at(u64::MAX));
    let never = response(Some(5), None);
    assert!(!never.is_expired_at(u64::MAX));
    assert!(!never.is_expired());
    // By the machine's clock: a time long gone, and one far ahead.
    assert!(response(Some(5), Some(1)).is_expired());
    assert!(!response(Some(5), Some(u64::MAX)).is_expired());
}

#[test]
fn response_with_the_expiry_zero_never_expires() {
    let never = response(Some(5), Some(0));
    assert!(!never.is_expired_at(0));
    assert!(!never.is_expired_at(1));
    assert!(!never.is_expired_at(u64::MAX));
    assert!(!never.is_expired());
    assert_eq!(never.validate_at(1), Ok(()));
    assert_eq!(never.validate_at(u64::MAX), Ok(()));
    assert_eq!(never.validate(), Ok(()));
    assert_eq!(response(Some(0), Some(0)).validate(), Err(Error::InvalidAmount));
    // The expiry one is the first that there is.
    assert!(response(Some(5), Some(1)).is_expired_at(2));
}

#[test]
fn response_is_validated() {
    assert_eq!(response(Some(5), Some(1000)).validate_at(1000), Ok(()));
    assert_eq!(response(Some(5), Some(1000)).validate_at(1001), Err(Error::QuoteExpired));
    assert_eq!(response(Some(0), Some(1000)).validate_at(1000), Err(Error::InvalidAmount));
    // Expiry is looked at before the amount.
    assert_eq!(response(Some(0), Some(1000)).validate_at(1001), Err(Error::QuoteExpired));
    assert_eq!(response(None, None).validate_at(u64::MAX), Ok(()));
    assert_eq!(response(Some(5), None).validate(), Ok(()));
    assert_eq!(response(Some(0), None).validate(), Err(Error::InvalidAmount));
    assert_eq!(response(Some(5), Some(1)).validate(), Err(Error::QuoteExpired));
    assert_eq!(response(Some(5), Some(u64::MAX)).validate(), Ok(()));
}

#[test]
fn response_identifier_becomes_text() {
    let r = response(Some(5), Some(1000));
    let text = r.to_string_id();
    assert_eq!(text.quote, "a1a2a3a4-b1b2-c1c2-d1d2-d3d4d5d6d7d8");
    assert_eq!(text.request, r.request);
    assert_eq!(text.amount, r.amount);
    assert_eq!(text.unit, r.unit);
    assert_eq!(text.state, r.state);
    assert_eq!(text.expiry, r.expiry);
    assert_eq!(text.pubkey, r.pubkey);
    assert_eq!(text.amount_issued, r.amount_issued);
    assert_eq!(text.keyset_id, r.keyset_id);
    let converted: MintQuoteMiningShareResponse<String> = r.into();
    assert_eq!(converted, text);

    let melt = MeltQuoteMiningShareResponse {
        quote: Uuid::from_u128(7),
        amount: Amount(9),
        fee_reserve: Amount(1),
        state: QuoteState::Pending,
        expiry: Some(3),
        request_id: Uuid::from_u128(8),
    };
    let melt_text = melt.to_string_id();
    assert_eq!(melt_text.quote, "00000000-0000-0000-0000-000000000007");
    assert_eq!(melt_text.amount, Amount(9));
    assert_eq!(melt_text.fee_reserve, Amount(1));
    assert_eq!(melt_text.state, QuoteState::Pending);
    assert_eq!(melt_text.expiry, Some(3));
    assert_eq!(melt_text.request_id, Uuid::from_u128(8));
    let converted: MeltQuoteMiningShareResponse<String> = melt.into();
    assert_eq!(converted, melt_text);
}

#[test]
fn quote_state_has_upper_case_names() {
    assert_eq!(QuoteState::Paid.to_string(), "PAID");
    assert_eq!(QuoteState::Pending.to_string(), "PENDING");
    assert_eq!(QuoteState::Issued.to_string(), "ISSUED");
    assert_eq!(QuoteState::parse("PAID"), Ok(QuoteState::Paid));
    assert_eq!(QuoteState::parse("PENDING"), Ok(QuoteState::Pending));
    assert_eq!(QuoteState::parse("ISSUED"), Ok(QuoteState::Issued));
    assert_eq!(QuoteState::from_str("ISSUED"), Ok(QuoteState::Issued));
    for other in ["", "paid", "UNPAID", "PAID ", "Issued"] {
        assert_eq!(QuoteState::parse(other), Err(Error::UnknownState));
        assert_eq!(QuoteState::from_str(other), Err(Error::UnknownState));
    }
    assert_eq!(QuoteState::default(), QuoteState::Paid);
}

#[test]
fn quote_state_maps_to_the_states_of_all_quotes() {
    assert_eq!(QuoteState::Paid.to_mint_quote_state(), MintQuoteState::Paid);
    assert_eq!(QuoteState::Pending.to_mint_quote_state(), MintQuoteState::Pending);
    assert_eq!(QuoteState::Issued.to_mint_quote_state(), MintQuoteState::Issued);
    assert_eq!(QuoteState::from_mint_quote_state(MintQuoteState::Unpaid), None);
    assert_eq!(QuoteState::from_mint_quote_state(MintQuoteState::Paid), Some(QuoteState::Paid));
    assert_eq!(QuoteState::from_mint_quote_state(MintQuoteState::Pending), Some(QuoteState::Pending));
    assert_eq!(QuoteState::from_mint_quote_state(MintQuoteState::Issued), Some(QuoteState::Issued));
}

#[test]
fn mining_share_errors_have_messages() {
    assert_eq!(Error::UnknownState.to_string(), "Unknown Quote State");
    assert_eq!(Error::AmountOverflow.to_string(), "Amount overflow");
    assert_eq!(Error::InvalidRequest.to_string(), "Invalid Request");
    assert_eq!(Error::InvalidHeaderHash.to_string(), "Invalid header hash");
    assert_eq!(Error::QuoteExpired.to_string(), "Quote expired");
    assert_eq!(Error::InvalidAmount.to_string(), "Invalid amount: must be positive and not exceed 256");
    assert_eq!(Error::NoOutputs.to_string(), "No outputs provided in request");
    assert_eq!(Error::NoBlindedMessages.to_string(), "No blinded messages provided in request");
}
