use squeakroad::error::{CaseError, Rejection};
use squeakroad::fee::Amounts;
use squeakroad::request::{
    check_case_request, invoice_value_msat, new_case, prepare_case, Listing, Party,
};

fn listing() -> Listing {
    Listing {
        id: 11,
        owner_id: 1,
        unit_price: 7,
        fee_rate_basis_points: 500,
        approved: true,
        deactivated_by_seller: false,
        deactivated_by_admin: false,
    }
}

fn buyer() -> Party {
    Party { id: 2, is_admin: false }
}

// One literal-data packet holding the text "hi", armored.
const ARMORED_MESSAGE: &str = "-----BEGIN PGP MESSAGE-----\n\nywhiAAAAAABoaQ==\n=XHDm\n-----END PGP MESSAGE-----\n";

#[test]
fn accepted_request_is_priced() {
    let r = check_case_request(&listing(), &buyer(), 3, 100, true);
    assert_eq!(r, Ok(Amounts { amount_owed: 21, market_fee: 2, seller_credit: 19 }));
}

#[test]
fn unapproved_listing_is_refused() {
    let mut l = listing();
    l.approved = false;
    let r = check_case_request(&l, &buyer(), 1, 100, true);
    assert_eq!(r, Err(CaseError::ValidationError(Rejection::NotApproved)));
}

#[test]
fn deactivated_listing_is_refused() {
    let mut l = listing();
    l.deactivated_by_admin = true;
    let r = check_case_request(&l, &buyer(), 1, 100, true);
    assert_eq!(r, Err(CaseError::ValidationError(Rejection::Deactivated)));
}

#[test]
fn buying_own_listing_is_refused() {
    let b = Party { id: 1, is_admin: false };
    let r = check_case_request(&listing(), &b, 1, 100, true);
    assert_eq!(r, Err(CaseError::ValidationError(Rejection::SelfDealing)));
}

#[test]
fn zero_quantity_is_refused() {
    let r = check_case_request(&listing(), &buyer(), 0, 100, true);
    assert_eq!(r, Err(CaseError::ValidationError(Rejection::ZeroQuantity)));
}

#[test]
fn oversized_details_are_refused() {
    let r = check_case_request(&listing(), &buyer(), 1, 4097, true);
    assert_eq!(r, Err(CaseError::ValidationError(Rejection::DetailsTooLong)));
    assert!(check_case_request(&listing(), &buyer(), 1, 4096, true).is_ok());
}

#[test]
fn empty_details_are_refused() {
    let r = check_case_request(&listing(), &buyer(), 1, 0, true);
    assert_eq!(r, Err(CaseError::ValidationError(Rejection::EmptyDetails)));
}

#[test]
fn malformed_message_is_refused() {
    let r = check_case_request(&listing(), &buyer(), 1, 10, false);
    assert_eq!(r, Err(CaseError::ValidationError(Rejection::MalformedMessage)));
}

#[test]
fn admin_cannot_buy() {
    let b = Party { id: 5, is_admin: true };
    let r = check_case_request(&listing(), &b, 1, 10, true);
    assert_eq!(r, Err(CaseError::ValidationError(Rejection::AdminBuyer)));
}

#[test]
fn overflowing_request_is_refused() {
    let mut l = listing();
    l.unit_price = u64::MAX;
    let r = check_case_request(&l, &buyer(), 2, 10, true);
    assert_eq!(r, Err(CaseError::Overflow));
}

#[test]
fn prepare_accepts_armored_message() {
    let r = prepare_case(&listing(), &buyer(), 1, ARMORED_MESSAGE);
    assert_eq!(r, Ok(Amounts { amount_owed: 7, market_fee: 1, seller_credit: 6 }));
}

#[test]
fn prepare_refuses_plain_text() {
    let r = prepare_case(&listing(), &buyer(), 1, "ship to the usual place");
    assert_eq!(r, Err(CaseError::ValidationError(Rejection::MalformedMessage)));
}

#[test]
fn prepare_refuses_oversized_details() {
    let details = "x".repeat(4097);
    let r = prepare_case(&listing(), &buyer(), 1, &details);
    assert_eq!(r, Err(CaseError::ValidationError(Rejection::DetailsTooLong)));
}

#[test]
fn invoice_value_in_millisatoshis() {
    assert_eq!(invoice_value_msat(21), Ok(21_000));
    assert_eq!(invoice_value_msat(0), Ok(0));
    assert_eq!(invoice_value_msat(u64::MAX / 1000), Err(CaseError::Overflow));
    assert_eq!(invoice_value_msat(i64::MAX as u64 / 1000), Ok((i64::MAX / 1000) * 1000));
}

#[test]
fn new_case_binds_the_invoice() {
    let a = Amounts { amount_owed: 21, market_fee: 2, seller_credit: 19 };
    let c = new_case(
        &listing(),
        &buyer(),
        3,
        "details".to_string(),
        &a,
        "pub-1".to_string(),
        &vec![0x00, 0xab, 0x7f, 0xff],
        "lnbc1request".to_string(),
        1234,
    );
    assert_eq!(c.invoice_hash, "00ab7fff");
    assert_eq!(c.buyer_user_id, 2);
    assert_eq!(c.seller_user_id, 1);
    assert_eq!(c.listing_id, 11);
    assert_eq!(c.amount_owed, 21);
    assert_eq!(c.seller_credit, 19);
    assert_eq!(c.invoice_payment_request, "lnbc1request");
    assert_eq!(c.created_time_ms, 1234);
}

#[test]
fn fee_rate_above_whole_is_refused() {
    let mut l = listing();
    l.fee_rate_basis_points = 10001;
    let r = check_case_request(&l, &buyer(), 1, 10, true);
    assert_eq!(r, Err(CaseError::ValidationError(Rejection::FeeRateOutOfRange)));
}

#[test]
fn prepare_refuses_empty_details() {
    let r = prepare_case(&listing(), &buyer(), 1, "");
    assert_eq!(r, Err(CaseError::ValidationError(Rejection::EmptyDetails)));
}

#[test]
fn prepare_refuses_armored_signature_block() {
    let text = ARMORED_MESSAGE.replace("MESSAGE", "SIGNATURE");
    let r = prepare_case(&listing(), &buyer(), 1, &text);
    assert_eq!(r, Err(CaseError::ValidationError(Rejection::MalformedMessage)));
}

#[test]
fn prepare_refuses_zero_length_trust_packet() {
    let text = "-----BEGIN PGP MESSAGE-----\n\nsw==\n-----END PGP MESSAGE-----\n";
    let r = prepare_case(&listing(), &buyer(), 1, text);
    assert_eq!(r, Err(CaseError::ValidationError(Rejection::MalformedMessage)));
}
