//! Checking a buyer's order request against the listing it names, and pricing it.
use vstd::prelude::*;
use crate::fee::{Amounts, compute_amounts, amounts_fit, market_fee_of, BASIS_POINTS_WHOLE};
use crate::error::{CaseError, Rejection};
use crate::hex::{hex_of, to_hex};
use crate::ledger::NewCase;

verus! {

/// Longest order details accepted, in bytes.
pub const MAX_DETAILS_LEN: usize = 4096;

/// A seller's listing, as the order core reads it.
#[derive(Debug, Clone, Copy, PartialEq, Eq, Structural)]
pub struct Listing {
    pub id: i32,
    pub owner_id: i32,
    pub unit_price: u64,
    pub fee_rate_basis_points: u32,
    pub approved: bool,
    pub deactivated_by_seller: bool,
    pub deactivated_by_admin: bool,
}

/// The party acting on an order.
#[derive(Debug, Clone, Copy, PartialEq, Eq, Structural)]
pub struct Party {
    pub id: i32,
    pub is_admin: bool,
}

/// Whether the text is an ASCII-armored block of message (or file) type
/// whose content parses as an OpenPGP message.
pub uninterp spec fn is_pgp_message(text: Seq<char>) -> bool;

/// Relies on pgp's `Message::from_string`: it dearmors the text and parses
/// its content as a message, and whether it succeeds depends on the text
/// alone.
#[verifier::external_body]
fn parses_as_pgp_message(text: &str) -> (r: bool)
    ensures
        r == is_pgp_message(text@),
{
    pgp::composed::Message::from_string(text).is_ok()
}

/// The first reason, if any, for which a request is refused, in the order in
/// which the checks are made.
pub open spec fn rejection_of(
    listing: Listing,
    buyer: Party,
    quantity: u64,
    details_len: nat,
    well_formed: bool,
) -> Option<Rejection> {
    if details_len == 0 {
        Some(Rejection::EmptyDetails)
    } else if details_len > MAX_DETAILS_LEN {
        Some(Rejection::DetailsTooLong)
    } else if !well_formed {
        Some(Rejection::MalformedMessage)
    } else if listing.owner_id == buyer.id {
        Some(Rejection::SelfDealing)
    } else if !listing.approved {
        Some(Rejection::NotApproved)
    } else if listing.deactivated_by_seller || listing.deactivated_by_admin {
        Some(Rejection::Deactivated)
    } else if buyer.is_admin {
        Some(Rejection::AdminBuyer)
    } else if quantity == 0 {
        Some(Rejection::ZeroQuantity)
    } else if listing.fee_rate_basis_points > BASIS_POINTS_WHOLE {
        Some(Rejection::FeeRateOutOfRange)
    } else {
        None
    }
}

/// The amounts of `quantity` units of the listing.
pub open spec fn amounts_of(listing: Listing, quantity: u64) -> Amounts {
    let owed = quantity * listing.unit_price;
    let fee = market_fee_of(owed, listing.fee_rate_basis_points as int);
    Amounts { amount_owed: owed as u64, market_fee: fee as u64, seller_credit: (owed - fee) as u64 }
}

/// The outcome of a request, given whether its details are a well-formed message.
pub open spec fn request_outcome(
    listing: Listing,
    buyer: Party,
    quantity: u64,
    details_len: nat,
    well_formed: bool,
) -> Result<Amounts, CaseError> {
    match rejection_of(listing, buyer, quantity, details_len, well_formed) {
        Some(why) => Err(CaseError::ValidationError(why)),
        None => if amounts_fit(
            quantity as int,
            listing.unit_price as int,
            listing.fee_rate_basis_points as int,
        ) {
            Ok(amounts_of(listing, quantity))
        } else {
            Err(CaseError::Overflow)
        },
    }
}

/// Checks a request of `quantity` units of `listing` by `buyer`, whose details
/// are `details_len` bytes long and are (`well_formed`) or are not a
/// well-formed message, and prices it.
pub fn check_case_request(
    listing: &Listing,
    buyer: &Party,
    quantity: u64,
    details_len: usize,
    well_formed: bool,
) -> (r: Result<Amounts, CaseError>)
    ensures
        r == request_outcome(*listing, *buyer, quantity, details_len as nat, well_formed),
{
    if details_len == 0 {
        return Err(CaseError::ValidationError(Rejection::EmptyDetails));
    }
    if details_len > MAX_DETAILS_LEN {
        return Err(CaseError::ValidationError(Rejection::DetailsTooLong));
    }
    if !well_formed {
        return Err(CaseError::ValidationError(Rejection::MalformedMessage));
    }
    if listing.owner_id == buyer.id {
        return Err(CaseError::ValidationError(Rejection::SelfDealing));
    }
    if !listing.approved {
        return Err(CaseError::ValidationError(Rejection::NotApproved));
    }
    if listing.deactivated_by_seller || listing.deactivated_by_admin {
        return Err(CaseError::ValidationError(Rejection::Deactivated));
    }
    if buyer.is_admin {
        return Err(CaseError::ValidationError(Rejection::AdminBuyer));
    }
    if quantity == 0 {
        return Err(CaseError::ValidationError(Rejection::ZeroQuantity));
    }
    if listing.fee_rate_basis_points as u64 > BASIS_POINTS_WHOLE {
        return Err(CaseError::ValidationError(Rejection::FeeRateOutOfRange));
    }
    match compute_amounts(quantity, listing.unit_price, listing.fee_rate_basis_points) {
        Ok(a) => Ok(a),
        Err(_) => Err(CaseError::Overflow),
    }
}

/// Checks and prices a request whose details are the text `details`: its
/// length in bytes, and whether it parses as an armored OpenPGP message,
/// decide together with the listing and the buyer. Only details of an
/// accepted length are parsed.
pub fn prepare_case(listing: &Listing, buyer: &Party, quantity: u64, details: &str) -> (r: Result<
    Amounts,
    CaseError,
>)
    ensures
        r == request_outcome(
            *listing,
            *buyer,
            quantity,
            details.len() as nat,
            is_pgp_message(details@),
        ),
{
    let len = details.len();
    let well_formed = if len == 0 || len > MAX_DETAILS_LEN {
        false
    } else {
        parses_as_pgp_message(details)
    };
    check_case_request(listing, buyer, quantity, len, well_formed)
}

/// Millisatoshis in one satoshi.
pub const MSAT_PER_SAT: u64 = 1000;

/// The value, in millisatoshis, of the invoice for `amount_owed` satoshis,
/// or `Overflow` where it does not fit an `i64`.
pub fn invoice_value_msat(amount_owed: u64) -> (r: Result<i64, CaseError>)
    ensures
        amount_owed * MSAT_PER_SAT <= i64::MAX ==> r == Ok::<i64, CaseError>(
            (amount_owed * MSAT_PER_SAT) as i64,
        ),
        amount_owed * MSAT_PER_SAT > i64::MAX ==> r == Err::<i64, CaseError>(CaseError::Overflow),
{
    if amount_owed > (i64::MAX as u64) / MSAT_PER_SAT {
        Err(CaseError::Overflow)
    } else {
        Ok((amount_owed * MSAT_PER_SAT) as i64)
    }
}

/// The order that `buyer` places for `quantity` units of `listing` at the
/// priced `amounts`, bound to the invoice whose hash is `payment_hash` and
/// whose payment request is `payment_request`; the hash is kept as hex text.
pub fn new_case(
    listing: &Listing,
    buyer: &Party,
    quantity: u64,
    details: String,
    amounts: &Amounts,
    public_id: String,
    payment_hash: &Vec<u8>,
    payment_request: String,
    created_time_ms: u64,
) -> (r: NewCase)
    ensures
        r.public_id == public_id,
        r.quantity == quantity,
        r.buyer_user_id == buyer.id,
        r.seller_user_id == listing.owner_id,
        r.listing_id == listing.id,
        r.case_details == details,
        r.amount_owed == amounts.amount_owed,
        r.seller_credit == amounts.seller_credit,
        r.invoice_hash@ == hex_of(payment_hash@),
        r.invoice_payment_request == payment_request,
        r.created_time_ms == created_time_ms,
{
    NewCase {
        public_id,
        quantity,
        buyer_user_id: buyer.id,
        seller_user_id: listing.owner_id,
        listing_id: listing.id,
        case_details: details,
        amount_owed: amounts.amount_owed,
        seller_credit: amounts.seller_credit,
        invoice_hash: to_hex(payment_hash),
        invoice_payment_request: payment_request,
        created_time_ms,
    }
}

} // verus!
