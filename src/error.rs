//! What can go wrong with an order.
use vstd::prelude::*;

verus! {

/// Why an order request was refused.
#[derive(Debug, Clone, Copy, PartialEq, Eq, Structural)]
pub enum Rejection {
    /// The order details are empty.
    EmptyDetails,
    /// The order details are longer than allowed.
    DetailsTooLong,
    /// The order details are not an armored OpenPGP message.
    MalformedMessage,
    /// The buyer owns the listing.
    SelfDealing,
    /// The listing is not approved by an administrator.
    NotApproved,
    /// The listing was deactivated by its seller or an administrator.
    Deactivated,
    /// Administrators do not buy.
    AdminBuyer,
    /// No units were asked for.
    ZeroQuantity,
    /// The listing's fee rate is above one whole.
    FeeRateOutOfRange,
}

/// The kinds of failure of the order core.
#[derive(Debug, Clone, Copy, PartialEq, Eq, Structural)]
pub enum CaseError {
    /// The request breaks a rule of the market.
    ValidationError(Rejection),
    /// Too many orders are open and unpaid.
    AdmissionDenied,
    /// The payment node could not be reached.
    PaymentNodeUnavailable,
    /// The payment node refused to issue an invoice.
    InvoiceCreationFailed,
    /// The record could not be stored: a unique key is taken, or the ledger is full.
    PersistenceError,
    /// The order is not paid yet.
    NotPaid,
    /// The order is awarded and can no longer be canceled.
    AlreadyAwarded,
    /// The order is canceled and can no longer be awarded.
    AlreadyCanceled,
    /// The amounts do not fit the integer range.
    Overflow,
    /// No order or listing has that identifier.
    NotFound,
}

} // verus!
