//! Splitting what a buyer owes into the market's fee and the seller's credit.
use vstd::prelude::*;

verus! {

/// Basis points in one whole: a fee rate of this many takes everything.
pub const BASIS_POINTS_WHOLE: u64 = 10000;

/// Integer division rounded up.
pub open spec fn ceil_div(a: int, b: int) -> int {
    (a + b - 1) / b
}

/// The market's fee on `owed` at `rate` basis points, rounded up.
pub open spec fn market_fee_of(owed: int, rate: int) -> int {
    ceil_div(owed * rate, BASIS_POINTS_WHOLE as int)
}

/// Whether the two products that the fee needs fit in a `u64`.
pub open spec fn amounts_fit(quantity: int, unit_price: int, rate: int) -> bool {
    quantity * unit_price <= u64::MAX && quantity * unit_price * rate <= u64::MAX
}

/// What a buyer owes for an order, and how it is split.
#[derive(Debug, Clone, Copy, PartialEq, Eq, Structural)]
pub struct Amounts {
    pub amount_owed: u64,
    pub market_fee: u64,
    pub seller_credit: u64,
}

/// The fee arithmetic ran out of `u64` range.
#[derive(Debug, Clone, Copy, PartialEq, Eq, Structural)]
pub struct Overflow;

/// `dividend / divisor`, rounded up.
pub fn divide_round_up(dividend: u64, divisor: u64) -> (r: u64)
    requires
        divisor > 0,
    ensures
        r == ceil_div(dividend as int, divisor as int),
{
    let q = dividend / divisor;
    let rem = dividend % divisor;
    proof {
        let a = dividend as int;
        let b = divisor as int;
        assert(a == b * (a / b) + a % b) by (nonlinear_arith)
            requires b > 0;
        assert(0 <= a % b < b) by (nonlinear_arith)
            requires b > 0;
        if rem == 0 {
            assert((a + b - 1) / b == a / b) by (nonlinear_arith)
                requires b > 0, a == b * (a / b);
        } else {
            assert((a + b - 1) / b == a / b + 1) by (nonlinear_arith)
                requires b > 0, a == b * (a / b) + a % b, 0 < a % b < b;
        }
        assert(q as int == a / b);
        assert(q as int * b <= a) by (nonlinear_arith)
            requires q as int == a / b, b > 0, a == b * (a / b) + a % b, a % b >= 0;
        if rem != 0 {
            assert(q as int + 1 <= a) by (nonlinear_arith)
                requires q as int == a / b, b >= 2, a == b * (a / b) + a % b, a % b >= 1, q >= 0;
        }
    }
    if rem == 0 {
        q
    } else {
        q + 1
    }
}

/// The amounts of an order of `quantity` units at `unit_price`, with a fee of
/// `fee_rate_basis_points` out of ten thousand, rounded up.
pub fn compute_amounts(quantity: u64, unit_price: u64, fee_rate_basis_points: u32) -> (r: Result<
    Amounts,
    Overflow,
>)
    requires
        fee_rate_basis_points <= BASIS_POINTS_WHOLE,
    ensures
        r is Err <==> !amounts_fit(quantity as int, unit_price as int, fee_rate_basis_points as int),
        r matches Ok(a) ==> {
            &&& a.amount_owed == quantity * unit_price
            &&& a.market_fee == market_fee_of(a.amount_owed as int, fee_rate_basis_points as int)
            &&& a.seller_credit + a.market_fee == a.amount_owed
        },
{
    let owed = match quantity.checked_mul(unit_price) {
        Some(v) => v,
        None => {
            proof {
                lemma_fee_product_grows(quantity as int, unit_price as int, fee_rate_basis_points as int);
            }
            return Err(Overflow);
        },
    };
    let weighted = match owed.checked_mul(fee_rate_basis_points as u64) {
        Some(v) => v,
        None => {
            return Err(Overflow);
        },
    };
    let fee = divide_round_up(weighted, BASIS_POINTS_WHOLE);
    proof {
        lemma_fee_within_owed(owed as int, fee_rate_basis_points as int);
    }
    Ok(Amounts { amount_owed: owed, market_fee: fee, seller_credit: owed - fee })
}

proof fn lemma_fee_product_grows(q: int, p: int, rate: int)
    requires
        q >= 0,
        p >= 0,
        rate >= 0,
        q * p > u64::MAX,
    ensures
        !amounts_fit(q, p, rate),
{
}

/// The fee never exceeds what is owed, for rates up to the whole.
pub proof fn lemma_fee_within_owed(owed: int, rate: int)
    requires
        owed >= 0,
        0 <= rate <= BASIS_POINTS_WHOLE,
    ensures
        0 <= market_fee_of(owed, rate) <= owed,
{
    let w = BASIS_POINTS_WHOLE as int;
    assert(0 <= owed * rate <= owed * w) by (nonlinear_arith)
        requires owed >= 0, 0 <= rate <= w;
    assert((owed * w + w - 1) / w == owed) by (nonlinear_arith)
        requires w == 10000, owed >= 0;
    assert((owed * rate + w - 1) / w <= (owed * w + w - 1) / w) by (nonlinear_arith)
        requires w == 10000, owed * rate <= owed * w;
    assert((owed * rate + w - 1) / w >= 0) by (nonlinear_arith)
        requires w == 10000, owed * rate >= 0;
}

/// On quantities up to a million, unit prices up to a billion and any rate up
/// to the whole, the amounts always fit, so `compute_amounts` succeeds, and the
/// fee, rounded up, lies between zero and what is owed, so the fee and the
/// seller's credit add up to exactly what is owed.
pub proof fn lemma_split_is_exact(quantity: int, unit_price: int, rate: int)
    requires
        1 <= quantity <= 1_000_000,
        0 <= unit_price <= 1_000_000_000,
        0 <= rate <= BASIS_POINTS_WHOLE,
    ensures
        amounts_fit(quantity, unit_price, rate),
        0 <= market_fee_of(quantity * unit_price, rate) <= quantity * unit_price,
        (quantity * unit_price - market_fee_of(quantity * unit_price, rate)) + market_fee_of(
            quantity * unit_price,
            rate,
        ) == quantity * unit_price,
{
    assert(0 <= quantity * unit_price <= 1_000_000_000_000_000) by (nonlinear_arith)
        requires 1 <= quantity <= 1_000_000, 0 <= unit_price <= 1_000_000_000;
    assert(quantity * unit_price * rate <= 10_000_000_000_000_000_000) by (nonlinear_arith)
        requires 0 <= quantity * unit_price <= 1_000_000_000_000_000, 0 <= rate <= 10000;
    lemma_fee_within_owed(quantity * unit_price, rate);
}

/// At a rate of zero the market takes nothing and the seller is credited
/// everything owed.
pub proof fn lemma_zero_rate_takes_nothing(owed: int)
    requires
        owed >= 0,
    ensures
        market_fee_of(owed, 0) == 0,
        owed - market_fee_of(owed, 0) == owed,
{
}

/// At a rate of the whole the market takes everything owed and the seller is
/// credited nothing.
pub proof fn lemma_full_rate_takes_all(owed: int)
    requires
        owed >= 0,
    ensures
        market_fee_of(owed, BASIS_POINTS_WHOLE as int) == owed,
        owed - market_fee_of(owed, BASIS_POINTS_WHOLE as int) == 0,
{
    let w = BASIS_POINTS_WHOLE as int;
    assert((owed * w + w - 1) / w == owed) by (nonlinear_arith)
        requires w == 10000, owed >= 0;
}

} // verus!
