use squeakroad::fee::{compute_amounts, divide_round_up, Amounts, Overflow};

#[test]
fn divide_round_up_rounds_up_only_with_remainder() {
    assert_eq!(divide_round_up(0, 10000), 0);
    assert_eq!(divide_round_up(1, 10000), 1);
    assert_eq!(divide_round_up(10000, 10000), 1);
    assert_eq!(divide_round_up(10001, 10000), 2);
    assert_eq!(divide_round_up(3500, 10000), 1);
    assert_eq!(divide_round_up(u64::MAX, 1), u64::MAX);
    assert_eq!(divide_round_up(u64::MAX, 2), u64::MAX / 2 + 1);
}

#[test]
fn split_adds_up_on_sampled_range() {
    let quantities = [1u64, 2, 7, 999, 1_000_000];
    let prices = [0u64, 1, 3, 12_345, 1_000_000_000];
    let rates = [0u32, 1, 250, 500, 3333, 9999, 10000];
    for &q in quantities.iter() {
        for &p in prices.iter() {
            for &f in rates.iter() {
                let a = compute_amounts(q, p, f).unwrap();
                let owed = q * p;
                assert_eq!(a.amount_owed, owed);
                assert_eq!(a.seller_credit + a.market_fee, owed);
                let wide = owed as u128 * f as u128;
                assert_eq!(a.market_fee as u128, (wide + 9999) / 10000);
            }
        }
    }
}

#[test]
fn zero_rate_takes_nothing() {
    let a = compute_amounts(3, 1_000, 0).unwrap();
    assert_eq!(a, Amounts { amount_owed: 3_000, market_fee: 0, seller_credit: 3_000 });
}

#[test]
fn full_rate_takes_everything() {
    let a = compute_amounts(3, 1_001, 10000).unwrap();
    assert_eq!(a, Amounts { amount_owed: 3_003, market_fee: 3_003, seller_credit: 0 });
}

#[test]
fn fee_is_rounded_up() {
    let a = compute_amounts(7, 1, 500).unwrap();
    assert_eq!(a.amount_owed, 7);
    assert_eq!(a.market_fee, 1);
    assert_eq!(a.seller_credit, 6);
}

#[test]
fn exact_fee_needs_no_rounding() {
    let a = compute_amounts(4, 50, 500).unwrap();
    assert_eq!(a, Amounts { amount_owed: 200, market_fee: 10, seller_credit: 190 });
}

#[test]
fn overflow_of_owed_amount() {
    assert_eq!(compute_amounts(u64::MAX, 2, 0), Err(Overflow));
}

#[test]
fn overflow_of_weighted_fee() {
    assert_eq!(compute_amounts(1, u64::MAX / 2, 3), Err(Overflow));
    assert!(compute_amounts(1, u64::MAX, 1).is_ok());
}
