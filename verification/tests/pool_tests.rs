use osmo_bindings::{Coin, Decimal, OsmosisError, Pool, StdError, SwapAmount, SwapAmountWithLimit};

fn pool_6m_osmo_1_5m_atom() -> Pool {
    Pool::new(Coin::new(6_000_000, "osmo"), Coin::new(1_500_000, "atom"))
}

#[test]
fn pool_new_shares_are_geometric_mean() {
    let pool = pool_6m_osmo_1_5m_atom();
    // isqrt(6_000_000 * 1_500_000) = isqrt(9 * 10^12) = 3_000_000
    assert_eq!(pool.shares, 3_000_000);
    assert_eq!(pool.fee, Decimal::permille(3));
    assert_eq!(pool.assets.len(), 2);
}

#[test]
fn pool_new_shares_round_down() {
    let pool = Pool::new(Coin::new(2, "a"), Coin::new(3, "b"));
    assert_eq!(pool.shares, 2); // isqrt(6)
    let empty = Pool::new(Coin::new(0, "a"), Coin::new(7, "b"));
    assert_eq!(empty.shares, 0);
    let square = Pool::new(Coin::new(24, "a"), Coin::new(24, "b"));
    assert_eq!(square.shares, 24);
}

#[test]
fn get_and_set_amount() {
    let mut pool = pool_6m_osmo_1_5m_atom();
    assert!(pool.has_denom("osmo"));
    assert!(pool.has_denom("atom"));
    assert!(!pool.has_denom("eth"));
    assert_eq!(pool.get_amount("osmo"), Some(6_000_000));
    assert_eq!(pool.get_amount("atom"), Some(1_500_000));
    assert_eq!(pool.get_amount("eth"), None);
    assert_eq!(pool.set_amount("osmo", 42), Ok(()));
    assert_eq!(pool.get_amount("osmo"), Some(42));
    assert_eq!(
        pool.set_amount("eth", 1),
        Err(OsmosisError::AssetNotInPool)
    );
}

#[test]
fn swap_missing_asset_fails() {
    // a swap naming a denomination outside {osmo, atom} is rejected
    let mut pool = pool_6m_osmo_1_5m_atom();
    let r = pool.swap("eth", "atom", SwapAmount::In(1000));
    assert_eq!(r, Err(OsmosisError::AssetNotInPool));
    let r = pool.swap("osmo", "eth", SwapAmount::Out(1000));
    assert_eq!(r, Err(OsmosisError::AssetNotInPool));
    // the failed swap left the pool untouched
    assert_eq!(pool.get_amount("osmo"), Some(6_000_000));
    assert_eq!(pool.get_amount("atom"), Some(1_500_000));
}

#[test]
fn swap_exact_in_computes_constant_product_payout() {
    let mut pool = pool_6m_osmo_1_5m_atom();
    // 501_505 atom in: net of the 0.3% fee that is 500_000; the constant
    // product 9 * 10^12 over the new input balance 2_000_000 leaves
    // 4_500_000 osmo, paying out 1_500_000.
    let r = pool.swap("atom", "osmo", SwapAmount::In(501_505));
    assert_eq!(r, Ok(SwapAmount::Out(1_500_000)));
    assert_eq!(pool.get_amount("atom"), Some(2_001_505));
    assert_eq!(pool.get_amount("osmo"), Some(4_500_000));
}

#[test]
fn swap_exact_out_charges_grossed_up_input() {
    let mut pool = pool_6m_osmo_1_5m_atom();
    let r = pool.swap("atom", "osmo", SwapAmount::Out(1_500_000));
    assert_eq!(r, Ok(SwapAmount::In(501_505)));
    assert_eq!(pool.get_amount("atom"), Some(2_001_505));
    assert_eq!(pool.get_amount("osmo"), Some(4_500_000));
}

#[test]
fn swap_exact_out_rounding_is_ceiling() {
    // bal_in 100, bal_out 100, fee 0.3%, output 10:
    // in_without_fee = 10000 / 90 = 111, diff = 11,
    // exact gross-up 11 / 0.997 = 11.033... , charged input 12: the
    // smallest integer not below the exact requirement.
    let mut pool = Pool::new(Coin::new(100, "a"), Coin::new(100, "b"));
    let r = pool.swap("a", "b", SwapAmount::Out(10));
    assert_eq!(r, Ok(SwapAmount::In(12)));
    assert_eq!(pool.get_amount("a"), Some(112));
    assert_eq!(pool.get_amount("b"), Some(90));
    // the exact fee-adjusted requirement is diff / 0.997 = 11000/997, which
    // is not an integer; the charged 12 is the smallest integer not below it
    let diff = 11u128;
    let pay = 12u128;
    assert!(diff * 1000 % 997 != 0);
    assert!((pay - 1) * 997 < diff * 1000); // 11 is too little
    assert!(pay * 997 > diff * 1000); // 12 covers it
}

#[test]
fn swap_exact_out_product_grows() {
    let mut pool = Pool::new(Coin::new(100, "a"), Coin::new(100, "b"));
    let before = pool.get_amount("a").unwrap() * pool.get_amount("b").unwrap();
    pool.swap("a", "b", SwapAmount::Out(10)).unwrap();
    let after = pool.get_amount("a").unwrap() * pool.get_amount("b").unwrap();
    assert!(after > before);
}

#[test]
fn swap_exact_in_product_grows_with_fee() {
    let mut pool = pool_6m_osmo_1_5m_atom();
    let before = pool.get_amount("osmo").unwrap() * pool.get_amount("atom").unwrap();
    pool.swap("atom", "osmo", SwapAmount::In(501_505)).unwrap();
    let after = pool.get_amount("osmo").unwrap() * pool.get_amount("atom").unwrap();
    assert!(after >= before);
}

#[test]
fn swap_exact_out_insufficient_liquidity() {
    let mut pool = pool_6m_osmo_1_5m_atom();
    // demanding the whole output balance divides by zero
    let r = pool.swap("atom", "osmo", SwapAmount::Out(6_000_000));
    assert_eq!(r, Err(OsmosisError::Std(StdError::DivideByZero)));
    // demanding more than the output balance underflows the subtraction
    let r = pool.swap("atom", "osmo", SwapAmount::Out(6_000_001));
    assert_eq!(r, Err(OsmosisError::Std(StdError::Overflow)));
    // both failures left the pool untouched
    assert_eq!(pool.get_amount("osmo"), Some(6_000_000));
    assert_eq!(pool.get_amount("atom"), Some(1_500_000));
}

#[test]
fn swap_overflow_is_reported() {
    let big = u128::MAX / 2;
    let mut pool = Pool::new(Coin::new(2, "a"), Coin::new(2, "b"));
    pool.set_amount("a", big).unwrap();
    pool.set_amount("b", big).unwrap();
    let r = pool.swap("a", "b", SwapAmount::In(1));
    assert_eq!(r, Err(OsmosisError::Std(StdError::Overflow)));
}

#[test]
fn swap_with_limit_enforces_bounds() {
    let mut pool = pool_6m_osmo_1_5m_atom();
    let r = pool.swap_with_limit(
        "atom",
        "osmo",
        SwapAmountWithLimit::ExactIn { input: 501_505, min_output: 1_500_001 },
    );
    assert_eq!(r, Err(OsmosisError::PriceTooLow));

    let mut pool = pool_6m_osmo_1_5m_atom();
    let r = pool.swap_with_limit(
        "atom",
        "osmo",
        SwapAmountWithLimit::ExactIn { input: 501_505, min_output: 1_500_000 },
    );
    assert_eq!(r, Ok(SwapAmount::Out(1_500_000)));

    let mut pool = pool_6m_osmo_1_5m_atom();
    let r = pool.swap_with_limit(
        "atom",
        "osmo",
        SwapAmountWithLimit::ExactOut { output: 1_500_000, max_input: 501_504 },
    );
    assert_eq!(r, Err(OsmosisError::PriceTooLow));
}

#[test]
fn spot_price_both_directions() {
    let pool = pool_6m_osmo_1_5m_atom();
    // 1 osmo buys 0.25 atom
    assert_eq!(
        pool.spot_price("osmo", "atom", false),
        Ok(Decimal::percent(25))
    );
    // 1 atom buys 4 osmo
    assert_eq!(
        pool.spot_price("atom", "osmo", false),
        Ok(Decimal::percent(400))
    );
    // with the fee: 4 * 0.997 = 3.988
    assert_eq!(
        pool.spot_price("atom", "osmo", true),
        Ok(Decimal::permille(3988))
    );
    assert_eq!(
        pool.spot_price("eth", "osmo", true),
        Err(OsmosisError::AssetNotInPool)
    );
}

#[test]
fn spot_price_empty_input_balance() {
    let pool = Pool::new(Coin::new(0, "a"), Coin::new(10, "b"));
    assert_eq!(
        pool.spot_price("a", "b", false),
        Err(OsmosisError::Std(StdError::DivideByZero))
    );
}

#[test]
fn decimal_constructors() {
    assert_eq!(Decimal::one().atomics, 1_000_000_000_000_000_000);
    assert_eq!(Decimal::zero().atomics, 0);
    assert!(Decimal::zero().is_zero());
    assert_eq!(Decimal::percent(25).atomics, 250_000_000_000_000_000);
    assert_eq!(Decimal::permille(3).atomics, 3_000_000_000_000_000);
    assert_eq!(Decimal::permille(3).numerator(), 3_000_000_000_000_000);
    assert_eq!(Decimal::permille(3).denominator(), 1_000_000_000_000_000_000);
    // one third, rounded down at the eighteenth digit
    assert_eq!(
        Decimal::checked_from_ratio(1, 3),
        Ok(Decimal::new(333_333_333_333_333_333))
    );
    assert_eq!(
        Decimal::checked_from_ratio(1, 0),
        Err(StdError::DivideByZero)
    );
    assert_eq!(
        Decimal::checked_from_ratio(u128::MAX, 1),
        Err(StdError::Overflow)
    );
    // an enormous divisor still divides exactly
    assert_eq!(
        Decimal::checked_from_ratio(u128::MAX, u128::MAX),
        Ok(Decimal::one())
    );
}

#[test]
fn amount_accessors() {
    assert_eq!(SwapAmount::In(7).as_in(), 7);
    assert_eq!(SwapAmount::Out(9).as_out(), 9);
    assert_eq!(
        SwapAmountWithLimit::ExactIn { input: 5, min_output: 1 }.discard_limit(),
        SwapAmount::In(5)
    );
    assert_eq!(
        SwapAmountWithLimit::ExactOut { output: 6, max_input: 10 }.discard_limit(),
        SwapAmount::Out(6)
    );
}
