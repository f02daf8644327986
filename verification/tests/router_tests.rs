use osmo_bindings::query::{query_estimate_swap, query_pool_state, query_spot_price};
use osmo_bindings::{
    Coin, Decimal, OsmosisError, OsmosisModule, Pool, PoolStore, Step, Swap, SwapAmount,
    SwapAmountWithLimit,
};

fn one_pool_store() -> PoolStore {
    let pool = Pool::new(Coin::new(6_000_000, "osmo"), Coin::new(1_500_000, "atom"));
    let mut store = PoolStore::new();
    let module = OsmosisModule {};
    module.set_pool(&mut store, 43, &pool);
    store
}

fn two_pool_store() -> PoolStore {
    let pool1 = Pool::new(Coin::new(6_000_000, "osmo"), Coin::new(3_000_000, "atom"));
    let pool2 = Pool::new(Coin::new(2_000_000, "atom"), Coin::new(1_000_000, "btc"));
    let mut store = PoolStore::new();
    let module = OsmosisModule {};
    module.set_pool(&mut store, 1, &pool1);
    module.set_pool(&mut store, 2, &pool2);
    store
}

fn assert_pool_assets(store: &PoolStore, id: u64, expected: Vec<Coin>) {
    let state = query_pool_state(store, id).unwrap();
    assert_eq!(state.assets, expected);
}

#[test]
fn query_pool() {
    let store = one_pool_store();

    let state = query_pool_state(&store, 43).unwrap();
    assert_eq!(state.shares, Coin::new(3_000_000, "gamm/pool/43"));
    assert_eq!(
        state.assets,
        vec![Coin::new(6_000_000, "osmo"), Coin::new(1_500_000, "atom")]
    );
    assert_eq!(state.lp_denom(), "gamm/pool/43");
    assert!(state.has_denom("osmo"));
    assert!(!state.has_denom("btc"));

    // spot price in both directions
    let resp = query_spot_price(&store, &Swap::new(43, "osmo", "atom"), false).unwrap();
    assert_eq!(resp.price, Decimal::percent(25));
    let resp = query_spot_price(&store, &Swap::new(43, "atom", "osmo"), false).unwrap();
    assert_eq!(resp.price, Decimal::percent(400));
    // with the fee: 4.00 * (1 - 0.3%) = 3.988
    let resp = query_spot_price(&store, &Swap::new(43, "atom", "osmo"), true).unwrap();
    assert_eq!(resp.price, Decimal::permille(3988));
}

#[test]
fn estimate_swap() {
    let store = one_pool_store();

    // 501_505 atom in buys exactly 1_500_000 osmo (501_505 * 0.997 = 500_000)
    let resp = query_estimate_swap(
        &store,
        Swap::new(43, "atom", "osmo"),
        vec![],
        SwapAmount::In(501_505),
    )
    .unwrap();
    assert_eq!(resp.amount, SwapAmount::Out(1_500_000));

    // and the reverse estimate names the payment for 1_500_000 osmo out
    let resp = query_estimate_swap(
        &store,
        Swap::new(43, "atom", "osmo"),
        vec![],
        SwapAmount::Out(1_500_000),
    )
    .unwrap();
    assert_eq!(resp.amount, SwapAmount::In(501_505));

    // an estimate never changes the stored pools
    assert_pool_assets(
        &store,
        43,
        vec![Coin::new(6_000_000, "osmo"), Coin::new(1_500_000, "atom")],
    );
}

#[test]
fn perform_swap() {
    let mut store = one_pool_store();
    let module = OsmosisModule {};

    // too low a payment bound: the swap is rejected
    let err = module
        .execute_swap(
            &mut store,
            Swap::new(43, "atom", "osmo"),
            vec![],
            SwapAmountWithLimit::ExactOut { output: 1_500_000, max_input: 400_000 },
        )
        .unwrap_err();
    assert_eq!(err, OsmosisError::PriceTooLow);
    assert_pool_assets(
        &store,
        43,
        vec![Coin::new(6_000_000, "osmo"), Coin::new(1_500_000, "atom")],
    );

    // now a proper swap
    let outcome = module
        .execute_swap(
            &mut store,
            Swap::new(43, "atom", "osmo"),
            vec![],
            SwapAmountWithLimit::ExactOut { output: 1_500_000, max_input: 600_000 },
        )
        .unwrap();
    assert_eq!(outcome.amount, SwapAmount::In(501_505));
    assert_eq!(outcome.pay_in, 501_505);
    assert_eq!(outcome.get_out, 1_500_000);
    assert_eq!(outcome.denom_in, "atom");
    assert_eq!(outcome.denom_out, "osmo");

    // the pool state is updated, fees included
    assert_pool_assets(
        &store,
        43,
        vec![Coin::new(4_500_000, "osmo"), Coin::new(2_001_505, "atom")],
    );
}

#[test]
fn swap_with_route_max_input_exceeded() {
    let mut store = two_pool_store();
    let module = OsmosisModule {};

    let err = module
        .execute_swap(
            &mut store,
            Swap::new(1, "osmo", "atom"),
            vec![Step::new(2, "btc")],
            SwapAmountWithLimit::ExactOut { output: 1000, max_input: 4000 },
        )
        .unwrap_err();
    assert_eq!(err, OsmosisError::PriceTooLow);

    // nothing was persisted on either pool
    assert_pool_assets(
        &store,
        1,
        vec![Coin::new(6_000_000, "osmo"), Coin::new(3_000_000, "atom")],
    );
    assert_pool_assets(
        &store,
        2,
        vec![Coin::new(2_000_000, "atom"), Coin::new(1_000_000, "btc")],
    );
}

#[test]
fn swap_with_route_min_output_not_met() {
    let mut store = two_pool_store();
    let module = OsmosisModule {};

    let err = module
        .execute_swap(
            &mut store,
            Swap::new(1, "osmo", "atom"),
            vec![Step::new(2, "btc")],
            SwapAmountWithLimit::ExactIn { input: 4000, min_output: 1000 },
        )
        .unwrap_err();
    assert_eq!(err, OsmosisError::PriceTooLow);
    assert_pool_assets(
        &store,
        1,
        vec![Coin::new(6_000_000, "osmo"), Coin::new(3_000_000, "atom")],
    );
}

#[test]
fn swap_with_route_wrong_denom() {
    // pool 2 trades atom/eth, so the btc step cannot be satisfied
    let pool1 = Pool::new(Coin::new(6_000_000, "osmo"), Coin::new(3_000_000, "atom"));
    let pool2 = Pool::new(Coin::new(2_000_000, "atom"), Coin::new(1_000_000, "eth"));
    let mut store = PoolStore::new();
    let module = OsmosisModule {};
    module.set_pool(&mut store, 1, &pool1);
    module.set_pool(&mut store, 2, &pool2);

    let err = module
        .execute_swap(
            &mut store,
            Swap::new(1, "osmo", "atom"),
            vec![Step::new(2, "btc")],
            SwapAmountWithLimit::ExactOut { output: 1000, max_input: 4000 },
        )
        .unwrap_err();
    assert_eq!(err, OsmosisError::AssetNotInPool);
}

#[test]
fn perform_swap_with_route_exact_out() {
    let mut store = two_pool_store();
    let module = OsmosisModule {};

    let outcome = module
        .execute_swap(
            &mut store,
            Swap::new(1, "osmo", "atom"),
            vec![Step::new(2, "btc")],
            SwapAmountWithLimit::ExactOut { output: 1000, max_input: 5000 },
        )
        .unwrap();
    assert_eq!(outcome.amount, SwapAmount::In(4033));
    assert_eq!(outcome.pay_in, 4033);
    assert_eq!(outcome.get_out, 1000);
    assert_eq!(outcome.denom_in, "osmo");
    assert_eq!(outcome.denom_out, "btc");

    assert_pool_assets(
        &store,
        1,
        vec![
            Coin::new(6_000_000 + 4033, "osmo"),
            Coin::new(3_000_000 - 2009, "atom"),
        ],
    );
    assert_pool_assets(
        &store,
        2,
        vec![
            Coin::new(2_000_000 + 2009, "atom"),
            Coin::new(1_000_000 - 1000, "btc"),
        ],
    );
}

#[test]
fn perform_swap_with_route_exact_in() {
    let mut store = two_pool_store();
    let module = OsmosisModule {};

    let outcome = module
        .execute_swap(
            &mut store,
            Swap::new(1, "osmo", "atom"),
            vec![Step::new(2, "btc")],
            SwapAmountWithLimit::ExactIn { input: 4000, min_output: 900 },
        )
        .unwrap();
    assert_eq!(outcome.amount, SwapAmount::Out(993));
    assert_eq!(outcome.pay_in, 4000);
    assert_eq!(outcome.get_out, 993);

    assert_pool_assets(
        &store,
        1,
        vec![
            Coin::new(6_000_000 + 4000, "osmo"),
            Coin::new(3_000_000 - 1993, "atom"),
        ],
    );
    assert_pool_assets(
        &store,
        2,
        vec![
            Coin::new(2_000_000 + 1993, "atom"),
            Coin::new(1_000_000 - 993, "btc"),
        ],
    );
}

#[test]
fn duplicate_pool_in_route_chains_mutations() {
    // both hops run on pool 7: the second hop must see the balances the
    // first hop left behind, and the single committed state is the chained one
    let pool = Pool::new(Coin::new(1_000_000, "osmo"), Coin::new(1_000_000, "atom"));
    let mut store = PoolStore::new();
    let module = OsmosisModule {};
    module.set_pool(&mut store, 7, &pool);

    let outcome = module
        .execute_swap(
            &mut store,
            Swap::new(7, "osmo", "atom"),
            vec![Step::new(7, "osmo")],
            SwapAmountWithLimit::ExactIn { input: 10_000, min_output: 1 },
        )
        .unwrap();
    // round trip through the same pool loses the fee and rounding twice
    let got = outcome.get_out;
    assert!(got < 10_000);

    let state = query_pool_state(&store, 7).unwrap();
    let osmo = state.assets[0].amount;
    let atom = state.assets[1].amount;
    assert_eq!(osmo, 1_000_000 + 10_000 - got);
    assert_eq!(atom, 1_000_000);
}

#[test]
fn load_missing_pool_is_not_found() {
    let store = PoolStore::new();
    let err = query_pool_state(&store, 9).unwrap_err();
    assert_eq!(
        err,
        OsmosisError::Std(osmo_bindings::StdError::NotFound)
    );
    let err = query_estimate_swap(
        &store,
        Swap::new(9, "a", "b"),
        vec![],
        SwapAmount::In(1),
    )
    .unwrap_err();
    assert_eq!(
        err,
        OsmosisError::Std(osmo_bindings::StdError::NotFound)
    );
}

#[test]
fn gamm_denom_formats_pool_id() {
    let pool = Pool::new(Coin::new(1, "a"), Coin::new(1, "b"));
    assert_eq!(pool.gamm_denom(0), "gamm/pool/0");
    assert_eq!(pool.gamm_denom(43), "gamm/pool/43");
    assert_eq!(
        pool.gamm_denom(u64::MAX),
        "gamm/pool/18446744073709551615"
    );
}

#[test]
fn shares_value_scales_assets() {
    let store = one_pool_store();
    let state = query_pool_state(&store, 43).unwrap();
    // one third of the 3_000_000 shares owns one third of each balance
    let value = state.shares_value(1_000_000u128);
    assert_eq!(
        value,
        vec![Coin::new(2_000_000, "osmo"), Coin::new(500_000, "atom")]
    );
}
