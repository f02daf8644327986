use osmo_bindings::{OsmosisMsg, OsmosisQuery, Swap, SwapAmount, SwapAmountWithLimit};

#[test]
fn query_builders() {
    let q = OsmosisQuery::spot_price(43, "osmo", "atom");
    assert_eq!(
        q,
        OsmosisQuery::SpotPrice { swap: Swap::new(43, "osmo", "atom"), with_swap_fee: false }
    );

    let q = OsmosisQuery::estimate_swap("contract", 43, "osmo", "atom", SwapAmount::In(500));
    assert_eq!(
        q,
        OsmosisQuery::EstimateSwap {
            sender: String::from("contract"),
            first: Swap::new(43, "osmo", "atom"),
            route: vec![],
            amount: SwapAmount::In(500),
        }
    );

    let q = OsmosisQuery::arithmetic_twap(7, "uosmo", "uatom", 100, 200);
    assert_eq!(
        q,
        OsmosisQuery::ArithmeticTwap {
            id: 7,
            quote_asset_denom: String::from("uosmo"),
            base_asset_denom: String::from("uatom"),
            start_time: 100,
            end_time: 200,
        }
    );

    let q = OsmosisQuery::arithmetic_twap_to_now(7, "uosmo", "uatom", 100);
    assert_eq!(
        q,
        OsmosisQuery::ArithmeticTwapToNow {
            id: 7,
            quote_asset_denom: String::from("uosmo"),
            base_asset_denom: String::from("uatom"),
            start_time: 100,
        }
    );
}

#[test]
fn simple_swap_builder() {
    let amount = SwapAmountWithLimit::ExactIn { input: 100, min_output: 10 };
    let msg = OsmosisMsg::simple_swap(43, "osmo", "atom", amount);
    assert_eq!(
        msg,
        OsmosisMsg::Swap {
            first: Swap::new(43, "osmo", "atom"),
            route: vec![],
            amount: SwapAmountWithLimit::ExactIn { input: 100, min_output: 10 },
        }
    );
}
