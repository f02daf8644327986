//! Read-only projections over pools and the pool store: the query request
//! type with its builders, the response shapes, and the query handlers for
//! pool state, spot price and swap estimation. Nothing here mutates a pool.

use vstd::prelude::*;

verus! {

use vstd::string::StringExecFns;

use crate::decimal::Decimal;
use crate::error::{OsmosisError, StdError};
use crate::pool::{find_denom, spot_price_spec, str_eq, Coin, CoinV, Pool};
use crate::router::{complex_swap, hops_spec, run_route, steps_view};
use crate::store::PoolStore;
use crate::text::{dec_digits, u128_dec_string};
use crate::types::{Step, Swap, SwapAmount, SwapV};

/// The queries the venue answers.
#[derive(Debug, PartialEq, Eq)]
pub enum OsmosisQuery {
    /// The full denomination minted for a subdenom by a creator address.
    FullDenom { creator_addr: String, subdenom: String },
    /// All tokens traded on a pool with current liquidity, and the total
    /// issued share amount under its denomination.
    PoolState { id: u64 },
    /// The current price of swapping the input for the output denomination
    /// on the given pool, optionally discounted by the swap fee.
    SpotPrice { swap: Swap, with_swap_fee: bool },
    /// The amount the given route would answer for the given exact side,
    /// with no state changed.
    EstimateSwap { sender: String, first: Swap, route: Vec<Step>, amount: SwapAmount },
    /// The arithmetic mean price over a past window; answered by the host
    /// chain's oracle, not by this store.
    ArithmeticTwap {
        id: u64,
        quote_asset_denom: String,
        base_asset_denom: String,
        start_time: i64,
        end_time: i64,
    },
    /// The arithmetic mean price from a past instant until now; answered by
    /// the host chain's oracle, not by this store.
    ArithmeticTwapToNow {
        id: u64,
        quote_asset_denom: String,
        base_asset_denom: String,
        start_time: i64,
    },
}

impl OsmosisQuery {
    /// A spot-price query without the swap fee.
    pub fn spot_price(pool_id: u64, denom_in: &str, denom_out: &str) -> (r: OsmosisQuery)
        ensures
            ({
                &&& r matches OsmosisQuery::SpotPrice { swap, with_swap_fee }
                &&& swap@ == (SwapV { pool_id, denom_in: denom_in@, denom_out: denom_out@ })
                &&& !with_swap_fee
            }),
    {
        OsmosisQuery::SpotPrice {
            swap: Swap::new(pool_id, denom_in, denom_out),
            with_swap_fee: false,
        }
    }

    /// An estimate for a single-pool swap.
    pub fn estimate_swap(
        contract: &str,
        pool_id: u64,
        denom_in: &str,
        denom_out: &str,
        amount: SwapAmount,
    ) -> (r: OsmosisQuery)
        ensures
            ({
                &&& r matches OsmosisQuery::EstimateSwap {
                    sender,
                    first,
                    route,
                    amount: ramount,
                }
                &&& sender@ == contract@
                &&& first@ == (SwapV { pool_id, denom_in: denom_in@, denom_out: denom_out@ })
                &&& route@.len() == 0
                &&& ramount == amount
            }),
    {
        OsmosisQuery::EstimateSwap {
            sender: contract.to_owned(),
            first: Swap::new(pool_id, denom_in, denom_out),
            amount,
            route: Vec::new(),
        }
    }

    /// A mean-price query over a closed past window.
    pub fn arithmetic_twap(
        pool_id: u64,
        quote_asset_denom: &str,
        base_asset_denom: &str,
        start_time: i64,
        end_time: i64,
    ) -> (r: OsmosisQuery)
        ensures
            ({
                &&& r matches OsmosisQuery::ArithmeticTwap {
                    id,
                    quote_asset_denom: q,
                    base_asset_denom: b,
                    start_time: s,
                    end_time: e,
                }
                &&& id == pool_id
                &&& q@ == quote_asset_denom@
                &&& b@ == base_asset_denom@
                &&& s == start_time
                &&& e == end_time
            }),
    {
        OsmosisQuery::ArithmeticTwap {
            id: pool_id,
            quote_asset_denom: quote_asset_denom.to_owned(),
            base_asset_denom: base_asset_denom.to_owned(),
            start_time,
            end_time,
        }
    }

    /// A mean-price query from a past instant until now.
    pub fn arithmetic_twap_to_now(
        pool_id: u64,
        quote_asset_denom: &str,
        base_asset_denom: &str,
        start_time: i64,
    ) -> (r: OsmosisQuery)
        ensures
            ({
                &&& r matches OsmosisQuery::ArithmeticTwapToNow {
                    id,
                    quote_asset_denom: q,
                    base_asset_denom: b,
                    start_time: s,
                }
                &&& id == pool_id
                &&& q@ == quote_asset_denom@
                &&& b@ == base_asset_denom@
                &&& s == start_time
            }),
    {
        OsmosisQuery::ArithmeticTwapToNow {
            id: pool_id,
            quote_asset_denom: quote_asset_denom.to_owned(),
            base_asset_denom: base_asset_denom.to_owned(),
            start_time,
        }
    }
}

/// The full denomination as minted by the host for a creator and subdenom.
#[derive(Debug, PartialEq, Eq)]
pub struct FullDenomResponse {
    pub denom: String,
}

/// A pool's state: its traded assets and the share coin.
#[derive(Debug, PartialEq, Eq)]
pub struct PoolStateResponse {
    /// The various assets that can be swapped, including current liquidity.
    pub assets: Vec<Coin>,
    /// The number of liquidity-provider shares under their denomination.
    pub shares: Coin,
}

/// The mathematical value of a `PoolStateResponse`.
#[verifier::ext_equal]
pub ghost struct PoolStateResponseV {
    pub assets: Seq<CoinV>,
    pub shares: CoinV,
}

impl View for PoolStateResponse {
    type V = PoolStateResponseV;

    open spec fn view(&self) -> PoolStateResponseV {
        PoolStateResponseV { assets: self.assets@.map_values(|c: Coin| c@), shares: self.shares@ }
    }
}

impl PoolStateResponse {
    /// Whether the pool trades an asset of the given denomination.
    pub fn has_denom(&self, denom: &str) -> (r: bool)
        ensures
            r == (find_denom(self@.assets, denom@) >= 0),
    {
        let mut i: usize = 0;
        while i < self.assets.len()
            invariant
                0 <= i <= self.assets.len(),
                self@.assets.len() == self.assets@.len(),
                forall|k: int| 0 <= k < i ==> self@.assets[k].denom != denom@,
            decreases self.assets.len() - i,
        {
            proof {
                assert(self@.assets[i as int] == self.assets@[i as int]@);
            }
            if str_eq(self.assets[i].denom.as_str(), denom) {
                proof {
                    crate::pool::lemma_find_denom(self@.assets, denom@);
                }
                return true;
            }
            i += 1;
        }
        proof {
            crate::pool::lemma_find_denom(self@.assets, denom@);
        }
        false
    }

    /// The denomination of the pool's liquidity-provider shares.
    pub fn lp_denom(&self) -> (r: &str)
        ensures
            r@ == self@.shares.denom,
    {
        self.shares.denom.as_str()
    }

    /// The assets a holder of `num_shares` of the share denomination owns:
    /// each balance scaled by the holder's share of the total, rounded down.
    pub fn shares_value(&self, num_shares: u128) -> (r: Vec<Coin>)
        requires
            self@.shares.amount > 0,
            forall|i: int|
                0 <= i < self@.assets.len() ==> self@.assets[i].amount as int * num_shares as int
                    <= u128::MAX as int,
        ensures
            r@.len() == self@.assets.len(),
            forall|i: int|
                0 <= i < r@.len() ==> r@[i]@ == (CoinV {
                    denom: self@.assets[i].denom,
                    amount: ((self@.assets[i].amount as int * num_shares as int)
                        / self@.shares.amount as int) as u128,
                }),
    {
        let mut out: Vec<Coin> = Vec::new();
        let mut i: usize = 0;
        while i < self.assets.len()
            invariant
                0 <= i <= self.assets.len(),
                self@.assets.len() == self.assets@.len(),
                self@.shares.amount > 0,
                self@.shares.amount == self.shares.amount,
                forall|k: int|
                    0 <= k < self@.assets.len() ==> self@.assets[k].amount as int
                        * num_shares as int <= u128::MAX as int,
                out@.len() == i,
                forall|k: int|
                    0 <= k < i ==> out@[k]@ == (CoinV {
                        denom: self@.assets[k].denom,
                        amount: ((self@.assets[k].amount as int * num_shares as int)
                            / self@.shares.amount as int) as u128,
                    }),
            decreases self.assets.len() - i,
        {
            proof {
                assert(self@.assets[i as int] == self.assets@[i as int]@);
            }
            let denom = self.assets[i].denom.clone();
            let amount = self.assets[i].amount * num_shares / self.shares.amount;
            out.push(Coin { denom, amount });
            i += 1;
        }
        out
    }
}

/// The denomination of a pool's liquidity shares.
pub open spec fn gamm_denom_spec(pool_id: u64) -> Seq<char> {
    "gamm/pool/"@ + dec_digits(pool_id as int)
}

impl Pool {
    /// The share denomination of this pool under the given id.
    pub fn gamm_denom(&self, pool_id: u64) -> (r: String)
        ensures
            r@ == gamm_denom_spec(pool_id),
    {
        let prefix: String = "gamm/pool/".to_owned();
        prefix.concat(u128_dec_string(pool_id as u128).as_str())
    }

    /// The pool projected as a query response: its assets, and the issued
    /// shares as a coin under the pool's share denomination.
    pub fn into_response(self, pool_id: u64) -> (r: PoolStateResponse)
        ensures
            r@.assets == self@.assets,
            r@.shares == (CoinV { denom: gamm_denom_spec(pool_id), amount: self@.shares }),
    {
        let denom = self.gamm_denom(pool_id);
        PoolStateResponse { assets: self.assets, shares: Coin { denom, amount: self.shares } }
    }
}

/// How many units of the output asset one unit of the input asset buys.
#[derive(Clone, Copy, Debug, PartialEq, Eq, Structural)]
pub struct SpotPriceResponse {
    pub price: Decimal,
}

/// The answer to a swap or estimate: the side opposite the request's exact side.
#[derive(Clone, Copy, Debug, PartialEq, Eq, Structural)]
pub struct SwapResponse {
    pub amount: SwapAmount,
}

/// The mean price over a past window, as the host's oracle reports it.
#[derive(Clone, Copy, Debug, PartialEq, Eq, Structural)]
pub struct ArithmeticTwapResponse {
    pub twap: Decimal,
}

/// The mean price since a past instant, as the host's oracle reports it.
#[derive(Clone, Copy, Debug, PartialEq, Eq, Structural)]
pub struct ArithmeticTwapToNowResponse {
    pub twap: Decimal,
}

/// Answers a pool-state query: the stored pool's assets and share coin.
pub fn query_pool_state(store: &PoolStore, id: u64) -> (r: Result<
    PoolStateResponse,
    OsmosisError,
>)
    ensures
        match r {
            Ok(resp) => {
                &&& store@.contains_key(id)
                &&& resp@.assets == store@[id].assets
                &&& resp@.shares == (CoinV {
                    denom: gamm_denom_spec(id),
                    amount: store@[id].shares,
                })
            },
            Err(e) => !store@.contains_key(id) && e == OsmosisError::Std(StdError::NotFound),
        },
{
    match store.load(id) {
        Ok(pool) => Ok(pool.into_response(id)),
        Err(e) => Err(e),
    }
}

/// Answers a spot-price query on the stored pool named by the swap.
pub fn query_spot_price(store: &PoolStore, swap: &Swap, with_swap_fee: bool) -> (r: Result<
    SpotPriceResponse,
    OsmosisError,
>)
    ensures
        !store@.contains_key(swap@.pool_id) ==> r == Err::<SpotPriceResponse, OsmosisError>(
            OsmosisError::Std(StdError::NotFound),
        ),
        store@.contains_key(swap@.pool_id) ==> (match spot_price_spec(
            store@[swap@.pool_id],
            swap@.denom_in,
            swap@.denom_out,
            with_swap_fee,
        ) {
            Ok(d) => r matches Ok(resp) && resp.price == d,
            Err(e) => r == Err::<SpotPriceResponse, OsmosisError>(e),
        }),
{
    let pool = match store.load(swap.pool_id) {
        Ok(p) => p,
        Err(e) => {
            return Err(e);
        },
    };
    match pool.spot_price(swap.denom_in.as_str(), swap.denom_out.as_str(), with_swap_fee) {
        Ok(price) => Ok(SpotPriceResponse { price }),
        Err(e) => Err(e),
    }
}

/// Answers an estimate query: the route is executed on staged copies with
/// identical arithmetic to the router, and every mutation is discarded.
pub fn query_estimate_swap(
    store: &PoolStore,
    first: Swap,
    route: Vec<Step>,
    amount: SwapAmount,
) -> (r: Result<SwapResponse, OsmosisError>)
    ensures
        ({
            let run = run_route(store@, hops_spec(first@, steps_view(route@)), amount);
            match run {
                Ok(rm) => r matches Ok(resp) && resp.amount == rm.0,
                Err(e) => r == Err::<SwapResponse, OsmosisError>(e),
            }
        }),
{
    match complex_swap(store, first, route, amount) {
        Ok(rv) => Ok(SwapResponse { amount: rv.0 }),
        Err(e) => Err(e),
    }
}

} // verus!
