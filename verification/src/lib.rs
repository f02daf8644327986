//! A model of an automated-market-maker venue: constant-product pools with
//! swap fees, a keyed pool store, a multi-hop swap router with slippage
//! enforcement, and read-only price/state queries.

pub mod arith;
pub mod decimal;
pub mod error;
pub mod types;
pub mod pool;
pub mod store;
pub mod router;
pub mod laws;
pub mod text;
pub mod query;
pub mod msg;
pub mod tokenfactory;


pub use decimal::Decimal;
pub use error::{ContractError, OsmosisError, StdError};
pub use msg::OsmosisMsg;
pub use pool::{Coin, Pool};
pub use query::{
    ArithmeticTwapResponse, ArithmeticTwapToNowResponse, FullDenomResponse, OsmosisQuery,
    PoolStateResponse, SpotPriceResponse, SwapResponse,
};
pub use router::{OsmosisModule, SwapOutcome};
pub use store::PoolStore;
pub use tokenfactory::{GetDenomResponse, TokenFactoryError};
pub use types::{Step, Swap, SwapAmount, SwapAmountWithLimit};
