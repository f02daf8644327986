//! The custom messages a contract sends into the venue: token-factory denom
//! administration and the swap command, with builders for the common shapes.

use vstd::prelude::*;

verus! {

use crate::types::{Step, Swap, SwapAmountWithLimit, SwapV};

/// A custom message calling into the venue.
#[derive(Debug, PartialEq, Eq)]
pub enum OsmosisMsg {
    /// Creates a new factory denomination `factory/{creator}/{subdenom}`.
    /// Subdenoms are at most 44 characters of `[0-9a-zA-Z./]`; the empty
    /// subdenom is valid. The creating address becomes the denom's admin.
    CreateDenom { subdenom: String },
    /// Changes the admin of a factory denomination; only the current admin
    /// may do so. An empty new admin address leaves the denom without one.
    ChangeAdmin { denom: String, new_admin_address: String },
    /// Mints native tokens of an existing factory denomination to an
    /// address; only the denom's admin may do so.
    MintTokens { denom: String, amount: u128, mint_to_address: String },
    /// Burns native tokens of an existing factory denomination; currently
    /// only from the admin contract itself.
    BurnTokens { denom: String, amount: u128, burn_from_address: String },
    /// A swap over one or more pools, answered with the amount on the side
    /// opposite the request's exact side.
    Swap { first: Swap, route: Vec<Step>, amount: SwapAmountWithLimit },
}

impl OsmosisMsg {
    /// A swap over a single pool.
    pub fn simple_swap(
        pool_id: u64,
        denom_in: &str,
        denom_out: &str,
        amount: SwapAmountWithLimit,
    ) -> (r: OsmosisMsg)
        ensures
            ({
                &&& r matches OsmosisMsg::Swap { first, route, amount: ramount }
                &&& first@ == (SwapV { pool_id, denom_in: denom_in@, denom_out: denom_out@ })
                &&& route@.len() == 0
                &&& ramount == amount
            }),
    {
        OsmosisMsg::Swap {
            first: Swap::new(pool_id, denom_in, denom_out),
            amount,
            route: Vec::new(),
        }
    }

    /// A mint of contract tokens to the given address.
    pub fn mint_contract_tokens(denom: String, amount: u128, mint_to_address: String) -> (r:
        OsmosisMsg)
        ensures
            ({
                &&& r matches OsmosisMsg::MintTokens {
                    denom: d,
                    amount: a,
                    mint_to_address: m,
                }
                &&& d == denom
                &&& a == amount
                &&& m == mint_to_address
            }),
    {
        OsmosisMsg::MintTokens { denom, amount, mint_to_address }
    }

    /// A burn of contract tokens; burning from another address is disabled,
    /// so the burn-from address is left empty.
    pub fn burn_contract_tokens(denom: String, amount: u128, _burn_from_address: String) -> (r:
        OsmosisMsg)
        ensures
            ({
                &&& r matches OsmosisMsg::BurnTokens {
                    denom: d,
                    amount: a,
                    burn_from_address: b,
                }
                &&& d == denom
                &&& a == amount
                &&& b@ == Seq::<char>::empty()
            }),
    {
        OsmosisMsg::BurnTokens { denom, amount, burn_from_address: String::new() }
    }
}

} // verus!
