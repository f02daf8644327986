//! Error taxonomy of the venue: errors that the persistence layer reports,
//! and the domain errors of swapping and querying. Every failure is returned
//! as a value; no function of this crate panics on a reachable input.

use vstd::prelude::*;

verus! {

/// Errors of the persistence and arithmetic layer, mirroring what the host
/// environment reports: a missing stored value, an arithmetic overflow, or a
/// division by zero. Arithmetic failures are surfaced as values, never
/// silently clamped.
#[derive(Clone, Copy, Debug, PartialEq, Eq, Structural)]
pub enum StdError {
    NotFound,
    Overflow,
    DivideByZero,
}

/// Domain errors of the swap venue.
#[derive(Clone, Copy, Debug, PartialEq, Eq, Structural)]
pub enum OsmosisError {
    /// An error propagated unchanged from the persistence or arithmetic layer.
    Std(StdError),
    /// A denomination referenced by a swap or query is not among the pool's assets.
    AssetNotInPool,
    /// The slippage bound was violated: the swap is rejected and nothing is persisted.
    PriceTooLow,
    /// An unsupported request shape.
    Unimplemented,
}

/// Errors of the denom-building host mock.
#[derive(Debug, PartialEq, Eq)]
pub enum ContractError {
    /// An error propagated unchanged from the persistence or arithmetic layer.
    Std(StdError),
    /// A full denomination that breaks the host's length or shape rules.
    InvalidFullDenom { full_denom: String },
}

} // verus!
