//! Route and amount types: a fully specified hop (`Swap`), a continuation
//! hop (`Step`), the exact side of a trade (`SwapAmount`), and a trade
//! request carrying its slippage bound (`SwapAmountWithLimit`).

use vstd::prelude::*;

verus! {

/// One fully specified hop: which pool, and which denomination goes in and out.
#[derive(Debug, PartialEq, Eq)]
pub struct Swap {
    pub pool_id: u64,
    pub denom_in: String,
    pub denom_out: String,
}

/// The mathematical value of a `Swap`.
pub ghost struct SwapV {
    pub pool_id: u64,
    pub denom_in: Seq<char>,
    pub denom_out: Seq<char>,
}

impl View for Swap {
    type V = SwapV;

    open spec fn view(&self) -> SwapV {
        SwapV { pool_id: self.pool_id, denom_in: self.denom_in@, denom_out: self.denom_out@ }
    }
}

impl Clone for Swap {
    fn clone(&self) -> (r: Self)
        ensures
            r == *self,
    {
        Swap {
            pool_id: self.pool_id,
            denom_in: self.denom_in.clone(),
            denom_out: self.denom_out.clone(),
        }
    }
}

impl Swap {
    /// A hop on the given pool from `denom_in` to `denom_out`.
    pub fn new(pool_id: u64, denom_in: &str, denom_out: &str) -> (r: Swap)
        ensures
            r@ == (SwapV { pool_id, denom_in: denom_in@, denom_out: denom_out@ }),
    {
        Swap { pool_id, denom_in: denom_in.to_owned(), denom_out: denom_out.to_owned() }
    }
}

/// A continuation hop: its input denomination is the previous hop's output.
#[derive(Debug, PartialEq, Eq)]
pub struct Step {
    pub pool_id: u64,
    pub denom_out: String,
}

/// The mathematical value of a `Step`.
pub ghost struct StepV {
    pub pool_id: u64,
    pub denom_out: Seq<char>,
}

impl View for Step {
    type V = StepV;

    open spec fn view(&self) -> StepV {
        StepV { pool_id: self.pool_id, denom_out: self.denom_out@ }
    }
}

impl Clone for Step {
    fn clone(&self) -> (r: Self)
        ensures
            r == *self,
    {
        Step { pool_id: self.pool_id, denom_out: self.denom_out.clone() }
    }
}

impl Step {
    /// A continuation hop on the given pool, paying out `denom_out`.
    pub fn new(pool_id: u64, denom_out: &str) -> (r: Step)
        ensures
            r@ == (StepV { pool_id, denom_out: denom_out@ }),
    {
        Step { pool_id, denom_out: denom_out.to_owned() }
    }
}

/// The exact side of a hop: either the deposited amount (`In`) or the
/// demanded amount (`Out`) is the known quantity; the other side is computed.
#[derive(Clone, Copy, Debug, PartialEq, Eq, Structural)]
pub enum SwapAmount {
    In(u128),
    Out(u128),
}

impl SwapAmount {
    /// The amount of an `In` value. Calling it on an `Out` value is excluded.
    pub fn as_in(&self) -> (r: u128)
        requires
            self is In,
        ensures
            *self == SwapAmount::In(r),
    {
        match self {
            SwapAmount::In(x) => *x,
            SwapAmount::Out(_) => vstd::pervasive::unreached(),
        }
    }

    /// The amount of an `Out` value. Calling it on an `In` value is excluded.
    pub fn as_out(&self) -> (r: u128)
        requires
            self is Out,
        ensures
            *self == SwapAmount::Out(r),
    {
        match self {
            SwapAmount::Out(x) => *x,
            SwapAmount::In(_) => vstd::pervasive::unreached(),
        }
    }
}

/// A caller-facing trade request: the exact side together with the slippage
/// bound on the opposite side.
#[derive(Clone, Copy, Debug, PartialEq, Eq, Structural)]
pub enum SwapAmountWithLimit {
    ExactIn { input: u128, min_output: u128 },
    ExactOut { output: u128, max_input: u128 },
}

impl SwapAmountWithLimit {
    /// The exact side of the request, with the bound dropped.
    pub open spec fn spec_discard_limit(self) -> SwapAmount {
        match self {
            SwapAmountWithLimit::ExactIn { input, .. } => SwapAmount::In(input),
            SwapAmountWithLimit::ExactOut { output, .. } => SwapAmount::Out(output),
        }
    }

    /// Drops the slippage bound, keeping the exact side.
    pub fn discard_limit(self) -> (r: SwapAmount)
        ensures
            r == self.spec_discard_limit(),
    {
        match self {
            SwapAmountWithLimit::ExactIn { input, .. } => SwapAmount::In(input),
            SwapAmountWithLimit::ExactOut { output, .. } => SwapAmount::Out(output),
        }
    }
}

} // verus!
