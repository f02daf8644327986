//! A fixed-point decimal with 18 fractional digits, stored as atomic units
//! in a `u128`. It stands for fractional values such as swap fees and spot
//! prices; a value `d` denotes the rational `d.atomics / 10^18`.

use vstd::prelude::*;

verus! {

use crate::arith::{lemma_muldiv_split, muldiv_e18_small, E18};
use crate::error::StdError;

/// A decimal number with 18 fractional digits: the stored `atomics` count
/// denotes `atomics / 10^18`.
#[derive(Clone, Copy, Debug, PartialEq, Eq, Structural)]
pub struct Decimal {
    pub atomics: u128,
}

impl Decimal {
    /// The decimal made of the given number of atomic units.
    pub fn new(atomics: u128) -> (r: Decimal)
        ensures
            r.atomics == atomics,
    {
        Decimal { atomics }
    }

    /// Zero.
    pub fn zero() -> (r: Decimal)
        ensures
            r.atomics == 0,
    {
        Decimal { atomics: 0 }
    }

    /// One whole unit.
    pub fn one() -> (r: Decimal)
        ensures
            r.atomics == E18,
    {
        Decimal { atomics: E18 }
    }

    /// `x` percent, that is `x / 100`.
    pub fn percent(x: u64) -> (r: Decimal)
        ensures
            r.atomics == x as int * 10_000_000_000_000_000,
    {
        Decimal { atomics: (x as u128) * 10_000_000_000_000_000 }
    }

    /// `x` permille, that is `x / 1000`.
    pub fn permille(x: u64) -> (r: Decimal)
        ensures
            r.atomics == x as int * 1_000_000_000_000_000,
    {
        Decimal { atomics: (x as u128) * 1_000_000_000_000_000 }
    }

    /// Whether the value is zero.
    pub fn is_zero(&self) -> (r: bool)
        ensures
            r == (self.atomics == 0),
    {
        self.atomics == 0
    }

    /// The numerator of the value read as a fraction.
    pub fn numerator(&self) -> (r: u128)
        ensures
            r == self.atomics,
    {
        self.atomics
    }

    /// The ratio `numerator / denominator` as a decimal, rounded down to
    /// the nearest atomic unit: a zero denominator and a result beyond the
    /// representable range are reported as errors.
    pub fn checked_from_ratio(numerator: u128, denominator: u128) -> (r: Result<Decimal, StdError>)
        ensures
            denominator == 0 ==> r == Err::<Decimal, StdError>(StdError::DivideByZero),
            denominator > 0 ==> ({
                let v = (numerator as int * E18 as int) / denominator as int;
                if v <= u128::MAX as int {
                    r matches Ok(d) && d.atomics == v
                } else {
                    r == Err::<Decimal, StdError>(StdError::Overflow)
                }
            }),
    {
        if denominator == 0 {
            return Err(StdError::DivideByZero);
        }
        let q0 = numerator / denominator;
        let rem = numerator % denominator;
        let tail = muldiv_e18_small(rem, denominator);
        proof {
            lemma_muldiv_split(numerator as int, E18 as int, denominator as int);
        }
        let h = match q0.checked_mul(E18) {
            Some(h) => h,
            None => {
                return Err(StdError::Overflow);
            },
        };
        let a = match h.checked_add(tail) {
            Some(a) => a,
            None => {
                return Err(StdError::Overflow);
            },
        };
        Ok(Decimal { atomics: a })
    }

    /// The ratio `numerator / denominator` as a decimal; the caller rules
    /// out a zero denominator and a result beyond the representable range.
    pub fn from_ratio(numerator: u128, denominator: u128) -> (r: Decimal)
        requires
            denominator > 0,
            (numerator as int * E18 as int) / denominator as int <= u128::MAX as int,
        ensures
            r.atomics == (numerator as int * E18 as int) / denominator as int,
    {
        match Decimal::checked_from_ratio(numerator, denominator) {
            Ok(d) => d,
            Err(_) => vstd::pervasive::unreached(),
        }
    }

    /// The denominator of the value read as a fraction: the fixed scale.
    pub fn denominator(&self) -> (r: u128)
        ensures
            r == E18,
    {
        E18
    }
}

} // verus!
