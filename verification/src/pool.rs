//! A two-asset (or more) constant-product liquidity pool: per-pool balances,
//! liquidity-provider shares and the swap fee, together with the single-hop
//! swap primitive and its exact mathematical specification.

use vstd::prelude::*;

verus! {

use vstd::arithmetic::div_mod::lemma_div_is_ordered;
use vstd::arithmetic::div_mod::lemma_fundamental_div_mod_converse_div;

use crate::arith::{E18, mul_frac_e18, isqrt_u128, is_sqrt, lemma_div_le_dividend};
use crate::decimal::Decimal;
use crate::error::{OsmosisError, StdError};
use crate::types::{SwapAmount, SwapAmountWithLimit};

/// One asset held by a pool: a denomination and its current balance.
#[derive(Debug, PartialEq, Eq)]
pub struct Coin {
    pub denom: String,
    pub amount: u128,
}

/// The mathematical value of a `Coin`.
#[verifier::ext_equal]
pub ghost struct CoinV {
    pub denom: Seq<char>,
    pub amount: u128,
}

impl View for Coin {
    type V = CoinV;

    open spec fn view(&self) -> CoinV {
        CoinV { denom: self.denom@, amount: self.amount }
    }
}

impl Clone for Coin {
    fn clone(&self) -> (r: Self)
        ensures
            r == *self,
    {
        Coin { denom: self.denom.clone(), amount: self.amount }
    }
}

impl Coin {
    /// A coin of the given amount and denomination.
    pub fn new(amount: u128, denom: &str) -> (r: Coin)
        ensures
            r@ == (CoinV { denom: denom@, amount }),
    {
        Coin { denom: denom.to_owned(), amount }
    }
}

/// Whether two string slices hold the same characters.
pub fn str_eq(a: &str, b: &str) -> (r: bool)
    ensures
        r == (a@ == b@),
{
    let sa: String = a.to_owned();
    let sb: String = b.to_owned();
    sa == sb
}

/// The index of the first asset with the given denomination, or `-1`.
pub open spec fn find_denom(assets: Seq<CoinV>, denom: Seq<char>) -> int
    decreases assets.len(),
{
    if assets.len() == 0 {
        -1
    } else if assets[0].denom == denom {
        0
    } else {
        let r = find_denom(assets.drop_first(), denom);
        if r < 0 {
            -1
        } else {
            r + 1
        }
    }
}

/// `find_denom` returns the first matching index, or `-1` when nothing matches.
pub proof fn lemma_find_denom(assets: Seq<CoinV>, denom: Seq<char>)
    ensures
        ({
            let i = find_denom(assets, denom);
            &&& -1 <= i < assets.len()
            &&& i >= 0 ==> assets[i].denom == denom && (forall|k: int|
                0 <= k < i ==> assets[k].denom != denom)
            &&& i == -1 ==> forall|k: int| 0 <= k < assets.len() ==> assets[k].denom != denom
        }),
    decreases assets.len(),
{
    if assets.len() > 0 && assets[0].denom != denom {
        lemma_find_denom(assets.drop_first(), denom);
        let rest = assets.drop_first();
        assert(forall|k: int| 0 <= k < rest.len() ==> rest[k] == assets[k + 1]);
        let r = find_denom(rest, denom);
        if r >= 0 {
            assert(find_denom(assets, denom) == r + 1);
            assert(assets[r + 1] == rest[r]);
            assert(forall|k: int|
                1 <= k < r + 1 ==> assets[k] == rest[k - 1] && rest[k - 1].denom != denom);
        } else {
            assert(find_denom(assets, denom) == -1);
            assert(forall|k: int|
                1 <= k < assets.len() ==> assets[k] == rest[k - 1] && rest[k - 1].denom != denom);
        }
    }
}

/// Replacing an asset's amount leaves every `find_denom` lookup unchanged.
pub proof fn lemma_find_denom_update(assets: Seq<CoinV>, i: int, c: CoinV, denom: Seq<char>)
    requires
        0 <= i < assets.len(),
        c.denom == assets[i].denom,
    ensures
        find_denom(assets.update(i, c), denom) == find_denom(assets, denom),
    decreases assets.len(),
{
    let upd = assets.update(i, c);
    assert(upd.len() == assets.len());
    if i == 0 {
        assert(upd[0].denom == assets[0].denom);
        if assets[0].denom != denom {
            assert(upd.drop_first() =~= assets.drop_first());
        }
    } else {
        assert(upd[0] == assets[0]);
        if assets[0].denom != denom {
            assert(upd.drop_first() =~= assets.drop_first().update(i - 1, c));
            lemma_find_denom_update(assets.drop_first(), i - 1, c, denom);
        }
    }
}

/// The mathematical value of a `Pool`.
#[verifier::ext_equal]
pub ghost struct PoolV {
    pub assets: Seq<CoinV>,
    pub shares: u128,
    /// The swap fee in atomic units of the 18-digit fixed-point scale.
    pub fee: u128,
}

impl PoolV {
    /// Whether the pool holds an asset of the given denomination.
    pub open spec fn has_denom(self, denom: Seq<char>) -> bool {
        find_denom(self.assets, denom) >= 0
    }

    /// The balance of the first asset with the given denomination.
    pub open spec fn amount_of(self, denom: Seq<char>) -> u128 {
        self.assets[find_denom(self.assets, denom)].amount
    }

    /// The pool with the balance of `denom` replaced.
    pub open spec fn with_amount(self, denom: Seq<char>, amount: u128) -> PoolV {
        let i = find_denom(self.assets, denom);
        PoolV {
            assets: self.assets.update(i, CoinV { denom: self.assets[i].denom, amount }),
            shares: self.shares,
            fee: self.fee,
        }
    }

    /// The pool's invariant: denominations are unique and the fee is a
    /// fraction below one.
    pub open spec fn well_formed(self) -> bool {
        &&& forall|j: int, k: int|
            0 <= j < k < self.assets.len() ==> self.assets[j].denom != self.assets[k].denom
        &&& self.fee < E18
    }
}

/// A liquidity pool: its assets, the total issued share amount, and the swap
/// fee. Shares are fixed at creation; swaps change only the balances.
#[derive(Debug, PartialEq, Eq)]
pub struct Pool {
    pub assets: Vec<Coin>,
    pub shares: u128,
    pub fee: Decimal,
}

impl View for Pool {
    type V = PoolV;

    open spec fn view(&self) -> PoolV {
        PoolV {
            assets: self.assets@.map_values(|c: Coin| c@),
            shares: self.shares,
            fee: self.fee.atomics,
        }
    }
}

impl Clone for Pool {
    fn clone(&self) -> (r: Self)
        ensures
            r@ == self@,
    {
        let mut assets: Vec<Coin> = Vec::new();
        let mut i: usize = 0;
        while i < self.assets.len()
            invariant
                0 <= i <= self.assets.len(),
                assets@.len() == i,
                forall|k: int| 0 <= k < i ==> assets@[k] == self.assets@[k],
            decreases self.assets.len() - i,
        {
            assets.push(self.assets[i].clone());
            i += 1;
        }
        let r = Pool { assets, shares: self.shares, fee: self.fee };
        proof {
            assert(r@.assets =~= self@.assets);
        }
        r
    }
}

impl Pool {
    /// An equal-weighted pool over the two seed coins with a 0.3% swap fee;
    /// the issued shares are the integer square root of the product of the
    /// two seed balances.
    pub fn new(a: Coin, b: Coin) -> (r: Pool)
        requires
            a.amount as int * b.amount as int <= u128::MAX,
        ensures
            r@.assets =~= seq![a@, b@],
            is_sqrt(a.amount as int * b.amount as int, r@.shares as int),
            r@.fee == 3_000_000_000_000_000,
            a@.denom != b@.denom ==> r@.well_formed(),
    {
        proof {
            assert(a.amount as int * b.amount as int >= 0) by (nonlinear_arith);
        }
        let prod = a.amount * b.amount;
        let shares = isqrt_u128(prod);
        let r = Pool { assets: vec![a, b], shares, fee: Decimal::permille(3) };
        proof {
            assert(r@.assets =~= seq![a@, b@]);
        }
        r
    }

    /// Whether the pool holds an asset of the given denomination.
    pub fn has_denom(&self, denom: &str) -> (r: bool)
        ensures
            r == self@.has_denom(denom@),
    {
        self.get_amount(denom).is_some()
    }

    /// The current balance of `denom`, or `None` when the pool lacks it.
    pub fn get_amount(&self, denom: &str) -> (r: Option<u128>)
        ensures
            match r {
                Some(a) => self@.has_denom(denom@) && a == self@.amount_of(denom@),
                None => !self@.has_denom(denom@),
            },
    {
        let ghost dv = denom@;
        let mut i: usize = 0;
        while i < self.assets.len()
            invariant
                dv == denom@,
                0 <= i <= self.assets.len(),
                self@.assets.len() == self.assets@.len(),
                forall|k: int| 0 <= k < i ==> self@.assets[k].denom != dv,
            decreases self.assets.len() - i,
        {
            proof {
                assert(self@.assets[i as int] == self.assets@[i as int]@);
            }
            let c: &Coin = &self.assets[i];
            if str_eq(c.denom.as_str(), denom) {
                proof {
                    assert(c.denom@ == dv);
                    assert(c@ == self.assets@[i as int]@);
                    assert(self@.assets[i as int].denom == dv);
                    lemma_find_denom(self@.assets, dv);
                }
                return Some(c.amount);
            }
            i += 1;
        }
        proof {
            lemma_find_denom(self@.assets, dv);
        }
        None
    }

    /// Replaces the balance of `denom`; fails when the pool lacks the asset.
    pub fn set_amount(&mut self, denom: &str, amount: u128) -> (r: Result<(), OsmosisError>)
        ensures
            match r {
                Ok(_) => old(self)@.has_denom(denom@) && final(self)@ == old(self)@.with_amount(
                    denom@,
                    amount,
                ),
                Err(e) => {
                    &&& e == OsmosisError::AssetNotInPool
                    &&& !old(self)@.has_denom(denom@)
                    &&& final(self)@ == old(self)@
                },
            },
    {
        let ghost dv = denom@;
        let mut i: usize = 0;
        while i < self.assets.len()
            invariant
                dv == denom@,
                0 <= i <= self.assets.len(),
                self@.assets.len() == self.assets@.len(),
                forall|k: int| 0 <= k < i ==> self@.assets[k].denom != dv,
                *self == *old(self),
            decreases self.assets.len() - i,
        {
            proof {
                assert(self@.assets[i as int] == self.assets@[i as int]@);
            }
            if str_eq(self.assets[i].denom.as_str(), denom) {
                proof {
                    lemma_find_denom(self@.assets, dv);
                    assert(self@.assets[i as int].denom == dv);
                }
                let d = self.assets[i].denom.clone();
                self.assets[i] = Coin { denom: d, amount };
                proof {
                    assert(self@.assets =~= old(self)@.with_amount(dv, amount).assets);
                }
                return Ok(());
            }
            i += 1;
        }
        proof {
            lemma_find_denom(self@.assets, dv);
        }
        Err(OsmosisError::AssetNotInPool)
    }
}

/// The amount carried by either side of a `SwapAmount`.
pub open spec fn amount_value(a: SwapAmount) -> u128 {
    match a {
        SwapAmount::In(x) => x,
        SwapAmount::Out(x) => x,
    }
}

/// The deposit net of the fee: `floor(input * (E18 - fee) / E18)`.
pub open spec fn apply_fee(input: int, fee: int) -> int {
    input * (E18 as int - fee) / (E18 as int)
}

/// The output asset's balance after an exact-in swap: the constant-product
/// balance with the fee-discounted input as the effective deposit.
pub open spec fn in_new_out(bi: int, bo: int, fee: int, input: int) -> int {
    (bi * bo) / (bi + apply_fee(input, fee))
}

/// The gross input charged by an exact-out swap: the constant-product input
/// requirement with the fee grossed up, rounded upward by integer division
/// plus one.
pub open spec fn out_gross_in(bi: int, bo: int, fee: int, output: int) -> int {
    ((bi * bo) / (bo - output) - bi) * (E18 as int) / (E18 as int - fee) + 1
}

/// The exact result of a single-hop swap: the opposite-side amount and the
/// updated pool, or the error. Both denominations must be present; every
/// arithmetic failure (a fee above one, an overflow, a division by zero on
/// exhausted or insufficient balances) is an error, in the order in which
/// the computation meets it.
pub open spec fn swap_spec(
    p: PoolV,
    din: Seq<char>,
    dout: Seq<char>,
    amount: SwapAmount,
) -> Result<(SwapAmount, PoolV), OsmosisError> {
    if !p.has_denom(din) || !p.has_denom(dout) {
        Err(OsmosisError::AssetNotInPool)
    } else {
        let bi = p.amount_of(din) as int;
        let bo = p.amount_of(dout) as int;
        let fee = p.fee as int;
        match amount {
            SwapAmount::In(input) => {
                if fee > E18 as int {
                    Err(OsmosisError::Std(StdError::Overflow))
                } else {
                    let imf = apply_fee(input as int, fee);
                    if bi * bo > u128::MAX as int {
                        Err(OsmosisError::Std(StdError::Overflow))
                    } else if bi + imf > u128::MAX as int {
                        Err(OsmosisError::Std(StdError::Overflow))
                    } else if bi + imf == 0 {
                        Err(OsmosisError::Std(StdError::DivideByZero))
                    } else if bi + input as int > u128::MAX as int {
                        Err(OsmosisError::Std(StdError::Overflow))
                    } else {
                        let fo = in_new_out(bi, bo, fee, input as int);
                        Ok(
                            (
                                SwapAmount::Out((bo - fo) as u128),
                                p.with_amount(din, (bi + input as int) as u128).with_amount(
                                    dout,
                                    fo as u128,
                                ),
                            ),
                        )
                    }
                }
            },
            SwapAmount::Out(output) => {
                if bi * bo > u128::MAX as int {
                    Err(OsmosisError::Std(StdError::Overflow))
                } else if output as int > bo {
                    Err(OsmosisError::Std(StdError::Overflow))
                } else if output as int == bo {
                    Err(OsmosisError::Std(StdError::DivideByZero))
                } else if fee > E18 as int {
                    Err(OsmosisError::Std(StdError::Overflow))
                } else {
                    let diff = (bi * bo) / (bo - output as int) - bi;
                    if diff * (E18 as int) > u128::MAX as int {
                        Err(OsmosisError::Std(StdError::Overflow))
                    } else if fee == E18 as int {
                        Err(OsmosisError::Std(StdError::DivideByZero))
                    } else {
                        let pay = out_gross_in(bi, bo, fee, output as int);
                        if pay > u128::MAX as int || bi + pay > u128::MAX as int {
                            Err(OsmosisError::Std(StdError::Overflow))
                        } else {
                            Ok(
                                (
                                    SwapAmount::In(pay as u128),
                                    p.with_amount(din, (bi + pay) as u128).with_amount(
                                        dout,
                                        (bo - output as int) as u128,
                                    ),
                                ),
                            )
                        }
                    }
                }
            },
        }
    }
}

/// The exact result of a spot-price query: the price of one unit of the
/// input asset in units of the output asset, optionally discounted by the
/// swap fee, as a fixed-point decimal rounded down. Both denominations must
/// be present; a fee above one, an empty input balance and a price beyond
/// the decimal's range are errors.
pub open spec fn spot_price_spec(
    p: PoolV,
    din: Seq<char>,
    dout: Seq<char>,
    with_swap_fee: bool,
) -> Result<Decimal, OsmosisError> {
    if !p.has_denom(din) || !p.has_denom(dout) {
        Err(OsmosisError::AssetNotInPool)
    } else {
        let bi = p.amount_of(din) as int;
        let bo = p.amount_of(dout) as int;
        if with_swap_fee && p.fee as int > E18 as int {
            Err(OsmosisError::Std(StdError::Overflow))
        } else {
            let x = if with_swap_fee {
                bo * (E18 as int - p.fee as int) / (E18 as int)
            } else {
                bo
            };
            if bi == 0 {
                Err(OsmosisError::Std(StdError::DivideByZero))
            } else if (x * E18 as int) / bi > u128::MAX as int {
                Err(OsmosisError::Std(StdError::Overflow))
            } else {
                Ok(Decimal { atomics: ((x * E18 as int) / bi) as u128 })
            }
        }
    }
}

/// Replacing one balance keeps the pool's denominations and fee, and with
/// them its well-formedness.
pub proof fn lemma_with_amount_preserves_well_formed(p: PoolV, denom: Seq<char>, amount: u128)
    requires
        p.has_denom(denom),
    ensures
        p.with_amount(denom, amount).assets.len() == p.assets.len(),
        forall|j: int|
            0 <= j < p.assets.len() ==> p.with_amount(denom, amount).assets[j].denom
                == p.assets[j].denom,
        p.with_amount(denom, amount).fee == p.fee,
        p.well_formed() ==> p.with_amount(denom, amount).well_formed(),
        p.with_amount(denom, amount).has_denom(denom),
{
    lemma_find_denom(p.assets, denom);
    let i = find_denom(p.assets, denom);
    let q = p.with_amount(denom, amount);
    assert(forall|j: int| 0 <= j < p.assets.len() ==> q.assets[j].denom == p.assets[j].denom);
    lemma_find_denom_update(
        p.assets,
        i,
        CoinV { denom: p.assets[i].denom, amount },
        denom,
    );
}

/// The pool invariant is preserved by every successful swap: the swap only
/// replaces balances, never a denomination or the fee.
pub proof fn lemma_swap_preserves_well_formed(
    p: PoolV,
    din: Seq<char>,
    dout: Seq<char>,
    amount: SwapAmount,
)
    requires
        p.well_formed(),
    ensures
        swap_spec(p, din, dout, amount) matches Ok(ap) ==> ap.1.well_formed(),
{
    if swap_spec(p, din, dout, amount) is Ok {
        let fi = match amount {
            SwapAmount::In(input) => (p.amount_of(din) + input) as u128,
            SwapAmount::Out(output) => {
                let bi = p.amount_of(din) as int;
                let bo = p.amount_of(dout) as int;
                (bi + out_gross_in(bi, bo, p.fee as int, output as int)) as u128
            },
        };
        let mid = p.with_amount(din, fi);
        lemma_with_amount_preserves_well_formed(p, din, fi);
        lemma_find_denom(p.assets, din);
        let i = find_denom(p.assets, din);
        lemma_find_denom_update(
            p.assets,
            i,
            CoinV { denom: p.assets[i].denom, amount: fi },
            dout,
        );
        let fo = match amount {
            SwapAmount::In(input) => in_new_out(
                p.amount_of(din) as int,
                p.amount_of(dout) as int,
                p.fee as int,
                input as int,
            ) as u128,
            SwapAmount::Out(output) => (p.amount_of(dout) - output) as u128,
        };
        lemma_with_amount_preserves_well_formed(mid, dout, fo);
    }
}

/// A successful exact-in swap always answers with an `Out` amount.
pub proof fn lemma_swap_spec_in_gives_out(p: PoolV, din: Seq<char>, dout: Seq<char>, input: u128)
    ensures
        swap_spec(p, din, dout, SwapAmount::In(input)) matches Ok(ap) ==> ap.0 is Out,
{
}

/// A successful exact-out swap always answers with an `In` amount.
pub proof fn lemma_swap_spec_out_gives_in(p: PoolV, din: Seq<char>, dout: Seq<char>, output: u128)
    ensures
        swap_spec(p, din, dout, SwapAmount::Out(output)) matches Ok(ap) ==> ap.0 is In,
{
}

/// `(bi * bo) / d <= bo` whenever the divisor is at least `bi`.
proof fn lemma_quotient_le_bo(bi: int, bo: int, d: int)
    requires
        0 <= bi,
        0 <= bo,
        0 < d,
        bi <= d,
    ensures
        0 <= (bi * bo) / d <= bo,
{
    assert(bi * bo <= d * bo) by (nonlinear_arith)
        requires 0 <= bi <= d && 0 <= bo;
    assert(bi * bo >= 0) by (nonlinear_arith)
        requires 0 <= bi && 0 <= bo;
    lemma_div_is_ordered(bi * bo, d * bo, d);
    assert(d * bo == bo * d) by (nonlinear_arith);
    lemma_fundamental_div_mod_converse_div(d * bo, d, bo, 0);
    lemma_div_le_dividend(bi * bo, d);
    vstd::arithmetic::div_mod::lemma_div_pos_is_pos(bi * bo, d);
}

/// The exact-out inversion never asks for less than the current input
/// balance: `(bi * bo) / (bo - output) >= bi`.
proof fn lemma_quotient_ge_bi(bi: int, bo: int, output: int)
    requires
        0 <= bi,
        0 <= output < bo,
    ensures
        (bi * bo) / (bo - output) >= bi,
{
    let d = bo - output;
    assert(bi * d <= bi * bo) by (nonlinear_arith)
        requires 0 <= bi && 0 < d <= bo;
    lemma_div_is_ordered(bi * d, bi * bo, d);
    lemma_fundamental_div_mod_converse_div(bi * d, d, bi, 0);
}

impl Pool {
    /// The constant-product exchange on this pool: `amount` names the exact
    /// side, and the returned `SwapAmount` is the other side. On success both
    /// balances are updated in place; on any error the pool is unchanged.
    /// The result is exactly `swap_spec` on the pool's prior value.
    pub fn swap(&mut self, denom_in: &str, denom_out: &str, amount: SwapAmount) -> (r: Result<
        SwapAmount,
        OsmosisError,
    >)
        ensures
            ({
                let s = swap_spec(old(self)@, denom_in@, denom_out@, amount);
                match s {
                    Ok(ap) => r == Ok::<SwapAmount, OsmosisError>(ap.0) && final(self)@ == ap.1,
                    Err(e) => r == Err::<SwapAmount, OsmosisError>(e) && final(self)@ == old(
                        self,
                    )@,
                }
            }),
    {
        let bal_in_opt = self.get_amount(denom_in);
        let bal_out_opt = self.get_amount(denom_out);
        let (bal_in, bal_out) = match (bal_in_opt, bal_out_opt) {
            (Some(a), Some(b)) => (a, b),
            _ => {
                return Err(OsmosisError::AssetNotInPool);
            },
        };
        let (final_in, final_out, payout) = match amount {
            SwapAmount::In(input) => {
                if self.fee.atomics > E18 {
                    return Err(OsmosisError::Std(StdError::Overflow));
                }
                let comp = E18 - self.fee.atomics;
                let imf = mul_frac_e18(input, comp);
                let prod = match bal_in.checked_mul(bal_out) {
                    Some(p) => p,
                    None => {
                        return Err(OsmosisError::Std(StdError::Overflow));
                    },
                };
                let d = match bal_in.checked_add(imf) {
                    Some(v) => v,
                    None => {
                        return Err(OsmosisError::Std(StdError::Overflow));
                    },
                };
                if d == 0 {
                    return Err(OsmosisError::Std(StdError::DivideByZero));
                }
                let fo = prod / d;
                proof {
                    lemma_quotient_le_bo(bal_in as int, bal_out as int, d as int);
                }
                let payout = bal_out - fo;
                let fi = match bal_in.checked_add(input) {
                    Some(v) => v,
                    None => {
                        return Err(OsmosisError::Std(StdError::Overflow));
                    },
                };
                (fi, fo, SwapAmount::Out(payout))
            },
            SwapAmount::Out(output) => {
                let prod = match bal_in.checked_mul(bal_out) {
                    Some(p) => p,
                    None => {
                        return Err(OsmosisError::Std(StdError::Overflow));
                    },
                };
                if output > bal_out {
                    return Err(OsmosisError::Std(StdError::Overflow));
                }
                if output == bal_out {
                    return Err(OsmosisError::Std(StdError::DivideByZero));
                }
                if self.fee.atomics > E18 {
                    return Err(OsmosisError::Std(StdError::Overflow));
                }
                let iwf = prod / (bal_out - output);
                proof {
                    lemma_quotient_ge_bi(bal_in as int, bal_out as int, output as int);
                }
                let diff = iwf - bal_in;
                let diff_e = match diff.checked_mul(E18) {
                    Some(v) => v,
                    None => {
                        return Err(OsmosisError::Std(StdError::Overflow));
                    },
                };
                if self.fee.atomics == E18 {
                    return Err(OsmosisError::Std(StdError::DivideByZero));
                }
                let comp = E18 - self.fee.atomics;
                let pay0 = diff_e / comp;
                let pay = match pay0.checked_add(1) {
                    Some(v) => v,
                    None => {
                        return Err(OsmosisError::Std(StdError::Overflow));
                    },
                };
                let fi = match bal_in.checked_add(pay) {
                    Some(v) => v,
                    None => {
                        return Err(OsmosisError::Std(StdError::Overflow));
                    },
                };
                let fo = bal_out - output;
                (fi, fo, SwapAmount::In(pay))
            },
        };
        let ghost mid = old(self)@.with_amount(denom_in@, final_in);
        match self.set_amount(denom_in, final_in) {
            Ok(_) => (),
            Err(_) => {
                proof {
                    assert(false);
                }
            },
        }
        proof {
            lemma_find_denom(old(self)@.assets, denom_in@);
            let i = find_denom(old(self)@.assets, denom_in@);
            lemma_find_denom_update(
                old(self)@.assets,
                i,
                CoinV { denom: old(self)@.assets[i].denom, amount: final_in },
                denom_out@,
            );
            assert(self@.has_denom(denom_out@));
        }
        match self.set_amount(denom_out, final_out) {
            Ok(_) => (),
            Err(_) => {
                proof {
                    assert(false);
                }
            },
        }
        Ok(payout)
    }

    /// The current spot price of `denom_in` in units of `denom_out`,
    /// `bal_out * (1 - fee) / bal_in` with the fee factor only when asked
    /// for; exactly `spot_price_spec` on the pool's value.
    pub fn spot_price(&self, denom_in: &str, denom_out: &str, with_swap_fee: bool) -> (r: Result<
        Decimal,
        OsmosisError,
    >)
        ensures
            r == spot_price_spec(self@, denom_in@, denom_out@, with_swap_fee),
    {
        let (bal_in, bal_out) = match (self.get_amount(denom_in), self.get_amount(denom_out)) {
            (Some(a), Some(b)) => (a, b),
            _ => {
                return Err(OsmosisError::AssetNotInPool);
            },
        };
        if with_swap_fee && self.fee.atomics > E18 {
            return Err(OsmosisError::Std(StdError::Overflow));
        }
        let x = if with_swap_fee {
            mul_frac_e18(bal_out, E18 - self.fee.atomics)
        } else {
            bal_out
        };
        match Decimal::checked_from_ratio(x, bal_in) {
            Ok(d) => Ok(d),
            Err(e) => Err(OsmosisError::Std(e)),
        }
    }

    /// A swap guarded by the request's slippage bound: performs the exchange
    /// and then rejects the trade with `PriceTooLow` when the resulting
    /// amount violates the caller's bound. On `PriceTooLow` this in-place
    /// variant keeps the exchanged balances; the router instead stages its
    /// swaps on copies and discards them.
    pub fn swap_with_limit(
        &mut self,
        denom_in: &str,
        denom_out: &str,
        amount: SwapAmountWithLimit,
    ) -> (r: Result<SwapAmount, OsmosisError>)
        ensures
            ({
                let s = swap_spec(
                    old(self)@,
                    denom_in@,
                    denom_out@,
                    amount.spec_discard_limit(),
                );
                match s {
                    Ok(ap) => final(self)@ == ap.1 && (match amount {
                        SwapAmountWithLimit::ExactIn { min_output, .. } => if amount_value(ap.0)
                            < min_output {
                            r == Err::<SwapAmount, OsmosisError>(OsmosisError::PriceTooLow)
                        } else {
                            r == Ok::<SwapAmount, OsmosisError>(ap.0)
                        },
                        SwapAmountWithLimit::ExactOut { max_input, .. } => if amount_value(ap.0)
                            > max_input {
                            r == Err::<SwapAmount, OsmosisError>(OsmosisError::PriceTooLow)
                        } else {
                            r == Ok::<SwapAmount, OsmosisError>(ap.0)
                        },
                    }),
                    Err(e) => r == Err::<SwapAmount, OsmosisError>(e) && final(self)@ == old(
                        self,
                    )@,
                }
            }),
    {
        match amount {
            SwapAmountWithLimit::ExactIn { input, min_output } => {
                let payout = match self.swap(denom_in, denom_out, SwapAmount::In(input)) {
                    Ok(p) => p,
                    Err(e) => {
                        return Err(e);
                    },
                };
                if payout.as_out() < min_output {
                    Err(OsmosisError::PriceTooLow)
                } else {
                    Ok(payout)
                }
            },
            SwapAmountWithLimit::ExactOut { output, max_input } => {
                let payin = match self.swap(denom_in, denom_out, SwapAmount::Out(output)) {
                    Ok(p) => p,
                    Err(e) => {
                        return Err(e);
                    },
                };
                if payin.as_in() > max_input {
                    Err(OsmosisError::PriceTooLow)
                } else {
                    Ok(payin)
                }
            },
        }
    }
}

} // verus!
