//! Laws of the swap formulas: how the fee-adjusted constant product moves
//! under each kind of swap, and the direction of the exact-out rounding.

use vstd::prelude::*;

verus! {

use vstd::arithmetic::div_mod::lemma_fundamental_div_mod;
use vstd::arithmetic::div_mod::lemma_mod_division_less_than_divisor;

use crate::arith::E18;
use crate::pool::{apply_fee, in_new_out, out_gross_in};

/// How the product of the two balances moves under a successful exact-in
/// swap, exactly: writing `d = bi + apply_fee(input, fee)` for the divisor
/// and `fo = in_new_out(..)` for the new output balance, the new product
/// `(bi + input) * fo` is the old product, minus what the floor division
/// discards, plus the fee-kept part of the input times the new balance.
///
/// The fee-adjusted constant product `(bi + input) * fo >= bi * bo` follows
/// whenever the fee earns back at least the rounding loss; with `fee == 0`
/// and `d` dividing `bi * bo` the product is preserved exactly. On inputs
/// where the fee's earnings stay below the rounding loss the product can
/// shrink by up to `d - 1`, so the general inequality is stated through
/// this decomposition and not unconditionally.
pub proof fn lemma_exact_in_product(bi: int, bo: int, fee: int, input: int)
    requires
        0 <= bi,
        0 <= bo,
        0 <= input,
        0 <= fee <= E18 as int,
        bi + apply_fee(input, fee) > 0,
    ensures
        ({
            let d = bi + apply_fee(input, fee);
            let fo = in_new_out(bi, bo, fee, input);
            (bi + input) * fo == bi * bo - (bi * bo) % d + (input - apply_fee(input, fee)) * fo
        }),
        (input - apply_fee(input, fee)) * in_new_out(bi, bo, fee, input) >= (bi * bo) % (bi
            + apply_fee(input, fee)) ==> (bi + input) * in_new_out(bi, bo, fee, input) >= bi * bo,
{
    let imf = apply_fee(input, fee);
    let d = bi + imf;
    let fo = in_new_out(bi, bo, fee, input);
    assert(bi * bo >= 0) by (nonlinear_arith)
        requires bi >= 0 && bo >= 0;
    assert(imf <= input) by {
        crate::arith::lemma_div_le_dividend(input * (E18 as int - fee), E18 as int);
        assert(input * (E18 as int - fee) <= input * (E18 as int)) by (nonlinear_arith)
            requires 0 <= fee <= E18 as int && input >= 0;
        vstd::arithmetic::div_mod::lemma_div_is_ordered(
            input * (E18 as int - fee),
            input * (E18 as int),
            E18 as int,
        );
        vstd::arithmetic::div_mod::lemma_fundamental_div_mod_converse_div(
            input * (E18 as int),
            E18 as int,
            input,
            0,
        );
        assert(input * (E18 as int) == (E18 as int) * input) by (nonlinear_arith);
        assert(input * (E18 as int - fee) >= 0) by (nonlinear_arith)
            requires input >= 0 && fee <= E18 as int;
    }
    lemma_fundamental_div_mod(bi * bo, d);
    lemma_mod_division_less_than_divisor(bi * bo, d);
    assert(d * fo == bi * bo - (bi * bo) % d);
    assert((bi + input) * fo == d * fo + (input - imf) * fo) by (nonlinear_arith)
        requires d == bi + imf;
    assert(fo >= 0) by {
        vstd::arithmetic::div_mod::lemma_div_pos_is_pos(bi * bo, d);
    }
}

/// With no fee, `apply_fee` keeps the input whole, and the constant
/// product is preserved exactly whenever the divisor `bi + input` divides
/// the old product; the floor division then discards nothing.
pub proof fn lemma_exact_in_product_no_fee(bi: int, bo: int, input: int)
    requires
        0 <= bi,
        0 <= bo,
        0 <= input,
        bi + input > 0,
        (bi * bo) % (bi + input) == 0,
    ensures
        (bi + input) * in_new_out(bi, bo, 0, input) == bi * bo,
{
    assert(apply_fee(input, 0) == input) by {
        vstd::arithmetic::div_mod::lemma_fundamental_div_mod_converse_div(
            input * (E18 as int),
            E18 as int,
            input,
            0,
        );
        assert(input * (E18 as int) == (E18 as int) * input) by (nonlinear_arith);
    }
    lemma_exact_in_product(bi, bo, 0, input);
}

/// A successful exact-out swap strictly grows the product of the balances:
/// the charged input `out_gross_in(..)` always exceeds what the exact
/// constant-product inversion demands, because the fee gross-up rounds
/// upward and adds at least one. This holds for every fee in `[0, 1)`.
pub proof fn lemma_exact_out_product(bi: int, bo: int, fee: int, output: int)
    requires
        0 <= bi,
        0 <= output < bo,
        0 <= fee < E18 as int,
    ensures
        (bi + out_gross_in(bi, bo, fee, output)) * (bo - output) > bi * bo,
{
    let d = bo - output;
    let iwf = (bi * bo) / d;
    let diff = iwf - bi;
    let comp = E18 as int - fee;
    let pay = out_gross_in(bi, bo, fee, output);
    assert(bi * bo >= 0) by (nonlinear_arith)
        requires bi >= 0 && bo > 0;
    // the inversion never demands less than the current input balance
    assert(bi * d <= bi * bo) by (nonlinear_arith)
        requires 0 <= bi && 0 < d <= bo;
    vstd::arithmetic::div_mod::lemma_div_is_ordered(bi * d, bi * bo, d);
    vstd::arithmetic::div_mod::lemma_fundamental_div_mod_converse_div(bi * d, d, bi, 0);
    assert(diff >= 0);
    // the gross-up keeps at least the net requirement: pay >= diff + 1
    assert(diff * comp <= diff * (E18 as int)) by (nonlinear_arith)
        requires 0 <= diff && 0 < comp <= E18 as int;
    vstd::arithmetic::div_mod::lemma_div_is_ordered(diff * comp, diff * (E18 as int), comp);
    vstd::arithmetic::div_mod::lemma_fundamental_div_mod_converse_div(diff * comp, comp, diff, 0);
    assert(diff * (E18 as int) / comp >= diff);
    assert(pay >= diff + 1);
    // (iwf + 1) * d > bi * bo, by the floor-division remainder bound
    lemma_fundamental_div_mod(bi * bo, d);
    lemma_mod_division_less_than_divisor(bi * bo, d);
    assert((iwf + 1) * d > bi * bo) by (nonlinear_arith)
        requires
            bi * bo == d * iwf + (bi * bo) % d,
            0 <= (bi * bo) % d < d,
    ;
    assert((bi + pay) * d >= (iwf + 1) * d) by (nonlinear_arith)
        requires pay >= diff + 1 && diff == iwf - bi && d > 0;
}

/// The exact-out fee gross-up rounds upward: the charged input is above the
/// exact fee-adjusted requirement `diff * E18 / (E18 - fee)` and within one
/// of it. When the exact requirement is not an integer, the charged input
/// is therefore the smallest integer not below it.
pub proof fn lemma_exact_out_rounds_up(bi: int, bo: int, fee: int, output: int)
    requires
        0 <= bi,
        0 <= output < bo,
        0 <= fee < E18 as int,
    ensures
        ({
            let diff = (bi * bo) / (bo - output) - bi;
            let comp = E18 as int - fee;
            let pay = out_gross_in(bi, bo, fee, output);
            &&& pay * comp > diff * (E18 as int)
            &&& (pay - 1) * comp <= diff * (E18 as int)
        }),
{
    let d = bo - output;
    let diff = (bi * bo) / d - bi;
    let comp = E18 as int - fee;
    let pay = out_gross_in(bi, bo, fee, output);
    assert(bi * bo >= 0) by (nonlinear_arith)
        requires bi >= 0 && bo > 0;
    assert(bi * d <= bi * bo) by (nonlinear_arith)
        requires 0 <= bi && 0 < d <= bo;
    vstd::arithmetic::div_mod::lemma_div_is_ordered(bi * d, bi * bo, d);
    vstd::arithmetic::div_mod::lemma_fundamental_div_mod_converse_div(bi * d, d, bi, 0);
    assert(diff >= 0);
    let q = diff * (E18 as int) / comp;
    assert(diff * (E18 as int) >= 0) by (nonlinear_arith)
        requires diff >= 0;
    lemma_fundamental_div_mod(diff * (E18 as int), comp);
    lemma_mod_division_less_than_divisor(diff * (E18 as int), comp);
    assert(pay == q + 1);
    assert((q + 1) * comp > diff * (E18 as int)) by (nonlinear_arith)
        requires
            diff * (E18 as int) == comp * q + diff * (E18 as int) % comp,
            0 <= diff * (E18 as int) % comp < comp,
    ;
    assert(q * comp <= diff * (E18 as int)) by (nonlinear_arith)
        requires
            diff * (E18 as int) == comp * q + diff * (E18 as int) % comp,
            0 <= diff * (E18 as int) % comp,
    ;
}

} // verus!
