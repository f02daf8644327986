//! Integer arithmetic helpers for fixed-point computations with an
//! 18-digit fractional scale, together with the division lemmas the
//! swap formulas rely on.

use vstd::prelude::*;

verus! {

use vstd::arithmetic::div_mod::lemma_fundamental_div_mod;
use vstd::arithmetic::div_mod::lemma_fundamental_div_mod_converse_div;
use vstd::arithmetic::div_mod::lemma_mod_division_less_than_divisor;
use vstd::arithmetic::mul::lemma_mul_inequality;

/// Number of atomic units in one whole unit of a fixed-point decimal value.
pub const E18: u128 = 1_000_000_000_000_000_000;

/// Splitting a product-then-divide on the first factor: the quotient of
/// `a * b / c` is the whole multiples of `c` in `a` times `b`, plus the
/// remainder's share.
pub proof fn lemma_muldiv_split(a: int, b: int, c: int)
    requires
        a >= 0,
        b >= 0,
        c > 0,
    ensures
        (a * b) / c == (a / c) * b + ((a % c) * b) / c,
{
    let q = a / c;
    let r = a % c;
    lemma_fundamental_div_mod(a, c);
    lemma_mod_division_less_than_divisor(a, c);
    assert(a == c * q + r);
    let t = (r * b) / c;
    let u = (r * b) % c;
    assert(r * b >= 0) by (nonlinear_arith)
        requires r >= 0 && b >= 0;
    lemma_fundamental_div_mod(r * b, c);
    lemma_mod_division_less_than_divisor(r * b, c);
    assert(r * b == c * t + u);
    assert(a * b == c * (q * b + t) + u) by (nonlinear_arith)
        requires a == c * q + r && r * b == c * t + u;
    assert(q * b + t >= 0) by (nonlinear_arith)
        requires q >= 0 && b >= 0 && t >= 0;
    lemma_fundamental_div_mod_converse_div(a * b, c, q * b + t, u);
}

/// Floor division never exceeds the dividend when the divisor is at least one.
pub proof fn lemma_div_le_dividend(x: int, d: int)
    requires
        x >= 0,
        d >= 1,
    ensures
        0 <= x / d <= x,
{
    lemma_fundamental_div_mod(x, d);
    lemma_mod_division_less_than_divisor(x, d);
    assert(x / d >= 0) by (nonlinear_arith)
        requires x >= 0 && d >= 1 && x == d * (x / d) + x % d && 0 <= x % d < d;
    assert(x / d <= x) by (nonlinear_arith)
        requires x >= 0 && d >= 1 && x == d * (x / d) + x % d && 0 <= x % d < d;
}

/// `floor(a * b / E18)` for a fractional multiplier `b <= E18`, computed
/// without the product `a * b` ever being formed in full width.
pub fn mul_frac_e18(a: u128, b: u128) -> (r: u128)
    requires
        b <= E18,
    ensures
        r == (a as int * b as int) / (E18 as int),
        r <= a,
{
    let q = a / E18;
    let rem = a % E18;
    proof {
        lemma_fundamental_div_mod(a as int, E18 as int);
        lemma_mod_division_less_than_divisor(a as int, E18 as int);
        assert(q as int * b as int <= q as int * E18 as int) by (nonlinear_arith)
            requires b <= E18 && q >= 0;
        assert(q as int * E18 as int <= a as int) by (nonlinear_arith)
            requires
                a as int == E18 as int * (q as int) + rem as int,
                rem >= 0;
        assert(rem as int * b as int <= (E18 - 1) as int * E18 as int) by (nonlinear_arith)
            requires rem < E18 && b <= E18 && rem >= 0 && b >= 0;
        lemma_div_le_dividend(rem as int * b as int, E18 as int);
        lemma_muldiv_split(a as int, b as int, E18 as int);
        // the two addends stay within the original value
        assert((a as int * b as int) / (E18 as int) <= a as int) by {
            lemma_mul_inequality(b as int, E18 as int, a as int);
            assert(a as int * b as int == b as int * a as int) by (nonlinear_arith);
            assert(a as int * E18 as int == E18 as int * a as int) by (nonlinear_arith);
            lemma_div_le_dividend(a as int * b as int, E18 as int);
            assert((E18 as int * a as int) / (E18 as int) == a as int) by {
                lemma_fundamental_div_mod_converse_div(
                    E18 as int * a as int, E18 as int, a as int, 0);
            }
            assert((a as int * b as int) / (E18 as int) <= (a as int * E18 as int) / (E18 as int))
                by {
                vstd::arithmetic::div_mod::lemma_div_is_ordered(
                    a as int * b as int, a as int * E18 as int, E18 as int);
            }
        }
    }
    q * b + (rem * b) / E18
}

/// Powers of ten.
pub open spec fn pow10(n: nat) -> int
    decreases n,
{
    if n == 0 {
        1
    } else {
        10 * pow10((n - 1) as nat)
    }
}

/// Powers of ten grow with the exponent.
pub proof fn lemma_pow10_increases(a: nat, b: nat)
    requires
        a <= b,
    ensures
        1 <= pow10(a) <= pow10(b),
    decreases b,
{
    if b == 0 {
    } else if a == b {
        lemma_pow10_increases((a - 1) as nat, (b - 1) as nat);
    } else {
        lemma_pow10_increases(a, (b - 1) as nat);
    }
}

/// Eighteen tens make the fixed-point scale.
pub proof fn lemma_pow10_18()
    ensures
        pow10(18) == E18 as int,
{
    assert(pow10(18) == E18 as int) by {
        reveal_with_fuel(pow10, 19);
    }
}

/// One modular doubling step on the tracked pair: the value `q * den + rem`
/// is doubled while the remainder stays reduced.
fn mod_double(q: u128, rem: u128, den: u128) -> (res: (u128, u128))
    requires
        rem < den,
        q < E18,
    ensures
        res.0 as int * den as int + res.1 as int == 2 * (q as int * den as int + rem as int),
        res.1 < den,
        res.0 <= 2 * q + 1,
{
    if rem >= den - rem {
        let res = (2 * q + 1, rem - (den - rem));
        proof {
            assert(res.0 as int * den as int == 2 * (q as int * den as int) + den as int)
                by (nonlinear_arith)
                requires res.0 as int == 2 * (q as int) + 1;
        }
        res
    } else {
        let res = (2 * q, rem + rem);
        proof {
            assert(res.0 as int * den as int == 2 * (q as int * den as int)) by (nonlinear_arith)
                requires res.0 as int == 2 * (q as int);
        }
        res
    }
}

/// One modular addition step: the second tracked pair is added to the first.
fn mod_add_pair(q: u128, rem: u128, q2: u128, rem2: u128, den: u128) -> (res: (u128, u128))
    requires
        rem < den,
        rem2 < den,
        q < E18,
        q2 < E18,
    ensures
        res.0 as int * den as int + res.1 as int == q as int * den as int + rem as int + q2 as int
            * den as int + rem2 as int,
        res.1 < den,
{
    if rem >= den - rem2 {
        let res = (q + q2 + 1, rem - (den - rem2));
        proof {
            assert(res.0 as int * den as int == q as int * den as int + q2 as int * den as int
                + den as int) by (nonlinear_arith)
                requires res.0 as int == q as int + q2 as int + 1;
        }
        res
    } else {
        let res = (q + q2, rem + rem2);
        proof {
            assert(res.0 as int * den as int == q as int * den as int + q2 as int * den as int)
                by (nonlinear_arith)
                requires res.0 as int == q as int + q2 as int;
        }
        res
    }
}

/// A tracked quotient stays below the scale while the tracked value stays
/// below `den * E18`.
proof fn lemma_pair_q_bound(q: int, rem: int, den: int, v: int)
    requires
        den > 0,
        rem >= 0,
        q >= 0,
        q * den + rem == v,
        v < den * (E18 as int),
    ensures
        q < E18 as int,
{
    assert(q * den < den * (E18 as int)) by (nonlinear_arith)
        requires q * den + rem == v && rem >= 0 && v < den * (E18 as int);
    assert(q < E18 as int) by (nonlinear_arith)
        requires q * den < den * (E18 as int) && den > 0 && q >= 0;
}

/// `floor(r0 * E18 / den)` for a remainder `r0 < den`, computed by eighteen
/// decimal shifts of a running remainder: no wide product is ever formed, so
/// the result is exact for every divisor.
pub fn muldiv_e18_small(r0: u128, den: u128) -> (q: u128)
    requires
        den > 0,
        r0 < den,
    ensures
        q as int == (r0 as int * E18 as int) / den as int,
        q < E18,
{
    let mut q: u128 = 0;
    let mut rem: u128 = r0;
    let mut i: usize = 0;
    proof {
        lemma_pow10_18();
    }
    while i < 18
        invariant
            den > 0,
            r0 < den,
            i <= 18,
            rem < den,
            q < E18,
            q as int * den as int + rem as int == r0 as int * pow10(i as nat),
            pow10(18) == E18 as int,
        decreases 18 - i,
    {
        let ghost v = r0 as int * pow10(i as nat);
        let ghost vmax = den as int * (E18 as int);
        proof {
            lemma_pow10_increases(i as nat, 18);
            lemma_pow10_increases((i + 1) as nat, 18);
            assert(pow10((i + 1) as nat) == 10 * pow10(i as nat));
            assert(10 * v == r0 as int * pow10((i + 1) as nat)) by (nonlinear_arith)
                requires
                    v == r0 as int * pow10(i as nat),
                    pow10((i + 1) as nat) == 10 * pow10(i as nat),
            ;
            assert(r0 as int * pow10((i + 1) as nat) <= r0 as int * (E18 as int))
                by (nonlinear_arith)
                requires r0 >= 0 && 1 <= pow10((i + 1) as nat) <= E18 as int;
            assert(r0 as int * (E18 as int) < vmax) by (nonlinear_arith)
                requires r0 < den && vmax == den as int * (E18 as int);
            assert(v >= 0) by (nonlinear_arith)
                requires v == r0 as int * pow10(i as nat) && r0 >= 0 && pow10(i as nat) >= 1;
        }
        let (q1, r1) = mod_double(q, rem, den);
        proof {
            lemma_pair_q_bound(q1 as int, r1 as int, den as int, 2 * v);
        }
        let (q2, r2) = mod_double(q1, r1, den);
        proof {
            lemma_pair_q_bound(q2 as int, r2 as int, den as int, 4 * v);
        }
        let (q3, r3) = mod_add_pair(q2, r2, q, rem, den);
        proof {
            lemma_pair_q_bound(q3 as int, r3 as int, den as int, 5 * v);
        }
        let (q4, r4) = mod_double(q3, r3, den);
        proof {
            lemma_pair_q_bound(q4 as int, r4 as int, den as int, 10 * v);
        }
        q = q4;
        rem = r4;
        i = i + 1;
    }
    proof {
        lemma_fundamental_div_mod_converse_div(
            r0 as int * E18 as int,
            den as int,
            q as int,
            rem as int,
        );
        assert(q as int * den as int == den as int * (q as int)) by (nonlinear_arith);
    }
    q
}

/// `r` is the integer square root of `x`.
pub open spec fn is_sqrt(x: int, r: int) -> bool {
    r * r <= x < (r + 1) * (r + 1)
}

/// The integer square root of a `u128`, by binary search over the root.
pub fn isqrt_u128(x: u128) -> (r: u128)
    ensures
        is_sqrt(x as int, r as int),
        r <= 0xffff_ffff_ffff_ffff,
{
    let mut lo: u128 = 0;
    let mut hi: u128 = 0xffff_ffff_ffff_ffff;
    proof {
        assert((hi as int + 1) * (hi as int + 1) > u128::MAX) by (nonlinear_arith)
            requires hi == 0xffff_ffff_ffff_ffffu128;
    }
    while lo < hi
        invariant
            lo <= hi <= 0xffff_ffff_ffff_ffff,
            lo as int * lo as int <= x as int,
            (hi as int + 1) * (hi as int + 1) > x as int,
        decreases hi - lo,
    {
        let mid = lo + (hi - lo + 1) / 2;
        proof {
            assert(mid as int * mid as int <= u128::MAX) by (nonlinear_arith)
                requires mid <= 0xffff_ffff_ffff_ffffu128;
        }
        if mid * mid <= x {
            lo = mid;
        } else {
            hi = mid - 1;
        }
    }
    lo
}

} // verus!
