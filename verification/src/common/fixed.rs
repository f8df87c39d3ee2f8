//! Fixed-point scalars.
//!
//! Every real quantity of the boosters (a weight, an edge, a tolerance, the
//! capping parameter) is stored as an `i64` that counts units of `1 / SCALE`.
//! Products and quotients of two such values are formed in `i128`, so that no
//! intermediate result is lost, and brought back to units by a division whose
//! rounding is part of each contract.

use vstd::prelude::*;
use vstd::arithmetic::div_mod::lemma_fundamental_div_mod;
use vstd::arithmetic::div_mod::lemma_fundamental_div_mod_converse;

verus! {

/// The integer that stands for the real number one.
pub const SCALE: i64 = 1_000_000_000;

/// The square of `SCALE`: the unit of a product of two fixed-point values.
pub const SCALE_SQUARED: i128 = 1_000_000_000_000_000_000;

/// The largest natural logarithm that a booster is ever handed, in units:
/// the number of examples is below two to the 64, and the logarithm of that
/// is below 45.
pub const LOG_CAP: i64 = 45_000_000_000;

/// The smaller of two integers.
pub open spec fn min_int(a: int, b: int) -> int {
    if a <= b {
        a
    } else {
        b
    }
}

/// The larger of two integers.
pub open spec fn max_int(a: int, b: int) -> int {
    if a >= b {
        a
    } else {
        b
    }
}

/// The quotient `a / b` rounded up, for a non-negative `a` and a positive `b`.
pub open spec fn ceil_quot(a: int, b: int) -> int {
    (a + b - 1) / b
}

/// `ceil_quot(a, b)` is the least integer `q` with `q * b >= a`.
pub proof fn lemma_ceil_quot_is_least(a: int, b: int, q: int)
    requires
        0 <= a,
        0 < b,
    ensures
        ceil_quot(a, b) * b >= a,
        q * b >= a ==> q >= ceil_quot(a, b),
        ceil_quot(a, b) >= 0,
{
    let c = ceil_quot(a, b);
    lemma_fundamental_div_mod(a + b - 1, b);
    assert(c * b == b * c) by (nonlinear_arith);
    assert(c >= 0) by (nonlinear_arith)
        requires
            b * c + (a + b - 1) % b == a + b - 1,
            0 <= (a + b - 1) % b < b,
            0 <= a,
            0 < b,
    ;
    if q * b >= a {
        assert(q >= c) by (nonlinear_arith)
            requires
                q * b >= a,
                b * c + (a + b - 1) % b == a + b - 1,
                0 <= (a + b - 1) % b < b,
                0 < b,
        ;
    }
}

/// Floor division of a signed numerator by a positive denominator.
pub fn div_floor(a: i128, b: i128) -> (q: i128)
    requires
        b > 0,
    ensures
        q == a as int / b as int,
{
    if a >= 0 {
        a / b
    } else {
        let m: i128 = -(a + 1);
        let t: i128 = m / b;
        proof {
            let bi = b as int;
            let mi = m as int;
            lemma_fundamental_div_mod(mi, bi);
            let r = bi - 1 - mi % bi;
            assert(a as int == (-(mi / bi) - 1) * bi + r) by (nonlinear_arith)
                requires
                    mi == bi * (mi / bi) + mi % bi,
                    mi == -(a as int + 1),
                    r == bi - 1 - mi % bi,
            ;
            lemma_fundamental_div_mod_converse(a as int, bi, -(mi / bi) - 1, r);
        }
        -t - 1
    }
}

/// Division rounded up, for a non-negative numerator and a positive denominator.
pub fn div_ceil(a: u128, b: u128) -> (q: u128)
    requires
        b > 0,
    ensures
        q == ceil_quot(a as int, b as int),
{
    let whole: u128 = a / b;
    let rest: u128 = a % b;
    proof {
        let ai = a as int;
        let bi = b as int;
        lemma_fundamental_div_mod(ai, bi);
        if rest == 0 {
            assert(ai + bi - 1 == whole as int * bi + (bi - 1)) by (nonlinear_arith)
                requires
                    ai == bi * (ai / bi) + ai % bi,
                    ai % bi == 0,
                    whole as int == ai / bi,
            ;
            lemma_fundamental_div_mod_converse(ai + bi - 1, bi, whole as int, bi - 1);
        } else {
            assert(ai + bi - 1 == (whole as int + 1) * bi + (rest as int - 1)) by (nonlinear_arith)
                requires
                    ai == bi * (ai / bi) + ai % bi,
                    ai % bi == rest as int,
                    whole as int == ai / bi,
            ;
            lemma_fundamental_div_mod_converse(ai + bi - 1, bi, whole as int + 1, rest as int - 1);
            assert(whole as int <= ai - 1) by (nonlinear_arith)
                requires
                    ai == bi * (whole as int) + rest as int,
                    rest as int >= 1,
                    bi >= 1,
                    whole as int >= 0,
            ;
        }
    }
    if rest == 0 {
        whole
    } else {
        whole + 1
    }
}

} // verus!
