//! The capping parameter and the cap that it puts on a single weight.

use vstd::prelude::*;
use crate::common::fixed::ceil_quot;
use crate::common::fixed::div_ceil;
use crate::common::fixed::lemma_ceil_quot_is_least;
use crate::common::fixed::SCALE;
use crate::common::fixed::SCALE_SQUARED;
use crate::common::utils::capped;
use crate::common::utils::lemma_uniform_on_simplex;
use crate::common::utils::uniform;

verus! {

/// The capping parameter `nu`, in units, lies between one and the number of
/// examples `n`.
pub open spec fn valid_nu(nu: int, n: int) -> bool {
    SCALE <= nu <= n * SCALE
}

/// The largest weight that the capping parameter `nu` allows one example:
/// one over `nu`, in units, rounded up.
pub open spec fn weight_cap(nu: int) -> int {
    ceil_quot(SCALE_SQUARED as int, nu)
}

/// Whether the capping parameter `nu` lies in `[1, n]`.
pub fn check_nu(nu: i64, n_sample: usize) -> (ok: bool)
    ensures
        ok == valid_nu(nu as int, n_sample as int),
{
    nu >= SCALE && nu as i128 <= n_sample as i128 * SCALE as i128
}

/// Under a valid capping parameter the uniform distribution respects the cap.
pub proof fn lemma_uniform_within_cap(n: nat, nu: int)
    requires
        n >= 1,
        valid_nu(nu, n as int),
    ensures
        capped(uniform(n), weight_cap(nu)),
{
    let cap = weight_cap(nu);
    lemma_ceil_quot_is_least(SCALE_SQUARED as int, nu, 0);
    assert(cap * (n as int) >= SCALE) by (nonlinear_arith)
        requires
            cap * nu >= SCALE_SQUARED,
            SCALE <= nu <= n * SCALE,
            cap >= 0,
            n >= 1,
            SCALE == 1_000_000_000,
            SCALE_SQUARED == 1_000_000_000_000_000_000,
    ;
    lemma_ceil_quot_is_least(SCALE as int, n as int, cap);
    lemma_uniform_on_simplex(n);
}

/// The upper bound on a single weight under the capping parameter `nu`.
pub fn upper_bound(nu: i64) -> (cap: i64)
    requires
        nu >= SCALE,
    ensures
        cap == weight_cap(nu as int),
        1 <= cap <= SCALE,
{
    let cap = div_ceil(SCALE_SQUARED as u128, nu as u128);
    proof {
        let v = nu as int;
        lemma_ceil_quot_is_least(SCALE_SQUARED as int, v, SCALE as int);
        lemma_ceil_quot_is_least(SCALE_SQUARED as int, v, 0);
        assert(SCALE * v >= SCALE_SQUARED) by (nonlinear_arith)
            requires
                v >= SCALE,
                SCALE == 1_000_000_000,
                SCALE_SQUARED == 1_000_000_000_000_000_000,
        ;
    }
    cap as i64
}

} // verus!
