use near_sdk::NearToken;
use vstd::prelude::*;

use crate::constants::Balance;

verus! {

/// `x`, held at the largest amount that a balance can take.
pub open spec fn capped(x: int) -> int {
    if x > u128::MAX {
        u128::MAX as int
    } else {
        x
    }
}

/// `NearToken::saturating_add`: the sum of the two amounts, held at the largest
/// amount where the sum is beyond it.
#[verifier::external_body]
pub(crate) fn saturating_add(a: Balance, b: Balance) -> (r: Balance)
    ensures
        r == capped(a + b),
{
    NearToken::from_yoctonear(a).saturating_add(NearToken::from_yoctonear(b)).as_yoctonear()
}

/// `NearToken::saturating_sub`: the first amount less the second, zero where the
/// second is the larger one.
#[verifier::external_body]
pub(crate) fn saturating_sub(a: Balance, b: Balance) -> (r: Balance)
    ensures
        r == if a >= b { a - b } else { 0 },
{
    NearToken::from_yoctonear(a).saturating_sub(NearToken::from_yoctonear(b)).as_yoctonear()
}

/// `NearToken::saturating_mul`: the amount taken `times` times, held at the largest
/// amount where the product is beyond it.
#[verifier::external_body]
pub(crate) fn saturating_mul(a: Balance, times: u128) -> (r: Balance)
    ensures
        r == capped(a * times),
{
    NearToken::from_yoctonear(a).saturating_mul(times).as_yoctonear()
}

/// Capping a product once at the end gives what capping the factor first gives.
pub proof fn lemma_capped_product(x: int, n: int)
    requires
        0 <= x,
        0 <= n,
    ensures
        capped(capped(x) * n) == capped(x * n),
{
    if x > u128::MAX {
        if n >= 1 {
            assert(x * n >= x && (u128::MAX as int) * n >= u128::MAX as int) by (nonlinear_arith)
                requires
                    x > u128::MAX,
                    n >= 1,
            ;
        }
    }
}

} // verus!
