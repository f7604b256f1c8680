use crate::scalar::{div_v, pow_val, sub_v, Scalar, UNIT};
use vstd::prelude::*;

verus! {

/// The compound annual growth rate from a beginning balance to an ending
/// balance over `n` years: `(end/begin)^(1/n) - 1`.
pub open spec fn cagr_v(beginning_balance: int, ending_balance: int, n: int) -> int {
    sub_v(
        pow_val(div_v(ending_balance, beginning_balance), div_v(UNIT as int, n)),
        UNIT as int,
    )
}

/// CAGR - Compound Annual Growth Rate.
pub fn cagr(beginning_balance: Scalar, ending_balance: Scalar, n: Scalar) -> (r: Scalar)
    ensures
        r@ == cagr_v(beginning_balance@, ending_balance@, n@),
{
    let one = Scalar::one();
    ending_balance.div(beginning_balance).powf(one.div(n)).sub(one)
}

} // verus!
