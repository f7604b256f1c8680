use crate::scalar::{add_v, div_v, mul_v, neg_v, opt_flag, opt_v, pow_val, sub_v, Scalar, UNIT};
use vstd::prelude::*;

verus! {

/// The per-period payment that amortizes a present value to a future value:
/// `-(rate * (-pv * (1+rate)^n - fv)) / denominator`, where the denominator
/// is `1 - (1+rate)^n`, additionally scaled by `1+rate` for payments due at
/// the beginning of the period. A zero rate spreads the sum evenly.
pub open spec fn pmt_v(rate: int, nper: int, pv: int, fv: int, due: bool) -> int {
    if rate == 0 {
        neg_v(div_v(add_v(pv, fv), nper))
    } else {
        let nth_power = pow_val(add_v(UNIT as int, rate), nper);
        let numerator = mul_v(rate, sub_v(mul_v(neg_v(pv), nth_power), fv));
        let denominator = if due {
            mul_v(sub_v(UNIT as int, nth_power), add_v(UNIT as int, rate))
        } else {
            sub_v(UNIT as int, nth_power)
        };
        neg_v(div_v(numerator, denominator))
    }
}

/// PMT - Payment.
///
/// The payment per period for an annuity at `rate` over `nper` periods
/// against a present value and an optional future value. `due` selects
/// payment at the beginning rather than the end of each period.
pub fn pmt(rate: Scalar, nper: Scalar, pv: Scalar, fv: Option<Scalar>, due: Option<bool>) -> (r:
    Scalar)
    ensures
        r@ == pmt_v(rate@, nper@, pv@, opt_v(fv), opt_flag(due)),
{
    let fv: Scalar = match fv {
        Some(x) => x,
        None => Scalar::zero(),
    };
    let due = match due {
        Some(b) => b,
        None => false,
    };
    if rate.is_zero() {
        return pv.add(fv).div(nper).neg();
    }
    let one = Scalar::one();
    let nth_power = one.add(rate).powf(nper);
    let numerator = rate.mul(pv.neg().mul(nth_power).sub(fv));
    let denominator = if due {
        one.sub(nth_power).mul(one.add(rate))
    } else {
        one.sub(nth_power)
    };
    numerator.div(denominator).neg()
}

} // verus!
