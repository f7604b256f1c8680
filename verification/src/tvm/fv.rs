use crate::scalar::{add_v, div_v, mul_v, opt_flag, opt_v, pow_val, sub_v, Scalar, UNIT};
use vstd::prelude::*;

verus! {

/// The future value of an annuity: the grown present value plus the
/// compounded payments. With a zero rate the payments simply add up.
pub open spec fn fv_v(rate: int, nper: int, pmt: int, pv: int, due: bool) -> int {
    if rate == 0 {
        add_v(mul_v(pmt, nper), pv)
    } else {
        let nth_power = pow_val(add_v(UNIT as int, rate), nper);
        let factor = div_v(sub_v(UNIT as int, nth_power), rate);
        let pv_grown = mul_v(pv, nth_power);
        if due {
            add_v(mul_v(mul_v(pmt, factor), add_v(UNIT as int, rate)), pv_grown)
        } else {
            add_v(mul_v(pmt, factor), pv_grown)
        }
    }
}

/// FV - Future Value.
///
/// A general future value calculation for an annuity of `pmt` per period
/// over `nper` periods at `rate` per period, with an optional starting
/// value. `due` selects payment at the beginning rather than the end of
/// each period.
pub fn fv(rate: Scalar, nper: Scalar, pmt: Scalar, pv: Option<Scalar>, due: Option<bool>) -> (r:
    Scalar)
    ensures
        r@ == fv_v(rate@, nper@, pmt@, opt_v(pv), opt_flag(due)),
{
    let pv: Scalar = match pv {
        Some(x) => x,
        None => Scalar::zero(),
    };
    let due = match due {
        Some(b) => b,
        None => false,
    };
    if rate.is_zero() {
        return pmt.mul(nper).add(pv);
    }
    let one = Scalar::one();
    let nth_power = one.add(rate).powf(nper);
    let factor = one.sub(nth_power).div(rate);
    let pv_grown = pv.mul(nth_power);
    if due {
        pmt.mul(factor).mul(one.add(rate)).add(pv_grown)
    } else {
        pmt.mul(factor).add(pv_grown)
    }
}

} // verus!
