use crate::scalar::{add_v, div_v, from_int_v, mul_v, neg_v, pow_val, sub_v, Scalar, UNIT};
use vstd::prelude::*;

verus! {

/// First derivative of the weighted average cost of capital with respect
/// to the debt-to-equity ratio: `-(tax*r_d + r_e - r_d) / (de+1)^2`.
pub open spec fn wacc_prime_de_v(r_e: int, r_d: int, de_ratio: int, tax: int) -> int {
    div_v(
        neg_v(sub_v(add_v(mul_v(tax, r_d), r_e), r_d)),
        pow_val(add_v(de_ratio, UNIT as int), 2 * UNIT as int),
    )
}

/// WACC'(D/E) - First derivative of the WACC with respect to the
/// debt-to-equity ratio, for a cost of equity `r_e`, cost of debt `r_d`,
/// and tax rate `tax`.
pub fn wacc_prime_de(r_e: Scalar, r_d: Scalar, de_ratio: Scalar, tax: Scalar) -> (r: Scalar)
    ensures
        r@ == wacc_prime_de_v(r_e@, r_d@, de_ratio@, tax@),
{
    let one = Scalar::one();
    tax.mul(r_d).add(r_e).sub(r_d).neg().div(de_ratio.add(one).powf(Scalar::two()))
}

/// Second derivative of the weighted average cost of capital with respect
/// to the debt-to-equity ratio: `2*(tax*r_d + r_e - r_d) / (de+1)^3`.
pub open spec fn wacc_prime2_de_v(r_e: int, r_d: int, de_ratio: int, tax: int) -> int {
    div_v(
        mul_v(2 * UNIT as int, sub_v(add_v(mul_v(tax, r_d), r_e), r_d)),
        pow_val(add_v(de_ratio, UNIT as int), from_int_v(3)),
    )
}

/// WACC''(D/E) - Second derivative of the WACC with respect to the
/// debt-to-equity ratio.
pub fn wacc_prime2_de(r_e: Scalar, r_d: Scalar, de_ratio: Scalar, tax: Scalar) -> (r: Scalar)
    ensures
        r@ == wacc_prime2_de_v(r_e@, r_d@, de_ratio@, tax@),
{
    let one = Scalar::one();
    Scalar::two().mul(tax.mul(r_d).add(r_e).sub(r_d)).div(
        de_ratio.add(one).powf(Scalar::from_u16(3)),
    )
}

} // verus!
