use crate::scalar::{add_v, div_v, mul_v, pow_val, sub_v, Scalar, UNIT};
use vstd::prelude::*;

verus! {

/// The nominal annual rate implied by an effective annual rate compounded
/// `npery` times per year: `npery * ((1+ear)^(1/npery) - 1)`.
pub open spec fn apr_v(ear: int, npery: int) -> int {
    mul_v(npery, sub_v(pow_val(add_v(UNIT as int, ear), div_v(UNIT as int, npery)), UNIT as int))
}

/// APR - Annual (nominal) Percentage Rate, from the effective annual rate
/// and the number of compounding periods per year.
pub fn apr(ear: Scalar, npery: Scalar) -> (r: Scalar)
    ensures
        r@ == apr_v(ear@, npery@),
{
    let one = Scalar::one();
    let nth_root = one.add(ear).powf(one.div(npery));
    npery.mul(nth_root.sub(one))
}

/// The effective annual rate implied by a nominal rate compounded `npery`
/// times per year: `(1 + apr/npery)^npery - 1`.
pub open spec fn ear_v(apr: int, npery: int) -> int {
    sub_v(pow_val(add_v(UNIT as int, div_v(apr, npery)), npery), UNIT as int)
}

/// EAR - Effective Annual Rate, from the nominal rate and the number of
/// compounding periods per year.
pub fn ear(apr: Scalar, npery: Scalar) -> (r: Scalar)
    ensures
        r@ == ear_v(apr@, npery@),
{
    let one = Scalar::one();
    let nth_root = one.add(apr.div(npery));
    nth_root.powf(npery).sub(one)
}

} // verus!
