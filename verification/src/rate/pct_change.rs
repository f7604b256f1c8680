use crate::error::FinPrimError;
use crate::scalar::{abs_v, add_v, div_v, mul_v, sub_v, Scalar};
use vstd::prelude::*;

verus! {

/// The relative change from a beginning to an ending value, measured
/// against the magnitude of the beginning value.
pub open spec fn pct_change_v(beginning_value: int, ending_value: int) -> int {
    div_v(sub_v(ending_value, beginning_value), abs_v(beginning_value))
}

/// Percentage change between two values.
///
/// A zero beginning value has no well-defined relative change, and exactly
/// then the arithmetic `DivideByZero` error is returned; every other input
/// succeeds with `(end - begin) / |begin|`.
pub fn pct_change(beginning_value: Scalar, ending_value: Scalar) -> (r: Result<
    Scalar,
    FinPrimError<Scalar>,
>)
    ensures
        beginning_value@ == 0 <==> r is Err,
        match r {
            Ok(v) => v@ == pct_change_v(beginning_value@, ending_value@),
            Err(e) => e is DivideByZero,
        },
{
    if beginning_value.is_zero() {
        return Err(FinPrimError::DivideByZero);
    }
    Ok(ending_value.sub(beginning_value).div(beginning_value.abs()))
}

/// A value after a relative change: `pct * |value| + value`, which handles
/// sign changes of negative bases correctly.
pub open spec fn apply_pct_change_v(value: int, pct_change: int) -> int {
    add_v(mul_v(pct_change, abs_v(value)), value)
}

/// Apply a percentage change to a value.
pub fn apply_pct_change(value: Scalar, pct_change: Scalar) -> (r: Scalar)
    ensures
        r@ == apply_pct_change_v(value@, pct_change@),
{
    pct_change.mul(value.abs()).add(value)
}

} // verus!
