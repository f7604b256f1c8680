use crate::error::FinPrimError;
use crate::rate::pct_change::pct_change_v;
use crate::scalar::{add_v, div_v, mul_v, pow_val, sub_v, views_pairs, Scalar, UNIT};
use vstd::prelude::*;

verus! {

/// The compounded growth factor over a series of `(end value, net cash
/// flow)` observations, carried to its end: each period's return compares
/// the previous end value with the current one net of its cash flow.
/// `None` records a period whose starting value was zero.
pub open spec fn twr_acc_rec(vals: Seq<(int, int)>, i: int, acc: int) -> Option<int>
    decreases vals.len() - i,
{
    if i < 1 || i >= vals.len() {
        Some(acc)
    } else if vals[i - 1].0 == 0 {
        None
    } else {
        twr_acc_rec(
            vals,
            i + 1,
            mul_v(
                acc,
                add_v(pct_change_v(vals[i - 1].0, sub_v(vals[i].0, vals[i].1)), UNIT as int),
            ),
        )
    }
}

/// The time-weighted return of the series: the compounded growth factor,
/// optionally annualized over `period` years, minus one. `None` exactly
/// when some period's starting value was zero.
pub open spec fn twr_v(vals: Seq<(int, int)>, annualization_period: Option<int>) -> Option<int> {
    match twr_acc_rec(vals, 1, UNIT as int) {
        None => None,
        Some(total) => Some(
            match annualization_period {
                Some(period) => sub_v(pow_val(total, div_v(UNIT as int, period)), UNIT as int),
                None => sub_v(total, UNIT as int),
            },
        ),
    }
}

/// TWR - Time Weighted Rate of Return over a series of `(end value, net
/// cash flow)` observations, eliminating the effect of the cash flows.
///
/// Succeeds exactly when no period's starting value is zero; a zero
/// starting value yields the arithmetic `DivideByZero` error.
pub fn twr(values: &Vec<(Scalar, Scalar)>, annualization_period: Option<Scalar>) -> (r: Result<
    Scalar,
    FinPrimError<Scalar>,
>)
    ensures
        match r {
            Ok(v) => twr_v(
                views_pairs(values@),
                match annualization_period {
                    Some(p) => Some(p@),
                    None => None,
                },
            ) == Some(v@),
            Err(e) => e is DivideByZero && twr_v(
                views_pairs(values@),
                match annualization_period {
                    Some(p) => Some(p@),
                    None => None,
                },
            ) is None,
        },
{
    let ghost vals = views_pairs(values@);
    let mut acc = Scalar::one();
    let mut i: usize = 1;
    while i < values.len()
        invariant
            1 <= i,
            values@.len() > 0 ==> i <= values@.len(),
            vals == views_pairs(values@),
            twr_acc_rec(vals, i as int, acc@) == twr_acc_rec(vals, 1, UNIT as int),
        decreases values@.len() - i,
    {
        proof {
            assert(vals[i - 1] == (values@[i - 1].0@, values@[i - 1].1@));
            assert(vals[i as int] == (values@[i as int].0@, values@[i as int].1@));
        }
        let (start_value, _cf) = values[i - 1];
        let (end_value, end_cashflow) = values[i];
        let adjusted_end = end_value.sub(end_cashflow);
        match crate::rate::pct_change(start_value, adjusted_end) {
            Ok(pct) => {
                acc = acc.mul(pct.add(Scalar::one()));
            },
            Err(_) => {
                return Err(FinPrimError::DivideByZero);
            },
        }
        i = i + 1;
    }
    let total_return = acc;
    match annualization_period {
        Some(period) => Ok(total_return.powf(Scalar::one().div(period)).sub(Scalar::one())),
        None => Ok(total_return.sub(Scalar::one())),
    }
}

} // verus!
