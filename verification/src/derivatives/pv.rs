use crate::scalar::{add_v, div_v, from_int_v, mul_v, neg_v, pow_val, views, Scalar, UNIT};
use vstd::prelude::*;

verus! {

/// Derivative of a single discounted cash flow with respect to the rate:
/// `-cf * n / (1+rate)^(n+1)`.
pub open spec fn pv_prime_r_v(rate: int, n: int, cash_flow: int) -> int {
    div_v(
        mul_v(neg_v(cash_flow), n),
        pow_val(add_v(rate, UNIT as int), add_v(n, UNIT as int)),
    )
}

/// PV'(r) - Derivative of the present value of the cash flow at period `n`
/// with respect to the rate. Summed over a schedule it gives the
/// derivative of an NPV.
pub fn pv_prime_r(rate: Scalar, n: Scalar, cash_flow: Scalar) -> (r: Scalar)
    ensures
        r@ == pv_prime_r_v(rate@, n@, cash_flow@),
{
    let one = Scalar::one();
    cash_flow.neg().mul(n).div(rate.add(one).powf(n.add(one)))
}

/// Second derivative of a single discounted cash flow with respect to the
/// rate: `cf * n * (n+1) / (1+rate)^(n+2)`.
pub open spec fn pv_prime2_r_v(rate: int, n: int, cash_flow: int) -> int {
    div_v(
        mul_v(mul_v(cash_flow, n), add_v(n, UNIT as int)),
        pow_val(add_v(rate, UNIT as int), add_v(n, 2 * UNIT as int)),
    )
}

/// PV''(r) - Second derivative of the present value of the cash flow at
/// period `n` with respect to the rate.
pub fn pv_prime2_r(rate: Scalar, n: Scalar, cash_flow: Scalar) -> (r: Scalar)
    ensures
        r@ == pv_prime2_r_v(rate@, n@, cash_flow@),
{
    let one = Scalar::one();
    cash_flow.mul(n).mul(n.add(one)).div(rate.add(one).powf(n.add(Scalar::two())))
}

/// The running sum of per-period first derivatives, carried to its end.
pub open spec fn npv_prime_sum_rec(rate: int, flows: Seq<int>, i: int, acc: int) -> int
    decreases flows.len() - i,
{
    if i < 0 || i >= flows.len() {
        acc
    } else {
        npv_prime_sum_rec(
            rate,
            flows,
            i + 1,
            add_v(acc, pv_prime_r_v(rate, from_int_v(i), flows[i])),
        )
    }
}

/// The derivative of an NPV with respect to the rate: the sum of
/// `pv_prime_r` over every period of the schedule.
pub open spec fn npv_prime_sum_v(rate: int, flows: Seq<int>) -> int {
    npv_prime_sum_rec(rate, flows, 0, 0)
}

/// NPV'(r) - Derivative of the net present value with respect to the rate:
/// the per-period derivatives summed over the whole schedule.
pub fn npv_prime_r(rate: Scalar, cash_flows: &Vec<Scalar>) -> (r: Scalar)
    ensures
        r@ == npv_prime_sum_v(rate@, views(cash_flows@)),
{
    let mut acc = Scalar::zero();
    let mut i: usize = 0;
    while i < cash_flows.len()
        invariant
            i <= cash_flows@.len(),
            npv_prime_sum_rec(rate@, views(cash_flows@), i as int, acc@) == npv_prime_sum_v(
                rate@,
                views(cash_flows@),
            ),
        decreases cash_flows@.len() - i,
    {
        proof {
            assert(views(cash_flows@)[i as int] == cash_flows@[i as int]@);
        }
        acc = acc.add(pv_prime_r(rate, Scalar::from_usize(i), cash_flows[i]));
        i = i + 1;
    }
    acc
}

/// The running sum of per-period second derivatives, carried to its end.
pub open spec fn npv_prime2_sum_rec(rate: int, flows: Seq<int>, i: int, acc: int) -> int
    decreases flows.len() - i,
{
    if i < 0 || i >= flows.len() {
        acc
    } else {
        npv_prime2_sum_rec(
            rate,
            flows,
            i + 1,
            add_v(acc, pv_prime2_r_v(rate, from_int_v(i), flows[i])),
        )
    }
}

/// The second derivative of an NPV with respect to the rate: the sum of
/// `pv_prime2_r` over every period of the schedule.
pub open spec fn npv_prime2_sum_v(rate: int, flows: Seq<int>) -> int {
    npv_prime2_sum_rec(rate, flows, 0, 0)
}

/// NPV''(r) - Second derivative of the net present value with respect to
/// the rate: the per-period second derivatives summed over the schedule.
pub fn npv_prime2_r(rate: Scalar, cash_flows: &Vec<Scalar>) -> (r: Scalar)
    ensures
        r@ == npv_prime2_sum_v(rate@, views(cash_flows@)),
{
    let mut acc = Scalar::zero();
    let mut i: usize = 0;
    while i < cash_flows.len()
        invariant
            i <= cash_flows@.len(),
            npv_prime2_sum_rec(rate@, views(cash_flows@), i as int, acc@) == npv_prime2_sum_v(
                rate@,
                views(cash_flows@),
            ),
        decreases cash_flows@.len() - i,
    {
        proof {
            assert(views(cash_flows@)[i as int] == cash_flows@[i as int]@);
        }
        acc = acc.add(pv_prime2_r(rate, Scalar::from_usize(i), cash_flows[i]));
        i = i + 1;
    }
    acc
}

} // verus!
