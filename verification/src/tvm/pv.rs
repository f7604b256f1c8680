use crate::scalar::{
    add_v, div_v, from_int_v, mul_v, neg_v, opt_flag, opt_v, pow_val, sub_v, views, views_dated,
    Scalar, UNIT,
};
use vstd::prelude::*;

verus! {

/// The present value of an annuity: the negated sum of the discounted
/// payments and the discounted future value. With a zero rate the cash
/// flows simply add up.
pub open spec fn pv_v(rate: int, nper: int, pmt: int, fv: int, due: bool) -> int {
    if rate == 0 {
        neg_v(add_v(fv, mul_v(pmt, nper)))
    } else {
        let nth_power = pow_val(add_v(UNIT as int, rate), nper);
        let fv_discounted = div_v(fv, nth_power);
        let factor = div_v(sub_v(UNIT as int, div_v(UNIT as int, nth_power)), rate);
        if due {
            neg_v(add_v(mul_v(mul_v(pmt, factor), add_v(UNIT as int, rate)), fv_discounted))
        } else {
            neg_v(add_v(mul_v(pmt, factor), fv_discounted))
        }
    }
}

/// PV - Present Value.
///
/// A general present value calculation for an annuity of `pmt` per period
/// over `nper` periods at `rate` per period, plus an optional future value.
/// `due` selects payment at the beginning (`true`) rather than the end of
/// each period; both optional arguments default as in the spec `pv_v`.
pub fn pv(rate: Scalar, nper: Scalar, pmt: Scalar, fv: Option<Scalar>, due: Option<bool>) -> (r:
    Scalar)
    ensures
        r@ == pv_v(rate@, nper@, pmt@, opt_v(fv), opt_flag(due)),
{
    let fv: Scalar = match fv {
        Some(x) => x,
        None => Scalar::zero(),
    };
    let due = match due {
        Some(b) => b,
        None => false,
    };
    let one = Scalar::one();
    let result = if rate.is_zero() {
        fv.add(pmt.mul(nper))
    } else {
        let nth_power = one.add(rate).powf(nper);
        let fv_discounted = fv.div(nth_power);
        let factor = one.sub(one.div(nth_power)).div(rate);
        if due {
            pmt.mul(factor).mul(one.add(rate)).add(fv_discounted)
        } else {
            pmt.mul(factor).add(fv_discounted)
        }
    };
    result.neg()
}

/// The accumulator state of the NPV loop carried to its end: `acc_pow`
/// holds `(1+rate)^i` and `acc` the sum of the first `i` discounted flows.
pub open spec fn npv_rec(rate: int, flows: Seq<int>, i: int, acc_pow: int, acc: int) -> int
    decreases flows.len() - i,
{
    if i < 0 || i >= flows.len() {
        acc
    } else {
        npv_rec(
            rate,
            flows,
            i + 1,
            mul_v(acc_pow, add_v(UNIT as int, rate)),
            add_v(acc, div_v(flows[i], acc_pow)),
        )
    }
}

/// The net present value of a periodic schedule: the sum of
/// `cf_t / (1+rate)^t`, with the running power built by repeated
/// multiplication exactly as the implementation does.
pub open spec fn npv_v(rate: int, flows: Seq<int>) -> int {
    npv_rec(rate, flows, 0, UNIT as int, 0)
}

/// NPV - Net Present Value of a periodic cash-flow schedule; the first
/// entry is the flow at time zero.
pub fn npv(rate: Scalar, cash_flows: &Vec<Scalar>) -> (r: Scalar)
    ensures
        r@ == npv_v(rate@, views(cash_flows@)),
{
    let mut powf_acc = Scalar::one();
    let mut acc = Scalar::zero();
    let mut i: usize = 0;
    while i < cash_flows.len()
        invariant
            i <= cash_flows@.len(),
            npv_rec(rate@, views(cash_flows@), i as int, powf_acc@, acc@) == npv_v(
                rate@,
                views(cash_flows@),
            ),
        decreases cash_flows@.len() - i,
    {
        proof {
            assert(views(cash_flows@)[i as int] == cash_flows@[i as int]@);
        }
        acc = acc.add(cash_flows[i].div(powf_acc));
        powf_acc = powf_acc.mul(Scalar::one().add(rate));
        i = i + 1;
    }
    acc
}

/// The accumulator state of the differing-rates NPV loop carried to its
/// end: entry `t` is discounted by its own rate over `t` periods.
pub open spec fn npv_dr_rec(table: Seq<(int, int)>, i: int, acc: int) -> int
    decreases table.len() - i,
{
    if i < 0 || i >= table.len() {
        acc
    } else {
        npv_dr_rec(
            table,
            i + 1,
            add_v(
                acc,
                div_v(table[i].0, pow_val(add_v(UNIT as int, table[i].1), from_int_v(i))),
            ),
        )
    }
}

/// The net present value of a schedule of `(cash flow, rate)` pairs, each
/// flow discounted at its own rate over its period index.
pub open spec fn npv_differing_rates_v(table: Seq<(int, int)>) -> int {
    npv_dr_rec(table, 0, 0)
}

/// NPV with a different discount rate for each period: the schedule pairs
/// each cash flow with its rate, and the first entry is at time zero.
pub fn npv_differing_rates(flow_table: &Vec<(Scalar, Scalar)>) -> (r: Scalar)
    ensures
        r@ == npv_differing_rates_v(crate::scalar::views_pairs(flow_table@)),
{
    let ghost table = crate::scalar::views_pairs(flow_table@);
    let mut acc = Scalar::zero();
    let mut i: usize = 0;
    while i < flow_table.len()
        invariant
            i <= flow_table@.len(),
            table == crate::scalar::views_pairs(flow_table@),
            npv_dr_rec(table, i as int, acc@) == npv_differing_rates_v(table),
        decreases flow_table@.len() - i,
    {
        proof {
            assert(table[i as int] == (flow_table@[i as int].0@, flow_table@[i as int].1@));
        }
        let (cf, rate) = flow_table[i];
        acc = acc.add(cf.div(Scalar::one().add(rate).powf(Scalar::from_usize(i))));
        i = i + 1;
    }
    acc
}

/// The accumulator state of the XNPV loop: each flow is discounted over its
/// day offset from the first entry, counted in years of 365 days.
pub open spec fn xnpv_rec(rate: int, table: Seq<(int, int)>, date0: int, i: int, acc: int) -> int
    decreases table.len() - i,
{
    if i < 0 || i >= table.len() {
        acc
    } else {
        let years = div_v(from_int_v(table[i].1 - date0), from_int_v(365));
        xnpv_rec(
            rate,
            table,
            date0,
            i + 1,
            add_v(acc, div_v(table[i].0, pow_val(add_v(UNIT as int, rate), years))),
        )
    }
}

/// The net present value of a dated schedule: the first entry's date is
/// time zero and each flow is discounted by `(1+rate)^(days/365)`.
pub open spec fn xnpv_v(rate: int, table: Seq<(int, int)>) -> int
    recommends
        table.len() > 0,
{
    xnpv_rec(rate, table, table[0].1, 0, 0)
}

/// XNPV - Net Present Value of an irregular, dated schedule. Dates are day
/// offsets from an arbitrary epoch; the first entry is the investment date
/// and a 365-day year converts day differences into exponents.
pub fn xnpv(rate: Scalar, flow_table: &Vec<(Scalar, i32)>) -> (r: Scalar)
    requires
        flow_table@.len() > 0,
        forall|j: int|
            0 <= j < flow_table@.len() ==> i32::MIN <= (#[trigger] flow_table@[j]).1
                - flow_table@[0].1 <= i32::MAX,
    ensures
        r@ == xnpv_v(rate@, views_dated(flow_table@)),
{
    let ghost table = views_dated(flow_table@);
    let init_date = flow_table[0].1;
    let one_plus_r = Scalar::one().add(rate);
    let yr_length = Scalar::from_u16(365);
    let mut acc = Scalar::zero();
    let mut i: usize = 0;
    while i < flow_table.len()
        invariant
            i <= flow_table@.len(),
            flow_table@.len() > 0,
            table == views_dated(flow_table@),
            init_date == flow_table@[0].1,
            one_plus_r@ == add_v(UNIT as int, rate@),
            yr_length@ == from_int_v(365),
            forall|j: int|
                0 <= j < flow_table@.len() ==> i32::MIN <= (#[trigger] flow_table@[j]).1
                    - flow_table@[0].1 <= i32::MAX,
            xnpv_rec(rate@, table, table[0].1, i as int, acc@) == xnpv_v(rate@, table),
        decreases flow_table@.len() - i,
    {
        proof {
            assert(table[i as int] == (flow_table@[i as int].0@, flow_table@[i as int].1 as int));
            assert(table[0] == (flow_table@[0].0@, flow_table@[0].1 as int));
        }
        let (cf, date) = flow_table[i];
        let years = Scalar::from_i32(date - init_date).div(yr_length);
        acc = acc.add(cf.div(one_plus_r.powf(years)));
        i = i + 1;
    }
    acc
}

} // verus!
