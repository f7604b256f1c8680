use crate::rate::cagr::cagr_v;
use crate::scalar::{
    abs_v, add_v, div_v, from_int_v, sub_v, views, views_dated, Scalar,
};
use crate::tvm::{fv_v, pv_v};
use vstd::prelude::*;

verus! {

/// The present value of the negative flows and future value of the
/// positive flows of a periodic schedule, carried to the end of the
/// schedule: negatives are financed at `finance_rate`, positives
/// reinvested at `reinvest_rate` until the final period `n`.
pub open spec fn mirr_acc_rec(
    flows: Seq<int>,
    finance_rate: int,
    reinvest_rate: int,
    n: int,
    i: int,
    npv_neg: int,
    fv_pos: int,
) -> (int, int)
    decreases flows.len() - i,
{
    if i < 0 || i >= flows.len() {
        (npv_neg, fv_pos)
    } else if flows[i] < 0 {
        mirr_acc_rec(
            flows,
            finance_rate,
            reinvest_rate,
            n,
            i + 1,
            add_v(npv_neg, pv_v(finance_rate, from_int_v(i), 0, flows[i], false)),
            fv_pos,
        )
    } else {
        mirr_acc_rec(
            flows,
            finance_rate,
            reinvest_rate,
            n,
            i + 1,
            npv_neg,
            add_v(fv_pos, fv_v(reinvest_rate, from_int_v(n - i), 0, flows[i], false)),
        )
    }
}

/// The modified internal rate of return of a periodic schedule: the
/// compound growth rate from the magnitude of the financed negative flows
/// to the reinvested positive flows over the schedule's periods.
pub open spec fn mirr_v(flows: Seq<int>, finance_rate: int, reinvest_rate: int) -> int
    recommends
        flows.len() > 0,
{
    let n = flows.len() - 1;
    let acc = mirr_acc_rec(flows, finance_rate, reinvest_rate, n as int, 0, 0, 0);
    cagr_v(abs_v(acc.0), acc.1, from_int_v(n as int))
}

/// MIRR - Modified Internal Rate of Return of a periodic schedule, with
/// negative flows financed at `finance_rate` and positive flows
/// reinvested at `reinvest_rate`.
pub fn mirr(cash_flows: &Vec<Scalar>, finance_rate: Scalar, reinvest_rate: Scalar) -> (r: Scalar)
    requires
        cash_flows@.len() > 0,
    ensures
        r@ == mirr_v(views(cash_flows@), finance_rate@, reinvest_rate@),
{
    let ghost flows = views(cash_flows@);
    let n = cash_flows.len() - 1;
    let mut npv_neg = Scalar::zero();
    let mut fv_pos = Scalar::zero();
    let mut i: usize = 0;
    let zero = Scalar::zero();
    while i < cash_flows.len()
        invariant
            i <= cash_flows@.len(),
            cash_flows@.len() > 0,
            n == cash_flows@.len() - 1,
            zero@ == 0,
            flows == views(cash_flows@),
            mirr_acc_rec(flows, finance_rate@, reinvest_rate@, n as int, i as int, npv_neg@, fv_pos@)
                == mirr_acc_rec(flows, finance_rate@, reinvest_rate@, n as int, 0, 0, 0),
        decreases cash_flows@.len() - i,
    {
        proof {
            assert(flows[i as int] == cash_flows@[i as int]@);
        }
        let cf = cash_flows[i];
        if cf.lt(&zero) {
            npv_neg = npv_neg.add(
                crate::tvm::pv(finance_rate, Scalar::from_usize(i), zero, Some(cf), None),
            );
        } else {
            fv_pos = fv_pos.add(
                crate::tvm::fv(reinvest_rate, Scalar::from_usize(n - i), zero, Some(cf), None),
            );
        }
        i = i + 1;
    }
    npv_neg = npv_neg.abs();
    crate::rate::cagr(npv_neg, fv_pos, Scalar::from_usize(n))
}

/// The accumulators of the dated variant: each flow is financed or
/// reinvested over fractional years of 365 days, measured from the first
/// date for negatives and up to the final date `n_days` for positives.
pub open spec fn xmirr_acc_rec(
    table: Seq<(int, int)>,
    finance_rate: int,
    reinvest_rate: int,
    date0: int,
    n_days: int,
    i: int,
    npv_neg: int,
    fv_pos: int,
) -> (int, int)
    decreases table.len() - i,
{
    if i < 0 || i >= table.len() {
        (npv_neg, fv_pos)
    } else if table[i].0 < 0 {
        xmirr_acc_rec(
            table,
            finance_rate,
            reinvest_rate,
            date0,
            n_days,
            i + 1,
            add_v(
                npv_neg,
                pv_v(
                    finance_rate,
                    div_v(from_int_v(table[i].1 - date0), from_int_v(365)),
                    0,
                    table[i].0,
                    false,
                ),
            ),
            fv_pos,
        )
    } else {
        xmirr_acc_rec(
            table,
            finance_rate,
            reinvest_rate,
            date0,
            n_days,
            i + 1,
            npv_neg,
            add_v(
                fv_pos,
                fv_v(
                    reinvest_rate,
                    div_v(sub_v(from_int_v(n_days), from_int_v(table[i].1)), from_int_v(365)),
                    0,
                    table[i].0,
                    false,
                ),
            ),
        )
    }
}

/// The modified internal rate of return of a dated schedule: the compound
/// growth rate from the financed negative flows to the reinvested
/// positive flows over the schedule's span in years.
pub open spec fn xmirr_v(table: Seq<(int, int)>, finance_rate: int, reinvest_rate: int) -> int
    recommends
        table.len() > 0,
{
    let date0 = table[0].1;
    let n_days = table[table.len() - 1].1;
    let acc = xmirr_acc_rec(table, finance_rate, reinvest_rate, date0, n_days, 0, 0, 0);
    cagr_v(acc.0, acc.1, div_v(from_int_v(n_days), from_int_v(365)))
}

/// XMIRR - Modified Internal Rate of Return of a dated schedule; dates are
/// day offsets, the first entry is the investment date, and a 365-day year
/// converts day spans into years.
pub fn xmirr(flow_table: &Vec<(Scalar, i32)>, finance_rate: Scalar, reinvest_rate: Scalar) -> (r:
    Scalar)
    requires
        flow_table@.len() > 0,
        forall|j: int|
            0 <= j < flow_table@.len() ==> i32::MIN <= (#[trigger] flow_table@[j]).1
                - flow_table@[0].1 <= i32::MAX,
    ensures
        r@ == xmirr_v(views_dated(flow_table@), finance_rate@, reinvest_rate@),
{
    let ghost table = views_dated(flow_table@);
    let init_date = flow_table[0].1;
    let last_idx = flow_table.len() - 1;
    let n_days = flow_table[last_idx].1;
    let n = Scalar::from_i32(n_days);
    let yr = Scalar::from_u16(365);
    let zero = Scalar::zero();
    let mut npv_neg = Scalar::zero();
    let mut fv_pos = Scalar::zero();
    let mut i: usize = 0;
    while i < flow_table.len()
        invariant
            i <= flow_table@.len(),
            flow_table@.len() > 0,
            zero@ == 0,
            table == views_dated(flow_table@),
            init_date == flow_table@[0].1,
            n_days == flow_table@[flow_table@.len() - 1].1,
            n@ == from_int_v(n_days as int),
            yr@ == from_int_v(365),
            forall|j: int|
                0 <= j < flow_table@.len() ==> i32::MIN <= (#[trigger] flow_table@[j]).1
                    - flow_table@[0].1 <= i32::MAX,
            xmirr_acc_rec(
                table,
                finance_rate@,
                reinvest_rate@,
                init_date as int,
                n_days as int,
                i as int,
                npv_neg@,
                fv_pos@,
            ) == xmirr_acc_rec(
                table,
                finance_rate@,
                reinvest_rate@,
                init_date as int,
                n_days as int,
                0,
                0,
                0,
            ),
        decreases flow_table@.len() - i,
    {
        proof {
            assert(table[i as int] == (flow_table@[i as int].0@, flow_table@[i as int].1 as int));
        }
        let (cf, date) = flow_table[i];
        if cf.lt(&zero) {
            npv_neg = npv_neg.add(
                crate::tvm::pv(
                    finance_rate,
                    Scalar::from_i32(date - init_date).div(yr),
                    zero,
                    Some(cf),
                    None,
                ),
            );
        } else {
            fv_pos = fv_pos.add(
                crate::tvm::fv(
                    reinvest_rate,
                    n.sub(Scalar::from_i32(date)).div(yr),
                    zero,
                    Some(cf),
                    None,
                ),
            );
        }
        i = i + 1;
    }
    proof {
        assert(table[0] == (flow_table@[0].0@, flow_table@[0].1 as int));
        assert(table[table.len() - 1] == (
            flow_table@[flow_table@.len() - 1].0@,
            flow_table@[flow_table@.len() - 1].1 as int,
        ));
    }
    crate::rate::cagr(npv_neg, fv_pos, n.div(yr))
}

} // verus!
