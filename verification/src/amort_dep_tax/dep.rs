use crate::amort_dep_tax::structs::apply_round;
use crate::amort_dep_tax::{round_applied, round_opt, DepreciationPeriod};
use crate::rounding::RoundingMode;
use crate::scalar::{add_v, div_v, from_int_v, mul_v, sub_v, views, Scalar};
use vstd::prelude::*;

verus! {

/// The flat per-period expense of straight-line depreciation.
pub open spec fn sln_expense(cost: int, salvage: int, life: int) -> int {
    div_v(sub_v(cost, salvage), from_int_v(life))
}

/// The book value after `i` periods of a flat expense.
pub open spec fn sln_bv(cost: int, expense: int, i: int) -> int
    decreases i,
{
    if i <= 0 {
        cost
    } else {
        sub_v(sln_bv(cost, expense, i - 1), expense)
    }
}

/// What a straight-line schedule holds: every row carries the flat
/// expense and the book value after it.
pub open spec fn sln_rows(rows: Seq<DepreciationPeriod>, cost: int, salvage: int) -> bool {
    let e = sln_expense(cost, salvage, rows.len() as int);
    forall|i: int|
        0 <= i < rows.len() ==> {
            let p = #[trigger] rows[i];
            &&& p.period == i + 1
            &&& p.depreciation_expense@ == e
            &&& p.remaining_book_value@ == sln_bv(cost, e, i + 1)
        }
}

/// Straight Line Depreciation (SLN): the asset loses the same share of
/// `cost - salvage` in each of `life` periods.
pub fn sln(cost: Scalar, salvage: Scalar, life: u32) -> (r: Vec<DepreciationPeriod>)
    ensures
        r@.len() == life,
        sln_rows(r@, cost@, salvage@),
{
    let mut periods: Vec<DepreciationPeriod> = Vec::new();
    let mut i: u32 = 0;
    while i < life
        invariant
            i <= life,
            periods@.len() == i,
        decreases life - i,
    {
        periods.push(DepreciationPeriod::default());
        i = i + 1;
    }
    sln_into(&mut periods, cost, salvage);
    periods
}

/// Straight Line Depreciation Into: fills a caller-allocated schedule as
/// `sln_rows` describes, the life being the schedule's length.
pub fn sln_into(slice: &mut Vec<DepreciationPeriod>, cost: Scalar, salvage: Scalar)
    requires
        old(slice)@.len() <= u32::MAX,
    ensures
        final(slice)@.len() == old(slice)@.len(),
        sln_rows(final(slice)@, cost@, salvage@),
{
    let life = slice.len();
    let depreciation_expense = cost.sub(salvage).div(Scalar::from_usize(life));
    let ghost e = sln_expense(cost@, salvage@, life as int);
    let mut remaining_book_value = cost;
    let mut i: usize = 0;
    while i < life
        invariant
            i <= life,
            life == slice@.len(),
            life <= u32::MAX,
            depreciation_expense@ == e,
            remaining_book_value@ == sln_bv(cost@, e, i as int),
            forall|j: int|
                0 <= j < i ==> {
                    let p = #[trigger] slice@[j];
                    &&& p.period == j + 1
                    &&& p.depreciation_expense@ == e
                    &&& p.remaining_book_value@ == sln_bv(cost@, e, j + 1)
                },
        decreases life - i,
    {
        remaining_book_value = remaining_book_value.sub(depreciation_expense);
        let row = DepreciationPeriod::new(
            (i as u32) + 1,
            depreciation_expense,
            remaining_book_value,
        );
        slice[i] = row;
        i = i + 1;
    }
}

/// The expense a declining-balance period takes, given the state before
/// it: the factor share of the undepreciated cost, rounded if requested,
/// but never more than what keeps the book value at the salvage value.
pub open spec fn db_expense_at(
    cost: int,
    salvage: int,
    factor: int,
    life: int,
    rnd: Option<(u32, RoundingMode)>,
    remain: int,
    accum: int,
) -> int {
    let e = round_applied(div_v(mul_v(factor, sub_v(cost, accum)), from_int_v(life)), rnd);
    if e > sub_v(remain, salvage) {
        sub_v(remain, salvage)
    } else {
        e
    }
}

/// The `(book value, accumulated depreciation)` state before period `i`
/// of a declining-balance schedule.
pub open spec fn db_state(
    cost: int,
    salvage: int,
    factor: int,
    life: int,
    rnd: Option<(u32, RoundingMode)>,
    i: int,
) -> (int, int)
    decreases i,
{
    if i <= 0 {
        (cost, 0)
    } else {
        let prev = db_state(cost, salvage, factor, life, rnd, i - 1);
        let e = db_expense_at(cost, salvage, factor, life, rnd, prev.0, prev.1);
        (sub_v(prev.0, e), add_v(prev.1, e))
    }
}

/// What a declining-balance schedule holds: each row carries its period's
/// expense and the book value after it; with rounding on, the final row
/// is adjusted so the book value ends exactly at the salvage value.
pub open spec fn db_rows(
    rows: Seq<DepreciationPeriod>,
    cost: int,
    salvage: int,
    factor: int,
    rnd: Option<(u32, RoundingMode)>,
) -> bool {
    let n = rows.len() as int;
    forall|i: int|
        0 <= i < n ==> {
            let p = #[trigger] rows[i];
            let st = db_state(cost, salvage, factor, n, rnd, i);
            let e = db_expense_at(cost, salvage, factor, n, rnd, st.0, st.1);
            &&& p.period == i + 1
            &&& (if rnd is Some && i == n - 1 {
                p.depreciation_expense@ == add_v(
                    e,
                    sub_v(db_state(cost, salvage, factor, n, rnd, n).0, salvage),
                ) && p.remaining_book_value@ == salvage
            } else {
                p.depreciation_expense@ == e && p.remaining_book_value@ == db_state(
                    cost,
                    salvage,
                    factor,
                    n,
                    rnd,
                    i + 1,
                ).0
            })
        }
}

/// Declining Balance Depreciation (DB): each period writes off `factor`
/// (default 2, double-declining) times the straight-line share of the
/// undepreciated cost, floored so the book value never drops below the
/// salvage value.
pub fn db(
    cost: Scalar,
    salvage: Scalar,
    life: u32,
    factor: Option<Scalar>,
    round: Option<(u32, RoundingMode, Scalar)>,
) -> (r: Vec<DepreciationPeriod>)
    requires
        round is Some ==> life > 0,
    ensures
        r@.len() == life,
        db_rows(
            r@,
            cost@,
            salvage@,
            match factor {
                Some(fa) => fa@,
                None => 2 * crate::scalar::UNIT as int,
            },
            round_opt(round),
        ),
{
    let mut periods: Vec<DepreciationPeriod> = Vec::new();
    let mut i: u32 = 0;
    while i < life
        invariant
            i <= life,
            periods@.len() == i,
        decreases life - i,
    {
        periods.push(DepreciationPeriod::default());
        i = i + 1;
    }
    db_into(&mut periods, cost, salvage, factor, round);
    periods
}

/// Declining Balance Depreciation Into: fills a caller-allocated schedule
/// as `db_rows` describes, the life being the schedule's length.
pub fn db_into(
    slice: &mut Vec<DepreciationPeriod>,
    cost: Scalar,
    salvage: Scalar,
    factor: Option<Scalar>,
    round: Option<(u32, RoundingMode, Scalar)>,
)
    requires
        round is Some ==> old(slice)@.len() > 0,
        old(slice)@.len() <= u32::MAX,
    ensures
        final(slice)@.len() == old(slice)@.len(),
        db_rows(
            final(slice)@,
            cost@,
            salvage@,
            match factor {
                Some(fa) => fa@,
                None => 2 * crate::scalar::UNIT as int,
            },
            round_opt(round),
        ),
{
    let factor = match factor {
        Some(fa) => fa,
        None => Scalar::two(),
    };
    let ghost fv = factor@;
    let ghost rnd = round_opt(round);
    let life = slice.len();
    let lifes = Scalar::from_usize(life);
    let mut remain_bv = cost;
    let mut accum_dep = Scalar::zero();
    let mut i: usize = 0;
    while i < life
        invariant
            i <= life,
            life == slice@.len(),
            life <= u32::MAX,
            factor@ == fv,
            rnd == round_opt(round),
            lifes@ == from_int_v(life as int),
            (remain_bv@, accum_dep@) == db_state(cost@, salvage@, fv, life as int, rnd, i as int),
            forall|j: int|
                0 <= j < i ==> {
                    let p = #[trigger] slice@[j];
                    let st = db_state(cost@, salvage@, fv, life as int, rnd, j);
                    &&& p.period == j + 1
                    &&& p.depreciation_expense@ == db_expense_at(
                        cost@,
                        salvage@,
                        fv,
                        life as int,
                        rnd,
                        st.0,
                        st.1,
                    )
                    &&& p.remaining_book_value@ == db_state(
                        cost@,
                        salvage@,
                        fv,
                        life as int,
                        rnd,
                        j + 1,
                    ).0
                },
        decreases life - i,
    {
        proof {
            let st = db_state(cost@, salvage@, fv, life as int, rnd, i as int);
            let e = db_expense_at(cost@, salvage@, fv, life as int, rnd, st.0, st.1);
            assert(db_state(cost@, salvage@, fv, life as int, rnd, i as int + 1) == (
                sub_v(st.0, e),
                add_v(st.1, e),
            ));
        }
        let mut dep_exp = apply_round(factor.mul(cost.sub(accum_dep)).div(lifes), round);
        let headroom = remain_bv.sub(salvage);
        if dep_exp.gt(&headroom) {
            dep_exp = headroom;
        }
        accum_dep = accum_dep.add(dep_exp);
        remain_bv = remain_bv.sub(dep_exp);
        let row = DepreciationPeriod::new((i as u32) + 1, dep_exp, remain_bv);
        slice[i] = row;
        i = i + 1;
    }
    match round {
        Some(_) => {
            let last = life - 1;
            let p = slice[last];
            let adjusted = DepreciationPeriod::new(
                p.period,
                p.depreciation_expense.add(p.remaining_book_value.sub(salvage)),
                salvage,
            );
            slice[last] = adjusted;
        },
        None => {},
    }
}

/// The expense of sum-of-the-years'-digits period `i`: the remaining-life
/// share of `cost - salvage`, rounded if requested.
pub open spec fn syd_expense(
    cost: int,
    salvage: int,
    life: int,
    rnd: Option<(u32, RoundingMode)>,
    i: int,
) -> int {
    round_applied(
        div_v(
            mul_v(sub_v(cost, salvage), from_int_v(life - i)),
            div_v(from_int_v(life * (life + 1)), 2 * crate::scalar::UNIT as int),
        ),
        rnd,
    )
}

/// The book value before period `i` of a sum-of-the-years'-digits
/// schedule.
pub open spec fn syd_state(
    cost: int,
    salvage: int,
    life: int,
    rnd: Option<(u32, RoundingMode)>,
    i: int,
) -> int
    decreases i,
{
    if i <= 0 {
        cost
    } else {
        sub_v(
            syd_state(cost, salvage, life, rnd, i - 1),
            syd_expense(cost, salvage, life, rnd, i - 1),
        )
    }
}

/// What a sum-of-the-years'-digits schedule holds; with rounding on, the
/// final row is adjusted so the book value ends exactly at the salvage
/// value.
pub open spec fn syd_rows(
    rows: Seq<DepreciationPeriod>,
    cost: int,
    salvage: int,
    rnd: Option<(u32, RoundingMode)>,
) -> bool {
    let n = rows.len() as int;
    forall|i: int|
        0 <= i < n ==> {
            let p = #[trigger] rows[i];
            &&& p.period == i + 1
            &&& (if rnd is Some && i == n - 1 {
                p.depreciation_expense@ == add_v(
                    syd_expense(cost, salvage, n, rnd, i),
                    sub_v(syd_state(cost, salvage, n, rnd, n), salvage),
                ) && p.remaining_book_value@ == salvage
            } else {
                p.depreciation_expense@ == syd_expense(cost, salvage, n, rnd, i)
                    && p.remaining_book_value@ == syd_state(cost, salvage, n, rnd, i + 1)
            })
        }
}

/// Sum of the Years' Digits Depreciation (SYD): an accelerated schedule
/// that weights each period by its remaining life.
pub fn syd(
    cost: Scalar,
    salvage: Scalar,
    life: u32,
    round: Option<(u32, RoundingMode, Scalar)>,
) -> (r: Vec<DepreciationPeriod>)
    requires
        round is Some ==> life > 0,
    ensures
        r@.len() == life,
        syd_rows(r@, cost@, salvage@, round_opt(round)),
{
    let mut periods: Vec<DepreciationPeriod> = Vec::new();
    let mut i: u32 = 0;
    while i < life
        invariant
            i <= life,
            periods@.len() == i,
        decreases life - i,
    {
        periods.push(DepreciationPeriod::default());
        i = i + 1;
    }
    syd_into(&mut periods, cost, salvage, round);
    periods
}

/// Sum of the Years' Digits Depreciation Into: fills a caller-allocated
/// schedule as `syd_rows` describes, the life being the schedule's
/// length.
pub fn syd_into(
    slice: &mut Vec<DepreciationPeriod>,
    cost: Scalar,
    salvage: Scalar,
    round: Option<(u32, RoundingMode, Scalar)>,
)
    requires
        round is Some ==> old(slice)@.len() > 0,
        old(slice)@.len() <= u32::MAX,
    ensures
        final(slice)@.len() == old(slice)@.len(),
        syd_rows(final(slice)@, cost@, salvage@, round_opt(round)),
{
    let ghost rnd = round_opt(round);
    let life = slice.len();
    let mut remain_bv = cost;
    proof {
        let wl = life as u128 as int;
        assert(wl * (wl + 1) < 340282366920938463463374607431768211456int) by (nonlinear_arith)
            requires
                0 <= wl,
                wl < 18446744073709551616int,
        ;
    }
    let sum_of_years = Scalar::from_u128((life as u128) * ((life as u128) + 1)).div(Scalar::two());
    let mut i: usize = 0;
    while i < life
        invariant
            i <= life,
            life == slice@.len(),
            life <= u32::MAX,
            rnd == round_opt(round),
            sum_of_years@ == div_v(
                from_int_v(life as int * (life as int + 1)),
                2 * crate::scalar::UNIT as int,
            ),
            remain_bv@ == syd_state(cost@, salvage@, life as int, rnd, i as int),
            forall|j: int|
                0 <= j < i ==> {
                    let p = #[trigger] slice@[j];
                    &&& p.period == j + 1
                    &&& p.depreciation_expense@ == syd_expense(cost@, salvage@, life as int, rnd, j)
                    &&& p.remaining_book_value@ == syd_state(cost@, salvage@, life as int, rnd, j + 1)
                },
        decreases life - i,
    {
        proof {
            assert(syd_state(cost@, salvage@, life as int, rnd, i as int + 1) == sub_v(
                syd_state(cost@, salvage@, life as int, rnd, i as int),
                syd_expense(cost@, salvage@, life as int, rnd, i as int),
            ));
        }
        let dep_exp = apply_round(
            cost.sub(salvage).mul(Scalar::from_usize(life - i)).div(sum_of_years),
            round,
        );
        remain_bv = remain_bv.sub(dep_exp);
        let row = DepreciationPeriod::new((i as u32) + 1, dep_exp, remain_bv);
        slice[i] = row;
        i = i + 1;
    }
    match round {
        Some(_) => {
            let last = life - 1;
            let p = slice[last];
            let adjusted = DepreciationPeriod::new(
                p.period,
                p.depreciation_expense.add(p.remaining_book_value.sub(salvage)),
                salvage,
            );
            slice[last] = adjusted;
        },
        None => {},
    }
}

/// The book value after `i` periods of a rate-table schedule: each period
/// writes off its own share of the original cost.
pub open spec fn macrs_bv(cost: int, rates: Seq<int>, i: int) -> int
    decreases i,
{
    if i <= 0 {
        cost
    } else {
        sub_v(macrs_bv(cost, rates, i - 1), mul_v(cost, rates[i - 1]))
    }
}

/// What a rate-table schedule holds: row `i` expenses `cost * rates[i]`
/// and carries the book value after it.
pub open spec fn macrs_rows(rows: Seq<DepreciationPeriod>, cost: int, rates: Seq<int>) -> bool {
    forall|i: int|
        0 <= i < rows.len() ==> {
            let p = #[trigger] rows[i];
            &&& p.period == i + 1
            &&& p.depreciation_expense@ == mul_v(cost, rates[i])
            &&& p.remaining_book_value@ == macrs_bv(cost, rates, i + 1)
        }
}

/// MACRS Depreciation: depreciates `cost` by the given yearly rate table
/// (e.g. the IRS recovery-period percentages), one period per rate.
pub fn macrs(cost: Scalar, rates: &Vec<Scalar>) -> (r: Vec<DepreciationPeriod>)
    requires
        rates@.len() <= u32::MAX,
    ensures
        r@.len() == rates@.len(),
        macrs_rows(r@, cost@, views(rates@)),
{
    let mut periods: Vec<DepreciationPeriod> = Vec::new();
    let mut i: usize = 0;
    while i < rates.len()
        invariant
            i <= rates@.len(),
            periods@.len() == i,
        decreases rates@.len() - i,
    {
        periods.push(DepreciationPeriod::default());
        i = i + 1;
    }
    macrs_into(&mut periods, cost, rates);
    periods
}

/// MACRS Depreciation Into: fills a caller-allocated schedule, which must
/// be exactly as long as the rate table, as `macrs_rows` describes.
pub fn macrs_into(slice: &mut Vec<DepreciationPeriod>, cost: Scalar, rates: &Vec<Scalar>)
    requires
        old(slice)@.len() == rates@.len(),
        rates@.len() <= u32::MAX,
    ensures
        final(slice)@.len() == old(slice)@.len(),
        macrs_rows(final(slice)@, cost@, views(rates@)),
{
    let mut remain_bv = cost;
    let mut i: usize = 0;
    while i < rates.len()
        invariant
            i <= rates@.len(),
            slice@.len() == rates@.len(),
            rates@.len() <= u32::MAX,
            remain_bv@ == macrs_bv(cost@, views(rates@), i as int),
            forall|j: int|
                0 <= j < i ==> {
                    let p = #[trigger] slice@[j];
                    &&& p.period == j + 1
                    &&& p.depreciation_expense@ == mul_v(cost@, views(rates@)[j])
                    &&& p.remaining_book_value@ == macrs_bv(cost@, views(rates@), j + 1)
                },
        decreases rates@.len() - i,
    {
        proof {
            assert(views(rates@)[i as int] == rates@[i as int]@);
        }
        let dep_exp = cost.mul(rates[i]);
        remain_bv = remain_bv.sub(dep_exp);
        let row = DepreciationPeriod::new((i as u32) + 1, dep_exp, remain_bv);
        slice[i] = row;
        i = i + 1;
    }
}

} // verus!
