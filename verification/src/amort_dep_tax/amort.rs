use crate::amort_dep_tax::structs::apply_round;
use crate::amort_dep_tax::{round_applied, round_opt, AmortizationPeriod};
use crate::rounding::RoundingMode;
use crate::scalar::{add_v, mul_v, neg_v, sub_v, Scalar};
use vstd::prelude::*;

verus! {

/// The per-period payment the schedule works with: the caller's payment,
/// rounded if rounding was requested, with its sign flipped to a cash
/// inflow.
pub open spec fn amort_pmt2(pmt: int, rnd: Option<(u32, RoundingMode)>) -> int {
    neg_v(round_applied(pmt, rnd))
}

/// The loan balance before payment `i`: each payment reduces it by that
/// period's principal portion.
pub open spec fn amort_balance(
    rate: int,
    pmt2: int,
    rnd: Option<(u32, RoundingMode)>,
    principal: int,
    i: int,
) -> int
    decreases i,
{
    if i <= 0 {
        principal
    } else {
        let prev = amort_balance(rate, pmt2, rnd, principal, i - 1);
        sub_v(prev, round_applied(sub_v(pmt2, mul_v(prev, rate)), rnd))
    }
}

/// The principal portion of payment `i`: the payment minus the interest
/// accrued on the balance, rounded if requested.
pub open spec fn amort_principal(
    rate: int,
    pmt2: int,
    rnd: Option<(u32, RoundingMode)>,
    principal: int,
    i: int,
) -> int {
    round_applied(sub_v(pmt2, mul_v(amort_balance(rate, pmt2, rnd, principal, i), rate)), rnd)
}

/// The interest portion of payment `i`: the rate applied to the balance,
/// rounded if requested.
pub open spec fn amort_interest(
    rate: int,
    pmt2: int,
    rnd: Option<(u32, RoundingMode)>,
    principal: int,
    i: int,
) -> int {
    round_applied(mul_v(amort_balance(rate, pmt2, rnd, principal, i), rate), rnd)
}

/// What a finished amortization schedule holds: row `i` carries period
/// `i+1`, that period's principal and interest portions, and the balance
/// after the payment. When rounding is on, the final row's principal
/// payment absorbs the residual balance so the schedule ends exactly at
/// zero.
pub open spec fn amort_rows(
    rows: Seq<AmortizationPeriod>,
    rate: int,
    principal: int,
    pmt: int,
    rnd: Option<(u32, RoundingMode)>,
) -> bool {
    let pmt2 = amort_pmt2(pmt, rnd);
    let n = rows.len() as int;
    forall|i: int|
        0 <= i < n ==> {
            let p = #[trigger] rows[i];
            &&& p.period == i + 1
            &&& p.interest_payment@ == amort_interest(rate, pmt2, rnd, principal, i)
            &&& (if rnd is Some && i == n - 1 {
                p.principal_payment@ == add_v(
                    amort_principal(rate, pmt2, rnd, principal, i),
                    amort_balance(rate, pmt2, rnd, principal, n),
                ) && p.remaining_balance@ == 0
            } else {
                p.principal_payment@ == amort_principal(rate, pmt2, rnd, principal, i)
                    && p.remaining_balance@ == amort_balance(rate, pmt2, rnd, principal, i + 1)
            })
        }
}

/// Amortization Schedule: the per-period payment split of a loan of
/// `principal` at `rate` per period, paying `pmt` (negative, as a cash
/// outflow) for `nper` periods. With `round` set, every amount is rounded
/// per period and the final principal payment zeroes out the balance.
pub fn amort_schedule(
    rate: Scalar,
    nper: u32,
    principal: Scalar,
    pmt: Scalar,
    round: Option<(u32, RoundingMode, Scalar)>,
) -> (r: Vec<AmortizationPeriod>)
    requires
        round is Some ==> nper > 0,
    ensures
        r@.len() == nper,
        amort_rows(r@, rate@, principal@, pmt@, round_opt(round)),
{
    let mut periods: Vec<AmortizationPeriod> = Vec::new();
    let mut i: u32 = 0;
    while i < nper
        invariant
            i <= nper,
            periods@.len() == i,
        decreases nper - i,
    {
        periods.push(AmortizationPeriod::default());
        i = i + 1;
    }
    amort_schedule_into(&mut periods, rate, principal, pmt, round);
    periods
}

/// Amortization Schedule Into: fills a caller-allocated schedule, one row
/// per element, as `amort_rows` describes.
pub fn amort_schedule_into(
    periods: &mut Vec<AmortizationPeriod>,
    rate: Scalar,
    principal: Scalar,
    pmt: Scalar,
    round: Option<(u32, RoundingMode, Scalar)>,
)
    requires
        round is Some ==> old(periods)@.len() > 0,
        old(periods)@.len() <= u32::MAX,
    ensures
        final(periods)@.len() == old(periods)@.len(),
        amort_rows(final(periods)@, rate@, principal@, pmt@, round_opt(round)),
{
    let ghost rnd = round_opt(round);
    let pmt2 = apply_round(pmt, round).neg();
    let ghost pv2 = pmt2@;
    proof {
        assert(pv2 == amort_pmt2(pmt@, rnd));
    }
    let n = periods.len();
    let mut remaining_balance = principal;
    let mut i: usize = 0;
    while i < n
        invariant
            i <= n,
            n == periods@.len(),
            n <= u32::MAX,
            rnd == round_opt(round),
            pmt2@ == pv2,
            remaining_balance@ == amort_balance(rate@, pv2, rnd, principal@, i as int),
            forall|j: int|
                0 <= j < i ==> {
                    let p = #[trigger] periods@[j];
                    &&& p.period == j + 1
                    &&& p.principal_payment@ == amort_principal(rate@, pv2, rnd, principal@, j)
                    &&& p.interest_payment@ == amort_interest(rate@, pv2, rnd, principal@, j)
                    &&& p.remaining_balance@ == amort_balance(rate@, pv2, rnd, principal@, j + 1)
                },
        decreases n - i,
    {
        proof {
            assert(amort_balance(rate@, pv2, rnd, principal@, i as int + 1) == sub_v(
                amort_balance(rate@, pv2, rnd, principal@, i as int),
                round_applied(
                    sub_v(
                        pv2,
                        mul_v(amort_balance(rate@, pv2, rnd, principal@, i as int), rate@),
                    ),
                    rnd,
                ),
            ));
        }
        let interest_raw = remaining_balance.mul(rate);
        let principal_payment = apply_round(pmt2.sub(interest_raw), round);
        let interest_payment = apply_round(interest_raw, round);
        remaining_balance = remaining_balance.sub(principal_payment);
        let row = AmortizationPeriod::new(
            (i as u32) + 1,
            principal_payment,
            interest_payment,
            remaining_balance,
        );
        periods[i] = row;
        i = i + 1;
    }
    match round {
        Some(_) => {
            let last = n - 1;
            let p = periods[last];
            let adjusted = AmortizationPeriod::new(
                p.period,
                p.principal_payment.add(p.remaining_balance),
                p.interest_payment,
                Scalar::zero(),
            );
            periods[last] = adjusted;
        },
        None => {},
    }
}

} // verus!
