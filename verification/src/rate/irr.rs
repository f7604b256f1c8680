use crate::derivatives::{npv_prime2_sum_v, npv_prime_sum_v, pv_prime2_r_v, pv_prime_r_v};
use crate::error::{FinPrimError, RootFindingError};
use crate::scalar::{abs_i, abs_v, add_v, div_v, from_int_v, pow10, pow10_le_limit, views, views_dated, Scalar};
use crate::tvm::{npv_v, xnpv_v};
use crate::utils::{
    halley, halley_den_v, halley_model_converged, halley_model_exhausted,
    halley_model_zero_denominator, halley_reaches, lemma_halley_chain_model,
    lemma_halley_model_converged_intro, lemma_halley_model_deterministic,
    lemma_halley_model_zero_denominator_intro,
};
use vstd::prelude::*;

verus! {

/// The default solver tolerance, `1e-5`.
pub open spec fn default_tolerance_v() -> int {
    pow10(15)
}

/// The default solver guess, `0.1`.
pub open spec fn default_guess_v() -> int {
    pow10(19)
}

/// The NPV of the schedule as a function of the rate: the objective whose
/// root is the IRR.
pub open spec fn irr_objective(flows: Seq<int>) -> spec_fn(int) -> int {
    |x: int| npv_v(x, flows)
}

/// The objective's derivative: the summed per-period derivatives.
pub open spec fn irr_derivative(flows: Seq<int>) -> spec_fn(int) -> int {
    |x: int| npv_prime_sum_v(x, flows)
}

/// The objective's second derivative: the summed per-period second
/// derivatives.
pub open spec fn irr_derivative2(flows: Seq<int>) -> spec_fn(int) -> int {
    |x: int| npv_prime2_sum_v(x, flows)
}

/// IRR - Internal Rate of Return of a periodic schedule: the rate that
/// makes the schedule's NPV zero, found by Halley's method from `guess`
/// (default 0.1) within `tolerance` (default 1e-5) and `max_iter`
/// (default 20) iterations.
///
/// The outcome is exactly the deterministic Halley iteration on the NPV
/// objective: a success is the first iterate within the budget whose NPV
/// magnitude meets the tolerance; failures carry that same iteration's
/// state, as `halley_model_zero_denominator` and `halley_model_exhausted`
/// describe.
pub fn irr(
    cash_flows: &Vec<Scalar>,
    guess: Option<Scalar>,
    tolerance: Option<Scalar>,
    max_iter: Option<u16>,
) -> (r: Result<Scalar, FinPrimError<Scalar>>)
    ensures
        ({
            let flows = views(cash_flows@);
            let fm = irr_objective(flows);
            let dm = irr_derivative(flows);
            let d2m = irr_derivative2(flows);
            let tol = match tolerance {
                Some(t) => t@,
                None => default_tolerance_v(),
            };
            let x0 = match guess {
                Some(g) => g@,
                None => default_guess_v(),
            };
            let mi = match max_iter {
                Some(m) => m,
                None => 20u16,
            };
            match r {
                Ok(root) => halley_model_converged(fm, dm, d2m, tol, x0, mi, root@),
                Err(e) => match e {
                    FinPrimError::RootFindingError(re) => match re {
                        RootFindingError::DivideByZero { last_x, last_fx } => {
                            &&& halley_model_zero_denominator(fm, dm, d2m, tol, x0, mi, last_x@)
                            &&& last_fx@ == npv_v(last_x@, flows)
                        },
                        RootFindingError::FailedToConverge { last_x, last_fx } => {
                            &&& halley_model_exhausted(fm, dm, d2m, tol, x0, mi, last_x@)
                            &&& last_fx@ == npv_v(last_x@, flows)
                        },
                        RootFindingError::InvalidBracket => false,
                    },
                    FinPrimError::DivideByZero => false,
                },
            }
        }),
{
    let max_iter: u16 = match max_iter {
        Some(m) => m,
        None => 20,
    };
    proof {
        pow10_le_limit(15);
        pow10_le_limit(19);
        assert(abs_i(1int) == 1int && abs_i(1int) * pow10(15) == pow10(15) && abs_i(1int) * pow10(
            19,
        ) == pow10(19)) by (nonlinear_arith);
    }
    let tolerance: Scalar = match tolerance {
        Some(t) => t,
        None => Scalar::from_parts(1, 5),
    };
    let rate: Scalar = match guess {
        Some(g) => g,
        None => Scalar::from_parts(1, 1),
    };
    let f = |x: Scalar| -> (res: Scalar)
        ensures
            res@ == npv_v(x@, views(cash_flows@)),
        { crate::tvm::npv(x, cash_flows) };
    let f_prime = |x: Scalar| -> (res: Scalar)
        ensures
            res@ == npv_prime_sum_v(x@, views(cash_flows@)),
        { crate::derivatives::npv_prime_r(x, cash_flows) };
    let f_prime2 = |x: Scalar| -> (res: Scalar)
        ensures
            res@ == npv_prime2_sum_v(x@, views(cash_flows@)),
        { crate::derivatives::npv_prime2_r(x, cash_flows) };
    let ghost flows = views(cash_flows@);
    let ghost fm = irr_objective(flows);
    let ghost dm = irr_derivative(flows);
    let ghost d2m = irr_derivative2(flows);
    proof {
        assert forall|y: Scalar, rr: Scalar| #[trigger] call_ensures(f, (y,), rr) implies rr@ == fm(
            y@,
        ) by {
            assert(fm(y@) == npv_v(y@, flows));
        }
        assert forall|y: Scalar, rr: Scalar| #[trigger] call_ensures(f_prime, (y,), rr) implies rr@
            == dm(y@) by {
            assert(dm(y@) == npv_prime_sum_v(y@, flows));
        }
        assert forall|y: Scalar, rr: Scalar| #[trigger] call_ensures(f_prime2, (y,), rr) implies rr@
            == d2m(y@) by {
            assert(d2m(y@) == npv_prime2_sum_v(y@, flows));
        }
    }
    let result = halley(rate, f, f_prime, f_prime2, tolerance, max_iter);
    proof {
        match result {
            Ok(root) => {
                let (k, fxw) = choose|k: nat, fxw: Scalar|
                    {
                        &&& #[trigger] halley_reaches(f, f_prime, f_prime2, tolerance, rate, root, k)
                        &&& #[trigger] call_ensures(f, (root,), fxw)
                        &&& k < max_iter as nat
                        &&& abs_v(fxw@) < tolerance@
                    };
                lemma_halley_chain_model(
                    f, f_prime, f_prime2, fm, dm, d2m, tolerance, rate, root, k,
                );
                assert(fm(root@) == npv_v(root@, flows));
                lemma_halley_model_converged_intro(
                    fm, dm, d2m, tolerance@, rate@, max_iter, root@, k,
                );
            },
            Err(e) => match e {
                FinPrimError::RootFindingError(re) => match re {
                    RootFindingError::DivideByZero { last_x, last_fx } => {
                        let (k, dxw, d2xw) = choose|k: nat, dxw: Scalar, d2xw: Scalar|
                            {
                                &&& #[trigger] halley_reaches(
                                    f, f_prime, f_prime2, tolerance, rate, last_x, k,
                                )
                                &&& #[trigger] call_ensures(f_prime, (last_x,), dxw)
                                &&& #[trigger] call_ensures(f_prime2, (last_x,), d2xw)
                                &&& k < max_iter as nat
                                &&& halley_den_v(last_fx@, dxw@, d2xw@) == 0
                            };
                        lemma_halley_chain_model(
                            f, f_prime, f_prime2, fm, dm, d2m, tolerance, rate, last_x, k,
                        );
                        assert(fm(last_x@) == npv_v(last_x@, flows));
                        assert(dm(last_x@) == npv_prime_sum_v(last_x@, flows));
                        assert(d2m(last_x@) == npv_prime2_sum_v(last_x@, flows));
                        lemma_halley_model_zero_denominator_intro(
                            fm, dm, d2m, tolerance@, rate@, max_iter, last_x@, k,
                        );
                    },
                    RootFindingError::FailedToConverge { last_x, last_fx } => {
                        lemma_halley_chain_model(
                            f,
                            f_prime,
                            f_prime2,
                            fm,
                            dm,
                            d2m,
                            tolerance,
                            rate,
                            last_x,
                            max_iter as nat,
                        );
                    },
                    RootFindingError::InvalidBracket => {},
                },
                FinPrimError::DivideByZero => {},
            },
        }
    }
    result
}

/// A dated schedule with every day offset shifted so the first entry sits
/// at day zero.
pub open spec fn normalized_v(table: Seq<(int, int)>) -> Seq<(int, int)> {
    table.map_values(|p: (int, int)| (p.0, p.1 - table[0].1))
}

/// The running sum of per-flow first derivatives of a dated schedule,
/// with each flow's period measured in 365-day years from day zero.
pub open spec fn xirr_prime_sum_rec(rate: int, table: Seq<(int, int)>, i: int, acc: int) -> int
    decreases table.len() - i,
{
    if i < 0 || i >= table.len() {
        acc
    } else {
        xirr_prime_sum_rec(
            rate,
            table,
            i + 1,
            add_v(
                acc,
                pv_prime_r_v(
                    rate,
                    div_v(from_int_v(table[i].1), from_int_v(365)),
                    table[i].0,
                ),
            ),
        )
    }
}

/// The derivative of the dated NPV with respect to the rate.
pub open spec fn xirr_prime_sum_v(rate: int, table: Seq<(int, int)>) -> int {
    xirr_prime_sum_rec(rate, table, 0, 0)
}

/// The running sum of per-flow second derivatives of a dated schedule.
pub open spec fn xirr_prime2_sum_rec(rate: int, table: Seq<(int, int)>, i: int, acc: int) -> int
    decreases table.len() - i,
{
    if i < 0 || i >= table.len() {
        acc
    } else {
        xirr_prime2_sum_rec(
            rate,
            table,
            i + 1,
            add_v(
                acc,
                pv_prime2_r_v(
                    rate,
                    div_v(from_int_v(table[i].1), from_int_v(365)),
                    table[i].0,
                ),
            ),
        )
    }
}

/// The second derivative of the dated NPV with respect to the rate.
pub open spec fn xirr_prime2_sum_v(rate: int, table: Seq<(int, int)>) -> int {
    xirr_prime2_sum_rec(rate, table, 0, 0)
}

/// The dated NPV of the normalized schedule as a function of the rate.
pub open spec fn xirr_objective(table: Seq<(int, int)>) -> spec_fn(int) -> int {
    |x: int| xnpv_v(x, table)
}

/// The dated objective's derivative.
pub open spec fn xirr_derivative(table: Seq<(int, int)>) -> spec_fn(int) -> int {
    |x: int| xirr_prime_sum_v(x, table)
}

/// The dated objective's second derivative.
pub open spec fn xirr_derivative2(table: Seq<(int, int)>) -> spec_fn(int) -> int {
    |x: int| xirr_prime2_sum_v(x, table)
}

/// XIRR - Internal Rate of Return of an irregular, dated schedule: day
/// offsets are normalized so the first entry is day zero, periods are
/// measured in 365-day years, and the rate is found by Halley's method
/// with the same defaults as `irr`.
///
/// The outcome is exactly the deterministic Halley iteration on the dated
/// NPV objective over the normalized schedule.
pub fn xirr(
    flow_table: &Vec<(Scalar, i32)>,
    guess: Option<Scalar>,
    tolerance: Option<Scalar>,
    max_iter: Option<u16>,
) -> (r: Result<Scalar, FinPrimError<Scalar>>)
    requires
        flow_table@.len() > 0,
        forall|j: int|
            0 <= j < flow_table@.len() ==> i32::MIN <= (#[trigger] flow_table@[j]).1
                - flow_table@[0].1 <= i32::MAX,
    ensures
        ({
            let table = normalized_v(views_dated(flow_table@));
            let fm = xirr_objective(table);
            let dm = xirr_derivative(table);
            let d2m = xirr_derivative2(table);
            let tol = match tolerance {
                Some(t) => t@,
                None => default_tolerance_v(),
            };
            let x0 = match guess {
                Some(g) => g@,
                None => default_guess_v(),
            };
            let mi = match max_iter {
                Some(m) => m,
                None => 20u16,
            };
            match r {
                Ok(root) => halley_model_converged(fm, dm, d2m, tol, x0, mi, root@),
                Err(e) => match e {
                    FinPrimError::RootFindingError(re) => match re {
                        RootFindingError::DivideByZero { last_x, last_fx } => {
                            &&& halley_model_zero_denominator(fm, dm, d2m, tol, x0, mi, last_x@)
                            &&& last_fx@ == xnpv_v(last_x@, table)
                        },
                        RootFindingError::FailedToConverge { last_x, last_fx } => {
                            &&& halley_model_exhausted(fm, dm, d2m, tol, x0, mi, last_x@)
                            &&& last_fx@ == xnpv_v(last_x@, table)
                        },
                        RootFindingError::InvalidBracket => false,
                    },
                    FinPrimError::DivideByZero => false,
                },
            }
        }),
{
    let max_iter: u16 = match max_iter {
        Some(m) => m,
        None => 20,
    };
    proof {
        pow10_le_limit(15);
        pow10_le_limit(19);
        assert(abs_i(1int) == 1int && abs_i(1int) * pow10(15) == pow10(15) && abs_i(1int) * pow10(
            19,
        ) == pow10(19)) by (nonlinear_arith);
    }
    let tolerance: Scalar = match tolerance {
        Some(t) => t,
        None => Scalar::from_parts(1, 5),
    };
    let rate: Scalar = match guess {
        Some(g) => g,
        None => Scalar::from_parts(1, 1),
    };
    let init_date = flow_table[0].1;
    let mut norm: Vec<(Scalar, i32)> = Vec::new();
    let mut i: usize = 0;
    while i < flow_table.len()
        invariant
            i <= flow_table@.len(),
            flow_table@.len() > 0,
            init_date == flow_table@[0].1,
            norm@.len() == i,
            forall|j: int|
                0 <= j < i ==> (#[trigger] norm@[j]).0 == flow_table@[j].0 && norm@[j].1 as int
                    == flow_table@[j].1 - flow_table@[0].1,
            forall|j: int|
                0 <= j < flow_table@.len() ==> i32::MIN <= (#[trigger] flow_table@[j]).1
                    - flow_table@[0].1 <= i32::MAX,
        decreases flow_table@.len() - i,
    {
        let (cf, date) = flow_table[i];
        norm.push((cf, date - init_date));
        i = i + 1;
    }
    let ghost table = normalized_v(views_dated(flow_table@));
    proof {
        assert(views_dated(norm@).len() == table.len());
        assert forall|j: int| 0 <= j < table.len() implies views_dated(norm@)[j] == table[j] by {
            assert(views_dated(norm@)[j] == (norm@[j].0@, norm@[j].1 as int));
            assert(views_dated(flow_table@)[j] == (flow_table@[j].0@, flow_table@[j].1 as int));
            assert(views_dated(flow_table@)[0] == (flow_table@[0].0@, flow_table@[0].1 as int));
        }
        assert(views_dated(norm@) =~= table);
        assert(norm@[0].1 == 0);
    }
    let f = |x: Scalar| -> (res: Scalar)
        ensures
            norm@.len() > 0 && norm@[0].1 == 0 ==> res@ == xnpv_v(x@, views_dated(norm@)),
        {
            if norm.len() > 0 && norm[0].1 == 0 {
                crate::tvm::xnpv(x, &norm)
            } else {
                Scalar::zero()
            }
        };
    let yr = Scalar::from_u16(365);
    let f_prime = |x: Scalar| -> (res: Scalar)
        ensures
            res@ == xirr_prime_sum_v(x@, views_dated(norm@)),
        {
            let mut acc = Scalar::zero();
            let mut j: usize = 0;
            while j < norm.len()
                invariant
                    j <= norm@.len(),
                    xirr_prime_sum_rec(x@, views_dated(norm@), j as int, acc@)
                        == xirr_prime_sum_v(x@, views_dated(norm@)),
                decreases norm@.len() - j,
            {
                proof {
                    assert(views_dated(norm@)[j as int] == (norm@[j as int].0@, norm@[
                        j as int].1 as int));
                }
                let (cf, date) = norm[j];
                acc = acc.add(
                    crate::derivatives::pv_prime_r(
                        x,
                        Scalar::from_i32(date).div(Scalar::from_u16(365)),
                        cf,
                    ),
                );
                j = j + 1;
            }
            acc
        };
    let f_prime2 = |x: Scalar| -> (res: Scalar)
        ensures
            res@ == xirr_prime2_sum_v(x@, views_dated(norm@)),
        {
            let mut acc = Scalar::zero();
            let mut j: usize = 0;
            while j < norm.len()
                invariant
                    j <= norm@.len(),
                    xirr_prime2_sum_rec(x@, views_dated(norm@), j as int, acc@)
                        == xirr_prime2_sum_v(x@, views_dated(norm@)),
                decreases norm@.len() - j,
            {
                proof {
                    assert(views_dated(norm@)[j as int] == (norm@[j as int].0@, norm@[
                        j as int].1 as int));
                }
                let (cf, date) = norm[j];
                acc = acc.add(
                    crate::derivatives::pv_prime2_r(
                        x,
                        Scalar::from_i32(date).div(Scalar::from_u16(365)),
                        cf,
                    ),
                );
                j = j + 1;
            }
            acc
        };
    let ghost fm = xirr_objective(table);
    let ghost dm = xirr_derivative(table);
    let ghost d2m = xirr_derivative2(table);
    proof {
        assert forall|y: Scalar, rr: Scalar| #[trigger] call_ensures(f, (y,), rr) implies rr@ == fm(
            y@,
        ) by {
            assert(fm(y@) == xnpv_v(y@, table));
        }
        assert forall|y: Scalar, rr: Scalar| #[trigger] call_ensures(f_prime, (y,), rr) implies rr@
            == dm(y@) by {
            assert(dm(y@) == xirr_prime_sum_v(y@, table));
        }
        assert forall|y: Scalar, rr: Scalar| #[trigger] call_ensures(f_prime2, (y,), rr) implies rr@
            == d2m(y@) by {
            assert(d2m(y@) == xirr_prime2_sum_v(y@, table));
        }
    }
    let result = halley(rate, f, f_prime, f_prime2, tolerance, max_iter);
    proof {
        match result {
            Ok(root) => {
                let (k, fxw) = choose|k: nat, fxw: Scalar|
                    {
                        &&& #[trigger] halley_reaches(f, f_prime, f_prime2, tolerance, rate, root, k)
                        &&& #[trigger] call_ensures(f, (root,), fxw)
                        &&& k < max_iter as nat
                        &&& abs_v(fxw@) < tolerance@
                    };
                lemma_halley_chain_model(
                    f, f_prime, f_prime2, fm, dm, d2m, tolerance, rate, root, k,
                );
                assert(fm(root@) == xnpv_v(root@, table));
                lemma_halley_model_converged_intro(
                    fm, dm, d2m, tolerance@, rate@, max_iter, root@, k,
                );
            },
            Err(e) => match e {
                FinPrimError::RootFindingError(re) => match re {
                    RootFindingError::DivideByZero { last_x, last_fx } => {
                        let (k, dxw, d2xw) = choose|k: nat, dxw: Scalar, d2xw: Scalar|
                            {
                                &&& #[trigger] halley_reaches(
                                    f, f_prime, f_prime2, tolerance, rate, last_x, k,
                                )
                                &&& #[trigger] call_ensures(f_prime, (last_x,), dxw)
                                &&& #[trigger] call_ensures(f_prime2, (last_x,), d2xw)
                                &&& k < max_iter as nat
                                &&& halley_den_v(last_fx@, dxw@, d2xw@) == 0
                            };
                        lemma_halley_chain_model(
                            f, f_prime, f_prime2, fm, dm, d2m, tolerance, rate, last_x, k,
                        );
                        assert(fm(last_x@) == xnpv_v(last_x@, table));
                        assert(dm(last_x@) == xirr_prime_sum_v(last_x@, table));
                        assert(d2m(last_x@) == xirr_prime2_sum_v(last_x@, table));
                        lemma_halley_model_zero_denominator_intro(
                            fm, dm, d2m, tolerance@, rate@, max_iter, last_x@, k,
                        );
                    },
                    RootFindingError::FailedToConverge { last_x, last_fx } => {
                        lemma_halley_chain_model(
                            f,
                            f_prime,
                            f_prime2,
                            fm,
                            dm,
                            d2m,
                            tolerance,
                            rate,
                            last_x,
                            max_iter as nat,
                        );
                        assert(fm(last_x@) == xnpv_v(last_x@, table));
                    },
                    RootFindingError::InvalidBracket => {},
                },
                FinPrimError::DivideByZero => {},
            },
        }
    }
    result
}

/// Identical inputs always produce identical outcomes for the dated
/// solver as well: the Halley model over the dated objective is a
/// deterministic function of the normalized schedule, guess, tolerance
/// and iteration budget.
pub proof fn lemma_xirr_deterministic(
    table: Seq<(int, int)>,
    tol: int,
    x0: int,
    mi: u16,
    a: int,
    b: int,
)
    ensures
        halley_model_converged(
            xirr_objective(table),
            xirr_derivative(table),
            xirr_derivative2(table),
            tol,
            x0,
            mi,
            a,
        ) && halley_model_converged(
            xirr_objective(table),
            xirr_derivative(table),
            xirr_derivative2(table),
            tol,
            x0,
            mi,
            b,
        ) ==> a == b,
        halley_model_converged(
            xirr_objective(table),
            xirr_derivative(table),
            xirr_derivative2(table),
            tol,
            x0,
            mi,
            a,
        ) ==> !halley_model_exhausted(
            xirr_objective(table),
            xirr_derivative(table),
            xirr_derivative2(table),
            tol,
            x0,
            mi,
            b,
        ) && !halley_model_zero_denominator(
            xirr_objective(table),
            xirr_derivative(table),
            xirr_derivative2(table),
            tol,
            x0,
            mi,
            b,
        ),
        halley_model_exhausted(
            xirr_objective(table),
            xirr_derivative(table),
            xirr_derivative2(table),
            tol,
            x0,
            mi,
            a,
        ) && halley_model_exhausted(
            xirr_objective(table),
            xirr_derivative(table),
            xirr_derivative2(table),
            tol,
            x0,
            mi,
            b,
        ) ==> a == b,
{
    lemma_halley_model_deterministic(
        xirr_objective(table),
        xirr_derivative(table),
        xirr_derivative2(table),
        tol,
        x0,
        mi,
        a,
        b,
    );
}

/// Identical inputs always produce identical outcomes: the Halley model
/// the IRR contract is stated over is a deterministic function of the
/// schedule, guess, tolerance and iteration budget, so its three outcomes
/// are mutually exclusive and each determines its reported value.
pub proof fn lemma_irr_deterministic(
    flows: Seq<int>,
    tol: int,
    x0: int,
    mi: u16,
    a: int,
    b: int,
)
    ensures
        halley_model_converged(
            irr_objective(flows),
            irr_derivative(flows),
            irr_derivative2(flows),
            tol,
            x0,
            mi,
            a,
        ) && halley_model_converged(
            irr_objective(flows),
            irr_derivative(flows),
            irr_derivative2(flows),
            tol,
            x0,
            mi,
            b,
        ) ==> a == b,
        halley_model_converged(
            irr_objective(flows),
            irr_derivative(flows),
            irr_derivative2(flows),
            tol,
            x0,
            mi,
            a,
        ) ==> !halley_model_exhausted(
            irr_objective(flows),
            irr_derivative(flows),
            irr_derivative2(flows),
            tol,
            x0,
            mi,
            b,
        ) && !halley_model_zero_denominator(
            irr_objective(flows),
            irr_derivative(flows),
            irr_derivative2(flows),
            tol,
            x0,
            mi,
            b,
        ),
        halley_model_exhausted(
            irr_objective(flows),
            irr_derivative(flows),
            irr_derivative2(flows),
            tol,
            x0,
            mi,
            a,
        ) && halley_model_exhausted(
            irr_objective(flows),
            irr_derivative(flows),
            irr_derivative2(flows),
            tol,
            x0,
            mi,
            b,
        ) ==> a == b,
{
    lemma_halley_model_deterministic(
        irr_objective(flows),
        irr_derivative(flows),
        irr_derivative2(flows),
        tol,
        x0,
        mi,
        a,
        b,
    );
}

} // verus!
