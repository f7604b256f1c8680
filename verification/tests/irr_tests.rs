use rust_finprim::rate::{irr, xirr};
use rust_finprim::tvm::{npv, xnpv};
use rust_finprim::utils::{halley, newton_raphson};
use rust_finprim::{FinPrimError, RootFindingError, Scalar};

fn si(m: i64, scale: u32) -> Scalar {
    Scalar::from_parts(m, scale)
}

#[test]
fn test_irr() {
    let cash_flows = vec![si(-100, 0), si(50, 0), si(40, 0), si(30, 0), si(1000, 0)];
    let result = irr(&cash_flows, None, Some(si(1, 5)), None);
    let expected = si(1008240536, 9);
    let rate = result.unwrap();
    assert!(
        rate.sub(expected).abs().lt(&si(1, 5)),
        "irr failed on cash flows of -100, 50, 40, 30, 1000: {:?}",
        rate
    );
}

#[test]
fn irr_test_irr() {
    // With a tolerance of 1e-20 the solver may fail to satisfy the bound;
    // the reported rate must still agree with the reference root.
    let cash_flows = vec![si(-100, 0), si(50, 0), si(40, 0), si(30, 0), si(1000, 0)];
    let result = irr(&cash_flows, None, Some(si(1, 20)), None);
    let expected = si(1008240536, 9);
    match result {
        Ok(rate) => {
            assert!(npv(rate, &cash_flows).abs().lt(&si(1, 20)));
        },
        Err(FinPrimError::RootFindingError(RootFindingError::FailedToConverge {
            last_x,
            last_fx: _,
        })) => {
            assert!(
                last_x.sub(expected).abs().lt(&si(1, 5)),
                "rate at 1e-20 tolerance drifted: {:?}",
                last_x
            );
        },
        other => panic!("unexpected irr outcome: {:?}", other),
    }
}

#[test]
fn test_xirr() {
    let flow_table: Vec<(Scalar, i32)> = vec![
        (si(-100, 0), 0),
        (si(50, 0), 359),
        (si(40, 0), 400),
        (si(30, 0), 1000),
        (si(20, 0), 2000),
    ];
    let result = xirr(&flow_table, None, Some(si(1, 5)), None);
    let expected = si(20084, 5);
    let rate = result.unwrap();
    assert!(
        rate.sub(expected).abs().lt(&si(1, 5)),
        "xirr failed on cash flows of -100, 50, 40, 30, 20: {:?}",
        rate
    );
}

#[test]
fn irr_test_xirr() {
    // Either the solver meets the 1e-20 tolerance, or it reports
    // FailedToConverge with a rate within 1e-5 of the reference 0.20084.
    let flow_table: Vec<(Scalar, i32)> = vec![
        (si(-100, 0), 0),
        (si(50, 0), 359),
        (si(40, 0), 400),
        (si(30, 0), 1000),
        (si(20, 0), 2000),
    ];
    let result = xirr(&flow_table, None, Some(si(1, 20)), None);
    let expected = si(20084, 5);
    match result {
        Ok(rate) => {
            assert!(xnpv(rate, &flow_table).abs().lt(&si(1, 20)));
        },
        Err(FinPrimError::RootFindingError(RootFindingError::FailedToConverge {
            last_x,
            last_fx: _,
        })) => {
            assert!(
                last_x.sub(expected).abs().lt(&si(1, 5)),
                "rate at 1e-20 tolerance drifted: {:?}",
                last_x
            );
        },
        other => panic!("unexpected xirr outcome: {:?}", other),
    }
}

#[test]
fn test_newton_divide_by_zero_detected() {
    // An objective whose derivative is identically zero at the guess must
    // stop immediately with DivideByZero carrying the guess.
    let guess = si(3, 0);
    let f = |_x: Scalar| Scalar::one();
    let f_prime = |_x: Scalar| Scalar::zero();
    let result = newton_raphson(guess, f, f_prime, si(1, 5), 20);
    match result {
        Err(FinPrimError::RootFindingError(RootFindingError::DivideByZero { last_x, last_fx })) => {
            assert_eq!(last_x, guess);
            assert_eq!(last_fx, Scalar::one());
        },
        other => panic!("expected DivideByZero, got {:?}", other),
    }
}

#[test]
fn test_halley_divide_by_zero_detected() {
    // A constant objective makes the Halley denominator exactly zero.
    let guess = si(7, 0);
    let f = |_x: Scalar| Scalar::one();
    let f_prime = |_x: Scalar| Scalar::zero();
    let f_prime2 = |_x: Scalar| Scalar::zero();
    let result = halley(guess, f, f_prime, f_prime2, si(1, 5), 20);
    match result {
        Err(FinPrimError::RootFindingError(RootFindingError::DivideByZero { last_x, last_fx })) => {
            assert_eq!(last_x, guess);
            assert_eq!(last_fx, Scalar::one());
        },
        other => panic!("expected DivideByZero, got {:?}", other),
    }
}

#[test]
fn test_iteration_budget_respected() {
    // With max_iter = 1 and a guess far from the root, the solver performs
    // exactly one Newton update and reports FailedToConverge there.
    let guess = si(100, 0);
    // f(x) = x, f'(x) = 1: one update step jumps straight to zero.
    let f = |x: Scalar| x;
    let f_prime = |_x: Scalar| Scalar::one();
    let result = newton_raphson(guess, f, f_prime, si(1, 5), 1);
    match result {
        Err(FinPrimError::RootFindingError(RootFindingError::FailedToConverge {
            last_x,
            last_fx,
        })) => {
            // One step from 100 with f(x)=x lands exactly on 0.
            assert_eq!(last_x, Scalar::zero());
            assert_eq!(last_fx, Scalar::zero());
        },
        other => panic!("expected FailedToConverge, got {:?}", other),
    }
}

#[test]
fn test_irr_deterministic() {
    let cash_flows = vec![si(-100, 0), si(50, 0), si(40, 0), si(30, 0), si(20, 0)];
    let first = irr(&cash_flows, None, None, None);
    let second = irr(&cash_flows, None, None, None);
    assert_eq!(first, second);
    // The default tolerance run also satisfies the convergence property:
    // |npv(rate)| < 1e-5.
    let rate = first.unwrap();
    assert!(npv(rate, &cash_flows).abs().lt(&si(1, 5)));
}

#[test]
fn test_xirr_deterministic() {
    let flow_table: Vec<(Scalar, i32)> = vec![
        (si(-100, 0), 0),
        (si(50, 0), 359),
        (si(40, 0), 400),
        (si(30, 0), 1000),
        (si(20, 0), 2000),
    ];
    let first = xirr(&flow_table, None, None, None);
    let second = xirr(&flow_table, None, None, None);
    assert_eq!(first, second);
}
