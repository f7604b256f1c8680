use crate::error::{FinPrimError, RootFindingError};
use crate::scalar::{abs_v, div_v, sub_v, Scalar};
use vstd::prelude::*;

verus! {

/// The estimates reachable from `x0` in exactly `k` Newton-Raphson steps:
/// each step starts from a state whose objective value was at least the
/// tolerance in magnitude, divides by a nonzero derivative value, and moves
/// by the Newton update `x - f(x)/f'(x)`.
pub open spec fn newton_reaches<F: Fn(Scalar) -> Scalar, D: Fn(Scalar) -> Scalar>(
    f: F,
    f_prime: D,
    tolerance: Scalar,
    x0: Scalar,
    x: Scalar,
    k: nat,
) -> bool
    decreases k,
{
    if k == 0 {
        x == x0
    } else {
        exists|xp: Scalar, fx: Scalar, dx: Scalar|
            {
                &&& #[trigger] call_ensures(f, (xp,), fx)
                &&& #[trigger] call_ensures(f_prime, (xp,), dx)
                &&& newton_reaches(f, f_prime, tolerance, x0, xp, (k - 1) as nat)
                &&& abs_v(fx@) >= tolerance@
                &&& dx@ != 0
                &&& x@ == sub_v(xp@, div_v(fx@, dx@))
            }
    }
}

/// A successful outcome: `root` was reached in fewer than `max_iter` steps
/// and some objective value returned for it meets the tolerance.
pub open spec fn newton_converged<F: Fn(Scalar) -> Scalar, D: Fn(Scalar) -> Scalar>(
    f: F,
    f_prime: D,
    tolerance: Scalar,
    guess: Scalar,
    root: Scalar,
    max_iter: u16,
) -> bool {
    exists|k: nat, fx: Scalar|
        {
            &&& #[trigger] newton_reaches(f, f_prime, tolerance, guess, root, k)
            &&& #[trigger] call_ensures(f, (root,), fx)
            &&& k < max_iter as nat
            &&& abs_v(fx@) < tolerance@
        }
}

/// A zero-derivative outcome: `last_x` was reached in fewer than `max_iter`
/// steps and the derivative returned exactly zero there.
pub open spec fn newton_zero_derivative<F: Fn(Scalar) -> Scalar, D: Fn(Scalar) -> Scalar>(
    f: F,
    f_prime: D,
    tolerance: Scalar,
    guess: Scalar,
    last_x: Scalar,
    max_iter: u16,
) -> bool {
    exists|k: nat, dx: Scalar|
        {
            &&& #[trigger] newton_reaches(f, f_prime, tolerance, guess, last_x, k)
            &&& #[trigger] call_ensures(f_prime, (last_x,), dx)
            &&& k < max_iter as nat
            &&& dx@ == 0
        }
}

proof fn lemma_newton_converged_intro<F: Fn(Scalar) -> Scalar, D: Fn(Scalar) -> Scalar>(
    f: F,
    f_prime: D,
    tolerance: Scalar,
    guess: Scalar,
    root: Scalar,
    max_iter: u16,
    k: nat,
    fx: Scalar,
)
    requires
        newton_reaches(f, f_prime, tolerance, guess, root, k),
        call_ensures(f, (root,), fx),
        k < max_iter as nat,
        abs_v(fx@) < tolerance@,
    ensures
        newton_converged(f, f_prime, tolerance, guess, root, max_iter),
{
}

proof fn lemma_newton_zero_derivative_intro<F: Fn(Scalar) -> Scalar, D: Fn(Scalar) -> Scalar>(
    f: F,
    f_prime: D,
    tolerance: Scalar,
    guess: Scalar,
    last_x: Scalar,
    max_iter: u16,
    k: nat,
    dx: Scalar,
)
    requires
        newton_reaches(f, f_prime, tolerance, guess, last_x, k),
        call_ensures(f_prime, (last_x,), dx),
        k < max_iter as nat,
        dx@ == 0,
    ensures
        newton_zero_derivative(f, f_prime, tolerance, guess, last_x, max_iter),
{
}

/// Newton-Raphson root finding: starting from `guess`, iterate
/// `x <- x - f(x)/f'(x)` until `|f(x)|` drops below `tolerance`, the
/// derivative hits exactly zero, or `max_iter` iterations are spent.
///
/// The result is fully accounted for: a success is a state reached by fewer
/// than `max_iter` Newton steps whose objective value meets the tolerance; a
/// `DivideByZero` carries a reached state at which the derivative returned
/// zero while the objective still missed the tolerance; a
/// `FailedToConverge` carries the state after exactly `max_iter` steps with
/// its objective value. `InvalidBracket` and the arithmetic `DivideByZero`
/// are never returned.
pub fn newton_raphson<F: Fn(Scalar) -> Scalar, D: Fn(Scalar) -> Scalar>(
    guess: Scalar,
    f: F,
    f_prime: D,
    tolerance: Scalar,
    max_iter: u16,
) -> (r: Result<Scalar, FinPrimError<Scalar>>)
    requires
        forall|x: Scalar| #[trigger] call_requires(f, (x,)),
        forall|x: Scalar| #[trigger] call_requires(f_prime, (x,)),
    ensures
        match r {
            Ok(root) => newton_converged(f, f_prime, tolerance, guess, root, max_iter),
            Err(e) => match e {
                FinPrimError::RootFindingError(re) => match re {
                    RootFindingError::DivideByZero { last_x, last_fx } => {
                        &&& call_ensures(f, (last_x,), last_fx)
                        &&& abs_v(last_fx@) >= tolerance@
                        &&& newton_zero_derivative(f, f_prime, tolerance, guess, last_x, max_iter)
                    },
                    RootFindingError::FailedToConverge { last_x, last_fx } => {
                        &&& newton_reaches(f, f_prime, tolerance, guess, last_x, max_iter as nat)
                        &&& call_ensures(f, (last_x,), last_fx)
                    },
                    RootFindingError::InvalidBracket => false,
                },
                FinPrimError::DivideByZero => false,
            },
        },
{
    let mut x = guess;
    let mut fx = f(x);
    let mut i: u16 = 0;
    while i < max_iter
        invariant
            i <= max_iter,
            forall|y: Scalar| #[trigger] call_requires(f, (y,)),
            forall|y: Scalar| #[trigger] call_requires(f_prime, (y,)),
            newton_reaches(f, f_prime, tolerance, guess, x, i as nat),
            call_ensures(f, (x,), fx),
        decreases max_iter - i,
    {
        if fx.abs().lt(&tolerance) {
            proof {
                lemma_newton_converged_intro(
                    f,
                    f_prime,
                    tolerance,
                    guess,
                    x,
                    max_iter,
                    i as nat,
                    fx,
                );
            }
            return Ok(x);
        }
        let dx = f_prime(x);
        if dx.is_zero() {
            proof {
                lemma_newton_zero_derivative_intro(
                    f,
                    f_prime,
                    tolerance,
                    guess,
                    x,
                    max_iter,
                    i as nat,
                    dx,
                );
            }
            return Err(
                FinPrimError::RootFindingError(
                    RootFindingError::DivideByZero { last_x: x, last_fx: fx },
                ),
            );
        }
        let x_next = x.sub(fx.div(dx));
        proof {
            assert(newton_reaches(f, f_prime, tolerance, guess, x_next, (i + 1) as nat)) by {
                assert(call_ensures(f, (x,), fx));
                assert(call_ensures(f_prime, (x,), dx));
                assert(newton_reaches(f, f_prime, tolerance, guess, x, i as nat));
                assert(x_next@ == sub_v(x@, div_v(fx@, dx@)));
            }
        }
        x = x_next;
        fx = f(x);
        i = i + 1;
    }
    Err(FinPrimError::RootFindingError(RootFindingError::FailedToConverge { last_x: x, last_fx: fx }))
}

/// A derivative that can only ever return zero stops the solver before it
/// takes a single step: any state the iteration reaches is the original
/// guess, so a `DivideByZero` failure reports `last_x == guess`.
pub proof fn lemma_newton_zero_derivative_detected<F: Fn(Scalar) -> Scalar, D: Fn(Scalar) -> Scalar>(
    f: F,
    f_prime: D,
    tolerance: Scalar,
    guess: Scalar,
    last_x: Scalar,
    max_iter: u16,
)
    requires
        forall|x: Scalar, dx: Scalar| #[trigger] call_ensures(f_prime, (x,), dx) ==> dx@ == 0,
        newton_zero_derivative(f, f_prime, tolerance, guess, last_x, max_iter),
    ensures
        last_x == guess,
{
    let (k, dxw) = choose|k: nat, dxw: Scalar|
        {
            &&& #[trigger] newton_reaches(f, f_prime, tolerance, guess, last_x, k)
            &&& #[trigger] call_ensures(f_prime, (last_x,), dxw)
            &&& k < max_iter as nat
            &&& dxw@ == 0
        };
    lemma_newton_chain_needs_nonzero_derivative(f, f_prime, tolerance, guess, last_x, k);
}

/// No Newton chain of positive length exists when the derivative can only
/// return zero: each step requires a nonzero derivative value.
proof fn lemma_newton_chain_needs_nonzero_derivative<
    F: Fn(Scalar) -> Scalar,
    D: Fn(Scalar) -> Scalar,
>(f: F, f_prime: D, tolerance: Scalar, guess: Scalar, last_x: Scalar, k: nat)
    requires
        forall|x: Scalar, dx: Scalar| #[trigger] call_ensures(f_prime, (x,), dx) ==> dx@ == 0,
        newton_reaches(f, f_prime, tolerance, guess, last_x, k),
    ensures
        last_x == guess,
        k == 0,
{
    if k > 0 {
        let (xp, fx, dx) = choose|xp: Scalar, fx: Scalar, dx: Scalar|
            {
                &&& #[trigger] call_ensures(f, (xp,), fx)
                &&& #[trigger] call_ensures(f_prime, (xp,), dx)
                &&& newton_reaches(f, f_prime, tolerance, guess, xp, (k - 1) as nat)
                &&& abs_v(fx@) >= tolerance@
                &&& dx@ != 0
                &&& last_x@ == sub_v(xp@, div_v(fx@, dx@))
            };
        assert(dx@ == 0);
        assert(false);
    }
}

/// With a budget of one iteration, a state reached by the full budget is
/// exactly one Newton update away from the guess: the solver performs one
/// step and no more.
pub proof fn lemma_newton_single_iteration_budget<F: Fn(Scalar) -> Scalar, D: Fn(Scalar) -> Scalar>(
    f: F,
    f_prime: D,
    tolerance: Scalar,
    guess: Scalar,
    last_x: Scalar,
)
    requires
        newton_reaches(f, f_prime, tolerance, guess, last_x, 1),
    ensures
        exists|fx: Scalar, dx: Scalar|
            {
                &&& #[trigger] call_ensures(f, (guess,), fx)
                &&& #[trigger] call_ensures(f_prime, (guess,), dx)
                &&& abs_v(fx@) >= tolerance@
                &&& dx@ != 0
                &&& last_x@ == sub_v(guess@, div_v(fx@, dx@))
            },
{
    let (xp, fx, dx) = choose|xp: Scalar, fx: Scalar, dx: Scalar|
        {
            &&& #[trigger] call_ensures(f, (xp,), fx)
            &&& #[trigger] call_ensures(f_prime, (xp,), dx)
            &&& newton_reaches(f, f_prime, tolerance, guess, xp, 0)
            &&& abs_v(fx@) >= tolerance@
            &&& dx@ != 0
            &&& last_x@ == sub_v(xp@, div_v(fx@, dx@))
        };
    assert(xp == guess);
    assert(call_ensures(f, (guess,), fx));
    assert(call_ensures(f_prime, (guess,), dx));
}

} // verus!
