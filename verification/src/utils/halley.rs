use crate::error::{FinPrimError, RootFindingError};
use crate::scalar::{abs_v, div_v, mul_v, sub_v, Scalar, UNIT};
use vstd::prelude::*;

verus! {

/// Numerator of a Halley step: `2 * f(x) * f'(x)`.
pub open spec fn halley_num_v(fx: int, dx: int) -> int {
    mul_v(mul_v(2 * UNIT as int, fx), dx)
}

/// Denominator of a Halley step: `2 * f'(x)^2 - f(x) * f''(x)`.
pub open spec fn halley_den_v(fx: int, dx: int, d2x: int) -> int {
    sub_v(mul_v(mul_v(2 * UNIT as int, dx), dx), mul_v(fx, d2x))
}

/// The numerator and denominator of the Halley step, returned separately so
/// the caller can test the denominator before dividing.
pub(crate) fn step_halley(f_x: Scalar, f_prime_x: Scalar, f_prime2_x: Scalar) -> (r: (
    Scalar,
    Scalar,
))
    ensures
        r.0@ == halley_num_v(f_x@, f_prime_x@),
        r.1@ == halley_den_v(f_x@, f_prime_x@, f_prime2_x@),
{
    let two = Scalar::two();
    let numerator = two.mul(f_x).mul(f_prime_x);
    let denominator = two.mul(f_prime_x).mul(f_prime_x).sub(f_x.mul(f_prime2_x));
    (numerator, denominator)
}

/// The estimates reachable from `x0` in exactly `k` Halley steps: each step
/// starts from a state whose objective value was at least the tolerance in
/// magnitude, divides by a nonzero Halley denominator, and moves by
/// `x - (2 f f') / (2 f'^2 - f f'')`.
pub open spec fn halley_reaches<
    F: Fn(Scalar) -> Scalar,
    D: Fn(Scalar) -> Scalar,
    D2: Fn(Scalar) -> Scalar,
>(f: F, f_prime: D, f_prime2: D2, tolerance: Scalar, x0: Scalar, x: Scalar, k: nat) -> bool
    decreases k,
{
    if k == 0 {
        x == x0
    } else {
        exists|xp: Scalar, fx: Scalar, dx: Scalar, d2x: Scalar|
            {
                &&& #[trigger] call_ensures(f, (xp,), fx)
                &&& #[trigger] call_ensures(f_prime, (xp,), dx)
                &&& #[trigger] call_ensures(f_prime2, (xp,), d2x)
                &&& halley_reaches(f, f_prime, f_prime2, tolerance, x0, xp, (k - 1) as nat)
                &&& abs_v(fx@) >= tolerance@
                &&& halley_den_v(fx@, dx@, d2x@) != 0
                &&& x@ == sub_v(
                    xp@,
                    div_v(halley_num_v(fx@, dx@), halley_den_v(fx@, dx@, d2x@)),
                )
            }
    }
}

/// A successful outcome: `root` was reached in fewer than `max_iter` steps
/// and some objective value returned for it meets the tolerance.
pub open spec fn halley_converged<
    F: Fn(Scalar) -> Scalar,
    D: Fn(Scalar) -> Scalar,
    D2: Fn(Scalar) -> Scalar,
>(f: F, f_prime: D, f_prime2: D2, tolerance: Scalar, guess: Scalar, root: Scalar, max_iter: u16) -> bool {
    exists|k: nat, fx: Scalar|
        {
            &&& #[trigger] halley_reaches(f, f_prime, f_prime2, tolerance, guess, root, k)
            &&& #[trigger] call_ensures(f, (root,), fx)
            &&& k < max_iter as nat
            &&& abs_v(fx@) < tolerance@
        }
}

/// A zero-denominator outcome: `last_x` was reached in fewer than
/// `max_iter` steps, and derivative values returned there make the Halley
/// denominator exactly zero together with `last_fx`.
pub open spec fn halley_zero_denominator<
    F: Fn(Scalar) -> Scalar,
    D: Fn(Scalar) -> Scalar,
    D2: Fn(Scalar) -> Scalar,
>(
    f: F,
    f_prime: D,
    f_prime2: D2,
    tolerance: Scalar,
    guess: Scalar,
    last_x: Scalar,
    last_fx: Scalar,
    max_iter: u16,
) -> bool {
    exists|k: nat, dx: Scalar, d2x: Scalar|
        {
            &&& #[trigger] halley_reaches(f, f_prime, f_prime2, tolerance, guess, last_x, k)
            &&& #[trigger] call_ensures(f_prime, (last_x,), dx)
            &&& #[trigger] call_ensures(f_prime2, (last_x,), d2x)
            &&& k < max_iter as nat
            &&& halley_den_v(last_fx@, dx@, d2x@) == 0
        }
}

proof fn lemma_halley_converged_intro<
    F: Fn(Scalar) -> Scalar,
    D: Fn(Scalar) -> Scalar,
    D2: Fn(Scalar) -> Scalar,
>(
    f: F,
    f_prime: D,
    f_prime2: D2,
    tolerance: Scalar,
    guess: Scalar,
    root: Scalar,
    max_iter: u16,
    k: nat,
    fx: Scalar,
)
    requires
        halley_reaches(f, f_prime, f_prime2, tolerance, guess, root, k),
        call_ensures(f, (root,), fx),
        k < max_iter as nat,
        abs_v(fx@) < tolerance@,
    ensures
        halley_converged(f, f_prime, f_prime2, tolerance, guess, root, max_iter),
{
}

proof fn lemma_halley_zero_denominator_intro<
    F: Fn(Scalar) -> Scalar,
    D: Fn(Scalar) -> Scalar,
    D2: Fn(Scalar) -> Scalar,
>(
    f: F,
    f_prime: D,
    f_prime2: D2,
    tolerance: Scalar,
    guess: Scalar,
    last_x: Scalar,
    last_fx: Scalar,
    max_iter: u16,
    k: nat,
    dx: Scalar,
    d2x: Scalar,
)
    requires
        halley_reaches(f, f_prime, f_prime2, tolerance, guess, last_x, k),
        call_ensures(f_prime, (last_x,), dx),
        call_ensures(f_prime2, (last_x,), d2x),
        k < max_iter as nat,
        halley_den_v(last_fx@, dx@, d2x@) == 0,
    ensures
        halley_zero_denominator(
            f,
            f_prime,
            f_prime2,
            tolerance,
            guess,
            last_x,
            last_fx,
            max_iter,
        ),
{
}

/// Halley's method: starting from `guess`, iterate
/// `x <- x - (2 f f') / (2 f'^2 - f f'')` until `|f(x)|` drops below
/// `tolerance`, the denominator hits exactly zero, or `max_iter` iterations
/// are spent.
///
/// The result is fully accounted for, in the same shape as
/// `newton_raphson`: a success is a state reached by fewer than `max_iter`
/// Halley steps whose objective value meets the tolerance; `DivideByZero`
/// carries a reached state whose denominator evaluated to zero while the
/// objective still missed the tolerance; `FailedToConverge` carries the
/// state after exactly `max_iter` steps with its objective value.
pub fn halley<F: Fn(Scalar) -> Scalar, D: Fn(Scalar) -> Scalar, D2: Fn(Scalar) -> Scalar>(
    guess: Scalar,
    f: F,
    f_prime: D,
    f_prime2: D2,
    tolerance: Scalar,
    max_iter: u16,
) -> (r: Result<Scalar, FinPrimError<Scalar>>)
    requires
        forall|x: Scalar| #[trigger] call_requires(f, (x,)),
        forall|x: Scalar| #[trigger] call_requires(f_prime, (x,)),
        forall|x: Scalar| #[trigger] call_requires(f_prime2, (x,)),
    ensures
        match r {
            Ok(root) => halley_converged(f, f_prime, f_prime2, tolerance, guess, root, max_iter),
            Err(e) => match e {
                FinPrimError::RootFindingError(re) => match re {
                    RootFindingError::DivideByZero { last_x, last_fx } => {
                        &&& call_ensures(f, (last_x,), last_fx)
                        &&& abs_v(last_fx@) >= tolerance@
                        &&& halley_zero_denominator(
                            f,
                            f_prime,
                            f_prime2,
                            tolerance,
                            guess,
                            last_x,
                            last_fx,
                            max_iter,
                        )
                    },
                    RootFindingError::FailedToConverge { last_x, last_fx } => {
                        &&& halley_reaches(
                            f,
                            f_prime,
                            f_prime2,
                            tolerance,
                            guess,
                            last_x,
                            max_iter as nat,
                        )
                        &&& call_ensures(f, (last_x,), last_fx)
                    },
                    RootFindingError::InvalidBracket => false,
                },
                FinPrimError::DivideByZero => false,
            },
        },
{
    let mut x = guess;
    let mut fx = f(x);
    let mut i: u16 = 0;
    while i < max_iter
        invariant
            i <= max_iter,
            forall|y: Scalar| #[trigger] call_requires(f, (y,)),
            forall|y: Scalar| #[trigger] call_requires(f_prime, (y,)),
            forall|y: Scalar| #[trigger] call_requires(f_prime2, (y,)),
            halley_reaches(f, f_prime, f_prime2, tolerance, guess, x, i as nat),
            call_ensures(f, (x,), fx),
        decreases max_iter - i,
    {
        if fx.abs().lt(&tolerance) {
            proof {
                lemma_halley_converged_intro(
                    f,
                    f_prime,
                    f_prime2,
                    tolerance,
                    guess,
                    x,
                    max_iter,
                    i as nat,
                    fx,
                );
            }
            return Ok(x);
        }
        let f_prime_x = f_prime(x);
        let f_prime2_x = f_prime2(x);
        let (numerator, denominator) = step_halley(fx, f_prime_x, f_prime2_x);
        if denominator.is_zero() {
            proof {
                lemma_halley_zero_denominator_intro(
                    f,
                    f_prime,
                    f_prime2,
                    tolerance,
                    guess,
                    x,
                    fx,
                    max_iter,
                    i as nat,
                    f_prime_x,
                    f_prime2_x,
                );
            }
            return Err(
                FinPrimError::RootFindingError(
                    RootFindingError::DivideByZero { last_x: x, last_fx: fx },
                ),
            );
        }
        let x_next = x.sub(numerator.div(denominator));
        proof {
            assert(halley_reaches(f, f_prime, f_prime2, tolerance, guess, x_next, (i + 1) as nat))
                by {
                assert(call_ensures(f, (x,), fx));
                assert(call_ensures(f_prime, (x,), f_prime_x));
                assert(call_ensures(f_prime2, (x,), f_prime2_x));
                assert(halley_reaches(f, f_prime, f_prime2, tolerance, guess, x, i as nat));
                assert(x_next@ == sub_v(
                    x@,
                    div_v(
                        halley_num_v(fx@, f_prime_x@),
                        halley_den_v(fx@, f_prime_x@, f_prime2_x@),
                    ),
                ));
            }
        }
        x = x_next;
        fx = f(x);
        i = i + 1;
    }
    Err(FinPrimError::RootFindingError(RootFindingError::FailedToConverge { last_x: x, last_fx: fx }))
}

/// One step of the Halley iteration for a deterministic objective model
/// `fm` with derivative models `dm` and `d2m`.
pub open spec fn halley_model_step(
    fm: spec_fn(int) -> int,
    dm: spec_fn(int) -> int,
    d2m: spec_fn(int) -> int,
    x: int,
) -> int {
    sub_v(x, div_v(halley_num_v(fm(x), dm(x)), halley_den_v(fm(x), dm(x), d2m(x))))
}

/// The estimate after exactly `k` Halley steps of a deterministic model.
pub open spec fn halley_model_iterate(
    fm: spec_fn(int) -> int,
    dm: spec_fn(int) -> int,
    d2m: spec_fn(int) -> int,
    x0: int,
    k: nat,
) -> int
    decreases k,
{
    if k == 0 {
        x0
    } else {
        halley_model_step(fm, dm, d2m, halley_model_iterate(fm, dm, d2m, x0, (k - 1) as nat))
    }
}

/// The first `k` iterates of the model neither met the tolerance nor hit a
/// zero denominator: the iteration was still running.
pub open spec fn halley_model_running(
    fm: spec_fn(int) -> int,
    dm: spec_fn(int) -> int,
    d2m: spec_fn(int) -> int,
    tol: int,
    x0: int,
    k: nat,
) -> bool {
    forall|j: nat|
        j < k ==> {
            let y = #[trigger] halley_model_iterate(fm, dm, d2m, x0, j);
            abs_v(fm(y)) >= tol && halley_den_v(fm(y), dm(y), d2m(y)) != 0
        }
}

/// A converged model outcome: `root` is the first-reached iterate, within
/// the budget, whose objective value meets the tolerance.
pub open spec fn halley_model_converged(
    fm: spec_fn(int) -> int,
    dm: spec_fn(int) -> int,
    d2m: spec_fn(int) -> int,
    tol: int,
    x0: int,
    mi: u16,
    root: int,
) -> bool {
    &&& exists|k: nat|
        k < mi as nat && #[trigger] halley_model_running(fm, dm, d2m, tol, x0, k) && root
            == halley_model_iterate(fm, dm, d2m, x0, k)
    &&& abs_v(fm(root)) < tol
}

/// A zero-denominator model outcome: `last_x` is a still-running iterate
/// within the budget whose objective value misses the tolerance while the
/// Halley denominator vanishes.
pub open spec fn halley_model_zero_denominator(
    fm: spec_fn(int) -> int,
    dm: spec_fn(int) -> int,
    d2m: spec_fn(int) -> int,
    tol: int,
    x0: int,
    mi: u16,
    last_x: int,
) -> bool {
    &&& exists|k: nat|
        k < mi as nat && #[trigger] halley_model_running(fm, dm, d2m, tol, x0, k) && last_x
            == halley_model_iterate(fm, dm, d2m, x0, k)
    &&& abs_v(fm(last_x)) >= tol
    &&& halley_den_v(fm(last_x), dm(last_x), d2m(last_x)) == 0
}

/// An exhausted model outcome: the iteration ran through the whole budget
/// and `last_x` is the final iterate.
pub open spec fn halley_model_exhausted(
    fm: spec_fn(int) -> int,
    dm: spec_fn(int) -> int,
    d2m: spec_fn(int) -> int,
    tol: int,
    x0: int,
    mi: u16,
    last_x: int,
) -> bool {
    &&& halley_model_running(fm, dm, d2m, tol, x0, mi as nat)
    &&& last_x == halley_model_iterate(fm, dm, d2m, x0, mi as nat)
}

/// Every state the solver's chain reaches against closures that exactly
/// compute a deterministic model is the model's own iterate, and the model
/// was still running up to that point.
pub proof fn lemma_halley_chain_model<
    F: Fn(Scalar) -> Scalar,
    D: Fn(Scalar) -> Scalar,
    D2: Fn(Scalar) -> Scalar,
>(
    f: F,
    f_prime: D,
    f_prime2: D2,
    fm: spec_fn(int) -> int,
    dm: spec_fn(int) -> int,
    d2m: spec_fn(int) -> int,
    tolerance: Scalar,
    x0: Scalar,
    x: Scalar,
    k: nat,
)
    requires
        forall|y: Scalar, r: Scalar| #[trigger] call_ensures(f, (y,), r) ==> r@ == fm(y@),
        forall|y: Scalar, r: Scalar| #[trigger] call_ensures(f_prime, (y,), r) ==> r@ == dm(y@),
        forall|y: Scalar, r: Scalar| #[trigger] call_ensures(f_prime2, (y,), r) ==> r@ == d2m(y@),
        halley_reaches(f, f_prime, f_prime2, tolerance, x0, x, k),
    ensures
        x@ == halley_model_iterate(fm, dm, d2m, x0@, k),
        halley_model_running(fm, dm, d2m, tolerance@, x0@, k),
    decreases k,
{
    if k == 0 {
        assert forall|j: nat| j < k implies {
            let y = #[trigger] halley_model_iterate(fm, dm, d2m, x0@, j);
            abs_v(fm(y)) >= tolerance@ && halley_den_v(fm(y), dm(y), d2m(y)) != 0
        } by {}
    } else {
        let (xp, fx, dx, d2x) = choose|xp: Scalar, fx: Scalar, dx: Scalar, d2x: Scalar|
            {
                &&& #[trigger] call_ensures(f, (xp,), fx)
                &&& #[trigger] call_ensures(f_prime, (xp,), dx)
                &&& #[trigger] call_ensures(f_prime2, (xp,), d2x)
                &&& halley_reaches(f, f_prime, f_prime2, tolerance, x0, xp, (k - 1) as nat)
                &&& abs_v(fx@) >= tolerance@
                &&& halley_den_v(fx@, dx@, d2x@) != 0
                &&& x@ == sub_v(
                    xp@,
                    div_v(halley_num_v(fx@, dx@), halley_den_v(fx@, dx@, d2x@)),
                )
            };
        lemma_halley_chain_model(f, f_prime, f_prime2, fm, dm, d2m, tolerance, x0, xp, (k - 1) as nat);
        assert(fx@ == fm(xp@));
        assert(dx@ == dm(xp@));
        assert(d2x@ == d2m(xp@));
        assert(x@ == halley_model_step(fm, dm, d2m, xp@));
        assert forall|j: nat| j < k implies {
            let y = #[trigger] halley_model_iterate(fm, dm, d2m, x0@, j);
            abs_v(fm(y)) >= tolerance@ && halley_den_v(fm(y), dm(y), d2m(y)) != 0
        } by {
            if j < (k - 1) as nat {
                assert(halley_model_running(fm, dm, d2m, tolerance@, x0@, (k - 1) as nat));
            } else {
                assert(halley_model_iterate(fm, dm, d2m, x0@, j) == xp@);
            }
        }
    }
}

/// Exhibiting a stopping index establishes the converged outcome.
pub proof fn lemma_halley_model_converged_intro(
    fm: spec_fn(int) -> int,
    dm: spec_fn(int) -> int,
    d2m: spec_fn(int) -> int,
    tol: int,
    x0: int,
    mi: u16,
    root: int,
    k: nat,
)
    requires
        k < mi as nat,
        halley_model_running(fm, dm, d2m, tol, x0, k),
        root == halley_model_iterate(fm, dm, d2m, x0, k),
        abs_v(fm(root)) < tol,
    ensures
        halley_model_converged(fm, dm, d2m, tol, x0, mi, root),
{
}

/// Exhibiting a stopping index establishes the zero-denominator outcome.
pub proof fn lemma_halley_model_zero_denominator_intro(
    fm: spec_fn(int) -> int,
    dm: spec_fn(int) -> int,
    d2m: spec_fn(int) -> int,
    tol: int,
    x0: int,
    mi: u16,
    last_x: int,
    k: nat,
)
    requires
        k < mi as nat,
        halley_model_running(fm, dm, d2m, tol, x0, k),
        last_x == halley_model_iterate(fm, dm, d2m, x0, k),
        abs_v(fm(last_x)) >= tol,
        halley_den_v(fm(last_x), dm(last_x), d2m(last_x)) == 0,
    ensures
        halley_model_zero_denominator(fm, dm, d2m, tol, x0, mi, last_x),
{
}

/// Determinism of the model: for fixed inputs the three outcome predicates
/// are mutually exclusive and each determines its witness, so the solver's
/// contract admits exactly one outcome for identical inputs.
pub proof fn lemma_halley_model_deterministic(
    fm: spec_fn(int) -> int,
    dm: spec_fn(int) -> int,
    d2m: spec_fn(int) -> int,
    tol: int,
    x0: int,
    mi: u16,
    a: int,
    b: int,
)
    ensures
        halley_model_converged(fm, dm, d2m, tol, x0, mi, a) && halley_model_converged(
            fm,
            dm,
            d2m,
            tol,
            x0,
            mi,
            b,
        ) ==> a == b,
        halley_model_zero_denominator(fm, dm, d2m, tol, x0, mi, a)
            && halley_model_zero_denominator(fm, dm, d2m, tol, x0, mi, b) ==> a == b,
        halley_model_exhausted(fm, dm, d2m, tol, x0, mi, a) && halley_model_exhausted(
            fm,
            dm,
            d2m,
            tol,
            x0,
            mi,
            b,
        ) ==> a == b,
        halley_model_converged(fm, dm, d2m, tol, x0, mi, a) ==> !halley_model_zero_denominator(
            fm,
            dm,
            d2m,
            tol,
            x0,
            mi,
            b,
        ) && !halley_model_exhausted(fm, dm, d2m, tol, x0, mi, b),
        halley_model_zero_denominator(fm, dm, d2m, tol, x0, mi, a) ==> !halley_model_exhausted(
            fm,
            dm,
            d2m,
            tol,
            x0,
            mi,
            b,
        ),
{
    if halley_model_converged(fm, dm, d2m, tol, x0, mi, a) {
        let ka = choose|k: nat|
            k < mi as nat && #[trigger] halley_model_running(fm, dm, d2m, tol, x0, k) && a
                == halley_model_iterate(fm, dm, d2m, x0, k);
        if halley_model_converged(fm, dm, d2m, tol, x0, mi, b) {
            let kb = choose|k: nat|
                k < mi as nat && #[trigger] halley_model_running(fm, dm, d2m, tol, x0, k) && b
                    == halley_model_iterate(fm, dm, d2m, x0, k);
            if ka < kb {
                assert(halley_model_iterate(fm, dm, d2m, x0, ka) == a);
                assert(abs_v(fm(a)) >= tol);
                assert(false);
            } else if kb < ka {
                assert(halley_model_iterate(fm, dm, d2m, x0, kb) == b);
                assert(abs_v(fm(b)) >= tol);
                assert(false);
            }
        }
        if halley_model_zero_denominator(fm, dm, d2m, tol, x0, mi, b) {
            let kb = choose|k: nat|
                k < mi as nat && #[trigger] halley_model_running(fm, dm, d2m, tol, x0, k) && b
                    == halley_model_iterate(fm, dm, d2m, x0, k);
            if ka < kb {
                assert(halley_model_iterate(fm, dm, d2m, x0, ka) == a);
                assert(abs_v(fm(a)) >= tol);
                assert(false);
            } else if kb < ka {
                assert(halley_model_iterate(fm, dm, d2m, x0, kb) == b);
                assert(halley_den_v(fm(b), dm(b), d2m(b)) != 0);
                assert(false);
            } else {
                assert(a == b);
                assert(abs_v(fm(a)) < tol && abs_v(fm(b)) >= tol);
                assert(false);
            }
        }
        if halley_model_exhausted(fm, dm, d2m, tol, x0, mi, b) {
            assert(halley_model_iterate(fm, dm, d2m, x0, ka) == a);
            assert(abs_v(fm(a)) >= tol);
            assert(false);
        }
    }
    if halley_model_zero_denominator(fm, dm, d2m, tol, x0, mi, a) {
        let ka = choose|k: nat|
            k < mi as nat && #[trigger] halley_model_running(fm, dm, d2m, tol, x0, k) && a
                == halley_model_iterate(fm, dm, d2m, x0, k);
        if halley_model_zero_denominator(fm, dm, d2m, tol, x0, mi, b) {
            let kb = choose|k: nat|
                k < mi as nat && #[trigger] halley_model_running(fm, dm, d2m, tol, x0, k) && b
                    == halley_model_iterate(fm, dm, d2m, x0, k);
            if ka < kb {
                assert(halley_model_iterate(fm, dm, d2m, x0, ka) == a);
                assert(halley_den_v(fm(a), dm(a), d2m(a)) != 0);
                assert(false);
            } else if kb < ka {
                assert(halley_model_iterate(fm, dm, d2m, x0, kb) == b);
                assert(halley_den_v(fm(b), dm(b), d2m(b)) != 0);
                assert(false);
            }
        }
        if halley_model_exhausted(fm, dm, d2m, tol, x0, mi, b) {
            assert(halley_model_iterate(fm, dm, d2m, x0, ka) == a);
            assert(halley_den_v(fm(a), dm(a), d2m(a)) != 0);
            assert(false);
        }
    }
}

/// A Halley denominator that can only ever evaluate to zero stops the
/// solver before it takes a single step: a `DivideByZero` failure reports
/// `last_x == guess`.
pub proof fn lemma_halley_zero_denominator_detected<
    F: Fn(Scalar) -> Scalar,
    D: Fn(Scalar) -> Scalar,
    D2: Fn(Scalar) -> Scalar,
>(
    f: F,
    f_prime: D,
    f_prime2: D2,
    tolerance: Scalar,
    guess: Scalar,
    last_x: Scalar,
    last_fx: Scalar,
    max_iter: u16,
)
    requires
        forall|x: Scalar, fx: Scalar, dx: Scalar, d2x: Scalar|
            #[trigger] call_ensures(f, (x,), fx) && #[trigger] call_ensures(f_prime, (x,), dx)
                && #[trigger] call_ensures(f_prime2, (x,), d2x) ==> halley_den_v(fx@, dx@, d2x@)
                == 0,
        halley_zero_denominator(f, f_prime, f_prime2, tolerance, guess, last_x, last_fx, max_iter),
    ensures
        last_x == guess,
{
    let (k, dxw, d2xw) = choose|k: nat, dxw: Scalar, d2xw: Scalar|
        {
            &&& #[trigger] halley_reaches(f, f_prime, f_prime2, tolerance, guess, last_x, k)
            &&& #[trigger] call_ensures(f_prime, (last_x,), dxw)
            &&& #[trigger] call_ensures(f_prime2, (last_x,), d2xw)
            &&& k < max_iter as nat
            &&& halley_den_v(last_fx@, dxw@, d2xw@) == 0
        };
    lemma_halley_chain_needs_nonzero_denominator(
        f,
        f_prime,
        f_prime2,
        tolerance,
        guess,
        last_x,
        k,
    );
}

/// No Halley chain of positive length exists when the denominator can only
/// evaluate to zero: each step requires a nonzero denominator.
proof fn lemma_halley_chain_needs_nonzero_denominator<
    F: Fn(Scalar) -> Scalar,
    D: Fn(Scalar) -> Scalar,
    D2: Fn(Scalar) -> Scalar,
>(f: F, f_prime: D, f_prime2: D2, tolerance: Scalar, guess: Scalar, last_x: Scalar, k: nat)
    requires
        forall|x: Scalar, fx: Scalar, dx: Scalar, d2x: Scalar|
            #[trigger] call_ensures(f, (x,), fx) && #[trigger] call_ensures(f_prime, (x,), dx)
                && #[trigger] call_ensures(f_prime2, (x,), d2x) ==> halley_den_v(fx@, dx@, d2x@)
                == 0,
        halley_reaches(f, f_prime, f_prime2, tolerance, guess, last_x, k),
    ensures
        last_x == guess,
        k == 0,
{
    if k > 0 {
        let (xp, fx, dx, d2x) = choose|xp: Scalar, fx: Scalar, dx: Scalar, d2x: Scalar|
            {
                &&& #[trigger] call_ensures(f, (xp,), fx)
                &&& #[trigger] call_ensures(f_prime, (xp,), dx)
                &&& #[trigger] call_ensures(f_prime2, (xp,), d2x)
                &&& halley_reaches(f, f_prime, f_prime2, tolerance, guess, xp, (k - 1) as nat)
                &&& abs_v(fx@) >= tolerance@
                &&& halley_den_v(fx@, dx@, d2x@) != 0
                &&& last_x@ == sub_v(
                    xp@,
                    div_v(halley_num_v(fx@, dx@), halley_den_v(fx@, dx@, d2x@)),
                )
            };
        assert(halley_den_v(fx@, dx@, d2x@) == 0);
        assert(false);
    }
}

/// With a budget of one iteration, a state reached by the full budget is
/// exactly one Halley update away from the guess: the solver performs one
/// step and no more.
pub proof fn lemma_halley_single_iteration_budget<
    F: Fn(Scalar) -> Scalar,
    D: Fn(Scalar) -> Scalar,
    D2: Fn(Scalar) -> Scalar,
>(f: F, f_prime: D, f_prime2: D2, tolerance: Scalar, guess: Scalar, last_x: Scalar)
    requires
        halley_reaches(f, f_prime, f_prime2, tolerance, guess, last_x, 1),
    ensures
        exists|fx: Scalar, dx: Scalar, d2x: Scalar|
            {
                &&& #[trigger] call_ensures(f, (guess,), fx)
                &&& #[trigger] call_ensures(f_prime, (guess,), dx)
                &&& #[trigger] call_ensures(f_prime2, (guess,), d2x)
                &&& abs_v(fx@) >= tolerance@
                &&& halley_den_v(fx@, dx@, d2x@) != 0
                &&& last_x@ == sub_v(
                    guess@,
                    div_v(halley_num_v(fx@, dx@), halley_den_v(fx@, dx@, d2x@)),
                )
            },
{
    let (xp, fx, dx, d2x) = choose|xp: Scalar, fx: Scalar, dx: Scalar, d2x: Scalar|
        {
            &&& #[trigger] call_ensures(f, (xp,), fx)
            &&& #[trigger] call_ensures(f_prime, (xp,), dx)
            &&& #[trigger] call_ensures(f_prime2, (xp,), d2x)
            &&& halley_reaches(f, f_prime, f_prime2, tolerance, guess, xp, 0)
            &&& abs_v(fx@) >= tolerance@
            &&& halley_den_v(fx@, dx@, d2x@) != 0
            &&& last_x@ == sub_v(
                xp@,
                div_v(halley_num_v(fx@, dx@), halley_den_v(fx@, dx@, d2x@)),
            )
        };
    assert(xp == guess);
    assert(call_ensures(f, (guess,), fx));
    assert(call_ensures(f_prime, (guess,), dx));
    assert(call_ensures(f_prime2, (guess,), d2x));
}

} // verus!
