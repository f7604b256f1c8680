use vstd::prelude::*;

verus! {

/// Failures of the iterative root finders. Every variant that a solver can
/// produce carries the last estimate and the objective value there, so a
/// caller can diagnose the failure or retry from `last_x`.
#[derive(Clone, Copy, Debug, PartialEq, Eq, Structural)]
pub enum RootFindingError<T> {
    /// The iteration budget ran out before the objective's magnitude dropped
    /// below the tolerance.
    FailedToConverge { last_x: T, last_fx: T },
    /// The derivative (or the Halley denominator) evaluated to exactly zero
    /// mid-iteration.
    DivideByZero { last_x: T, last_fx: T },
    /// Reserved for bracketing-based solvers; the solvers here never return
    /// it.
    InvalidBracket,
}

/// Failures of the financial calculations.
#[derive(Clone, Copy, Debug, PartialEq, Eq, Structural)]
pub enum FinPrimError<T> {
    /// An ordinary arithmetic division by zero outside the solvers, such as
    /// a percentage change on a zero base.
    DivideByZero,
    /// A root-finding failure, forwarded untouched from the solver.
    RootFindingError(RootFindingError<T>),
}

} // verus!
