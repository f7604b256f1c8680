//! Financial-mathematics primitives over a verified fixed-point decimal
//! scalar: time-value-of-money formulas, amortization and depreciation
//! schedules, progressive tax, and iterative rate solvers (IRR, XIRR)
//! built on Newton-Raphson and Halley root finding with a seven-mode
//! rounding policy.

mod scalar;
pub use scalar::Scalar;

mod rounding;
pub use rounding::RoundingMode;

mod error;
pub use error::{FinPrimError, RootFindingError};

pub mod utils;

pub mod tvm;

pub mod derivatives;

pub mod rate;

pub mod amort_dep_tax;
