use crate::rounding::{round_val, RoundingMode};
use crate::scalar::Scalar;
use vstd::prelude::*;

verus! {

/// The rounding request of a schedule, stripped of the tie-break epsilon
/// (which the fixed-point representation never consults).
pub open spec fn round_opt(o: Option<(u32, RoundingMode, Scalar)>) -> Option<(u32, RoundingMode)> {
    match o {
        Some(t) => Some((t.0, t.1)),
        None => None,
    }
}

/// A schedule amount after the optional per-period rounding.
pub open spec fn round_applied(x: int, rnd: Option<(u32, RoundingMode)>) -> int {
    match rnd {
        Some(r) => round_val(x, r.0 as nat, r.1),
        None => x,
    }
}

/// Apply a schedule's optional rounding request to one amount.
pub(crate) fn apply_round(x: Scalar, round: Option<(u32, RoundingMode, Scalar)>) -> (r: Scalar)
    ensures
        r@ == round_applied(x@, round_opt(round)),
{
    match round {
        Some(t) => {
            proof {
                assert(round == Some(t));
            }
            x.round_with_mode(t.0, t.1, t.2)
        },
        None => x,
    }
}

/// A single period of an amortization schedule: the payment's split into
/// principal and interest, and the balance left afterwards.
#[derive(Clone, Copy, PartialEq, Eq, Structural, Debug)]
pub struct AmortizationPeriod {
    /// The period number of the amortization schedule.
    pub period: u32,
    /// The amount of the payment allocated to reduce the principal balance.
    pub principal_payment: Scalar,
    /// The amount of the payment allocated to pay interest charges.
    pub interest_payment: Scalar,
    /// The remaining balance of the loan or mortgage after the payment.
    pub remaining_balance: Scalar,
}

impl AmortizationPeriod {
    /// Creates a new `AmortizationPeriod` instance from its parts.
    pub fn new(
        period: u32,
        principal_payment: Scalar,
        interest_payment: Scalar,
        remaining_balance: Scalar,
    ) -> (r: Self)
        ensures
            r == (AmortizationPeriod {
                period,
                principal_payment,
                interest_payment,
                remaining_balance,
            }),
    {
        Self { period, principal_payment, interest_payment, remaining_balance }
    }

    /// The all-zero period, used to pre-fill schedules.
    pub fn default() -> (r: Self)
        ensures
            r.period == 0,
            r.principal_payment@ == 0,
            r.interest_payment@ == 0,
            r.remaining_balance@ == 0,
    {
        Self {
            period: 0,
            principal_payment: Scalar::zero(),
            interest_payment: Scalar::zero(),
            remaining_balance: Scalar::zero(),
        }
    }
}

/// A single period of an asset's depreciation schedule: the expense for
/// the period and the book value left afterwards.
#[derive(Clone, Copy, PartialEq, Eq, Structural, Debug)]
pub struct DepreciationPeriod {
    /// The period number of the depreciation schedule.
    pub period: u32,
    /// The depreciation expense for the period.
    pub depreciation_expense: Scalar,
    /// The remaining book value of the asset.
    pub remaining_book_value: Scalar,
}

impl DepreciationPeriod {
    /// Creates a new `DepreciationPeriod` instance from its parts.
    pub fn new(period: u32, depreciation_expense: Scalar, remaining_book_value: Scalar) -> (r: Self)
        ensures
            r == (DepreciationPeriod { period, depreciation_expense, remaining_book_value }),
    {
        Self { period, depreciation_expense, remaining_book_value }
    }

    /// The all-zero period, used to pre-fill schedules.
    pub fn default() -> (r: Self)
        ensures
            r.period == 0,
            r.depreciation_expense@ == 0,
            r.remaining_book_value@ == 0,
    {
        Self {
            period: 0,
            depreciation_expense: Scalar::zero(),
            remaining_book_value: Scalar::zero(),
        }
    }
}

} // verus!
