//! Loan amortization, asset depreciation, and progressive tax schedules.

mod amort;
mod dep;
mod structs;
mod tax;

pub use amort::{
    amort_balance, amort_interest, amort_pmt2, amort_principal, amort_rows, amort_schedule,
    amort_schedule_into,
};
pub use dep::{
    db, db_expense_at, db_into, db_rows, db_state, macrs, macrs_bv, macrs_into, macrs_rows, sln,
    sln_bv, sln_expense, sln_into, sln_rows, syd, syd_expense, syd_into, syd_rows, syd_state,
};
pub use structs::{round_applied, round_opt, AmortizationPeriod, DepreciationPeriod};
pub use tax::{
    brackets_sorted, progressive_tax, progressive_tax_unchecked, progressive_tax_unchecked_v,
    tax_rec,
};
