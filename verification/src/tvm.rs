//! Time Value of Money calculations: present value, future value, payments,
//! and the net-present-value family that the rate solvers iterate over.

mod fv;
mod pmt;
mod pv;

pub use fv::{fv, fv_v};
pub use pmt::{pmt, pmt_v};
pub use pv::{
    npv, npv_differing_rates, npv_differing_rates_v, npv_v, pv, pv_v, xnpv, xnpv_v,
};
