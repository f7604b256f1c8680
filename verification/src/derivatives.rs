//! Derivatives of financial quantities with respect to their rate
//! parameters, used by the rate solvers for sensitivity and root finding.

mod pv;
mod wacc;

pub use pv::{
    npv_prime2_r, npv_prime2_sum_v, npv_prime_r, npv_prime_sum_v, pv_prime2_r, pv_prime2_r_v,
    pv_prime_r, pv_prime_r_v,
};
pub use wacc::{wacc_prime2_de, wacc_prime2_de_v, wacc_prime_de, wacc_prime_de_v};
