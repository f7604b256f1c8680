//! Interest-rate metrics: APR/EAR conversions, growth rates, percentage
//! changes, time-weighted returns, and the IRR family of rate solvers.

mod apr_ear;
mod cagr;
mod irr;
mod mirr;
mod pct_change;
mod twr;

pub use apr_ear::{apr, apr_v, ear, ear_v};
pub use cagr::{cagr, cagr_v};
pub use irr::{
    default_guess_v, default_tolerance_v, irr, irr_derivative, irr_derivative2, irr_objective,
    lemma_irr_deterministic, lemma_xirr_deterministic, normalized_v, xirr, xirr_derivative,
    xirr_derivative2, xirr_objective, xirr_prime2_sum_v, xirr_prime_sum_v,
};
pub use mirr::{mirr, mirr_v, xmirr, xmirr_v};
pub use pct_change::{apply_pct_change, apply_pct_change_v, pct_change, pct_change_v};
pub use twr::{twr, twr_v};
