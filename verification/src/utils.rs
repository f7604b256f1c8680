//! Iterative root-finding engines: Newton-Raphson and Halley's method.

mod halley;
mod newton_raphson;

pub use halley::{
    halley, halley_converged, halley_den_v, halley_model_converged, halley_model_exhausted,
    halley_model_iterate, halley_model_running, halley_model_step, halley_model_zero_denominator,
    halley_num_v, halley_reaches, halley_zero_denominator, lemma_halley_chain_model,
    lemma_halley_model_converged_intro, lemma_halley_model_deterministic,
    lemma_halley_model_zero_denominator_intro, lemma_halley_single_iteration_budget,
    lemma_halley_zero_denominator_detected,
};
pub use newton_raphson::{
    lemma_newton_single_iteration_budget, lemma_newton_zero_derivative_detected, newton_converged,
    newton_raphson, newton_reaches, newton_zero_derivative,
};
