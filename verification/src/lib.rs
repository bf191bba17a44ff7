//! Fixed-point iteration for square systems of nonlinear equations, with
//! the vector form of Aitken's delta-squared acceleration (Steffensen's
//! method in more than one dimension).
//!
//! A system `F(X) = 0` is recast as `X = G(X)` and iterated from a starting
//! point. With acceleration, each step applies `G` three times and
//! extrapolates from the four points; a step whose second differences are
//! singular falls back to a plain application of `G`.
//!
//! The library is generic over the scalar it computes with. Every
//! arithmetic step goes through the [`Scalar`] trait, and `G` and `F`
//! through the [`Problem`] trait. Neither trait promises anything, so a
//! contract cannot say what a result is as a number. It says which
//! operations produced it, from which operands and in which order, and
//! when an operation fails. The module [`determinism`] shows that this
//! leaves one result wherever the operations themselves are functions.
//!
//! - [`scalar`], [`problem`]: what the user supplies.
//! - [`vector`], [`matrix`]: the kernel.
//! - [`accelerator`]: one delta-squared step.
//! - [`history`], [`solver`]: the iteration controller.
//! - [`laws`], [`determinism`]: what holds of all of them.
pub mod accelerator;
pub mod determinism;
pub mod error;
pub mod history;
pub mod laws;
pub mod matrix;
pub mod problem;
pub mod scalar;
pub mod solver;
pub mod vector;

pub use accelerator::{accelerate, extrapolate};
pub use error::Error;
pub use history::History;
pub use matrix::{concat_columns, invert2x2, matmul, matrix_subtract, matvec};
pub use problem::Problem;
pub use scalar::Scalar;
pub use solver::{
    assess, convergence_order, decide, next_iterate, order_estimate, residual_norm, solve,
    solve_with_history, Assessment, Config, SolveResult, TerminationReason, DEFAULT_MAX_ITER,
};
pub use vector::{all_finite, distance, norm2, subtract};
