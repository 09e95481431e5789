//! Margin-based multi-class formulas.
//!
//! Each formula here maps truth and estimate of one length `N` to `N` loss
//! channels, channel `i` a closed-form function of the margin
//! `z_i = truth_i * estimate_i` alone, so every gradient matrix is diagonal.

pub mod exponential_loss;
pub mod generalized_smooth_hinge_loss;
pub mod hinge_loss;
pub mod square_loss;
