//! Calibration: deciding what a quota window is worth in credits, and when that
//! may be believed.

pub mod account_usage;
pub mod activation;
pub mod contamination;
pub mod conversion;
pub mod fitter;
pub mod health;
pub mod multivariate;
pub mod multivariate_fit;
pub mod multivariate_promotion;
pub mod passive;
pub mod passive_intervals;
pub mod passive_report;
pub mod promotion;
pub mod settlement;
pub mod usage;
