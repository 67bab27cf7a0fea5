//! Decision logic of a usage ledger for coding agents: calibration of quota
//! windows against credits, and the command line that drives it.
//!
//! Everything here is pure. Files, the ledger database and the clock are read by
//! the program around this library, which hands in plain values.

pub mod attribution;
pub mod calendar;
pub mod calibration;
pub mod cli;
pub mod domain;
pub mod error;
pub mod evidence;
pub mod ids;
pub mod order;
pub mod records;
pub mod sets;
pub mod text;
