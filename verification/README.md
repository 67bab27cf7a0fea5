# aub

One ledger for the consumption of coding agents. This crate holds the decisions of the
program, each with a contract that Verus proves: how a provider's quota meter is
calibrated against credits, and what each command line means.

* `src/calibration` decides when a meter has settled, what readings a fit may use, what
  contaminates an experiment, which candidates may be promoted and activated, and what a
  calibrated window makes of an amount of credits.
* `src/cli` reads command lines, decides what a command does next, and writes what it says.
* `src/domain.rs`, `src/records.rs`, `src/ids.rs`, `src/evidence.rs` and
  `src/attribution.rs` hold the vocabulary: quantities, evidence and the records of the
  ledger.
* `src/text.rs`, `src/sets.rs`, `src/order.rs` and `src/calendar.rs` are the small
  libraries below: text, ordered sets, stable orders and the calendar.
* `app` does what touches the outside: the ledger, the clock, the terminal, and the fits
  in floating point.
* `tests` runs the library from outside.

Public proof functions named `law_...` state what holds of the library as a whole.

JSON is printed by `serde_json`, behind the few functions of `src/cli/json.rs`; debug
quoting of text comes from the standard library, behind `src/cli/quoting.rs`. Their
contracts are the only ones that are believed and not proved.
