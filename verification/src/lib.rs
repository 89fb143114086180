//! Per-user daily screen-time budgets on a shared machine.
//!
//! The crate models and verifies the budget engine of a screen-time daemon:
//! the configuration schema (per-user daily budgets keyed by weekday groups,
//! time-of-day slots, ramp-up growth), the ramp-up arithmetic, time-slot
//! containment, and the persisted usage ledger with day-rollover and
//! reconciliation semantics, together with the per-tick enforcement decisions.
//!
//! All quantities are plain values: durations are whole seconds (`u64`),
//! calendar dates are day numbers counted from 1970-01-01 (`u64`), and
//! times of day are seconds since midnight (`u32`). The surrounding daemon
//! reads clocks, files and session state, and hands those plain values in.

pub mod config;
pub mod logging;
pub mod rampup;
pub mod run;
pub mod search;
pub mod status;
pub mod time_slot;
pub mod tracker;
