//! A sans-I/O connection pool engine for a single database server endpoint,
//! together with the scenario harness that drives it.
//!
//! The pool never performs I/O and never reads a clock: every operation takes
//! the current time as a plain number of milliseconds and returns the lifecycle
//! events it emitted and the notifications owed to suspended check-outs.

pub mod options;
pub mod connection;
pub mod event;
pub mod error;
pub mod model;
pub mod history;
pub mod invariants;
pub mod pool;
pub mod laws;
pub mod text;
pub mod document;
pub mod coll;
pub mod version;
pub mod matching;
pub mod harness;
pub mod scenario;
