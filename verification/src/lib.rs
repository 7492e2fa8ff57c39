//! Real-time cognitive control core.
//!
//! A mode-adaptive control loop that ingests timestamped events, maintains a
//! bounded working-memory context, derives a scalar salience signal from that
//! context, and uses salience to switch among discrete operating modes.  Each
//! mode drives a polling cadence and a per-cycle compute budget for an
//! internal deadline/priority job scheduler.  State is persisted incrementally
//! (write-ahead log) and periodically (snapshot) so that a restart recovers
//! the working context without reprocessing the full event history.

pub mod analysis;
pub mod base;
pub mod config;
pub mod controller;
pub mod health;
pub mod interfaces;
pub mod model;
pub mod scheduler;
pub mod storage;

pub use controller::ImController;
pub use model::{Mode, WorkingContext};
