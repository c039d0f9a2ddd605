//! Verified core of a periodic database backup orchestrator.
//!
//! The library covers the logic of the system: naming a snapshot from a
//! timestamp, parsing a storage listing, deciding which artifacts a
//! retention policy deletes, the stage machine of one pipeline run, and
//! the scheduler's choice of the next waiting time.  The unverifiable
//! edges (process spawning, network transfer, the clock) stay outside
//! and hand the library plain values.

pub mod artifact;
pub mod config;
pub mod listing;
pub mod naming;
pub mod pipeline;
pub mod retention;
pub mod scheduler;
pub mod timestamp;

use vstd::prelude::*;

verus! {

} // verus!
