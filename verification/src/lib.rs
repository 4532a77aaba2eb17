//! Incremental snapshot backup core: catalog ordering, transfer fallback,
//! prune sequencing and run orchestration, driven through a command-runner
//! capability so that every decision is made by verified code.

use vstd::prelude::*;

pub mod catalog;
pub mod clock;
pub mod command;
pub mod orchestrator;
pub mod prune;
pub mod snapshot;
pub mod timestamp;
pub mod transfer;

verus! {

} // verus!
