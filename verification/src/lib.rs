//! Verified core of a cloud network-interface cleanup tool.
//!
//! The library models elastic network interfaces as plain records, classifies
//! them by lifecycle status, aggregates status counts, accumulates paginated
//! listing results, plans which interfaces may be deleted, and summarizes the
//! per-item outcomes of a deletion batch. All I/O (the cloud API calls, the
//! CLI) lives outside the library and hands it plain values.

pub mod counts;
pub mod deletion;
pub mod listing;
pub mod model;

use vstd::prelude::*;

verus! {

} // verus!
