//! Core engine of a single-user daily task planner.
//!
//! A day holds an ordered list of tasks (dense 1-based positions) and an
//! append-only log of work-state toggle events.  From those the engine
//! derives the current work state, the pause intervals, and per-task
//! time projections (paused, elapsed, estimated end).
//!
//! All instants are seconds since the Unix epoch, truncated to whole
//! seconds; durations are in seconds.  Reading the clock, persistence and
//! rendering are left to the surrounding program, which hands plain
//! values in and out.

pub mod interval;
pub mod planner;
pub mod projection;
pub mod task;

use vstd::prelude::*;

verus! {

/// Upper bound on every timestamp and duration the engine handles
/// (2^32 seconds past the epoch, i.e. year 2106).  Keeping all instants
/// below it keeps every sum and difference comfortably inside `i64`.
pub const MAX_TS: i64 = 4294967296;

/// A timestamp (or duration) the engine accepts: non-negative seconds,
/// bounded so that arithmetic cannot overflow.
pub open spec fn ts_valid(t: i64) -> bool {
    0 <= t <= MAX_TS
}

} // verus!
