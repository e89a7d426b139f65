//! Tasks: one planned unit of work for a day, and its derived state.

use vstd::prelude::*;

use crate::ts_valid;
use crate::MAX_TS;

verus! {

/// A calendar day, the partition key that scopes tasks and toggle
/// events.
#[derive(Clone, Copy, PartialEq, Eq, Structural, Debug)]
pub struct Day {
    pub year: i32,
    pub month: u8,
    pub day: u8,
}

/// The state of a task, derived from which of its timestamps are set;
/// never stored.
#[derive(Clone, Copy, PartialEq, Eq, Structural, Debug)]
pub enum TaskState {
    Done,
    Active,
    Pending,
}

/// A single task, one entry of a day's ordered plan.
#[derive(Debug)]
pub struct Task {
    /// Stable unique identifier, assigned by the planner, immutable.
    pub id: u32,
    /// Free-form text, immutable after creation.
    pub description: String,
    /// When the task was created.
    pub created_at: i64,
    /// Set exactly once, when the task becomes active.
    pub started_at: Option<i64>,
    /// Set exactly once, when the task is completed; only ever set after
    /// `started_at`.
    pub finished_at: Option<i64>,
    /// The day the task belongs to.
    pub day: Day,
    /// Dense 1-based rank among the day's tasks.
    pub position: u32,
    /// Planned duration in seconds, fixed at creation.
    pub estimated_duration: i64,
}

/// A task whose timestamps and duration are in range, and whose
/// lifecycle is consistent: a finished task was started first, and not
/// after it finished.
pub open spec fn task_valid(t: Task) -> bool {
    &&& ts_valid(t.created_at)
    &&& (t.started_at matches Some(s) ==> ts_valid(s))
    &&& (t.finished_at matches Some(f) ==> ts_valid(f))
    &&& (t.finished_at is Some ==> t.started_at is Some && t.started_at->0 <= t.finished_at->0)
    &&& 0 <= t.estimated_duration <= MAX_TS
}

/// Extra observations on a task, all derived from the presence of its
/// `started_at` / `finished_at` timestamps.
pub trait TaskExtra {
    /// Whether the task is started but not finished.
    spec fn is_active_spec(&self) -> bool;

    /// Whether the task is finished.
    spec fn is_done_spec(&self) -> bool;

    /// The derived state.
    spec fn state_spec(&self) -> TaskState;

    fn is_active(&self) -> (r: bool)
        ensures
            r == self.is_active_spec(),
    ;

    fn is_done(&self) -> (r: bool)
        ensures
            r == self.is_done_spec(),
    ;

    fn state(&self) -> (r: TaskState)
        ensures
            r == self.state_spec(),
    ;
}

impl TaskExtra for Task {
    open spec fn is_active_spec(&self) -> bool {
        self.started_at is Some && self.finished_at is None
    }

    open spec fn is_done_spec(&self) -> bool {
        self.finished_at is Some
    }

    open spec fn state_spec(&self) -> TaskState {
        if self.is_active_spec() {
            TaskState::Active
        } else if self.is_done_spec() {
            TaskState::Done
        } else {
            TaskState::Pending
        }
    }

    fn is_active(&self) -> (r: bool) {
        self.started_at.is_some() && self.finished_at.is_none()
    }

    fn is_done(&self) -> (r: bool) {
        self.finished_at.is_some()
    }

    fn state(&self) -> (r: TaskState) {
        if self.is_active() {
            TaskState::Active
        } else {
            if self.is_done() {
                TaskState::Done
            } else {
                TaskState::Pending
            }
        }
    }
}

/// `t` with its position replaced.
pub open spec fn with_position(t: Task, p: u32) -> Task {
    Task { position: p, ..t }
}

/// `t` started at `now`.
pub open spec fn with_started(t: Task, now: i64) -> Task {
    Task { started_at: Some(now), ..t }
}

/// `t` finished at `now`.
pub open spec fn with_finished(t: Task, now: i64) -> Task {
    Task { finished_at: Some(now), ..t }
}

} // verus!
