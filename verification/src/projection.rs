//! Time projection: how long each task has actually been worked on,
//! how long it has been paused, and when it is expected to end.

use vstd::prelude::*;

use crate::interval::lemma_overlap_bounds;
use crate::interval::overlap;
use crate::interval::overlap_spec;
use crate::interval::range_wf;
use crate::interval::Range;
use crate::planner::stopped_ranges_spec;
use crate::planner::Planner;
use crate::planner::MAX_TOGGLES;
use crate::task::task_valid;
use crate::task::Task;
use crate::task::TaskExtra;
use crate::task::TaskState;
use crate::ts_valid;
use crate::MAX_TS;

verus! {

/// Largest accumulated backlog `estimated_end_time` accepts, far above
/// anything a bounded day can accumulate.
pub const MAX_BACKLOG: i64 = 0x2000000000000000;

/// The time range a started task occupies: from its start to its
/// finish, open while it is unfinished.
pub open spec fn task_range(t: Task) -> Range {
    (t.started_at->0, t.finished_at)
}

/// The sum of the overlaps of `range` with the first `k` pauses.
pub open spec fn paused_upto(range: Range, pauses: Seq<Range>, now: i64, k: int) -> int
    decreases k,
{
    if k <= 0 {
        0
    } else {
        paused_upto(range, pauses, now, k - 1) + overlap_spec(range, pauses[k - 1], now)
    }
}

/// Total time `task` has been stopped: the overlaps of its range with
/// every pause, summed; zero when it has not started.
pub open spec fn paused_time_spec(task: Task, pauses: Seq<Range>, now: i64) -> int {
    if task.started_at is None {
        0
    } else {
        paused_upto(task_range(task), pauses, now, pauses.len() as int)
    }
}

/// A usable pause list: bounded, every range well formed and starting
/// no later than `now`.
pub open spec fn pauses_wf(pauses: Seq<Range>, now: i64) -> bool {
    &&& pauses.len() <= MAX_TOGGLES
    &&& forall|j: int|
        0 <= j < pauses.len() ==> range_wf(#[trigger] pauses[j]) && pauses[j].0 <= now
}

/// Calculate the total time a task has been stopped, with seconds
/// precision.
pub fn paused_time(task: &Task, pauses: &Vec<Range>, now: i64) -> (r: i64)
    requires
        task_valid(*task),
        pauses_wf(pauses@, now),
        ts_valid(now),
        task.started_at matches Some(s) ==> s <= now,
    ensures
        r == paused_time_spec(*task, pauses@, now),
        0 <= r <= pauses@.len() * MAX_TS,
{
    if task.started_at.is_none() {
        return 0;
    }
    let range: Range = (task.started_at.unwrap(), task.finished_at);
    let mut total: i64 = 0;
    let mut k: usize = 0;
    while k < pauses.len()
        invariant
            task_valid(*task),
            pauses_wf(pauses@, now),
            ts_valid(now),
            task.started_at is Some,
            task.started_at->0 <= now,
            range == task_range(*task),
            0 <= k <= pauses@.len(),
            total == paused_upto(range, pauses@, now, k as int),
            0 <= total <= k * MAX_TS,
        decreases pauses@.len() - k,
    {
        proof {
            lemma_overlap_bounds(range, pauses@[k as int], now);
        }
        let o = overlap(range, pauses[k], now);
        total = total + o;
        k = k + 1;
    }
    total
}

/// The elapsed worked time of a task: none while pending; for an
/// active task the wall time since its start minus its paused time;
/// for a done task the span from start to finish minus its paused
/// time, clamped to never be negative.
pub open spec fn ellapsed_time_spec(task: Task, pauses: Seq<Range>, now: i64) -> int {
    match task.state_spec() {
        TaskState::Pending => 0,
        TaskState::Active => now - task.started_at->0 - paused_time_spec(task, pauses, now),
        TaskState::Done => {
            let worked = task.finished_at->0 - task.started_at->0 - paused_time_spec(
                task,
                pauses,
                now,
            );
            if worked > 0 {
                worked
            } else {
                0
            }
        },
    }
}

/// Calculate the total time the user has worked on a task (that is,
/// without the pauses), with seconds precision.  A done task never
/// reports a negative elapsed time, even when clock anomalies let its
/// paused time exceed its start-to-finish span.
pub fn ellapsed_time(task: &Task, pauses: &Vec<Range>, now: i64) -> (r: i64)
    requires
        task_valid(*task),
        pauses_wf(pauses@, now),
        ts_valid(now),
        task.started_at matches Some(s) ==> s <= now,
    ensures
        r == ellapsed_time_spec(*task, pauses@, now),
        task.is_done_spec() ==> r >= 0,
{
    match task.state() {
        TaskState::Pending => 0,
        TaskState::Active => (now - task.started_at.unwrap()) - paused_time(task, pauses, now),
        TaskState::Done => {
            let worked = (task.finished_at.unwrap() - task.started_at.unwrap()) - paused_time(
                task,
                pauses,
                now,
            );
            if worked > 0 {
                worked
            } else {
                0
            }
        },
    }
}

/// When an unfinished task is expected to end: `None` once finished;
/// for an active task, `now` plus whatever remains of its estimate
/// after the time already worked; for a pending task, `now` plus the
/// backlog ahead of it plus its own estimate.
pub open spec fn estimated_end_time_spec(
    task: Task,
    before: int,
    pauses: Seq<Range>,
    now: i64,
) -> Option<int> {
    if task.finished_at is Some {
        None
    } else if task.started_at is Some {
        let worked = now - task.started_at->0 - paused_time_spec(task, pauses, now);
        let left = task.estimated_duration - worked;
        Some(
            now + if left > 0 {
                left
            } else {
                0
            },
        )
    } else {
        Some(now + before + task.estimated_duration)
    }
}

/// It returns the estimated end time for a task that has not been
/// finished, `None` for one that has.  `before` is the estimated time
/// until the task can start: the accumulated backlog of the unfinished
/// tasks ordered ahead of it.
pub fn estimated_end_time(task: &Task, before: i64, pauses: &Vec<Range>, now: i64) -> (r: Option<
    i64,
>)
    requires
        task_valid(*task),
        pauses_wf(pauses@, now),
        ts_valid(now),
        task.started_at matches Some(s) ==> s <= now,
        0 <= before <= MAX_BACKLOG,
    ensures
        r is Some <==> estimated_end_time_spec(*task, before as int, pauses@, now) is Some,
        r matches Some(v) ==> v == estimated_end_time_spec(*task, before as int, pauses@, now)->0,
{
    if task.finished_at.is_some() {
        return None;
    }
    if task.started_at.is_some() {
        let worked = (now - task.started_at.unwrap()) - paused_time(task, pauses, now);
        let left = task.estimated_duration - worked;
        let remaining = if left > 0 {
            left
        } else {
            0
        };
        Some(now + remaining)
    } else {
        Some(now + before + task.estimated_duration)
    }
}

/// What one task adds to the rolling backlog: nothing once finished;
/// its full estimate while not started; otherwise what remains of its
/// estimate after the time already worked.
pub open spec fn backlog_increment(t: Task, pauses: Seq<Range>, now: i64) -> int {
    if t.finished_at is None {
        if t.started_at is None {
            t.estimated_duration as int
        } else {
            let worked = now - t.started_at->0 - paused_time_spec(t, pauses, now);
            let left = t.estimated_duration - worked;
            if left > 0 {
                left
            } else {
                0
            }
        }
    } else {
        0
    }
}

/// The rolling backlog accumulated over the first `k` tasks.
pub open spec fn backlog_upto(tasks: Seq<Task>, pauses: Seq<Range>, now: i64, k: int) -> int
    decreases k,
{
    if k <= 0 {
        0
    } else {
        backlog_upto(tasks, pauses, now, k - 1) + backlog_increment(tasks[k - 1], pauses, now)
    }
}

/// One row of the daily listing: a task with its derived facts.
pub struct TaskRow {
    pub position: u32,
    pub description: String,
    pub state: TaskState,
    pub started_at: Option<i64>,
    pub estimated_duration: i64,
    pub ellapsed: i64,
    pub estimated_end_time: Option<i64>,
    pub paused_time: i64,
}

/// `row` reports `t` faithfully, with `before` as the backlog
/// accumulated ahead of it.
pub open spec fn row_matches(
    row: TaskRow,
    t: Task,
    before: int,
    pauses: Seq<Range>,
    now: i64,
) -> bool {
    &&& row.position == t.position
    &&& row.description@ == t.description@
    &&& row.state == t.state_spec()
    &&& row.started_at == t.started_at
    &&& row.estimated_duration == t.estimated_duration
    &&& row.ellapsed == ellapsed_time_spec(t, pauses, now)
    &&& (row.estimated_end_time is Some <==> estimated_end_time_spec(
        t,
        before,
        pauses,
        now,
    ) is Some)
    &&& (row.estimated_end_time matches Some(v) ==> v == estimated_end_time_spec(
        t,
        before,
        pauses,
        now,
    )->0)
    &&& row.paused_time == paused_time_spec(t, pauses, now)
}

/// One row of the pause listing: a pause and its duration so far.
pub struct PauseRow {
    pub start: i64,
    pub end: Option<i64>,
    pub duration: i64,
}

impl Planner {
    /// The day's pauses with their durations: a closed pause lasts
    /// from its start to its end, an open one from its start until
    /// `now`.
    pub fn pauses(&self, now: i64) -> (r: Vec<PauseRow>)
        requires
            self.wf(),
            self.fresh(now),
        ensures
            r@.len() == stopped_ranges_spec(self.toggles@).len(),
            forall|j: int|
                0 <= j < r@.len() ==> {
                    let p = stopped_ranges_spec(self.toggles@)[j];
                    &&& (#[trigger] r@[j]).start == p.0
                    &&& r@[j].end == p.1
                    &&& r@[j].duration == if p.1 is Some {
                        p.1->0 - p.0
                    } else {
                        now - p.0
                    }
                },
    {
        let ranges = self.stopped_ranges();
        let mut r: Vec<PauseRow> = Vec::new();
        let mut j: usize = 0;
        while j < ranges.len()
            invariant
                ranges@ == stopped_ranges_spec(self.toggles@),
                forall|k: int| 0 <= k < ranges@.len() ==> range_wf(#[trigger] ranges@[k]),
                ts_valid(now),
                0 <= j <= ranges@.len(),
                r@.len() == j,
                forall|k: int|
                    0 <= k < j ==> {
                        let p = ranges@[k];
                        &&& (#[trigger] r@[k]).start == p.0
                        &&& r@[k].end == p.1
                        &&& r@[k].duration == if p.1 is Some {
                            p.1->0 - p.0
                        } else {
                            now - p.0
                        }
                    },
            decreases ranges@.len() - j,
        {
            let (start, end) = ranges[j];
            let duration = match end {
                Some(e) => e - start,
                None => now - start,
            };
            r.push(PauseRow { start, end, duration });
            j = j + 1;
        }
        r
    }

    /// The daily plan: one row per task, in position order, each with
    /// its derived state, elapsed and paused time, and — while
    /// unfinished — its estimated end time, fed by the rolling backlog
    /// of the estimates ahead of it.
    pub fn list(&self, now: i64) -> (r: Vec<TaskRow>)
        requires
            self.wf(),
            self.fresh(now),
        ensures
            r@.len() == self.tasks@.len(),
            forall|i: int|
                0 <= i < r@.len() ==> row_matches(
                    #[trigger] r@[i],
                    self.tasks@[i],
                    backlog_upto(self.tasks@, stopped_ranges_spec(self.toggles@), now, i),
                    stopped_ranges_spec(self.toggles@),
                    now,
                ),
    {
        let pauses = self.stopped_ranges();
        proof {
            assert forall|j: int| 0 <= j < pauses@.len() implies range_wf(#[trigger] pauses@[j])
                && pauses@[j].0 <= now by {
                assert(pauses@[j].0 == self.toggles@[2 * j + 1]);
            }
            // any paused time is at most MAX_TOGGLES pauses of full length
            vstd::arithmetic::mul::lemma_mul_inequality(
                pauses@.len() as int,
                MAX_TOGGLES as int,
                MAX_TS as int,
            );
        }
        let mut rows: Vec<TaskRow> = Vec::new();
        let mut backlog: i64 = 0;
        let mut i: usize = 0;
        while i < self.tasks.len()
            invariant
                self.wf(),
                self.fresh(now),
                pauses@ == stopped_ranges_spec(self.toggles@),
                pauses@.len() == self.toggles@.len() / 2,
                pauses_wf(pauses@, now),
                0 <= i <= self.tasks@.len(),
                rows@.len() == i,
                forall|k: int|
                    0 <= k < i ==> row_matches(
                        #[trigger] rows@[k],
                        self.tasks@[k],
                        backlog_upto(self.tasks@, pauses@, now, k),
                        pauses@,
                        now,
                    ),
                backlog == backlog_upto(self.tasks@, pauses@, now, i as int),
                pauses@.len() * MAX_TS <= 42949672960000,
                // one task adds at most its estimate plus all its paused time
                0 <= backlog <= i * 42953967927296,
            decreases self.tasks@.len() - i,
        {
            let t = &self.tasks[i];
            let pt = paused_time(t, &pauses, now);
            let et = ellapsed_time(t, &pauses, now);
            let eet = estimated_end_time(t, backlog, &pauses, now);
            rows.push(
                TaskRow {
                    position: t.position,
                    description: t.description.clone(),
                    state: t.state(),
                    started_at: t.started_at,
                    estimated_duration: t.estimated_duration,
                    ellapsed: et,
                    estimated_end_time: eet,
                    paused_time: pt,
                },
            );
            if t.finished_at.is_none() {
                if t.started_at.is_none() {
                    backlog = backlog + t.estimated_duration;
                } else {
                    let worked = (now - t.started_at.unwrap()) - pt;
                    let left = t.estimated_duration - worked;
                    backlog = backlog + if left > 0 {
                        left
                    } else {
                        0
                    };
                }
            }
            i = i + 1;
        }
        rows
    }
}

} // verus!
