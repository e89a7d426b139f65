//! The planner for one day: the ordered task list, the toggle-event log,
//! and the work state derived from them.

use vstd::prelude::*;

use crate::interval::range_wf;
use crate::interval::Range;
use crate::task::task_valid;
use crate::task::with_finished;
use crate::task::with_position;
use crate::task::with_started;
use crate::task::Day;
use crate::task::Task;
use crate::task::TaskExtra;
use crate::ts_valid;
use crate::MAX_TS;

verus! {

/// What the user has declared to be doing: working, pausing, or — when
/// nothing unfinished is left — out of tasks, whatever the toggle log
/// says.
#[derive(Clone, Copy, PartialEq, Eq, Structural, Debug)]
pub enum WorkState {
    Running,
    Stopped,
    NoPendingTasks,
}

/// The errors the engine reports.
#[derive(Clone, Copy, PartialEq, Eq, Structural, Debug)]
pub enum Error {
    /// The operation referenced a position no task occupies today.
    NotFound,
    /// The work state precludes the operation.
    InvalidState,
}

/// Most tasks a day can hold.
pub const MAX_TASKS: usize = 10000;

/// Most toggle events a day's log can hold.
pub const MAX_TOGGLES: usize = 10000;

/// One day's data: the tasks in position order and the append-only log
/// of work-state toggles.
pub struct Planner {
    /// The day every task and toggle event belongs to.
    pub day: Day,
    /// The tasks, ordered by position; the task at index `i` has
    /// position `i + 1`.
    pub tasks: Vec<Task>,
    /// Timestamps of the day's toggle events, in insertion order.
    pub toggles: Vec<i64>,
    /// The next task identifier to assign.
    pub next_id: u32,
}

/// Relies on chrono's `Local::now`: the current time, as whole seconds
/// since the Unix epoch.  Nothing is assumed of the reading; `clock`
/// repairs whatever comes back.
#[verifier::external_body]
fn now_secs() -> i64 {
    chrono::Local::now().timestamp()
}

/// How many tasks of `s` are unfinished.
pub open spec fn count_unfinished(s: Seq<Task>) -> int
    decreases s.len(),
{
    if s.len() == 0 {
        0
    } else {
        count_unfinished(s.drop_last()) + if s.last().finished_at is None {
            1int
        } else {
            0
        }
    }
}

/// Whether some task of `s` is active.
pub open spec fn has_active(s: Seq<Task>) -> bool {
    exists|i: int| 0 <= i < s.len() && (#[trigger] s[i]).is_active_spec()
}

/// The work state derived from the number of unfinished tasks and the
/// number of logged toggle events: no unfinished task overrides
/// everything, otherwise an odd event count means running.
pub open spec fn derived_state(unfinished: int, ntoggles: int) -> WorkState {
    if unfinished == 0 {
        WorkState::NoPendingTasks
    } else if ntoggles % 2 == 1 {
        WorkState::Running
    } else {
        WorkState::Stopped
    }
}

/// Where an insert lands: a missing requested position means append;
/// any requested position is clamped into `1..=count+1`.
pub open spec fn clamped_position(at: Option<u32>, count: int) -> int {
    let requested: int = if at is Some {
        at->0 as int
    } else {
        count + 1
    };
    if requested > count {
        count + 1
    } else if requested < 1 {
        1
    } else {
        requested
    }
}

/// The pause intervals encoded by a toggle log: the first event opens
/// the day's first running period, each later pair of events bounds one
/// pause, and a trailing unmatched event opens a pause that has not
/// ended yet.
pub open spec fn stopped_ranges_spec(toggles: Seq<i64>) -> Seq<Range> {
    Seq::new(
        (toggles.len() / 2) as nat,
        |j: int|
            (
                toggles[2 * j + 1],
                if 2 * j + 2 < toggles.len() {
                    Some(toggles[2 * j + 2])
                } else {
                    None
                },
            ),
    )
}

impl Planner {
    /// Well-formedness of the task list: bounded, densely positioned,
    /// every task valid, of this day, and below the id watermark, with
    /// no two tasks sharing an id.
    pub open spec fn tasks_wf(self) -> bool {
        &&& self.tasks@.len() <= MAX_TASKS
        &&& forall|i: int|
            0 <= i < self.tasks@.len() ==> {
                &&& (#[trigger] self.tasks@[i]).position == i + 1
                &&& task_valid(self.tasks@[i])
                &&& self.tasks@[i].day == self.day
                &&& self.tasks@[i].id < self.next_id
            }
        &&& forall|i: int, j: int|
            0 <= i < j < self.tasks@.len() ==> #[trigger] self.tasks@[i].id != #[trigger] self.tasks@[j].id
    }

    /// Well-formedness of the toggle log: bounded, timestamps valid and
    /// in non-decreasing order.
    pub open spec fn toggles_wf(self) -> bool {
        &&& self.toggles@.len() <= MAX_TOGGLES
        &&& forall|i: int| 0 <= i < self.toggles@.len() ==> ts_valid(#[trigger] self.toggles@[i])
        &&& forall|i: int|
            0 <= i < self.toggles@.len() - 1 ==> #[trigger] self.toggles@[i] <= self.toggles@[i + 1]
    }

    pub open spec fn wf(self) -> bool {
        self.tasks_wf() && self.toggles_wf()
    }

    /// `now` is a valid instant that does not precede anything already
    /// recorded (the clock is monotonic).
    pub open spec fn fresh(self, now: i64) -> bool {
        &&& ts_valid(now)
        &&& forall|i: int| 0 <= i < self.toggles@.len() ==> #[trigger] self.toggles@[i] <= now
        &&& forall|i: int|
            0 <= i < self.tasks@.len() ==> {
                &&& (#[trigger] self.tasks@[i]).created_at <= now
                &&& (self.tasks@[i].started_at matches Some(s) ==> s <= now)
                &&& (self.tasks@[i].finished_at matches Some(f) ==> f <= now)
            }
    }

    /// The derived work state of this planner.
    pub open spec fn work_state_spec(self) -> WorkState {
        derived_state(count_unfinished(self.tasks@), self.toggles@.len() as int)
    }

    /// The present instant for this planner: the wall clock, truncated
    /// to whole seconds, clamped into the supported range, and nudged
    /// forward so it never precedes anything already recorded — the
    /// engine's contracts assume a monotonic clock.
    pub fn clock(&self) -> (r: i64)
        requires
            self.wf(),
        ensures
            self.fresh(r),
    {
        let mut now = now_secs();
        if now < 0 {
            now = 0;
        }
        if now > MAX_TS {
            now = MAX_TS;
        }
        let mut i: usize = 0;
        while i < self.tasks.len()
            invariant
                self.wf(),
                0 <= i <= self.tasks@.len(),
                ts_valid(now),
                forall|j: int|
                    0 <= j < i ==> {
                        &&& (#[trigger] self.tasks@[j]).created_at <= now
                        &&& (self.tasks@[j].started_at matches Some(s) ==> s <= now)
                        &&& (self.tasks@[j].finished_at matches Some(f) ==> f <= now)
                    },
            decreases self.tasks@.len() - i,
        {
            let t = &self.tasks[i];
            if t.created_at > now {
                now = t.created_at;
            }
            if let Some(s) = t.started_at {
                if s > now {
                    now = s;
                }
            }
            if let Some(f) = t.finished_at {
                if f > now {
                    now = f;
                }
            }
            i = i + 1;
        }
        let mut k: usize = 0;
        while k < self.toggles.len()
            invariant
                self.wf(),
                0 <= k <= self.toggles@.len(),
                ts_valid(now),
                forall|j: int|
                    0 <= j < self.tasks@.len() ==> {
                        &&& (#[trigger] self.tasks@[j]).created_at <= now
                        &&& (self.tasks@[j].started_at matches Some(s) ==> s <= now)
                        &&& (self.tasks@[j].finished_at matches Some(f) ==> f <= now)
                    },
                forall|j: int| 0 <= j < k ==> #[trigger] self.toggles@[j] <= now,
            decreases self.toggles@.len() - k,
        {
            if self.toggles[k] > now {
                now = self.toggles[k];
            }
            k = k + 1;
        }
        now
    }

    /// An empty plan for `day`.
    pub fn new(day: Day) -> (r: Planner)
        ensures
            r.wf(),
            r.day == day,
            r.tasks@ =~= Seq::<Task>::empty(),
            r.toggles@ =~= Seq::<i64>::empty(),
            r.next_id == 1,
    {
        Planner { day, tasks: Vec::new(), toggles: Vec::new(), next_id: 1 }
    }

    /// Return the number of tasks for the day.
    pub fn tasks_count(&self) -> (r: u32)
        requires
            self.wf(),
        ensures
            r == self.tasks@.len(),
    {
        self.tasks.len() as u32
    }

    /// Return the number of unfinished tasks for the day (including the
    /// active one).
    pub fn unfinished_tasks_count(&self) -> (r: u32)
        requires
            self.wf(),
        ensures
            r == count_unfinished(self.tasks@),
    {
        let mut count: u32 = 0;
        let mut i: usize = 0;
        while i < self.tasks.len()
            invariant
                self.wf(),
                0 <= i <= self.tasks@.len(),
                count == count_unfinished(self.tasks@.take(i as int)),
                count <= i,
            decreases self.tasks@.len() - i,
        {
            proof {
                assert(self.tasks@.take(i + 1).drop_last() =~= self.tasks@.take(i as int));
                assert(self.tasks@.take(i + 1).last() == self.tasks@[i as int]);
            }
            if self.tasks[i].finished_at.is_none() {
                count = count + 1;
            }
            i = i + 1;
        }
        proof {
            assert(self.tasks@.take(self.tasks@.len() as int) =~= self.tasks@);
        }
        count
    }

    /// Return whether the user has declared to be currently working, in
    /// a pause, or has no more tasks left to work on.
    pub fn current_work_state(&self) -> (r: WorkState)
        requires
            self.wf(),
        ensures
            r == self.work_state_spec(),
    {
        if self.unfinished_tasks_count() == 0 {
            WorkState::NoPendingTasks
        } else if self.toggles.len() % 2 != 0 {
            WorkState::Running
        } else {
            WorkState::Stopped
        }
    }

    /// Append one toggle event: if work was running it is now stopped,
    /// and the other way round.
    pub fn switch_work_state(&mut self, now: i64)
        requires
            old(self).wf(),
            old(self).fresh(now),
            old(self).toggles@.len() < MAX_TOGGLES,
        ensures
            final(self).wf(),
            final(self).fresh(now),
            final(self).toggles@ == old(self).toggles@.push(now),
            final(self).tasks == old(self).tasks,
            final(self).day == old(self).day,
            final(self).next_id == old(self).next_id,
    {
        self.toggles.push(now);
    }

    /// Add a task to the day, by default after the last one.  A
    /// requested position is clamped into `1..=count+1`; every task at
    /// or after the assigned position moves one place to the right, and
    /// the assigned position is returned.
    pub fn add_task(
        &mut self,
        description: String,
        estimated_duration: i64,
        at: Option<u32>,
        now: i64,
    ) -> (position: u32)
        requires
            old(self).wf(),
            old(self).fresh(now),
            old(self).tasks@.len() < MAX_TASKS,
            old(self).next_id < u32::MAX,
            0 <= estimated_duration <= MAX_TS,
        ensures
            final(self).wf(),
            final(self).fresh(now),
            position == clamped_position(at, old(self).tasks@.len() as int),
            final(self).tasks@.len() == old(self).tasks@.len() + 1,
            ({
                let t = final(self).tasks@[position - 1];
                &&& t.id == old(self).next_id
                &&& t.description@ == description@
                &&& t.created_at == now
                &&& t.started_at is None
                &&& t.finished_at is None
                &&& t.day == old(self).day
                &&& t.position == position
                &&& t.estimated_duration == estimated_duration
            }),
            forall|i: int| 0 <= i < position - 1 ==> final(self).tasks@[i] == old(self).tasks@[i],
            forall|i: int|
                position <= i < final(self).tasks@.len() ==> final(self).tasks@[i]
                    == with_position(old(self).tasks@[i - 1], (i + 1) as u32),
            final(self).toggles == old(self).toggles,
            final(self).day == old(self).day,
            final(self).next_id == old(self).next_id + 1,
    {
        let count = self.tasks.len();
        let position: u32 = match at {
            Some(p) => {
                if p > count as u32 {
                    count as u32 + 1
                } else if p < 1 {
                    1
                } else {
                    p
                }
            },
            None => count as u32 + 1,
        };
        let task = Task {
            id: self.next_id,
            description,
            created_at: now,
            started_at: None,
            finished_at: None,
            day: self.day,
            position,
            estimated_duration,
        };
        let ghost inserted = task;
        self.next_id = self.next_id + 1;
        let idx = (position - 1) as usize;
        self.tasks.insert(idx, task);
        let ghost s0 = old(self).tasks@.insert(idx as int, inserted);
        let mut i: usize = idx + 1;
        while i < self.tasks.len()
            invariant
                idx + 1 <= i <= self.tasks@.len(),
                self.tasks@.len() == old(self).tasks@.len() + 1,
                self.tasks@.len() <= MAX_TASKS,
                idx == position - 1,
                s0 == old(self).tasks@.insert(idx as int, inserted),
                forall|j: int| 0 <= j <= idx ==> self.tasks@[j] == s0[j],
                forall|j: int|
                    idx < j < i ==> self.tasks@[j] == with_position(s0[j], (j + 1) as u32),
                forall|j: int| i <= j < self.tasks@.len() ==> self.tasks@[j] == s0[j],
                self.day == old(self).day,
                self.next_id == old(self).next_id + 1,
                self.toggles == old(self).toggles,
            decreases self.tasks@.len() - i,
        {
            let ghost prev = self.tasks@;
            let mut t = self.tasks.remove(i);
            t.position = (i + 1) as u32;
            self.tasks.insert(i, t);
            proof {
                assert(self.tasks@ =~= prev.update(i as int, with_position(s0[i as int], (i
                    + 1) as u32)));
            }
            i = i + 1;
        }
        position
    }

    /// Remove the task at `position`, shifting the tasks after it one
    /// place to the left to close the gap.  Only a task that has not
    /// been started can be removed.
    pub fn remove_task(&mut self, position: u32) -> (r: Result<(), Error>)
        requires
            old(self).wf(),
        ensures
            final(self).wf(),
            r == Err::<(), Error>(Error::NotFound) <==> !(1 <= position <= old(
                self,
            ).tasks@.len()),
            r == Err::<(), Error>(Error::InvalidState) <==> (1 <= position <= old(
                self,
            ).tasks@.len() && old(self).tasks@[position - 1].started_at is Some),
            r is Ok <==> (1 <= position <= old(self).tasks@.len() && old(self).tasks@[position
                - 1].started_at is None),
            r is Err ==> *final(self) == *old(self),
            r is Ok ==> ({
                &&& final(self).tasks@.len() == old(self).tasks@.len() - 1
                &&& forall|i: int|
                    0 <= i < position - 1 ==> final(self).tasks@[i] == old(self).tasks@[i]
                &&& forall|i: int|
                    position - 1 <= i < final(self).tasks@.len() ==> final(self).tasks@[i]
                        == with_position(old(self).tasks@[i + 1], (i + 1) as u32)
            }),
            final(self).toggles == old(self).toggles,
            final(self).day == old(self).day,
            final(self).next_id == old(self).next_id,
    {
        if position < 1 || position as usize > self.tasks.len() {
            return Err(Error::NotFound);
        }
        let idx = (position - 1) as usize;
        if self.tasks[idx].started_at.is_some() {
            return Err(Error::InvalidState);
        }
        self.tasks.remove(idx);
        let ghost s0 = old(self).tasks@.remove(idx as int);
        let mut i: usize = idx;
        while i < self.tasks.len()
            invariant
                idx <= i <= self.tasks@.len(),
                self.tasks@.len() == old(self).tasks@.len() - 1,
                self.tasks@.len() < MAX_TASKS,
                idx == position - 1,
                s0 == old(self).tasks@.remove(idx as int),
                forall|j: int| 0 <= j < idx ==> self.tasks@[j] == s0[j],
                forall|j: int|
                    idx <= j < i ==> self.tasks@[j] == with_position(s0[j], (j + 1) as u32),
                forall|j: int| i <= j < self.tasks@.len() ==> self.tasks@[j] == s0[j],
                self.day == old(self).day,
                self.next_id == old(self).next_id,
                self.toggles == old(self).toggles,
            decreases self.tasks@.len() - i,
        {
            let ghost prev = self.tasks@;
            let mut t = self.tasks.remove(i);
            t.position = (i + 1) as u32;
            self.tasks.insert(i, t);
            proof {
                assert(self.tasks@ =~= prev.update(i as int, with_position(s0[i as int], (i
                    + 1) as u32)));
            }
            i = i + 1;
        }
        Ok(())
    }

    /// Start the task at `position`: set its start timestamp to `now`.
    /// It does nothing if no task occupies the position, or if the task
    /// was already started (a start timestamp is set exactly once).
    pub fn start_task(&mut self, position: u32, now: i64)
        requires
            old(self).wf(),
            old(self).fresh(now),
        ensures
            final(self).wf(),
            final(self).fresh(now),
            if 1 <= position <= old(self).tasks@.len() && old(self).tasks@[position
                - 1].started_at is None {
                final(self).tasks@ == old(self).tasks@.update(
                    position - 1,
                    with_started(old(self).tasks@[position - 1], now),
                )
            } else {
                final(self).tasks@ == old(self).tasks@
            },
            final(self).toggles == old(self).toggles,
            final(self).day == old(self).day,
            final(self).next_id == old(self).next_id,
    {
        if position >= 1 && position as usize <= self.tasks.len() {
            let idx = (position - 1) as usize;
            if self.tasks[idx].started_at.is_none() {
                let mut t = self.tasks.remove(idx);
                t.started_at = Some(now);
                self.tasks.insert(idx, t);
                proof {
                    assert(self.tasks@ =~= old(self).tasks@.update(
                        idx as int,
                        with_started(old(self).tasks@[idx as int], now),
                    ));
                }
            }
        }
    }

    /// Finish the task at `position`: set its finish timestamp to
    /// `now`.  The caller guarantees that the task exists and is
    /// currently active.
    pub fn finish_task(&mut self, position: u32, now: i64)
        requires
            old(self).wf(),
            old(self).fresh(now),
            1 <= position <= old(self).tasks@.len(),
            old(self).tasks@[position - 1].is_active_spec(),
        ensures
            final(self).wf(),
            final(self).fresh(now),
            final(self).tasks@ == old(self).tasks@.update(
                position - 1,
                with_finished(old(self).tasks@[position - 1], now),
            ),
            final(self).toggles == old(self).toggles,
            final(self).day == old(self).day,
            final(self).next_id == old(self).next_id,
    {
        let idx = (position - 1) as usize;
        let mut t = self.tasks.remove(idx);
        t.finished_at = Some(now);
        self.tasks.insert(idx, t);
        proof {
            assert(self.tasks@ =~= old(self).tasks@.update(
                idx as int,
                with_finished(old(self).tasks@[idx as int], now),
            ));
        }
    }

    /// Returns the currently active task, if any: the first task by
    /// position that has been started but not finished.
    pub fn active_task(&self) -> (r: Option<&Task>)
        requires
            self.wf(),
        ensures
            match r {
                Some(t) => {
                    &&& 1 <= t.position <= self.tasks@.len()
                    &&& *t == self.tasks@[t.position - 1]
                    &&& t.is_active_spec()
                    &&& forall|j: int|
                        0 <= j < t.position - 1 ==> !(#[trigger] self.tasks@[j]).is_active_spec()
                },
                None => !has_active(self.tasks@),
            },
    {
        let mut i: usize = 0;
        while i < self.tasks.len()
            invariant
                self.wf(),
                0 <= i <= self.tasks@.len(),
                forall|j: int| 0 <= j < i ==> !(#[trigger] self.tasks@[j]).is_active_spec(),
            decreases self.tasks@.len() - i,
        {
            if self.tasks[i].started_at.is_some() && self.tasks[i].finished_at.is_none() {
                return Some(&self.tasks[i]);
            }
            i = i + 1;
        }
        None
    }

    /// Returns the first task that has not been started yet, if any.
    pub fn first_not_started_task(&self) -> (r: Option<&Task>)
        requires
            self.wf(),
        ensures
            match r {
                Some(t) => {
                    &&& 1 <= t.position <= self.tasks@.len()
                    &&& *t == self.tasks@[t.position - 1]
                    &&& t.started_at is None
                    &&& forall|j: int|
                        0 <= j < t.position - 1 ==> (#[trigger] self.tasks@[j]).started_at is Some
                },
                None => forall|j: int|
                    0 <= j < self.tasks@.len() ==> (#[trigger] self.tasks@[j]).started_at is Some,
            },
    {
        let mut i: usize = 0;
        while i < self.tasks.len()
            invariant
                self.wf(),
                0 <= i <= self.tasks@.len(),
                forall|j: int| 0 <= j < i ==> (#[trigger] self.tasks@[j]).started_at is Some,
            decreases self.tasks@.len() - i,
        {
            if self.tasks[i].started_at.is_none() {
                return Some(&self.tasks[i]);
            }
            i = i + 1;
        }
        None
    }

    /// Get the task at a given position, if any.
    pub fn task_at(&self, position: u32) -> (r: Option<&Task>)
        requires
            self.wf(),
        ensures
            match r {
                Some(t) => 1 <= position <= self.tasks@.len() && *t == self.tasks@[position - 1],
                None => !(1 <= position <= self.tasks@.len()),
            },
    {
        if position >= 1 && position as usize <= self.tasks.len() {
            Some(&self.tasks[(position - 1) as usize])
        } else {
            None
        }
    }

    /// The day's tasks, in position order.
    pub fn tasks(&self) -> (r: &Vec<Task>)
        ensures
            r@ == self.tasks@,
    {
        &self.tasks
    }

    /// Set the work state to running; if no task is active, also start
    /// the first task that has not been started yet.  Fails with
    /// `InvalidState` while already running or with no pending tasks.
    pub fn start(&mut self, now: i64) -> (r: Result<(), Error>)
        requires
            old(self).wf(),
            old(self).fresh(now),
            old(self).toggles@.len() < MAX_TOGGLES,
        ensures
            final(self).wf(),
            final(self).fresh(now),
            r is Ok <==> old(self).work_state_spec() is Stopped,
            r is Err ==> r == Err::<(), Error>(Error::InvalidState) && *final(self) == *old(self),
            r is Ok ==> ({
                &&& final(self).toggles@ == old(self).toggles@.push(now)
                &&& if has_active(old(self).tasks@) {
                    final(self).tasks@ == old(self).tasks@
                } else {
                    starts_first_not_started(old(self).tasks@, final(self).tasks@, now)
                }
            }),
            final(self).day == old(self).day,
            final(self).next_id == old(self).next_id,
    {
        match self.current_work_state() {
            WorkState::Running => Err(Error::InvalidState),
            WorkState::NoPendingTasks => Err(Error::InvalidState),
            WorkState::Stopped => {
                self.switch_work_state(now);
                let active_position: Option<u32> = match self.active_task() {
                    Some(t) => Some(t.position),
                    None => None,
                };
                if active_position.is_none() {
                    let to_start: Option<u32> = match self.first_not_started_task() {
                        Some(t) => Some(t.position),
                        None => None,
                    };
                    match to_start {
                        Some(p) => {
                            self.start_task(p, now);
                            proof {
                                assert(old(self).tasks@[p - 1].started_at is None);
                            }
                        },
                        None => {
                            proof {
                                // Unreachable: stopped means some task is
                                // unfinished, yet every task is started and
                                // none is active.
                                lemma_count_unfinished_zero(self.tasks@);
                                let i = choose|i: int|
                                    0 <= i < self.tasks@.len() && (#[trigger] self.tasks@[i]).finished_at is None;
                                assert(self.tasks@[i].is_active_spec());
                                assert(false);
                            }
                        },
                    }
                }
                Ok(())
            },
        }
    }

    /// Set the work state to stopped.  Fails with `InvalidState` unless
    /// work is running.
    pub fn stop(&mut self, now: i64) -> (r: Result<(), Error>)
        requires
            old(self).wf(),
            old(self).fresh(now),
            old(self).toggles@.len() < MAX_TOGGLES,
        ensures
            final(self).wf(),
            final(self).fresh(now),
            r is Ok <==> old(self).work_state_spec() is Running,
            r is Err ==> r == Err::<(), Error>(Error::InvalidState) && *final(self) == *old(self),
            r is Ok ==> final(self).toggles@ == old(self).toggles@.push(now) && final(self).tasks
                == old(self).tasks,
            final(self).day == old(self).day,
            final(self).next_id == old(self).next_id,
    {
        match self.current_work_state() {
            WorkState::Running => {
                self.switch_work_state(now);
                Ok(())
            },
            WorkState::Stopped => Err(Error::InvalidState),
            WorkState::NoPendingTasks => Err(Error::InvalidState),
        }
    }

    /// Finish the active task and advance: the task at the next
    /// position is started if it has not been yet, and once nothing
    /// unfinished is left the work state switches to stopped.  While
    /// stopped with no active task, it instead starts the first task
    /// not yet started (the beginning of the day, or a task added after
    /// everything was done).  Everything else fails with
    /// `InvalidState`.
    pub fn next(&mut self, now: i64) -> (r: Result<(), Error>)
        requires
            old(self).wf(),
            old(self).fresh(now),
            old(self).toggles@.len() < MAX_TOGGLES,
        ensures
            final(self).wf(),
            final(self).fresh(now),
            r is Err ==> r == Err::<(), Error>(Error::InvalidState) && *final(self) == *old(self),
            r is Ok <==> (old(self).work_state_spec() is Stopped && !has_active(old(self).tasks@))
                || (old(self).work_state_spec() is Running && has_active(old(self).tasks@)),
            old(self).work_state_spec() is Stopped && !has_active(old(self).tasks@) ==> ({
                &&& final(self).toggles@ == old(self).toggles@.push(now)
                &&& starts_first_not_started(old(self).tasks@, final(self).tasks@, now)
            }),
            old(self).work_state_spec() is Running && has_active(old(self).tasks@)
                ==> advances_active(
                old(self).tasks@,
                final(self).tasks@,
                old(self).toggles@,
                final(self).toggles@,
                now,
            ),
            final(self).day == old(self).day,
            final(self).next_id == old(self).next_id,
    {
        let state = self.current_work_state();
        match state {
            WorkState::NoPendingTasks => Err(Error::InvalidState),
            WorkState::Stopped => {
                let active_position: Option<u32> = match self.active_task() {
                    Some(t) => Some(t.position),
                    None => None,
                };
                if active_position.is_some() {
                    return Err(Error::InvalidState);
                }
                let to_start: Option<u32> = match self.first_not_started_task() {
                    Some(t) => Some(t.position),
                    None => None,
                };
                match to_start {
                    Some(p) => {
                        self.switch_work_state(now);
                        self.start_task(p, now);
                        proof {
                            assert(old(self).tasks@[p - 1].started_at is None);
                        }
                        Ok(())
                    },
                    None => {
                        proof {
                            // Unreachable: stopped means some task is
                            // unfinished, yet every task is started and
                            // none is active.
                            lemma_count_unfinished_zero(self.tasks@);
                            let i = choose|i: int|
                                0 <= i < self.tasks@.len() && (#[trigger] self.tasks@[i]).finished_at is None;
                            assert(self.tasks@[i].is_active_spec());
                            assert(false);
                        }
                        Err(Error::InvalidState)
                    },
                }
            },
            WorkState::Running => {
                let active_position: Option<u32> = match self.active_task() {
                    Some(t) => Some(t.position),
                    None => None,
                };
                match active_position {
                    None => Err(Error::InvalidState),
                    Some(p) => {
                        proof {
                            assert(old(self).tasks@[p - 1].is_active_spec());
                        }
                        self.finish_task(p, now);
                        self.start_task(p + 1, now);
                        if self.unfinished_tasks_count() == 0 {
                            self.switch_work_state(now);
                        }
                        Ok(())
                    },
                }
            },
        }
    }

    /// Returns a vector of the ranges in which work has been stopped,
    /// in order; if work is currently stopped, the last range is open
    /// ended.
    pub fn stopped_ranges(&self) -> (r: Vec<Range>)
        requires
            self.wf(),
        ensures
            r@ == stopped_ranges_spec(self.toggles@),
            r@.len() == self.toggles@.len() / 2,
            forall|j: int| 0 <= j < r@.len() ==> range_wf(#[trigger] r@[j]),
    {
        let n = self.toggles.len();
        let mut r: Vec<Range> = Vec::new();
        let mut j: usize = 0;
        while j < n / 2
            invariant
                self.wf(),
                n == self.toggles@.len(),
                0 <= j <= n / 2,
                r@.len() == j,
                forall|k: int| 0 <= k < j ==> r@[k] == stopped_ranges_spec(self.toggles@)[k],
            decreases n / 2 - j,
        {
            let start = self.toggles[2 * j + 1];
            let end = if 2 * j + 2 < n {
                Some(self.toggles[2 * j + 2])
            } else {
                None
            };
            r.push((start, end));
            j = j + 1;
        }
        proof {
            assert(r@ =~= stopped_ranges_spec(self.toggles@));
        }
        r
    }
}

/// `post` is `pre` with the first not-yet-started task started at
/// `now`.
pub open spec fn starts_first_not_started(pre: Seq<Task>, post: Seq<Task>, now: i64) -> bool {
    exists|i: int|
        0 <= i < pre.len() && (#[trigger] pre[i]).started_at is None && (forall|j: int|
            0 <= j < i ==> pre[j].started_at is Some) && post == pre.update(
            i,
            with_started(pre[i], now),
        )
}

/// `post` is `pre` with the first active task finished at `now` and the
/// task at the following position, if there is one and it has not been
/// started, started at `now`; `post_toggles` gains one event exactly
/// when that leaves nothing unfinished.
pub open spec fn advances_active(
    pre: Seq<Task>,
    post: Seq<Task>,
    pre_toggles: Seq<i64>,
    post_toggles: Seq<i64>,
    now: i64,
) -> bool {
    exists|i: int|
        {
            &&& 0 <= i < pre.len()
            &&& (#[trigger] pre[i]).is_active_spec()
            &&& forall|j: int| 0 <= j < i ==> !pre[j].is_active_spec()
            &&& ({
                let finished = pre.update(i, with_finished(pre[i], now));
                let started = if i + 1 < finished.len() && finished[i + 1].started_at is None {
                    finished.update(i + 1, with_started(finished[i + 1], now))
                } else {
                    finished
                };
                &&& post == started
                &&& post_toggles == if count_unfinished(started) == 0 {
                    pre_toggles.push(now)
                } else {
                    pre_toggles
                }
            })
        }
}

/// Two consecutive toggle events return the derived work state to what
/// it was.
pub proof fn lemma_double_switch(unfinished: int, ntoggles: int)
    requires
        ntoggles >= 0,
    ensures
        derived_state(unfinished, ntoggles + 2) == derived_state(unfinished, ntoggles),
{
}

/// After `k` further toggle events, the derived work state depends only
/// on the parity of `k`: the state is what `k % 2` additional events
/// would give.
pub proof fn lemma_switch_parity(unfinished: int, ntoggles: int, k: int)
    requires
        ntoggles >= 0,
        k >= 0,
    ensures
        derived_state(unfinished, ntoggles + k) == derived_state(unfinished, ntoggles + k % 2),
{
}

/// Some task of `s` occupies position `k`.
pub open spec fn has_position(s: Seq<Task>, k: int) -> bool {
    exists|i: int| 0 <= i < s.len() && (#[trigger] s[i]).position == k
}

/// Position density: in a well-formed planner the positions of the
/// day's tasks are exactly `1..=count`, with no duplicates and no gaps.
pub proof fn lemma_position_density(p: Planner)
    requires
        p.wf(),
    ensures
        forall|i: int|
            0 <= i < p.tasks@.len() ==> 1 <= #[trigger] p.tasks@[i].position <= p.tasks@.len(),
        forall|i: int, j: int|
            0 <= i < p.tasks@.len() && 0 <= j < p.tasks@.len() && i != j ==> p.tasks@[i].position
                != p.tasks@[j].position,
        forall|k: int| 1 <= k <= p.tasks@.len() ==> #[trigger] has_position(p.tasks@, k),
{
    assert forall|k: int| 1 <= k <= p.tasks@.len() implies #[trigger] has_position(
        p.tasks@,
        k,
    ) by {
        assert(p.tasks@[k - 1].position == k);
    }
}

/// A task list with no unfinished task has every task finished, and the
/// other way round.
pub proof fn lemma_count_unfinished_zero(s: Seq<Task>)
    ensures
        count_unfinished(s) >= 0,
        (count_unfinished(s) == 0) <==> (forall|i: int|
            0 <= i < s.len() ==> (#[trigger] s[i]).finished_at is Some),
    decreases s.len(),
{
    if s.len() == 0 {
    } else {
        lemma_count_unfinished_zero(s.drop_last());
        assert(forall|i: int| 0 <= i < s.len() - 1 ==> #[trigger] s[i] == s.drop_last()[i]);
    }
}

} // verus!
