//! Planner scenarios: the task list, the work state, and the listing.

use akiv::planner::Error;
use akiv::planner::Planner;
use akiv::planner::WorkState;
use akiv::task::Day;
use akiv::task::TaskExtra;
use akiv::task::TaskState;

fn day() -> Day {
    Day { year: 2024, month: 5, day: 1 }
}

#[test]
fn add_then_insert_then_start_then_remove() {
    let mut p = Planner::new(day());
    let now: i64 = 10_000;

    // add task A, one hour
    let pos_a = p.add_task("A".to_string(), 3600, None, now);
    assert_eq!(pos_a, 1);
    let rows = p.list(now);
    assert_eq!(rows.len(), 1);
    assert_eq!(rows[0].position, 1);
    assert_eq!(rows[0].state, TaskState::Pending);

    // add task B at position 1, half an hour: B takes position 1, A moves to 2
    let pos_b = p.add_task("B".to_string(), 1800, Some(1), now + 10);
    assert_eq!(pos_b, 1);
    let rows = p.list(now + 10);
    assert_eq!(rows.len(), 2);
    assert_eq!(rows[0].description, "B");
    assert_eq!(rows[0].position, 1);
    assert_eq!(rows[1].description, "A");
    assert_eq!(rows[1].position, 2);

    // start: B, at position 1, becomes active
    assert!(p.start(now + 20).is_ok());
    let active = p.active_task().expect("one task should be active");
    assert_eq!(active.description, "B");
    assert_eq!(active.position, 1);
    assert_eq!(active.state(), TaskState::Active);

    // removing A (position 2, not started) succeeds
    assert_eq!(p.remove_task(2), Ok(()));
    // removing B (position 1, started) fails
    assert_eq!(p.remove_task(1), Err(Error::InvalidState));
    assert_eq!(p.tasks_count(), 1);
}

#[test]
fn insert_clamping() {
    let mut p = Planner::new(day());
    let now: i64 = 500;
    // requested position below 1 lands at 1
    assert_eq!(p.add_task("a".to_string(), 60, Some(0), now), 1);
    // requested position far past the end lands right after the last task
    assert_eq!(p.add_task("b".to_string(), 60, Some(99), now), 2);
    // no requested position appends
    assert_eq!(p.add_task("c".to_string(), 60, None, now), 3);
    // an in-range position is kept
    assert_eq!(p.add_task("d".to_string(), 60, Some(2), now), 2);
    let rows = p.list(now);
    let names: Vec<&str> = rows.iter().map(|r| r.description.as_str()).collect();
    assert_eq!(names, ["a", "d", "b", "c"]);
    for (i, row) in rows.iter().enumerate() {
        assert_eq!(row.position as usize, i + 1);
    }
}

#[test]
fn positions_stay_dense() {
    let mut p = Planner::new(day());
    let now: i64 = 100;
    for k in 0..6 {
        p.add_task(format!("t{}", k), 60, None, now);
    }
    p.add_task("mid".to_string(), 60, Some(3), now);
    assert_eq!(p.remove_task(1), Ok(()));
    assert_eq!(p.remove_task(4), Ok(()));
    p.add_task("again".to_string(), 60, Some(2), now);
    let tasks = p.tasks();
    assert_eq!(tasks.len(), 6);
    for (i, t) in tasks.iter().enumerate() {
        assert_eq!(t.position as usize, i + 1);
    }
}

#[test]
fn remove_errors() {
    let mut p = Planner::new(day());
    assert_eq!(p.remove_task(1), Err(Error::NotFound));
    let now: i64 = 100;
    p.add_task("a".to_string(), 60, None, now);
    assert_eq!(p.remove_task(0), Err(Error::NotFound));
    assert_eq!(p.remove_task(2), Err(Error::NotFound));
    assert_eq!(p.remove_task(1), Ok(()));
    assert_eq!(p.tasks_count(), 0);
}

#[test]
fn no_pending_tasks_overrides_parity() {
    // an empty day reports no pending tasks whatever the log parity says
    let p = Planner {
        day: day(),
        tasks: Vec::new(),
        toggles: vec![100, 200, 300],
        next_id: 1,
    };
    assert_eq!(p.current_work_state(), WorkState::NoPendingTasks);

    let mut p = Planner::new(day());
    assert_eq!(p.current_work_state(), WorkState::NoPendingTasks);
    // start and next both refuse to run with no pending tasks
    assert_eq!(p.start(400), Err(Error::InvalidState));
    assert_eq!(p.next(400), Err(Error::InvalidState));
}

#[test]
fn switch_parity() {
    let mut p = Planner::new(day());
    p.add_task("a".to_string(), 60, None, 100);
    assert_eq!(p.current_work_state(), WorkState::Stopped);
    p.switch_work_state(200);
    assert_eq!(p.current_work_state(), WorkState::Running);
    p.switch_work_state(300);
    assert_eq!(p.current_work_state(), WorkState::Stopped);
    p.switch_work_state(400);
    p.switch_work_state(500);
    // two further flips land back on the same state
    assert_eq!(p.current_work_state(), WorkState::Stopped);
}

#[test]
fn start_and_stop_errors() {
    let mut p = Planner::new(day());
    p.add_task("a".to_string(), 60, None, 100);
    assert_eq!(p.stop(150), Err(Error::InvalidState));
    assert!(p.start(200).is_ok());
    assert_eq!(p.start(250), Err(Error::InvalidState));
    assert!(p.stop(300).is_ok());
    assert_eq!(p.stop(350), Err(Error::InvalidState));
}

#[test]
fn next_walks_through_the_day() {
    let mut p = Planner::new(day());
    p.add_task("a".to_string(), 60, None, 100);
    p.add_task("b".to_string(), 60, None, 100);

    // next from a stopped morning starts the first task
    assert!(p.next(200).is_ok());
    assert_eq!(p.current_work_state(), WorkState::Running);
    assert_eq!(p.active_task().unwrap().description, "a");

    // next finishes "a" and starts "b"
    assert!(p.next(300).is_ok());
    assert_eq!(p.active_task().unwrap().description, "b");
    assert_eq!(p.task_at(1).unwrap().state(), TaskState::Done);

    // next finishes "b"; nothing is left, so work stops by itself
    assert!(p.next(400).is_ok());
    assert!(p.active_task().is_none());
    assert_eq!(p.current_work_state(), WorkState::NoPendingTasks);
    assert_eq!(p.unfinished_tasks_count(), 0);

    // and a further next has nothing to do
    assert_eq!(p.next(500), Err(Error::InvalidState));
}

#[test]
fn next_while_stopped_with_active_task_fails() {
    let mut p = Planner::new(day());
    p.add_task("a".to_string(), 60, None, 100);
    assert!(p.start(200).is_ok());
    assert!(p.stop(300).is_ok());
    assert_eq!(p.next(400), Err(Error::InvalidState));
}

#[test]
fn stopped_ranges_from_toggles() {
    let mut p = Planner::new(day());
    p.add_task("a".to_string(), 3600, None, 900);
    let t0: i64 = 1000;
    assert!(p.start(t0).is_ok());
    assert!(p.stop(t0 + 600).is_ok());
    assert!(p.start(t0 + 1200).is_ok());
    // one closed pause, from the stop to the second start
    let ranges = p.stopped_ranges();
    assert_eq!(ranges, vec![(t0 + 600, Some(t0 + 1200))]);

    // stopping again leaves an open-ended pause at the tail
    assert!(p.stop(t0 + 1500).is_ok());
    let ranges = p.stopped_ranges();
    assert_eq!(ranges, vec![(t0 + 600, Some(t0 + 1200)), (t0 + 1500, None)]);
}

#[test]
fn paused_time_of_active_task() {
    let mut p = Planner::new(day());
    p.add_task("a".to_string(), 3600, None, 900);
    let t0: i64 = 1000;
    assert!(p.start(t0).is_ok());
    assert!(p.stop(t0 + 600).is_ok());
    assert!(p.start(t0 + 1200).is_ok());
    // the task started at t0 and still active has been paused 600 s
    let rows = p.list(t0 + 2000);
    assert_eq!(rows[0].paused_time, 600);
    assert_eq!(rows[0].state, TaskState::Active);
    // elapsed excludes the pause
    assert_eq!(rows[0].ellapsed, 2000 - 600);
}

#[test]
fn pauses_view_durations() {
    let mut p = Planner::new(day());
    p.add_task("a".to_string(), 3600, None, 900);
    assert!(p.start(1000).is_ok());
    assert!(p.stop(1600).is_ok());
    assert!(p.start(2200).is_ok());
    assert!(p.stop(2500).is_ok());
    let now: i64 = 3000;
    let rows = p.pauses(now);
    assert_eq!(rows.len(), 2);
    assert_eq!(rows[0].start, 1600);
    assert_eq!(rows[0].end, Some(2200));
    assert_eq!(rows[0].duration, 600);
    assert_eq!(rows[1].start, 2500);
    assert_eq!(rows[1].end, None);
    assert_eq!(rows[1].duration, 500);
}

#[test]
fn stopped_ranges_short_logs() {
    let mut p = Planner::new(day());
    // no toggle events: no pauses
    assert!(p.stopped_ranges().is_empty());
    // a single event opens the day's first running period, not a pause
    p.add_task("a".to_string(), 60, None, 100);
    assert!(p.start(200).is_ok());
    assert!(p.stopped_ranges().is_empty());
}

#[test]
fn clock_never_precedes_recorded_instants() {
    let mut p = Planner::new(day());
    let far_future = akiv::MAX_TS;
    p.add_task("a".to_string(), 60, None, far_future);
    let now = p.clock();
    assert_eq!(now, far_future);

    let p = Planner::new(day());
    let now = p.clock();
    assert!((0..=akiv::MAX_TS).contains(&now));
}

#[test]
fn start_task_sets_the_timestamp_once() {
    let mut p = Planner::new(day());
    p.add_task("a".to_string(), 60, None, 100);
    p.start_task(1, 200);
    assert_eq!(p.task_at(1).unwrap().started_at, Some(200));
    // a second start leaves the first timestamp in place
    p.start_task(1, 300);
    assert_eq!(p.task_at(1).unwrap().started_at, Some(200));
    // starting a position nothing occupies does nothing
    p.start_task(5, 300);
    assert_eq!(p.tasks_count(), 1);
}

#[test]
fn first_not_started_skips_started_tasks() {
    let mut p = Planner::new(day());
    p.add_task("a".to_string(), 60, None, 100);
    p.add_task("b".to_string(), 60, None, 100);
    assert_eq!(p.first_not_started_task().unwrap().description, "a");
    p.start_task(1, 200);
    assert_eq!(p.first_not_started_task().unwrap().description, "b");
    p.start_task(2, 300);
    assert!(p.first_not_started_task().is_none());
}
