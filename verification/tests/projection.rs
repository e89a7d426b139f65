//! Per-task time projection: paused, elapsed, and estimated end times.

use akiv::planner::Planner;
use akiv::projection::ellapsed_time;
use akiv::projection::estimated_end_time;
use akiv::projection::paused_time;
use akiv::task::Day;
use akiv::task::Task;

fn day() -> Day {
    Day { year: 2024, month: 5, day: 1 }
}

fn task(started_at: Option<i64>, finished_at: Option<i64>, estimated_duration: i64) -> Task {
    Task {
        id: 1,
        description: "t".to_string(),
        created_at: 0,
        started_at,
        finished_at,
        day: day(),
        position: 1,
        estimated_duration,
    }
}

#[test]
fn paused_time_not_started_is_zero() {
    let pauses = vec![(100, Some(200)), (300, None)];
    assert_eq!(paused_time(&task(None, None, 600), &pauses, 1000), 0);
}

#[test]
fn paused_time_sums_pauses() {
    let t = task(Some(0), None, 600);
    let pauses = vec![(100, Some(200)), (400, Some(450))];
    assert_eq!(paused_time(&t, &pauses, 1000), 150);
}

#[test]
fn ellapsed_pending_is_zero() {
    let pauses = Vec::new();
    assert_eq!(ellapsed_time(&task(None, None, 600), &pauses, 1000), 0);
}

#[test]
fn ellapsed_active_subtracts_pauses() {
    let t = task(Some(100), None, 600);
    let pauses = vec![(300, Some(500))];
    assert_eq!(ellapsed_time(&t, &pauses, 1000), 900 - 200);
}

#[test]
fn ellapsed_done_is_clamped() {
    // the pause engulfs the whole task span, and the containment rule
    // counts the pause's full length: the raw figure would be negative
    let t = task(Some(100), Some(200), 600);
    let pauses = vec![(100, Some(500))];
    assert_eq!(paused_time(&t, &pauses, 1000), 400);
    assert_eq!(ellapsed_time(&t, &pauses, 1000), 0);
}

#[test]
fn ellapsed_done_counts_worked_span() {
    let t = task(Some(100), Some(700), 600);
    let pauses = vec![(200, Some(250))];
    assert_eq!(ellapsed_time(&t, &pauses, 1000), 600 - 50);
}

#[test]
fn estimated_end_none_when_finished() {
    let pauses = Vec::new();
    assert_eq!(estimated_end_time(&task(Some(1), Some(2), 600), 0, &pauses, 1000), None);
}

#[test]
fn estimated_end_pending_adds_backlog() {
    let pauses = Vec::new();
    let now: i64 = 1000;
    assert_eq!(
        estimated_end_time(&task(None, None, 600), 900, &pauses, now),
        Some(now + 900 + 600)
    );
}

#[test]
fn estimated_end_active_counts_remaining_work() {
    let now: i64 = 1000;
    // started at 400, no pauses: 600 worked, 300 of the estimate left
    let t = task(Some(400), None, 900);
    let pauses = Vec::new();
    assert_eq!(estimated_end_time(&t, 0, &pauses, now), Some(now + 300));
    // overworked task: nothing left, it should end now
    let t = task(Some(0), None, 900);
    assert_eq!(estimated_end_time(&t, 0, &pauses, now), Some(now));
}

#[test]
fn list_backlog_accumulates_over_pending_tasks() {
    let mut p = Planner::new(day());
    let now: i64 = 1000;
    p.add_task("a".to_string(), 600, None, now);
    p.add_task("b".to_string(), 900, None, now);
    p.add_task("c".to_string(), 300, None, now);
    let rows = p.list(now);
    assert_eq!(rows[0].estimated_end_time, Some(now + 600));
    assert_eq!(rows[1].estimated_end_time, Some(now + 600 + 900));
    assert_eq!(rows[2].estimated_end_time, Some(now + 600 + 900 + 300));
}

#[test]
fn list_backlog_counts_remaining_work_of_active_task() {
    let mut p = Planner::new(day());
    p.add_task("a".to_string(), 600, None, 100);
    p.add_task("b".to_string(), 900, None, 100);
    assert!(p.start(200).is_ok());
    // 250 s into "a": 350 s of its estimate left, then all of "b"
    let now: i64 = 450;
    let rows = p.list(now);
    assert_eq!(rows[0].estimated_end_time, Some(now + 350));
    assert_eq!(rows[1].estimated_end_time, Some(now + 350 + 900));
    // once "a" is done, only its actual span counts; "b" runs next
    assert!(p.next(500).is_ok());
    let rows = p.list(800);
    assert_eq!(rows[0].estimated_end_time, None);
    assert_eq!(rows[1].estimated_end_time, Some(800 + 600));
}

#[test]
fn list_reports_each_task() {
    let mut p = Planner::new(day());
    p.add_task("a".to_string(), 600, None, 100);
    p.add_task("b".to_string(), 900, None, 100);
    assert!(p.start(200).is_ok());
    let rows = p.list(300);
    assert_eq!(rows.len(), 2);
    assert_eq!(rows[0].description, "a");
    assert_eq!(rows[0].started_at, Some(200));
    assert_eq!(rows[0].estimated_duration, 600);
    assert_eq!(rows[0].ellapsed, 100);
    assert_eq!(rows[0].paused_time, 0);
    assert_eq!(rows[1].started_at, None);
    assert_eq!(rows[1].ellapsed, 0);
}
