//! The interval overlap rules, branch by branch.

use akiv::interval::overlap;

#[test]
fn overlap_both_open() {
    // both ranges open: the overlap runs from the later start to `end`
    assert_eq!(overlap((100, None), (300, None), 1000), 700);
    assert_eq!(overlap((300, None), (100, None), 1000), 700);
}

#[test]
fn overlap_first_contains_second() {
    // the first range starts no later and reaches the second, which is
    // closed: the second range's whole duration
    assert_eq!(overlap((0, Some(1000)), (200, Some(300)), 2000), 100);
    assert_eq!(overlap((0, None), (200, Some(300)), 2000), 100);
}

#[test]
fn overlap_second_contains_first() {
    assert_eq!(overlap((200, Some(300)), (0, Some(1000)), 2000), 100);
    assert_eq!(overlap((200, Some(300)), (0, None), 2000), 100);
}

#[test]
fn overlap_first_ends_inside_second() {
    // an open second range, so the containment rules step aside
    assert_eq!(overlap((0, Some(500)), (400, None), 2000), 100);
}

#[test]
fn overlap_second_ends_inside_first() {
    assert_eq!(overlap((400, None), (0, Some(500)), 2000), 100);
}

#[test]
fn overlap_disjoint_is_zero() {
    assert_eq!(overlap((0, Some(100)), (200, Some(300)), 2000), 0);
    assert_eq!(overlap((200, Some(300)), (0, Some(100)), 2000), 0);
    assert_eq!(overlap((200, None), (0, Some(100)), 2000), 0);
    assert_eq!(overlap((0, Some(100)), (200, None), 2000), 0);
}

#[test]
fn overlap_boundary_touch_open_end() {
    // a closed range ending exactly where an open one starts: a
    // zero-length overlap
    assert_eq!(overlap((0, Some(500)), (500, None), 2000), 0);
    assert_eq!(overlap((500, None), (0, Some(500)), 2000), 0);
}

#[test]
fn overlap_boundary_touch_closed() {
    // with both ranges closed, a touch at the boundary satisfies the
    // containment rule, which answers with the second range's duration
    assert_eq!(overlap((0, Some(500)), (500, Some(800)), 2000), 300);
}

#[test]
fn overlap_symmetry_grid() {
    // symmetric everywhere but one corner: two closed ranges that share
    // a start both reach it and end differently, where the rule list
    // answers with the duration of whichever range comes second
    let ends: [Option<i64>; 5] = [None, Some(0), Some(1), Some(2), Some(3)];
    for s1 in 0..4i64 {
        for e1 in ends {
            for s2 in 0..4i64 {
                for e2 in ends {
                    let a = (s1, e1);
                    let b = (s2, e2);
                    let symmetric = overlap(a, b, 10) == overlap(b, a, 10);
                    let excluded = e1.is_some() && e2.is_some() && s1 == s2
                        && e1.unwrap() >= s1 && e2.unwrap() >= s2 && e1 != e2;
                    assert_eq!(symmetric, !excluded);
                }
            }
        }
    }
}

#[test]
fn overlap_self_is_duration() {
    assert_eq!(overlap((100, Some(350)), (100, Some(350)), 2000), 250);
    assert_eq!(overlap((100, Some(100)), (100, Some(100)), 2000), 0);
}
