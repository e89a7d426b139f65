//! Interval arithmetic: the overlap duration of two time ranges.
//!
//! A range is `(start, end)` where `end == None` means the range is still
//! open.  The overlap of two ranges is decided by a fixed list of rules,
//! evaluated in order with the first match winning; `overlap_spec` is that
//! list verbatim and `overlap` computes it.

use vstd::prelude::*;

use crate::ts_valid;
use crate::MAX_TS;

verus! {

/// A time range: a closed start and an optionally open end.
pub type Range = (i64, Option<i64>);

/// Both endpoints of the range are valid timestamps.
pub open spec fn range_valid(r: Range) -> bool {
    &&& ts_valid(r.0)
    &&& (r.1 matches Some(e) ==> ts_valid(e))
}

/// A well-formed range: valid endpoints, and a closed end does not
/// precede the start.
pub open spec fn range_wf(r: Range) -> bool {
    &&& range_valid(r)
    &&& (r.1 matches Some(e) ==> r.0 <= e)
}

/// The overlap duration of `range1` and `range2`, with `end` standing in
/// as the close of both ranges when both are open.  The rules are tried
/// in order; the first whose condition holds gives the result:
/// 1. both open: `end` minus the later start;
/// 2. `range2` closed, `range1` starts no later and reaches `range2`'s
///    start: `range2`'s whole duration;
/// 3. the mirror image of rule 2;
/// 4. `range1` closed and ending inside `range2`: from `range2`'s start
///    to `range1`'s end;
/// 5. the mirror image of rule 4;
/// 6. otherwise zero.
pub open spec fn overlap_spec(range1: Range, range2: Range, end: i64) -> int {
    if range1.1 is None && range2.1 is None {
        if range1.0 > range2.0 {
            end - range1.0
        } else {
            end - range2.0
        }
    } else if range2.1 is Some && range1.0 <= range2.0 && (range1.1 matches Some(e1) ==> e1
        >= range2.0) {
        range2.1->0 - range2.0
    } else if range1.1 is Some && range2.0 <= range1.0 && (range2.1 matches Some(e2) ==> e2
        >= range1.0) {
        range1.1->0 - range1.0
    } else if range1.1 is Some && range1.1->0 >= range2.0 && (range2.1 matches Some(e2) ==> e2
        >= range1.1->0) {
        range1.1->0 - range2.0
    } else if range2.1 is Some && range2.1->0 >= range1.0 && (range1.1 matches Some(e1) ==> e1
        >= range2.1->0) {
        range2.1->0 - range1.0
    } else {
        0
    }
}

/// Computes the overlap duration of two ranges; see `overlap_spec` for
/// the rules.  Ranges may have an open end but no open start.  When both
/// ranges are open, `end` is used as the common limit, so it should not
/// precede either start.
pub fn overlap(range1: Range, range2: Range, end: i64) -> (r: i64)
    requires
        range_valid(range1),
        range_valid(range2),
        ts_valid(end),
    ensures
        r == overlap_spec(range1, range2, end),
{
    // both open ranges
    if range1.1.is_none() && range2.1.is_none() {
        if range1.0 > range2.0 {
            return end - range1.0;
        } else {
            return end - range2.0;
        }
    }
    // range1 reaches range2, which is closed
    if range2.1.is_some() && range1.0 <= range2.0 && (range1.1.is_none() || range1.1.unwrap()
        >= range2.0) {
        return range2.1.unwrap() - range2.0;
    }
    // range2 reaches range1, which is closed
    if range1.1.is_some() && range2.0 <= range1.0 && (range2.1.is_none() || range2.1.unwrap()
        >= range1.0) {
        return range1.1.unwrap() - range1.0;
    }
    // range1 ends inside range2
    if range1.1.is_some() && range1.1.unwrap() >= range2.0 && (range2.1.is_none()
        || range2.1.unwrap() >= range1.1.unwrap()) {
        return range1.1.unwrap() - range2.0;
    }
    // range2 ends inside range1
    if range2.1.is_some() && range2.1.unwrap() >= range1.0 && (range1.1.is_none()
        || range1.1.unwrap() >= range2.1.unwrap()) {
        return range2.1.unwrap() - range1.0;
    }
    // no overlap
    0
}

/// On well-formed ranges whose open ends do not pass `end`, the overlap
/// is a duration: non-negative and bounded.
pub proof fn lemma_overlap_bounds(range1: Range, range2: Range, end: i64)
    requires
        range_wf(range1),
        range_wf(range2),
        ts_valid(end),
        range1.1 is None && range2.1 is None ==> range1.0 <= end && range2.0 <= end,
    ensures
        0 <= overlap_spec(range1, range2, end) <= MAX_TS,
{
}

/// The overlap of two ranges does not depend on their order, except for
/// closed ranges that share a start, both reach it, and end differently:
/// there the rule list answers with the duration of whichever range
/// comes second.
pub proof fn lemma_overlap_symmetric(range1: Range, range2: Range, end: i64)
    requires
        !(range1.1 matches Some(e1) && range2.1 matches Some(e2) && range1.0 == range2.0 && e1
            >= range1.0 && e2 >= range2.0 && e1 != e2),
    ensures
        overlap_spec(range1, range2, end) == overlap_spec(range2, range1, end),
{
}

/// The overlap of two well-formed ranges that are strictly disjoint
/// (one is closed and ends before the other starts) is zero.
pub proof fn lemma_overlap_disjoint(range1: Range, range2: Range, end: i64)
    requires
        range_wf(range1),
        range_wf(range2),
        (range1.1 matches Some(e1) && e1 < range2.0) || (range2.1 matches Some(e2) && e2
            < range1.0),
    ensures
        overlap_spec(range1, range2, end) == 0,
{
}

/// The overlap of a well-formed closed range with itself is its own
/// duration.
pub proof fn lemma_overlap_self(range: Range, end: i64)
    requires
        range.1 matches Some(e) && range.0 <= e,
    ensures
        overlap_spec(range, range, end) == range.1->0 - range.0,
{
}

} // verus!
