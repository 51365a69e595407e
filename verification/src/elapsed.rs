//! How the elapsed time of a session depends on the clock and on the
//! operations of the store.

use vstd::prelude::*;
use crate::model::{closed_at, elapsed_of, is_open_for, StoreView};
use crate::rows::Interval;

verus! {

/// The seconds that the session's closed intervals among `intervals` span.
pub open spec fn closed_seconds_of(intervals: Seq<Interval>, session_id: i64) -> int
    decreases intervals.len(),
{
    if intervals.len() == 0 {
        0
    } else {
        closed_seconds_of(intervals.drop_last(), session_id) + (match intervals.last().end_time {
            Some(end) if intervals.last().session_id == session_id => end
                - intervals.last().start_time,
            _ => 0,
        })
    }
}

/// Elapsed time never runs backwards: at a later `now` the sum is no less.
pub proof fn lemma_elapsed_monotone(
    intervals: Seq<Interval>,
    session_id: i64,
    earlier: i64,
    later: i64,
)
    requires
        earlier <= later,
    ensures
        elapsed_of(intervals, session_id, earlier) <= elapsed_of(intervals, session_id, later),
    decreases intervals.len(),
{
    if intervals.len() > 0 {
        lemma_elapsed_monotone(intervals.drop_last(), session_id, earlier, later);
    }
}

/// Where the session has no open interval, its elapsed time does not depend
/// on `now`: it is the sum over its closed intervals.
pub proof fn lemma_elapsed_closed(intervals: Seq<Interval>, session_id: i64, now: i64)
    requires
        forall|k: int| 0 <= k < intervals.len() ==> !is_open_for(#[trigger] intervals[k], session_id),
    ensures
        elapsed_of(intervals, session_id, now) == closed_seconds_of(intervals, session_id),
    decreases intervals.len(),
{
    if intervals.len() > 0 {
        let head = intervals.drop_last();
        assert forall|k: int| 0 <= k < head.len() implies !is_open_for(
            #[trigger] head[k],
            session_id,
        ) by {
            assert(head[k] == intervals[k]);
        }
        lemma_elapsed_closed(head, session_id, now);
        assert(!is_open_for(intervals[intervals.len() - 1], session_id));
    }
}

/// Where exactly the interval at `open` is open for the session, the
/// elapsed time is the sum over the closed intervals and the time since
/// that interval began.
pub proof fn lemma_elapsed_one_open(intervals: Seq<Interval>, session_id: i64, open: int, now: i64)
    requires
        0 <= open < intervals.len(),
        is_open_for(intervals[open], session_id),
        forall|k: int|
            0 <= k < intervals.len() && is_open_for(#[trigger] intervals[k], session_id) ==> k
                == open,
    ensures
        elapsed_of(intervals, session_id, now) == closed_seconds_of(intervals, session_id) + (now
            - intervals[open].start_time),
    decreases intervals.len(),
{
    let head = intervals.drop_last();
    if open == intervals.len() - 1 {
        assert forall|k: int| 0 <= k < head.len() implies !is_open_for(
            #[trigger] head[k],
            session_id,
        ) by {
            assert(head[k] == intervals[k]);
        }
        lemma_elapsed_closed(head, session_id, now);
    } else {
        assert(head[open] == intervals[open]);
        assert forall|k: int| 0 <= k < head.len() && is_open_for(
            #[trigger] head[k],
            session_id,
        ) implies k == open by {
            assert(head[k] == intervals[k]);
        }
        lemma_elapsed_one_open(head, session_id, open, now);
        assert(!is_open_for(intervals[intervals.len() - 1], session_id));
    }
}

/// To end the session's open intervals at `now` fixes its elapsed time at
/// what it was at `now`, and leaves the other sessions' elapsed time alone.
pub proof fn lemma_elapsed_after_close(
    intervals: Seq<Interval>,
    session_id: i64,
    now: i64,
    other: i64,
    later: i64,
)
    ensures
        elapsed_of(
            intervals.map_values(|interval: Interval| closed_at(interval, session_id, now)),
            session_id,
            later,
        ) == elapsed_of(intervals, session_id, now),
        other != session_id ==> elapsed_of(
            intervals.map_values(|interval: Interval| closed_at(interval, session_id, now)),
            other,
            later,
        ) == elapsed_of(intervals, other, later),
    decreases intervals.len(),
{
    let closed = intervals.map_values(|interval: Interval| closed_at(interval, session_id, now));
    if intervals.len() > 0 {
        let head = intervals.drop_last();
        lemma_elapsed_after_close(head, session_id, now, other, later);
        assert(closed.drop_last() =~= head.map_values(
            |interval: Interval| closed_at(interval, session_id, now),
        ));
        assert(closed.last() == closed_at(intervals.last(), session_id, now));
    }
}

impl StoreView {
    /// The seconds that the session's closed intervals span.
    pub open spec fn closed_seconds(self, session_id: i64) -> int {
        closed_seconds_of(self.intervals, session_id)
    }
}

} // verus!
