//! The store as mathematics: two sequences of rows, the operations on them,
//! and the rules that the rows obey.

use vstd::prelude::*;
use crate::rows::{Interval, SessionView};
use crate::status::SessionStatus;

verus! {

/// What a store holds: the sessions and the intervals, each in the order in
/// which the rows were created.
pub struct StoreView {
    pub sessions: Seq<SessionView>,
    pub intervals: Seq<Interval>,
}

/// Whether an interval belongs to the session and is still open.
pub open spec fn is_open_for(interval: Interval, session_id: i64) -> bool {
    interval.session_id == session_id && interval.end_time is None
}

/// The interval with its end set, if it is an open interval of the session;
/// else the interval as it is.
pub open spec fn closed_at(interval: Interval, session_id: i64, now: i64) -> Interval {
    if is_open_for(interval, session_id) {
        Interval { end_time: Some(now), ..interval }
    } else {
        interval
    }
}

/// The session with a new status and time of update, if it is the one with
/// the given id; else the session as it is.
pub open spec fn with_status(
    session: SessionView,
    session_id: i64,
    status: SessionStatus,
    now: i64,
) -> SessionView {
    if session.id == session_id {
        SessionView { status: status, updated_at: now, ..session }
    } else {
        session
    }
}

/// The seconds that one interval spans. An open interval counts as if it
/// ended at `now`.
pub open spec fn interval_seconds(interval: Interval, now: i64) -> int {
    match interval.end_time {
        Some(end) => end - interval.start_time,
        None => now - interval.start_time,
    }
}

/// The seconds that the session's intervals among `intervals` span in all.
pub open spec fn elapsed_of(intervals: Seq<Interval>, session_id: i64, now: i64) -> int
    decreases intervals.len(),
{
    if intervals.len() == 0 {
        0
    } else {
        elapsed_of(intervals.drop_last(), session_id, now) + (if intervals.last().session_id
            == session_id {
            interval_seconds(intervals.last(), now)
        } else {
            0
        })
    }
}

/// Whether the session at `i` is the latest: none was updated after it, and
/// those created after it were updated before it. So among sessions that
/// were updated in the same second the latest is the one created last.
pub open spec fn is_latest(sessions: Seq<SessionView>, i: int) -> bool {
    &&& 0 <= i < sessions.len()
    &&& forall|j: int|
        0 <= j < sessions.len() ==> (#[trigger] sessions[j]).updated_at <= sessions[i].updated_at
    &&& forall|j: int|
        i < j < sessions.len() ==> (#[trigger] sessions[j]).updated_at < sessions[i].updated_at
}

/// The position of the latest session.
pub open spec fn latest_index(sessions: Seq<SessionView>) -> int {
    choose|i: int| is_latest(sessions, i)
}

/// Whether `after` is the session `before` at a later time: what identifies
/// the session and its work item stays, and a finished session stays as it
/// is altogether.
pub open spec fn same_session(before: SessionView, after: SessionView) -> bool {
    &&& after.id == before.id
    &&& after.group_id == before.group_id
    &&& after.project_id == before.project_id
    &&& after.issue_id == before.issue_id
    &&& after.label == before.label
    &&& before.status == SessionStatus::Finished ==> after == before
}

/// Whether `after` is the interval `before` at a later time: it belongs to
/// the same session and began at the same time, and an interval that was
/// closed stays as it is altogether.
pub open spec fn same_interval(before: Interval, after: Interval) -> bool {
    &&& after.id == before.id
    &&& after.session_id == before.session_id
    &&& after.start_time == before.start_time
    &&& before.end_time is Some ==> after == before
}

impl StoreView {
    /// Whether `later` holds every row of this store, in its place: no row
    /// was removed, no finished session was changed, no closed interval
    /// was opened again.
    pub open spec fn kept_in(self, later: StoreView) -> bool {
        &&& self.sessions.len() <= later.sessions.len()
        &&& self.intervals.len() <= later.intervals.len()
        &&& forall|i: int|
            0 <= i < self.sessions.len() ==> same_session(
                #[trigger] self.sessions[i],
                later.sessions[i],
            )
        &&& forall|k: int|
            0 <= k < self.intervals.len() ==> same_interval(
                #[trigger] self.intervals[k],
                later.intervals[k],
            )
    }

    /// The store without rows.
    pub open spec fn empty() -> StoreView {
        StoreView { sessions: Seq::empty(), intervals: Seq::empty() }
    }

    /// Whether a session has the given id.
    pub open spec fn has_session(self, session_id: i64) -> bool {
        exists|i: int| 0 <= i < self.sessions.len() && #[trigger] self.sessions[i].id == session_id
    }

    /// The position of the session with the given id.
    pub open spec fn index_of(self, session_id: i64) -> int {
        choose|i: int| 0 <= i < self.sessions.len() && #[trigger] self.sessions[i].id == session_id
    }

    /// The session with the given id.
    pub open spec fn session(self, session_id: i64) -> SessionView {
        self.sessions[self.index_of(session_id)]
    }

    /// The rows are well formed: ids are positive and grow from row to row in
    /// both sequences, and every interval belongs to a session of the store.
    pub open spec fn wf(self) -> bool {
        &&& forall|i: int| 0 <= i < self.sessions.len() ==> #[trigger] self.sessions[i].id >= 1
        &&& forall|i: int, j: int|
            0 <= i < j < self.sessions.len() ==> #[trigger] self.sessions[i].id
                < #[trigger] self.sessions[j].id
        &&& forall|k: int| 0 <= k < self.intervals.len() ==> #[trigger] self.intervals[k].id >= 1
        &&& forall|k: int, l: int|
            0 <= k < l < self.intervals.len() ==> #[trigger] self.intervals[k].id
                < #[trigger] self.intervals[l].id
        &&& forall|k: int|
            0 <= k < self.intervals.len() ==> self.has_session(
                #[trigger] self.intervals[k].session_id,
            )
    }

    /// The id that the next session gets: one more than the last one's.
    pub open spec fn next_session_id(self) -> int {
        if self.sessions.len() == 0 {
            1
        } else {
            self.sessions.last().id + 1
        }
    }

    /// The id that the next interval gets: one more than the last one's.
    pub open spec fn next_interval_id(self) -> int {
        if self.intervals.len() == 0 {
            1
        } else {
            self.intervals.last().id + 1
        }
    }

    /// The store with one more session, which is running.
    pub open spec fn create_session(
        self,
        group_id: i64,
        project_id: i64,
        issue_id: i64,
        label: Seq<char>,
        now: i64,
    ) -> StoreView {
        StoreView {
            sessions: self.sessions.push(
                SessionView {
                    id: self.next_session_id() as i64,
                    group_id: group_id,
                    project_id: project_id,
                    issue_id: issue_id,
                    label: label,
                    status: SessionStatus::Running,
                    updated_at: now,
                },
            ),
            ..self
        }
    }

    /// The store with one more interval, open from `now` on.
    pub open spec fn open_interval(self, session_id: i64, now: i64) -> StoreView {
        StoreView {
            intervals: self.intervals.push(
                Interval {
                    id: self.next_interval_id() as i64,
                    session_id: session_id,
                    start_time: now,
                    end_time: None,
                },
            ),
            ..self
        }
    }

    /// The store with every open interval of the session ended at `now`.
    pub open spec fn close_open_interval(self, session_id: i64, now: i64) -> StoreView {
        StoreView {
            intervals: self.intervals.map_values(
                |interval: Interval| closed_at(interval, session_id, now),
            ),
            ..self
        }
    }

    /// The store with the session's status and time of update set.
    pub open spec fn set_status(self, session_id: i64, status: SessionStatus, now: i64) -> StoreView {
        StoreView {
            sessions: self.sessions.map_values(
                |session: SessionView| with_status(session, session_id, status, now),
            ),
            ..self
        }
    }

    /// The sum, over the session's intervals, of end minus start, where an
    /// open interval ends at `now`.
    pub open spec fn sum_elapsed_seconds(self, session_id: i64, now: i64) -> int {
        elapsed_of(self.intervals, session_id, now)
    }

    /// The latest session, if there is any session.
    pub open spec fn latest_session(self) -> Option<SessionView> {
        if self.sessions.len() == 0 {
            None
        } else {
            Some(self.sessions[latest_index(self.sessions)])
        }
    }

    /// Whether the session has an open interval.
    pub open spec fn has_open_interval(self, session_id: i64) -> bool {
        exists|k: int|
            0 <= k < self.intervals.len() && is_open_for(#[trigger] self.intervals[k], session_id)
    }

    /// No session has two open intervals.
    pub open spec fn one_open_interval_each(self) -> bool {
        forall|k: int, l: int|
            0 <= k < self.intervals.len() && 0 <= l < self.intervals.len() && (
            #[trigger] self.intervals[k]).end_time is None && (
            #[trigger] self.intervals[l]).end_time is None && self.intervals[k].session_id
                == self.intervals[l].session_id ==> k == l
    }

    /// A session has an open interval exactly when it is running.
    pub open spec fn open_means_running(self) -> bool {
        forall|i: int|
            0 <= i < self.sessions.len() ==> ((#[trigger] self.sessions[i]).status
                == SessionStatus::Running <==> self.has_open_interval(self.sessions[i].id))
    }

    /// The rule that ties intervals to status: a session has at most one
    /// open interval, and it has one exactly when it is running.
    pub open spec fn intervals_match_status(self) -> bool {
        self.one_open_interval_each() && self.open_means_running()
    }

    /// No session but the one with the given id is running.
    pub open spec fn only_running(self, session_id: i64) -> bool {
        forall|i: int|
            0 <= i < self.sessions.len() && (#[trigger] self.sessions[i]).status
                == SessionStatus::Running ==> self.sessions[i].id == session_id
    }

    /// Whether some session is running.
    pub open spec fn any_running(self) -> bool {
        exists|i: int|
            0 <= i < self.sessions.len() && (#[trigger] self.sessions[i]).status
                == SessionStatus::Running
    }

    /// At most one session is running.
    pub open spec fn at_most_one_running(self) -> bool {
        forall|i: int, j: int|
            0 <= i < self.sessions.len() && 0 <= j < self.sessions.len() && (
            #[trigger] self.sessions[i]).status == SessionStatus::Running && (
            #[trigger] self.sessions[j]).status == SessionStatus::Running ==> i == j
    }
}

/// In a well-formed store a session is found under its id, and nowhere else.
pub proof fn lemma_index_of(store: StoreView, i: int)
    requires
        store.wf(),
        0 <= i < store.sessions.len(),
    ensures
        store.has_session(store.sessions[i].id),
        store.index_of(store.sessions[i].id) == i,
        store.session(store.sessions[i].id) == store.sessions[i],
{
    let found = store.index_of(store.sessions[i].id);
    assert(0 <= found < store.sessions.len() && store.sessions[found].id == store.sessions[i].id);
    if found < i {
        assert(store.sessions[found].id < store.sessions[i].id);
    } else if i < found {
        assert(store.sessions[i].id < store.sessions[found].id);
    }
}

/// In a well-formed store the id of a row is greater than its position, so
/// there are no more rows than ids.
pub proof fn lemma_row_counts(store: StoreView)
    requires
        store.wf(),
    ensures
        forall|i: int| 0 <= i < store.sessions.len() ==> (#[trigger] store.sessions[i]).id > i,
        forall|k: int| 0 <= k < store.intervals.len() ==> (#[trigger] store.intervals[k]).id > k,
        store.sessions.len() <= i64::MAX,
        store.intervals.len() <= i64::MAX,
{
    lemma_session_ids_above(store, store.sessions.len() as int);
    lemma_interval_ids_above(store, store.intervals.len() as int);
    if store.sessions.len() > 0 {
        assert(store.sessions[store.sessions.len() - 1].id > store.sessions.len() - 1);
    }
    if store.intervals.len() > 0 {
        assert(store.intervals[store.intervals.len() - 1].id > store.intervals.len() - 1);
    }
}

proof fn lemma_session_ids_above(store: StoreView, n: int)
    requires
        store.wf(),
        0 <= n <= store.sessions.len(),
    ensures
        forall|i: int| 0 <= i < n ==> (#[trigger] store.sessions[i]).id > i,
    decreases n,
{
    if n > 0 {
        lemma_session_ids_above(store, n - 1);
        if n > 1 {
            assert(store.sessions[n - 2].id < store.sessions[n - 1].id);
        } else {
            assert(store.sessions[0].id >= 1);
        }
    }
}

proof fn lemma_interval_ids_above(store: StoreView, n: int)
    requires
        store.wf(),
        0 <= n <= store.intervals.len(),
    ensures
        forall|k: int| 0 <= k < n ==> (#[trigger] store.intervals[k]).id > k,
    decreases n,
{
    if n > 0 {
        lemma_interval_ids_above(store, n - 1);
        if n > 1 {
            assert(store.intervals[n - 2].id < store.intervals[n - 1].id);
        } else {
            assert(store.intervals[0].id >= 1);
        }
    }
}

/// A new session keeps the store well formed, and its id was not in use.
pub proof fn lemma_create_session(
    store: StoreView,
    group_id: i64,
    project_id: i64,
    issue_id: i64,
    label: Seq<char>,
    now: i64,
)
    requires
        store.wf(),
        store.next_session_id() <= i64::MAX,
    ensures
        store.create_session(group_id, project_id, issue_id, label, now).wf(),
        !store.has_session(store.next_session_id() as i64),
        store.create_session(group_id, project_id, issue_id, label, now).has_session(
            store.next_session_id() as i64,
        ),
        forall|k: int|
            0 <= k < store.intervals.len() ==> (#[trigger] store.intervals[k]).session_id
                != store.next_session_id(),
{
    let after = store.create_session(group_id, project_id, issue_id, label, now);
    let id = store.next_session_id() as i64;
    let n = store.sessions.len() as int;
    assert(after.sessions[n].id == id);
    assert forall|i: int| 0 <= i < n implies (#[trigger] store.sessions[i]).id < id by {
        if i < n - 1 {
            assert(store.sessions[i].id < store.sessions[n - 1].id);
        }
    }
    assert forall|i: int, j: int| 0 <= i < j < after.sessions.len() implies (
    #[trigger] after.sessions[i]).id < (#[trigger] after.sessions[j]).id by {
        if j < n {
            assert(store.sessions[i].id < store.sessions[j].id);
        } else {
            assert(store.sessions[i].id < id);
        }
    }
    assert forall|k: int| 0 <= k < after.intervals.len() implies after.has_session(
        #[trigger] after.intervals[k].session_id,
    ) by {
        let owner = store.index_of(store.intervals[k].session_id);
        assert(store.has_session(store.intervals[k].session_id));
        assert(after.sessions[owner].id == store.intervals[k].session_id);
    }
    assert forall|k: int| 0 <= k < store.intervals.len() implies (
    #[trigger] store.intervals[k]).session_id != id by {
        assert(store.has_session(store.intervals[k].session_id));
    }
}

/// A new interval of a session that exists keeps the store well formed.
pub proof fn lemma_open_interval(store: StoreView, session_id: i64, now: i64)
    requires
        store.wf(),
        store.has_session(session_id),
        store.next_interval_id() <= i64::MAX,
    ensures
        store.open_interval(session_id, now).wf(),
{
    let after = store.open_interval(session_id, now);
    let id = store.next_interval_id() as i64;
    let n = store.intervals.len() as int;
    assert forall|k: int| 0 <= k < n implies (#[trigger] store.intervals[k]).id < id by {
        if k < n - 1 {
            assert(store.intervals[k].id < store.intervals[n - 1].id);
        }
    }
    assert forall|k: int, l: int| 0 <= k < l < after.intervals.len() implies (
    #[trigger] after.intervals[k]).id < (#[trigger] after.intervals[l]).id by {
        if l < n {
            assert(store.intervals[k].id < store.intervals[l].id);
        } else {
            assert(store.intervals[k].id < id);
        }
    }
    assert forall|k: int| 0 <= k < after.intervals.len() implies after.has_session(
        #[trigger] after.intervals[k].session_id,
    ) by {
        if k < n {
            assert(store.has_session(store.intervals[k].session_id));
        }
    }
}

/// To end open intervals keeps the store well formed.
pub proof fn lemma_close_open_interval(store: StoreView, session_id: i64, now: i64)
    requires
        store.wf(),
    ensures
        store.close_open_interval(session_id, now).wf(),
{
    let after = store.close_open_interval(session_id, now);
    assert forall|k: int, l: int| 0 <= k < l < after.intervals.len() implies (
    #[trigger] after.intervals[k]).id < (#[trigger] after.intervals[l]).id by {
        assert(store.intervals[k].id < store.intervals[l].id);
    }
    assert forall|k: int| 0 <= k < after.intervals.len() implies after.has_session(
        #[trigger] after.intervals[k].session_id,
    ) by {
        assert(store.has_session(store.intervals[k].session_id));
    }
    assert forall|k: int| 0 <= k < after.intervals.len() implies (#[trigger] after.intervals[k]).id
        >= 1 by {
        assert(store.intervals[k].id >= 1);
    }
}

/// To set a status keeps the store well formed and its sessions in place.
pub proof fn lemma_set_status(store: StoreView, session_id: i64, status: SessionStatus, now: i64)
    requires
        store.wf(),
    ensures
        store.set_status(session_id, status, now).wf(),
        forall|other: i64|
            store.set_status(session_id, status, now).has_session(other) == store.has_session(
                other,
            ),
        forall|i: int|
            0 <= i < store.sessions.len() ==> (#[trigger] store.set_status(
                session_id,
                status,
                now,
            ).sessions[i]).id == store.sessions[i].id,
{
    let after = store.set_status(session_id, status, now);
    assert forall|i: int| 0 <= i < store.sessions.len() implies (#[trigger] after.sessions[i]).id
        == store.sessions[i].id by {}
    assert forall|other: i64| after.has_session(other) == store.has_session(other) by {
        if store.has_session(other) {
            let i = store.index_of(other);
            assert(after.sessions[i].id == other);
        }
        if after.has_session(other) {
            let i = after.index_of(other);
            assert(store.sessions[i].id == other);
        }
    }
    assert forall|i: int, j: int| 0 <= i < j < after.sessions.len() implies (
    #[trigger] after.sessions[i]).id < (#[trigger] after.sessions[j]).id by {
        assert(store.sessions[i].id < store.sessions[j].id);
    }
    assert forall|i: int| 0 <= i < after.sessions.len() implies (#[trigger] after.sessions[i]).id
        >= 1 by {
        assert(store.sessions[i].id >= 1);
    }
    assert forall|k: int| 0 <= k < after.intervals.len() implies after.has_session(
        #[trigger] after.intervals[k].session_id,
    ) by {
        assert(store.has_session(store.intervals[k].session_id));
    }
}

/// Only one session is the latest.
pub proof fn lemma_latest_is_one(sessions: Seq<SessionView>, i: int, j: int)
    requires
        is_latest(sessions, i),
        is_latest(sessions, j),
    ensures
        i == j,
        latest_index(sessions) == i,
{
    if i < j {
        assert(sessions[j].updated_at < sessions[i].updated_at);
        assert(sessions[i].updated_at <= sessions[j].updated_at);
    } else if j < i {
        assert(sessions[i].updated_at < sessions[j].updated_at);
        assert(sessions[j].updated_at <= sessions[i].updated_at);
    }
    let chosen = latest_index(sessions);
    if chosen < i {
        assert(sessions[i].updated_at < sessions[chosen].updated_at);
        assert(sessions[chosen].updated_at <= sessions[i].updated_at);
    } else if i < chosen {
        assert(sessions[chosen].updated_at < sessions[i].updated_at);
        assert(sessions[i].updated_at <= sessions[chosen].updated_at);
    }
}

/// Where there are sessions, one of them is the latest.
pub proof fn lemma_latest_index(sessions: Seq<SessionView>)
    requires
        sessions.len() > 0,
    ensures
        is_latest(sessions, latest_index(sessions)),
    decreases sessions.len(),
{
    if sessions.len() == 1 {
        assert(is_latest(sessions, 0));
    } else {
        let head = sessions.drop_last();
        let last = sessions.len() - 1;
        lemma_latest_index(head);
        let before = latest_index(head);
        assert(head[before] == sessions[before]);
        if sessions[last].updated_at >= sessions[before].updated_at {
            assert forall|j: int| 0 <= j < sessions.len() implies (#[trigger] sessions[j]).updated_at
                <= sessions[last].updated_at by {
                if j < last {
                    assert(head[j] == sessions[j]);
                }
            }
            assert(is_latest(sessions, last));
        } else {
            assert forall|j: int| 0 <= j < sessions.len() implies (#[trigger] sessions[j]).updated_at
                <= sessions[before].updated_at by {
                if j < last {
                    assert(head[j] == sessions[j]);
                }
            }
            assert forall|j: int| before < j < sessions.len() implies (
            #[trigger] sessions[j]).updated_at < sessions[before].updated_at by {
                if j < last {
                    assert(head[j] == sessions[j]);
                }
            }
            assert(is_latest(sessions, before));
        }
    }
}

/// Where a store has sessions, the latest one is a session of the store.
pub proof fn lemma_latest_in_range(store: StoreView)
    requires
        store.sessions.len() > 0,
    ensures
        store.latest_session() == Some(store.sessions[latest_index(store.sessions)]),
        is_latest(store.sessions, latest_index(store.sessions)),
        store.has_session(store.sessions[latest_index(store.sessions)].id),
{
    lemma_latest_index(store.sessions);
}

} // verus!
