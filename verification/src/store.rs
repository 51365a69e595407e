//! The store that executes: rows in vectors, behind the operations that the
//! engine composes.

use vstd::prelude::*;
use crate::model::{
    closed_at, elapsed_of, is_latest, latest_index, lemma_close_open_interval,
    lemma_create_session, lemma_index_of, lemma_latest_index, lemma_latest_is_one,
    lemma_open_interval, lemma_row_counts, lemma_set_status, with_status, StoreView,
};
use crate::rows::{session_views, Interval, Session};
use crate::status::{SessionStatus, TimerError};

verus! {

/// The sessions and their intervals. Rows are added and changed in place;
/// none is ever removed.
#[derive(Debug)]
pub struct Store {
    sessions: Vec<Session>,
    intervals: Vec<Interval>,
}

impl View for Store {
    type V = StoreView;

    closed spec fn view(&self) -> StoreView {
        StoreView { sessions: session_views(self.sessions@), intervals: self.intervals@ }
    }
}

/// The store that the given rows make up.
pub open spec fn rows_view(sessions: Seq<Session>, intervals: Seq<Interval>) -> StoreView {
    StoreView { sessions: session_views(sessions), intervals: intervals }
}

/// The position of the session with the given id among `rows`.
fn find_session(rows: &Vec<Session>, session_id: i64) -> (found: Option<usize>)
    ensures
        match found {
            Some(i) => i < rows.len() && rows[i as int].id == session_id,
            None => forall|i: int| 0 <= i < rows.len() ==> (#[trigger] rows[i]).id != session_id,
        },
{
    let mut i: usize = 0;
    while i < rows.len()
        invariant
            i <= rows.len(),
            forall|j: int| 0 <= j < i ==> (#[trigger] rows[j]).id != session_id,
        decreases rows.len() - i,
    {
        if rows[i].id == session_id {
            return Some(i);
        }
        i += 1;
    }
    None
}

/// Whether the session ids are positive and grow from row to row.
fn session_ids_ascend(rows: &Vec<Session>) -> (good: bool)
    ensures
        good <==> {
            &&& forall|i: int| 0 <= i < rows.len() ==> (#[trigger] rows[i]).id >= 1
            &&& forall|i: int, j: int|
                0 <= i < j < rows.len() ==> (#[trigger] rows[i]).id < (#[trigger] rows[j]).id
        },
{
    let mut i: usize = 0;
    while i < rows.len()
        invariant
            i <= rows.len(),
            forall|j: int| 0 <= j < i ==> (#[trigger] rows[j]).id >= 1,
            forall|j: int, l: int| 0 <= j < l < i ==> (#[trigger] rows[j]).id < (#[trigger] rows[l]).id,
        decreases rows.len() - i,
    {
        if rows[i].id < 1 {
            return false;
        }
        if i > 0 && rows[i - 1].id >= rows[i].id {
            return false;
        }
        assert forall|j: int, l: int| 0 <= j < l < i + 1 implies (#[trigger] rows[j]).id < (
        #[trigger] rows[l]).id by {
            if l == i && j < i - 1 {
                assert(rows[j].id < rows[i - 1].id);
            }
        }
        i += 1;
    }
    true
}

/// Whether the interval ids are positive and grow from row to row.
fn interval_ids_ascend(rows: &Vec<Interval>) -> (good: bool)
    ensures
        good <==> {
            &&& forall|k: int| 0 <= k < rows.len() ==> (#[trigger] rows[k]).id >= 1
            &&& forall|k: int, l: int|
                0 <= k < l < rows.len() ==> (#[trigger] rows[k]).id < (#[trigger] rows[l]).id
        },
{
    let mut k: usize = 0;
    while k < rows.len()
        invariant
            k <= rows.len(),
            forall|j: int| 0 <= j < k ==> (#[trigger] rows[j]).id >= 1,
            forall|j: int, l: int| 0 <= j < l < k ==> (#[trigger] rows[j]).id < (#[trigger] rows[l]).id,
        decreases rows.len() - k,
    {
        if rows[k].id < 1 {
            return false;
        }
        if k > 0 && rows[k - 1].id >= rows[k].id {
            return false;
        }
        assert forall|j: int, l: int| 0 <= j < l < k + 1 implies (#[trigger] rows[j]).id < (
        #[trigger] rows[l]).id by {
            if l == k && j < k - 1 {
                assert(rows[j].id < rows[k - 1].id);
            }
        }
        k += 1;
    }
    true
}

/// Whether every interval belongs to one of the sessions.
fn intervals_have_sessions(sessions: &Vec<Session>, intervals: &Vec<Interval>) -> (good: bool)
    ensures
        good == forall|k: int|
            0 <= k < intervals.len() ==> rows_view(sessions@, intervals@).has_session(
                (#[trigger] intervals[k]).session_id,
            ),
{
    let ghost store = rows_view(sessions@, intervals@);
    let mut k: usize = 0;
    while k < intervals.len()
        invariant
            k <= intervals.len(),
            store == rows_view(sessions@, intervals@),
            forall|j: int| 0 <= j < k ==> store.has_session((#[trigger] intervals[j]).session_id),
        decreases intervals.len() - k,
    {
        match find_session(sessions, intervals[k].session_id) {
            Some(i) => {
                assert(store.sessions[i as int].id == intervals[k as int].session_id);
            },
            None => {
                assert forall|i: int| 0 <= i < store.sessions.len() implies (
                #[trigger] store.sessions[i]).id != intervals[k as int].session_id by {
                    assert(sessions[i].id != intervals[k as int].session_id);
                }
                assert(!store.has_session(intervals[k as int].session_id));
                return false;
            },
        }
        k += 1;
    }
    true
}

impl Clone for Store {
    fn clone(&self) -> (copy: Store)
        ensures
            copy@ == self@,
    {
        let mut sessions: Vec<Session> = Vec::new();
        let mut i: usize = 0;
        while i < self.sessions.len()
            invariant
                i <= self.sessions.len(),
                sessions.len() == i,
                forall|j: int| 0 <= j < i ==> (#[trigger] sessions[j])@ == self.sessions[j]@,
            decreases self.sessions.len() - i,
        {
            sessions.push(self.sessions[i].clone());
            i += 1;
        }
        let copy = Store { sessions: sessions, intervals: self.intervals.clone() };
        assert(copy@.sessions =~= self@.sessions);
        assert(copy@.intervals =~= self@.intervals);
        copy
    }
}

impl Store {
    /// A store without rows.
    pub fn new() -> (store: Store)
        ensures
            store@ == StoreView::empty(),
            store@.wf(),
    {
        let store = Store { sessions: Vec::new(), intervals: Vec::new() };
        assert(store@.sessions =~= Seq::empty());
        store
    }

    /// A store of the given rows, as they were read from where they are
    /// kept. Rows that are not well formed make no store.
    pub fn from_rows(sessions: Vec<Session>, intervals: Vec<Interval>) -> (store: Option<Store>)
        ensures
            match store {
                Some(store) => store@ == rows_view(sessions@, intervals@) && store@.wf(),
                None => !rows_view(sessions@, intervals@).wf(),
            },
    {
        let ghost rows = rows_view(sessions@, intervals@);
        if !session_ids_ascend(&sessions) {
            assert(!rows.wf()) by {
                if rows.wf() {
                    assert forall|i: int| 0 <= i < sessions.len() implies (#[trigger] sessions[i]).id
                        >= 1 by {
                        assert(rows.sessions[i].id >= 1);
                    }
                    assert forall|i: int, j: int| 0 <= i < j < sessions.len() implies (
                    #[trigger] sessions[i]).id < (#[trigger] sessions[j]).id by {
                        assert(rows.sessions[i].id < rows.sessions[j].id);
                    }
                }
            }
            return None;
        }
        if !interval_ids_ascend(&intervals) {
            return None;
        }
        if !intervals_have_sessions(&sessions, &intervals) {
            return None;
        }
        assert(rows.wf()) by {
            assert forall|i: int| 0 <= i < rows.sessions.len() implies (#[trigger] rows.sessions[i]).id
                >= 1 by {
                assert(sessions[i].id >= 1);
            }
            assert forall|i: int, j: int| 0 <= i < j < rows.sessions.len() implies (
            #[trigger] rows.sessions[i]).id < (#[trigger] rows.sessions[j]).id by {
                assert(sessions[i].id < sessions[j].id);
            }
        }
        Some(Store { sessions: sessions, intervals: intervals })
    }

    /// The sessions, in the order of their ids.
    pub fn sessions(&self) -> (rows: &Vec<Session>)
        ensures
            session_views(rows@) == self@.sessions,
    {
        &self.sessions
    }

    /// The intervals, in the order of their ids.
    pub fn intervals(&self) -> (rows: &Vec<Interval>)
        ensures
            rows@ == self@.intervals,
    {
        &self.intervals
    }

    /// The session with the given id, if there is one.
    pub fn session(&self, session_id: i64) -> (found: Option<Session>)
        requires
            self@.wf(),
        ensures
            match found {
                Some(session) => self@.has_session(session_id) && session@ == self@.session(
                    session_id,
                ),
                None => !self@.has_session(session_id),
            },
    {
        match self.position(session_id) {
            Some(i) => Some(self.sessions[i].clone()),
            None => None,
        }
    }

    /// The status of the session with the given id, if there is one.
    pub fn status(&self, session_id: i64) -> (found: Option<SessionStatus>)
        requires
            self@.wf(),
        ensures
            match found {
                Some(status) => self@.has_session(session_id) && status == self@.session(
                    session_id,
                ).status,
                None => !self@.has_session(session_id),
            },
    {
        match self.position(session_id) {
            Some(i) => Some(self.sessions[i].status),
            None => None,
        }
    }

    /// Whether there is an id left for one more session.
    pub fn has_session_id_left(&self) -> (left: bool)
        ensures
            left == (self@.next_session_id() <= i64::MAX),
    {
        let n = self.sessions.len();
        if n > 0 {
            assert(self@.sessions[n - 1].id == self.sessions[n - 1].id);
        }
        n == 0 || self.sessions[n - 1].id < i64::MAX
    }

    /// Whether there is an id left for one more interval.
    pub fn has_interval_id_left(&self) -> (left: bool)
        ensures
            left == (self@.next_interval_id() <= i64::MAX),
    {
        let n = self.intervals.len();
        n == 0 || self.intervals[n - 1].id < i64::MAX
    }

    /// Where the session with the given id stands.
    fn position(&self, session_id: i64) -> (found: Option<usize>)
        requires
            self@.wf(),
        ensures
            match found {
                Some(i) => i < self.sessions.len() && self@.has_session(session_id)
                    && self@.index_of(session_id) == i,
                None => !self@.has_session(session_id),
            },
    {
        let found = find_session(&self.sessions, session_id);
        proof {
            match found {
                Some(i) => {
                    assert(self@.sessions[i as int].id == session_id);
                    lemma_index_of(self@, i as int);
                },
                None => {
                    assert forall|i: int| 0 <= i < self@.sessions.len() implies (
                    #[trigger] self@.sessions[i]).id != session_id by {
                        assert(self.sessions[i].id != session_id);
                    }
                },
            }
        }
        found
    }

    /// Adds a session, which is running, and returns its id. The store is
    /// full when the last session has the greatest id there is.
    pub fn create_session(
        &mut self,
        group_id: i64,
        project_id: i64,
        issue_id: i64,
        label: String,
        now: i64,
    ) -> (reply: Result<i64, TimerError>)
        requires
            old(self)@.wf(),
        ensures
            final(self)@.wf(),
            old(self)@.next_session_id() > i64::MAX ==> reply == Err::<i64, TimerError>(
                TimerError::StoreFull,
            ) && final(self)@ == old(self)@,
            old(self)@.next_session_id() <= i64::MAX ==> reply == Ok::<i64, TimerError>(
                old(self)@.next_session_id() as i64,
            ) && final(self)@ == old(self)@.create_session(
                group_id,
                project_id,
                issue_id,
                label@,
                now,
            ),
    {
        let n = self.sessions.len();
        let last: i64 = if n == 0 {
            0
        } else {
            self.sessions[n - 1].id
        };
        assert(old(self)@.next_session_id() == last + 1) by {
            if n > 0 {
                assert(self@.sessions[n - 1].id == last);
            }
        }
        if last == i64::MAX {
            return Err(TimerError::StoreFull);
        }
        let id: i64 = last + 1;
        proof {
            lemma_create_session(self@, group_id, project_id, issue_id, label@, now);
        }
        self.sessions.push(
            Session {
                id: id,
                group_id: group_id,
                project_id: project_id,
                issue_id: issue_id,
                label: label,
                status: SessionStatus::Running,
                updated_at: now,
            },
        );
        assert(self@.sessions =~= old(self)@.create_session(
            group_id,
            project_id,
            issue_id,
            label@,
            now,
        ).sessions);
        Ok(id)
    }

    /// Adds an interval of the session, open from `now` on. The store is
    /// full when the last interval has the greatest id there is.
    pub fn open_interval(&mut self, session_id: i64, now: i64) -> (reply: Result<(), TimerError>)
        requires
            old(self)@.wf(),
        ensures
            final(self)@.wf(),
            !old(self)@.has_session(session_id) ==> reply == Err::<(), TimerError>(
                TimerError::NotFound,
            ) && final(self)@ == old(self)@,
            old(self)@.has_session(session_id) && old(self)@.next_interval_id() > i64::MAX
                ==> reply == Err::<(), TimerError>(TimerError::StoreFull) && final(self)@ == old(
                self,
            )@,
            old(self)@.has_session(session_id) && old(self)@.next_interval_id() <= i64::MAX
                ==> reply == Ok::<(), TimerError>(()) && final(self)@ == old(self)@.open_interval(
                session_id,
                now,
            ),
    {
        if self.position(session_id).is_none() {
            return Err(TimerError::NotFound);
        }
        let n = self.intervals.len();
        let last: i64 = if n == 0 {
            0
        } else {
            self.intervals[n - 1].id
        };
        if last == i64::MAX {
            return Err(TimerError::StoreFull);
        }
        proof {
            lemma_open_interval(self@, session_id, now);
        }
        self.intervals.push(
            Interval { id: last + 1, session_id: session_id, start_time: now, end_time: None },
        );
        Ok(())
    }

    /// Ends every open interval of the session at `now`. Where none is open,
    /// nothing changes.
    pub fn close_open_interval(&mut self, session_id: i64, now: i64)
        requires
            old(self)@.wf(),
        ensures
            final(self)@.wf(),
            final(self)@ == old(self)@.close_open_interval(session_id, now),
    {
        let mut k: usize = 0;
        while k < self.intervals.len()
            invariant
                k <= self.intervals.len(),
                self.sessions == old(self).sessions,
                self.intervals.len() == old(self).intervals.len(),
                forall|l: int|
                    0 <= l < k ==> #[trigger] self.intervals[l] == closed_at(
                        old(self).intervals[l],
                        session_id,
                        now,
                    ),
                forall|l: int|
                    k <= l < self.intervals.len() ==> #[trigger] self.intervals[l] == old(
                        self,
                    ).intervals[l],
            decreases self.intervals.len() - k,
        {
            if self.intervals[k].session_id == session_id && self.intervals[k].end_time.is_none() {
                self.intervals[k].end_time = Some(now);
            }
            k += 1;
        }
        proof {
            assert(self@.intervals =~= old(self)@.close_open_interval(session_id, now).intervals);
            lemma_close_open_interval(old(self)@, session_id, now);
        }
    }

    /// Sets the session's status, and `now` as the time of its last update.
    pub fn set_status(&mut self, session_id: i64, status: SessionStatus, now: i64) -> (reply: Result<
        (),
        TimerError,
    >)
        requires
            old(self)@.wf(),
        ensures
            final(self)@.wf(),
            final(self)@ == old(self)@.set_status(session_id, status, now),
            reply == (if old(self)@.has_session(session_id) {
                Ok::<(), TimerError>(())
            } else {
                Err::<(), TimerError>(TimerError::NotFound)
            }),
    {
        proof {
            lemma_set_status(self@, session_id, status, now);
        }
        match self.position(session_id) {
            Some(i) => {
                self.sessions[i].status = status;
                self.sessions[i].updated_at = now;
                assert(self@.sessions =~= old(self)@.set_status(session_id, status, now).sessions)
                    by {
                    assert forall|j: int| 0 <= j < self@.sessions.len() implies (
                    #[trigger] self@.sessions[j]) == with_status(
                        old(self)@.sessions[j],
                        session_id,
                        status,
                        now,
                    ) by {
                        if j != i {
                            lemma_index_of(old(self)@, j);
                        }
                    }
                }
                Ok(())
            },
            None => {
                assert(self@.sessions =~= old(self)@.set_status(session_id, status, now).sessions);
                Err(TimerError::NotFound)
            },
        }
    }

    /// The seconds that the session's intervals span in all, an open
    /// interval counted as if it ended at `now`.
    pub fn sum_elapsed_seconds(&self, session_id: i64, now: i64) -> (reply: Result<i64, TimerError>)
        requires
            self@.wf(),
        ensures
            !self@.has_session(session_id) ==> reply == Err::<i64, TimerError>(
                TimerError::NotFound,
            ),
            self@.has_session(session_id) && !(i64::MIN <= self@.sum_elapsed_seconds(
                session_id,
                now,
            ) <= i64::MAX) ==> reply == Err::<i64, TimerError>(TimerError::Overflow),
            self@.has_session(session_id) && i64::MIN <= self@.sum_elapsed_seconds(session_id, now)
                <= i64::MAX ==> reply == Ok::<i64, TimerError>(
                self@.sum_elapsed_seconds(session_id, now) as i64,
            ),
    {
        if self.position(session_id).is_none() {
            return Err(TimerError::NotFound);
        }
        proof {
            lemma_row_counts(self@);
        }
        let mut total: i128 = 0;
        let mut k: usize = 0;
        while k < self.intervals.len()
            invariant
                k <= self.intervals.len() <= i64::MAX,
                total == elapsed_of(self.intervals@.take(k as int), session_id, now),
                -(k * 0xffff_ffff_ffff_ffff) <= total <= k * 0xffff_ffff_ffff_ffff,
            decreases self.intervals.len() - k,
        {
            let interval = self.intervals[k];
            proof {
                assert(self.intervals@.take(k + 1).drop_last() =~= self.intervals@.take(k as int));
            }
            if interval.session_id == session_id {
                let end: i64 = match interval.end_time {
                    Some(end) => end,
                    None => now,
                };
                total = total + (end as i128 - interval.start_time as i128);
            }
            k += 1;
        }
        assert(self.intervals@.take(k as int) =~= self.intervals@);
        if total < i64::MIN as i128 || total > i64::MAX as i128 {
            Err(TimerError::Overflow)
        } else {
            Ok(total as i64)
        }
    }

    /// The session that was updated last; among sessions updated in the
    /// same second, the one created last. `None` where there is no session.
    pub fn latest_session(&self) -> (found: Option<Session>)
        ensures
            match found {
                Some(session) => Some(session@) == self@.latest_session(),
                None => self@.latest_session() is None,
            },
    {
        if self.sessions.len() == 0 {
            return None;
        }
        let mut best: usize = 0;
        let mut i: usize = 1;
        while i < self.sessions.len()
            invariant
                1 <= i <= self.sessions.len(),
                best < i,
                forall|j: int|
                    0 <= j < i ==> (#[trigger] self.sessions[j]).updated_at
                        <= self.sessions[best as int].updated_at,
                forall|j: int|
                    best < j < i ==> (#[trigger] self.sessions[j]).updated_at
                        < self.sessions[best as int].updated_at,
            decreases self.sessions.len() - i,
        {
            if self.sessions[i].updated_at >= self.sessions[best].updated_at {
                best = i;
            }
            i += 1;
        }
        proof {
            assert(is_latest(self@.sessions, best as int)) by {
                assert forall|j: int| 0 <= j < self@.sessions.len() implies (
                #[trigger] self@.sessions[j]).updated_at <= self@.sessions[best as int].updated_at by {
                    assert(self.sessions[j].updated_at <= self.sessions[best as int].updated_at);
                }
                assert forall|j: int| best < j < self@.sessions.len() implies (
                #[trigger] self@.sessions[j]).updated_at < self@.sessions[best as int].updated_at by {
                    assert(self.sessions[j].updated_at < self.sessions[best as int].updated_at);
                }
            }
            lemma_latest_index(self@.sessions);
            lemma_latest_is_one(self@.sessions, best as int, latest_index(self@.sessions));
        }
        Some(self.sessions[best].clone())
    }
}

} // verus!
