//! What each operation of the store does to the facts that the engine's
//! rules are made of: which sessions run, and which have an open interval.

use vstd::prelude::*;
use crate::model::{
    closed_at, is_open_for, lemma_create_session, lemma_index_of, lemma_set_status, with_status,
    StoreView,
};
use crate::rows::SessionView;
use crate::status::SessionStatus;

verus! {

/// After the session's open intervals are ended it has none, the other
/// sessions have theirs as before, and no session has more than it had.
pub proof fn lemma_close_effects(store: StoreView, session_id: i64, now: i64)
    ensures
        !store.close_open_interval(session_id, now).has_open_interval(session_id),
        forall|other: i64|
            other != session_id ==> #[trigger] store.close_open_interval(
                session_id,
                now,
            ).has_open_interval(other) == store.has_open_interval(other),
        store.one_open_interval_each() ==> store.close_open_interval(
            session_id,
            now,
        ).one_open_interval_each(),
{
    let after = store.close_open_interval(session_id, now);
    assert forall|k: int| 0 <= k < after.intervals.len() implies !is_open_for(
        #[trigger] after.intervals[k],
        session_id,
    ) by {
        assert(after.intervals[k] == closed_at(store.intervals[k], session_id, now));
    }
    assert forall|other: i64| other != session_id implies #[trigger] after.has_open_interval(other)
        == store.has_open_interval(other) by {
        if store.has_open_interval(other) {
            let k = choose|k: int|
                0 <= k < store.intervals.len() && is_open_for(#[trigger] store.intervals[k], other);
            assert(is_open_for(after.intervals[k], other));
        }
        if after.has_open_interval(other) {
            let k = choose|k: int|
                0 <= k < after.intervals.len() && is_open_for(#[trigger] after.intervals[k], other);
            assert(is_open_for(store.intervals[k], other));
        }
    }
    if store.one_open_interval_each() {
        assert forall|k: int, l: int|
            0 <= k < after.intervals.len() && 0 <= l < after.intervals.len() && (
            #[trigger] after.intervals[k]).end_time is None && (
            #[trigger] after.intervals[l]).end_time is None && after.intervals[k].session_id
                == after.intervals[l].session_id implies k == l by {
            assert(store.intervals[k].end_time is None);
            assert(store.intervals[l].end_time is None);
        }
    }
}

/// After an interval is opened for a session it has an open interval, and
/// the other sessions have theirs as before. Where the session had none,
/// still no session has two.
pub proof fn lemma_open_effects(store: StoreView, session_id: i64, now: i64)
    ensures
        store.open_interval(session_id, now).has_open_interval(session_id),
        forall|other: i64|
            other != session_id ==> #[trigger] store.open_interval(
                session_id,
                now,
            ).has_open_interval(other) == store.has_open_interval(other),
        store.one_open_interval_each() && !store.has_open_interval(session_id)
            ==> store.open_interval(session_id, now).one_open_interval_each(),
{
    let after = store.open_interval(session_id, now);
    let n = store.intervals.len() as int;
    assert(is_open_for(after.intervals[n], session_id));
    assert forall|other: i64| other != session_id implies #[trigger] after.has_open_interval(other)
        == store.has_open_interval(other) by {
        if store.has_open_interval(other) {
            let k = choose|k: int|
                0 <= k < store.intervals.len() && is_open_for(#[trigger] store.intervals[k], other);
            assert(is_open_for(after.intervals[k], other));
        }
        if after.has_open_interval(other) {
            let k = choose|k: int|
                0 <= k < after.intervals.len() && is_open_for(#[trigger] after.intervals[k], other);
            assert(k < n);
            assert(is_open_for(store.intervals[k], other));
        }
    }
    if store.one_open_interval_each() && !store.has_open_interval(session_id) {
        assert forall|k: int, l: int|
            0 <= k < after.intervals.len() && 0 <= l < after.intervals.len() && (
            #[trigger] after.intervals[k]).end_time is None && (
            #[trigger] after.intervals[l]).end_time is None && after.intervals[k].session_id
                == after.intervals[l].session_id implies k == l by {
            if k < n && l < n {
                assert(store.intervals[k].end_time is None);
                assert(store.intervals[l].end_time is None);
            } else if k < n {
                assert(is_open_for(store.intervals[k], session_id));
            } else if l < n {
                assert(is_open_for(store.intervals[l], session_id));
            }
        }
    }
}

/// After a status is set the session has it, the other sessions are as they
/// were, and so are the intervals.
pub proof fn lemma_set_status_effects(
    store: StoreView,
    session_id: i64,
    status: SessionStatus,
    now: i64,
)
    requires
        store.wf(),
    ensures
        store.set_status(session_id, status, now).intervals == store.intervals,
        store.set_status(session_id, status, now).sessions.len() == store.sessions.len(),
        forall|i: int|
            0 <= i < store.sessions.len() ==> #[trigger] store.set_status(
                session_id,
                status,
                now,
            ).sessions[i] == with_status(store.sessions[i], session_id, status, now),
        forall|other: i64| #[trigger]
            store.set_status(session_id, status, now).has_open_interval(other)
                == store.has_open_interval(other),
        store.has_session(session_id) ==> store.set_status(session_id, status, now).has_session(
            session_id,
        ) && store.set_status(session_id, status, now).session(session_id) == (SessionView {
            status: status,
            updated_at: now,
            ..store.session(session_id)
        }),
{
    let after = store.set_status(session_id, status, now);
    lemma_set_status(store, session_id, status, now);
    if store.has_session(session_id) {
        let i = store.index_of(session_id);
        lemma_index_of(store, i);
        assert(after.sessions[i].id == session_id);
        lemma_index_of(after, i);
    }
}

/// After a session is created it is the last one, it is running, and it has
/// no interval yet; the sessions before it and the intervals are as they
/// were.
pub proof fn lemma_create_effects(
    store: StoreView,
    group_id: i64,
    project_id: i64,
    issue_id: i64,
    label: Seq<char>,
    now: i64,
)
    requires
        store.wf(),
        store.next_session_id() <= i64::MAX,
    ensures
        store.create_session(group_id, project_id, issue_id, label, now).intervals
            == store.intervals,
        forall|other: i64| #[trigger]
            store.create_session(group_id, project_id, issue_id, label, now).has_open_interval(
                other,
            ) == store.has_open_interval(other),
        !store.has_open_interval(store.next_session_id() as i64),
        forall|i: int|
            0 <= i < store.sessions.len() ==> (#[trigger] store.sessions[i]).id
                < store.next_session_id(),
{
    lemma_create_session(store, group_id, project_id, issue_id, label, now);
    let id = store.next_session_id() as i64;
    let n = store.sessions.len() as int;
    assert forall|i: int| 0 <= i < n implies (#[trigger] store.sessions[i]).id < id by {
        if i < n - 1 {
            assert(store.sessions[i].id < store.sessions[n - 1].id);
        }
    }
}

} // verus!
