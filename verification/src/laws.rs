//! What holds of the engine whatever the requests and the clock.

use vstd::prelude::*;
use crate::effects::{
    lemma_close_effects, lemma_create_effects, lemma_open_effects, lemma_set_status_effects,
};
use crate::elapsed::{
    lemma_elapsed_after_close, lemma_elapsed_closed, lemma_elapsed_monotone,
    lemma_elapsed_one_open,
};
use crate::engine::{recovered, recovery_reply, EngineView, Request, Started};
use crate::format::gitlab_time_text;
use crate::model::{
    is_open_for, latest_index, lemma_close_open_interval, lemma_create_session, lemma_index_of,
    lemma_latest_in_range, lemma_open_interval, lemma_set_status, same_session, StoreView,
};
use crate::status::{SessionStatus, TimerError};

verus! {

/// A session that is closed, by a pause or by a stop, has no open interval
/// and the status it was given; the engine stays in step where no other
/// session was running.
proof fn lemma_settle(
    store: StoreView,
    session_id: i64,
    status: SessionStatus,
    now: i64,
)
    requires
        store.wf(),
        store.has_session(session_id),
        status != SessionStatus::Running,
    ensures
        ({
            let after = store.close_open_interval(session_id, now).set_status(
                session_id,
                status,
                now,
            );
            &&& after.wf()
            &&& after.session(session_id).status == status
            &&& !after.has_open_interval(session_id)
            &&& store.intervals_match_status() ==> after.intervals_match_status()
            &&& store.at_most_one_running() ==> after.at_most_one_running()
            &&& store.only_running(session_id) ==> !after.any_running()
            &&& forall|other: i64| store.only_running(other) ==> after.only_running(other)
        }),
{
    let closed = store.close_open_interval(session_id, now);
    let after = closed.set_status(session_id, status, now);
    lemma_close_open_interval(store, session_id, now);
    lemma_close_effects(store, session_id, now);
    lemma_set_status(closed, session_id, status, now);
    lemma_set_status_effects(closed, session_id, status, now);
    assert(closed.has_session(session_id)) by {
        let i = store.index_of(session_id);
        assert(closed.sessions[i].id == session_id);
    }
    if store.intervals_match_status() {
        assert forall|i: int| 0 <= i < after.sessions.len() implies ((
        #[trigger] after.sessions[i]).status == SessionStatus::Running <==> after.has_open_interval(
            after.sessions[i].id,
        )) by {
            assert(store.sessions[i].status == SessionStatus::Running <==> store.has_open_interval(
                store.sessions[i].id,
            ));
        }
    }
    if store.at_most_one_running() {
        assert forall|i: int, j: int|
            0 <= i < after.sessions.len() && 0 <= j < after.sessions.len() && (
            #[trigger] after.sessions[i]).status == SessionStatus::Running && (
            #[trigger] after.sessions[j]).status == SessionStatus::Running implies i == j by {
            assert(store.sessions[i].status == SessionStatus::Running);
            assert(store.sessions[j].status == SessionStatus::Running);
        }
    }
    if store.only_running(session_id) {
        assert forall|i: int| 0 <= i < after.sessions.len() implies (
        #[trigger] after.sessions[i]).status != SessionStatus::Running by {
            if store.sessions[i].status == SessionStatus::Running {
                assert(store.sessions[i].id == session_id);
            }
        }
    }
    assert forall|other: i64| store.only_running(other) implies after.only_running(other) by {
        assert forall|i: int|
            0 <= i < after.sessions.len() && (#[trigger] after.sessions[i]).status
                == SessionStatus::Running implies after.sessions[i].id == other by {
            assert(store.sessions[i].status == SessionStatus::Running);
        }
    }
}

/// A start keeps the rows well formed and the intervals matched to the
/// status of their sessions, whatever the flag says. It keeps the engine in
/// step, and the session that it creates is then the only one running.
pub proof fn lemma_start_keeps_rules(
    engine: EngineView,
    group_id: i64,
    project_id: i64,
    issue_id: i64,
    label: Seq<char>,
    now: i64,
)
    requires
        engine.store.wf(),
    ensures
        engine.start(group_id, project_id, issue_id, label, now).store.wf(),
        engine.store.intervals_match_status() ==> engine.start(
            group_id,
            project_id,
            issue_id,
            label,
            now,
        ).store.intervals_match_status(),
        engine.in_step() ==> engine.start(group_id, project_id, issue_id, label, now).in_step(),
        match engine.start_reply() {
            Ok(started) => {
                let after = engine.start(group_id, project_id, issue_id, label, now);
                &&& !engine.store.has_session(started.session_id)
                &&& after.store.has_session(started.session_id)
                &&& after.store.session(started.session_id).status == SessionStatus::Running
                &&& engine.in_step() ==> after.store.only_running(started.session_id)
            },
            Err(_) => true,
        },
{
    if let Ok(started) = engine.start_reply() {
        let store = engine.store;
        let id = started.session_id;
        let created = store.create_session(group_id, project_id, issue_id, label, now);
        let after = created.open_interval(id, now);
        let n = store.sessions.len() as int;
        lemma_create_session(store, group_id, project_id, issue_id, label, now);
        lemma_create_effects(store, group_id, project_id, issue_id, label, now);
        lemma_open_interval(created, id, now);
        lemma_open_effects(created, id, now);
        assert(after.sessions[n].id == id);
        assert(after.sessions[n].status == SessionStatus::Running);
        lemma_index_of(after, n);
        if store.intervals_match_status() {
            assert(created.one_open_interval_each()) by {
                assert(created.intervals == store.intervals);
            }
            assert forall|i: int| 0 <= i < after.sessions.len() implies ((
            #[trigger] after.sessions[i]).status == SessionStatus::Running
                <==> after.has_open_interval(after.sessions[i].id)) by {
                if i < n {
                    assert(after.sessions[i] == store.sessions[i]);
                    assert(store.sessions[i].id < id);
                    assert(store.sessions[i].status == SessionStatus::Running
                        <==> store.has_open_interval(store.sessions[i].id));
                }
            }
        }
        if engine.in_step() {
            assert forall|i: int| 0 <= i < n implies (#[trigger] store.sessions[i]).status
                != SessionStatus::Running by {}
            assert forall|i: int|
                0 <= i < after.sessions.len() && (#[trigger] after.sessions[i]).status
                    == SessionStatus::Running implies i == n by {
                if i < n {
                    assert(after.sessions[i] == store.sessions[i]);
                }
            }
        }
    }
}

/// A resume keeps the rows well formed. It keeps the intervals matched to
/// the status of their sessions where the flag is set while the session
/// runs. It keeps the engine in step, and the session is then the only one
/// running.
pub proof fn lemma_resume_keeps_rules(engine: EngineView, session_id: i64, now: i64)
    requires
        engine.store.wf(),
    ensures
        engine.resume(session_id, now).store.wf(),
        engine.store.intervals_match_status() && (engine.store.has_open_interval(session_id)
            ==> engine.running) ==> engine.resume(session_id, now).store.intervals_match_status(),
        engine.in_step() ==> engine.resume(session_id, now).in_step(),
        engine.resume_reply(session_id) is Ok ==> engine.resume(session_id, now).store.session(
            session_id,
        ).status == SessionStatus::Running,
        engine.in_step() && engine.resume_reply(session_id) is Ok ==> engine.resume(
            session_id,
            now,
        ).store.only_running(session_id),
{
    if engine.resume_reply(session_id) is Ok {
        let store = engine.store;
        let opened = store.open_interval(session_id, now);
        let after = opened.set_status(session_id, SessionStatus::Running, now);
        let at = store.index_of(session_id);
        lemma_index_of(store, at);
        lemma_open_interval(store, session_id, now);
        lemma_open_effects(store, session_id, now);
        lemma_set_status(opened, session_id, SessionStatus::Running, now);
        lemma_set_status_effects(opened, session_id, SessionStatus::Running, now);
        assert(opened.has_session(session_id)) by {
            assert(opened.sessions[at].id == session_id);
        }
        assert(after.sessions[at].status == SessionStatus::Running);
        if engine.in_step() {
            assert(!store.has_open_interval(session_id)) by {
                assert(store.sessions[at].status == SessionStatus::Running
                    <==> store.has_open_interval(store.sessions[at].id));
            }
        }
        if store.intervals_match_status() && !store.has_open_interval(session_id) {
            assert forall|i: int| 0 <= i < after.sessions.len() implies ((
            #[trigger] after.sessions[i]).status == SessionStatus::Running
                <==> after.has_open_interval(after.sessions[i].id)) by {
                assert(store.sessions[i].status == SessionStatus::Running
                    <==> store.has_open_interval(store.sessions[i].id));
            }
        }
        if engine.in_step() {
            assert forall|i: int| 0 <= i < store.sessions.len() implies (
            #[trigger] store.sessions[i]).status != SessionStatus::Running by {}
            assert forall|i: int|
                0 <= i < after.sessions.len() && (#[trigger] after.sessions[i]).status
                    == SessionStatus::Running implies after.sessions[i].id == session_id by {
                assert(store.sessions[i].status != SessionStatus::Running);
            }
            assert forall|i: int, j: int|
                0 <= i < after.sessions.len() && 0 <= j < after.sessions.len() && (
                #[trigger] after.sessions[i]).status == SessionStatus::Running && (
                #[trigger] after.sessions[j]).status == SessionStatus::Running implies i == j by {
                lemma_index_of(after, i);
                lemma_index_of(after, j);
            }
        }
    }
}

/// A pause keeps the rows well formed and the intervals matched to the
/// status of their sessions, whatever the flag says. It keeps the engine in
/// step where no session but the paused one was running.
pub proof fn lemma_pause_keeps_rules(engine: EngineView, session_id: i64, now: i64)
    requires
        engine.store.wf(),
    ensures
        engine.pause(session_id, now).store.wf(),
        engine.store.intervals_match_status() ==> engine.pause(
            session_id,
            now,
        ).store.intervals_match_status(),
        engine.in_step() && engine.store.only_running(session_id) ==> engine.pause(
            session_id,
            now,
        ).in_step() && engine.pause(session_id, now).store.only_running(session_id),
{
    if engine.pause_reply(session_id) is Ok {
        lemma_settle(engine.store, session_id, SessionStatus::Paused, now);
    }
}

/// A stop keeps the rows well formed and the intervals matched to the
/// status of their sessions, whatever the flag says. It keeps the engine in
/// step where no session but the stopped one was running.
pub proof fn lemma_stop_keeps_rules(engine: EngineView, session_id: i64, now: i64)
    requires
        engine.store.wf(),
    ensures
        engine.stop(session_id, now).store.wf(),
        engine.store.intervals_match_status() ==> engine.stop(
            session_id,
            now,
        ).store.intervals_match_status(),
        engine.in_step() && engine.store.only_running(session_id) ==> engine.stop(
            session_id,
            now,
        ).in_step() && engine.stop(session_id, now).store.only_running(session_id),
{
    if engine.stop_reply(session_id) is Ok {
        lemma_settle(engine.store, session_id, SessionStatus::Finished, now);
    }
}

/// An engine without rows, its flag clear, is in step.
pub proof fn lemma_new_engine_in_step()
    ensures
        (EngineView { store: StoreView::empty(), running: false }).in_step(),
{
}

/// Whatever is asked of a single session, in whatever order and at whatever
/// times, the engine stays in step, so that the session never has two open
/// intervals and has one exactly when it is running.
///
/// The engine is in step at first, and no session but this one is running.
pub proof fn lemma_single_session(
    engine: EngineView,
    session_id: i64,
    requests: Seq<(Request, i64)>,
)
    requires
        engine.in_step(),
        engine.store.only_running(session_id),
    ensures
        engine.after_all(session_id, requests).in_step(),
        engine.after_all(session_id, requests).store.only_running(session_id),
        engine.after_all(session_id, requests).store.intervals_match_status(),
    decreases requests.len(),
{
    if requests.len() > 0 {
        lemma_single_session(engine, session_id, requests.drop_last());
        let before = engine.after_all(session_id, requests.drop_last());
        let now = requests.last().1;
        match requests.last().0 {
            Request::Pause => {
                lemma_pause_keeps_rules(before, session_id, now);
            },
            Request::Resume => {
                lemma_resume_keeps_rules(before, session_id, now);
            },
            Request::Stop => {
                lemma_stop_keeps_rules(before, session_id, now);
            },
        }
    }
}

/// The life of a session, from its start through every sequence of pauses,
/// resumes and stops: at each point the session has at most one open
/// interval, and it has one exactly when its status is running.
///
/// The engine is in step when the session starts.
pub proof fn lemma_session_life(
    engine: EngineView,
    group_id: i64,
    project_id: i64,
    issue_id: i64,
    label: Seq<char>,
    began: i64,
    requests: Seq<(Request, i64)>,
)
    requires
        engine.in_step(),
        engine.start_reply() is Ok,
    ensures
        ({
            let id = engine.start_reply().unwrap().session_id;
            let after = engine.start(group_id, project_id, issue_id, label, began).after_all(
                id,
                requests,
            );
            &&& after.in_step()
            &&& after.store.has_session(id)
            &&& after.store.one_open_interval_each()
            &&& after.store.has_open_interval(id) <==> after.store.session(id).status
                == SessionStatus::Running
            &&& after.running <==> after.store.session(id).status == SessionStatus::Running
        }),
{
    let id = engine.start_reply().unwrap().session_id;
    let started = engine.start(group_id, project_id, issue_id, label, began);
    let after = started.after_all(id, requests);
    lemma_start_keeps_rules(engine, group_id, project_id, issue_id, label, began);
    lemma_single_session(started, id, requests);
    lemma_rows_are_kept_throughout(started, id, requests);
    let at = started.store.index_of(id);
    lemma_index_of(started.store, at);
    assert(same_session(started.store.sessions[at], after.store.sessions[at]));
    lemma_index_of(after.store, at);
}

/// While a session runs its elapsed time does not go back as the clock
/// goes on; while it does not run, its elapsed time is the same at every
/// time.
pub proof fn lemma_elapsed_over_time(store: StoreView, session_id: i64, earlier: i64, later: i64)
    requires
        store.wf(),
        store.intervals_match_status(),
        store.has_session(session_id),
        earlier <= later,
    ensures
        store.sum_elapsed_seconds(session_id, earlier) <= store.sum_elapsed_seconds(
            session_id,
            later,
        ),
        store.session(session_id).status != SessionStatus::Running ==> store.sum_elapsed_seconds(
            session_id,
            earlier,
        ) == store.sum_elapsed_seconds(session_id, later),
{
    lemma_elapsed_monotone(store.intervals, session_id, earlier, later);
    if store.session(session_id).status != SessionStatus::Running {
        let at = store.index_of(session_id);
        lemma_index_of(store, at);
        assert(!store.has_open_interval(store.sessions[at].id));
        lemma_elapsed_closed(store.intervals, session_id, earlier);
        lemma_elapsed_closed(store.intervals, session_id, later);
    }
}

/// A pause and a stop fix the session's elapsed time at what it was when
/// they were made; the elapsed time of the other sessions is as it was.
pub proof fn lemma_elapsed_when_settled(
    engine: EngineView,
    session_id: i64,
    now: i64,
    other: i64,
    later: i64,
)
    requires
        engine.store.wf(),
    ensures
        engine.pause_reply(session_id) is Ok ==> engine.pause(
            session_id,
            now,
        ).store.sum_elapsed_seconds(session_id, later) == engine.store.sum_elapsed_seconds(
            session_id,
            now,
        ),
        engine.stop_reply(session_id) is Ok ==> engine.stop(
            session_id,
            now,
        ).store.sum_elapsed_seconds(session_id, later) == engine.store.sum_elapsed_seconds(
            session_id,
            now,
        ),
        other != session_id ==> engine.pause(session_id, now).store.sum_elapsed_seconds(
            other,
            later,
        ) == engine.store.sum_elapsed_seconds(other, later) && engine.stop(
            session_id,
            now,
        ).store.sum_elapsed_seconds(other, later) == engine.store.sum_elapsed_seconds(
            other,
            later,
        ),
{
    lemma_elapsed_after_close(engine.store.intervals, session_id, now, other, later);
}

/// A resume at `now` takes up the session's elapsed time where it stood.
pub proof fn lemma_elapsed_when_resumed(engine: EngineView, session_id: i64, now: i64)
    requires
        engine.store.wf(),
    ensures
        engine.resume(session_id, now).store.sum_elapsed_seconds(session_id, now)
            == engine.store.sum_elapsed_seconds(session_id, now),
{
    if engine.resume_reply(session_id) is Ok {
        let opened = engine.store.open_interval(session_id, now);
        assert(opened.intervals.drop_last() =~= engine.store.intervals);
    }
}

/// A second pause after the first leaves what the first left: the same
/// intervals, the session paused and without an open interval, the flag
/// clear. Only the time of the session's last update is that of the second
/// pause, so two pauses at the same time leave the very state that one
/// leaves. A pause that is turned away is turned away again.
pub proof fn lemma_pause_twice(engine: EngineView, session_id: i64, first: i64, second: i64)
    requires
        engine.store.wf(),
    ensures
        ({
            let once = engine.pause(session_id, first);
            let twice = once.pause(session_id, second);
            &&& once.pause_reply(session_id) == engine.pause_reply(session_id)
            &&& twice.running == once.running
            &&& twice.store.intervals == once.store.intervals
            &&& engine.pause_reply(session_id) is Ok ==> {
                &&& once.store.session(session_id).status == SessionStatus::Paused
                &&& twice.store.session(session_id).status == SessionStatus::Paused
                &&& !once.store.has_open_interval(session_id)
                &&& !twice.store.has_open_interval(session_id)
                &&& twice.store == once.store.set_status(session_id, SessionStatus::Paused, second)
            }
            &&& engine.pause_reply(session_id) is Err ==> twice == engine
            &&& first == second ==> twice == once
        }),
{
    if engine.pause_reply(session_id) is Ok {
        let store = engine.store;
        let once = engine.pause(session_id, first);
        let twice = once.pause(session_id, second);
        lemma_settle(store, session_id, SessionStatus::Paused, first);
        assert(once.store.has_session(session_id)) by {
            let at = store.index_of(session_id);
            assert(once.store.sessions[at].id == session_id);
        }
        lemma_settle(once.store, session_id, SessionStatus::Paused, second);
        let again = once.store.close_open_interval(session_id, second);
        assert(again.intervals =~= once.store.intervals) by {
            assert forall|k: int| 0 <= k < once.store.intervals.len() implies !is_open_for(
                #[trigger] once.store.intervals[k],
                session_id,
            ) by {}
        }
        assert(again == once.store);
        if first == second {
            assert(twice.store.sessions =~= once.store.sessions);
        }
    }
}

/// A start is rejected while any session is running, and creates no row,
/// where the flag is set whenever a session is running.
pub proof fn lemma_start_while_running(
    engine: EngineView,
    group_id: i64,
    project_id: i64,
    issue_id: i64,
    label: Seq<char>,
    now: i64,
)
    requires
        engine.store.any_running(),
        engine.store.any_running() ==> engine.running,
    ensures
        engine.start_reply() == Err::<Started, TimerError>(TimerError::AlreadyRunning),
        engine.start(group_id, project_id, issue_id, label, now) == engine,
{
}

/// Recovery of a session that was left running: where its one interval
/// that is open began at `began`, the session is paused afterwards, it has
/// no open interval, and its elapsed time is that of its closed intervals
/// and the time from `began` to `now`, at every later time.
pub proof fn lemma_recovery_of_running(store: StoreView, open: int, now: i64, later: i64)
    requires
        store.wf(),
        store.intervals_match_status(),
        store.latest_session() is Some,
        store.latest_session().unwrap().status == SessionStatus::Running,
        0 <= open < store.intervals.len(),
        is_open_for(store.intervals[open], store.latest_session().unwrap().id),
        recovery_reply(store, now) is Ok,
    ensures
        ({
            let session_id = store.latest_session().unwrap().id;
            let after = recovered(store, now);
            &&& after.wf()
            &&& after.intervals_match_status()
            &&& after.has_session(session_id)
            &&& after.session(session_id).status == SessionStatus::Paused
            &&& !after.has_open_interval(session_id)
            &&& after.sum_elapsed_seconds(session_id, later) == store.closed_seconds(session_id) + (
            now - store.intervals[open].start_time)
            &&& recovery_reply(store, now).unwrap().unwrap().status == SessionStatus::Paused
            &&& recovery_reply(store, now).unwrap().unwrap().elapsed == gitlab_time_text(
                store.closed_seconds(session_id) + (now - store.intervals[open].start_time),
            )
        }),
{
    let session_id = store.latest_session().unwrap().id;
    let after = recovered(store, now);
    lemma_latest_in_range(store);
    lemma_settle(store, session_id, SessionStatus::Paused, now);
    lemma_elapsed_after_close(store.intervals, session_id, now, session_id, later);
    assert(after.intervals == store.close_open_interval(session_id, now).intervals);
    lemma_elapsed_one_open(store.intervals, session_id, open, now);
    assert(after.has_session(session_id)) by {
        let at = store.index_of(session_id);
        assert(after.sessions[at].id == session_id);
    }
}

/// Recovery keeps the rows well formed and the intervals matched to the
/// status of their sessions. Where no session but the latest was running,
/// none is running afterwards: with the flag clear, the engine is in step.
pub proof fn lemma_recovery_keeps_rules(store: StoreView, now: i64)
    requires
        store.wf(),
    ensures
        recovered(store, now).wf(),
        store.intervals_match_status() ==> recovered(store, now).intervals_match_status(),
        store.at_most_one_running() ==> recovered(store, now).at_most_one_running(),
        recovery_reply(store, now) is Ok && store.latest_session() is Some && store.only_running(
            store.latest_session().unwrap().id,
        ) ==> !recovered(store, now).any_running(),
{
    if store.latest_session() is Some {
        let latest = store.latest_session().unwrap();
        lemma_latest_in_range(store);
        if latest.status == SessionStatus::Running {
            lemma_settle(store, latest.id, SessionStatus::Paused, now);
        } else if store.only_running(latest.id) {
            let at = store.index_of(latest.id);
            lemma_index_of(store, at);
            assert forall|i: int| 0 <= i < store.sessions.len() implies (
            #[trigger] store.sessions[i]).status != SessionStatus::Running by {
                if store.sessions[i].status == SessionStatus::Running {
                    lemma_index_of(store, i);
                }
            }
        }
    }
}

/// Rows are kept for good. Whatever is asked, no session and no interval is
/// removed, a session keeps its id, its work item and its label, an
/// interval keeps its session and its beginning, a closed interval is not
/// opened again, and a finished session is not changed.
pub proof fn lemma_rows_are_kept(engine: EngineView, session_id: i64, request: Request, now: i64)
    requires
        engine.store.wf(),
    ensures
        engine.store.kept_in(engine.after(session_id, request, now).store),
{
    let store = engine.store;
    let at = store.index_of(session_id);
    if store.has_session(session_id) {
        lemma_index_of(store, at);
    }
    assert forall|i: int|
        0 <= i < store.sessions.len() && store.sessions[i].id == session_id implies i == at by {
        lemma_index_of(store, i);
    }
}

/// A start removes and changes no row.
pub proof fn lemma_start_keeps_rows(
    engine: EngineView,
    group_id: i64,
    project_id: i64,
    issue_id: i64,
    label: Seq<char>,
    now: i64,
)
    ensures
        engine.store.kept_in(engine.start(group_id, project_id, issue_id, label, now).store),
{
}

/// Recovery removes no row, and changes the latest session and its open
/// interval only.
pub proof fn lemma_recovery_keeps_rows(store: StoreView, now: i64)
    requires
        store.wf(),
    ensures
        store.kept_in(recovered(store, now)),
        forall|i: int|
            0 <= i < store.sessions.len() && i != latest_index(store.sessions) ==> recovered(
                store,
                now,
            ).sessions[i] == #[trigger] store.sessions[i],
        forall|k: int|
            0 <= k < store.intervals.len() && !is_open_for(
                #[trigger] store.intervals[k],
                store.sessions[latest_index(store.sessions)].id,
            ) ==> recovered(store, now).intervals[k] == store.intervals[k],
{
    if store.latest_session() is Some {
        lemma_latest_in_range(store);
        let latest = store.latest_session().unwrap();
        assert forall|i: int|
            0 <= i < store.sessions.len() && store.sessions[i].id == latest.id implies i
            == latest_index(store.sessions) by {
            lemma_index_of(store, i);
            lemma_index_of(store, latest_index(store.sessions));
        }
    }
}

/// Rows are kept through every sequence of requests for a session.
pub proof fn lemma_rows_are_kept_throughout(
    engine: EngineView,
    session_id: i64,
    requests: Seq<(Request, i64)>,
)
    requires
        engine.store.wf(),
    ensures
        engine.after_all(session_id, requests).store.wf(),
        engine.store.kept_in(engine.after_all(session_id, requests).store),
    decreases requests.len(),
{
    if requests.len() > 0 {
        lemma_rows_are_kept_throughout(engine, session_id, requests.drop_last());
        let before = engine.after_all(session_id, requests.drop_last());
        let now = requests.last().1;
        lemma_requests_keep_wf(before, session_id, requests.last().0, now);
        lemma_rows_are_kept(before, session_id, requests.last().0, now);
    }
}

/// Every request for a session keeps the rows well formed.
pub proof fn lemma_requests_keep_wf(engine: EngineView, session_id: i64, request: Request, now: i64)
    requires
        engine.store.wf(),
    ensures
        engine.after(session_id, request, now).store.wf(),
{
    match request {
        Request::Pause => {
            lemma_pause_keeps_rules(engine, session_id, now);
        },
        Request::Stop => {
            lemma_stop_keeps_rules(engine, session_id, now);
        },
        Request::Resume => {
            if engine.resume_reply(session_id) is Ok {
                lemma_open_interval(engine.store, session_id, now);
                lemma_set_status(
                    engine.store.open_interval(session_id, now),
                    session_id,
                    SessionStatus::Running,
                    now,
                );
            }
        },
    }
}

} // verus!
