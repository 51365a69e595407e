//! The session engine: start, pause, resume and stop a session, ask for its
//! elapsed time, and reconcile the latest session when the process starts.
//!
//! The clock is the caller's: every request that needs the time takes it as
//! `now`, in whole seconds.

use vstd::prelude::*;
use crate::engine::{
    elapsed_reply, recovered, recovery_reply, EngineView, RecoveredView, Started,
};
use crate::format::format_gitlab_time;
use crate::laws::{
    lemma_pause_keeps_rules, lemma_recovery_keeps_rules, lemma_resume_keeps_rules,
    lemma_start_keeps_rules, lemma_stop_keeps_rules,
};
use crate::model::{lemma_create_session, lemma_latest_in_range, StoreView};
use crate::status::{Notice, SessionStatus, TimerError};
use crate::store::Store;

verus! {

/// The flag of this process: whether a session is running. It spares the
/// store a look on every tick and turns a second start away; across
/// restarts the store is what counts.
#[derive(Clone, Copy, Debug, PartialEq, Eq)]
pub struct TimerState {
    pub running: bool,
}

impl Default for TimerState {
    fn default() -> (state: TimerState)
        ensures
            !state.running,
    {
        TimerState { running: false }
    }
}

/// What recovery reports of the latest session.
#[derive(Debug, PartialEq, Eq)]
pub struct Recovered {
    pub session_id: i64,
    pub group_id: i64,
    pub project_id: i64,
    pub issue_id: i64,
    pub label: String,
    /// The status after recovery.
    pub status: SessionStatus,
    /// The elapsed time after recovery, as text.
    pub elapsed: String,
}

impl View for Recovered {
    type V = RecoveredView;

    open spec fn view(&self) -> RecoveredView {
        RecoveredView {
            session_id: self.session_id,
            group_id: self.group_id,
            project_id: self.project_id,
            issue_id: self.issue_id,
            label: self.label@,
            status: self.status,
            elapsed: self.elapsed@,
        }
    }
}

/// The engine's state that a store and a flag make up.
pub open spec fn engine(store: StoreView, timer: TimerState) -> EngineView {
    EngineView { store: store, running: timer.running }
}

/// Starts a session on a work item: a new running session with its first
/// interval open at `now`.
///
/// While the flag says that a session is running the request is rejected
/// with `AlreadyRunning`, and nothing changes.
pub fn start_timer(
    store: &mut Store,
    group_id: i64,
    project_id: i64,
    issue_id: i64,
    label: String,
    timer: &mut TimerState,
    now: i64,
) -> (reply: Result<Started, TimerError>)
    requires
        old(store)@.wf(),
    ensures
        final(store)@.wf(),
        reply == engine(old(store)@, *old(timer)).start_reply(),
        engine(final(store)@, *final(timer)) == engine(old(store)@, *old(timer)).start(
            group_id,
            project_id,
            issue_id,
            label@,
            now,
        ),
        old(store)@.intervals_match_status() ==> final(store)@.intervals_match_status(),
        engine(old(store)@, *old(timer)).in_step() ==> engine(final(store)@, *final(timer)).in_step(),
{
    proof {
        lemma_start_keeps_rules(
            engine(store@, *timer),
            group_id,
            project_id,
            issue_id,
            label@,
            now,
        );
    }
    if timer.running {
        return Err(TimerError::AlreadyRunning);
    }
    if !store.has_session_id_left() || !store.has_interval_id_left() {
        return Err(TimerError::StoreFull);
    }
    proof {
        lemma_create_session(store@, group_id, project_id, issue_id, label@, now);
    }
    let session_id = match store.create_session(group_id, project_id, issue_id, label, now) {
        Ok(id) => id,
        Err(error) => {
            return Err(error);
        },
    };
    match store.open_interval(session_id, now) {
        Ok(()) => {},
        Err(error) => {
            return Err(error);
        },
    }
    timer.running = true;
    Ok(Started { session_id: session_id, notice: SessionStatus::Running.notice() })
}

/// Ends the session's open interval at `now` and leaves the session in
/// `status`, with the flag cleared.
fn settle(
    store: &mut Store,
    session_id: i64,
    timer: &mut TimerState,
    status: SessionStatus,
    now: i64,
) -> (reply: Result<Notice, TimerError>)
    requires
        old(store)@.wf(),
    ensures
        final(store)@.wf(),
        reply == engine(old(store)@, *old(timer)).transition_reply(session_id, status),
        reply is Err ==> final(store)@ == old(store)@ && *final(timer) == *old(timer),
        reply is Ok ==> final(store)@ == old(store)@.close_open_interval(session_id, now).set_status(
            session_id,
            status,
            now,
        ) && !final(timer).running,
{
    match store.status(session_id) {
        None => {
            return Err(TimerError::NotFound);
        },
        Some(SessionStatus::Finished) => {
            return Err(TimerError::Finished);
        },
        Some(_) => {},
    }
    store.close_open_interval(session_id, now);
    match store.set_status(session_id, status, now) {
        Ok(()) => {},
        Err(error) => {
            return Err(error);
        },
    }
    timer.running = false;
    Ok(status.notice())
}

/// Pauses a session: its open interval ends at `now`. To pause a session
/// that is paused already closes nothing and sets the status once more.
pub fn pause_timer(store: &mut Store, session_id: i64, timer: &mut TimerState, now: i64) -> (reply:
    Result<Notice, TimerError>)
    requires
        old(store)@.wf(),
    ensures
        final(store)@.wf(),
        reply == engine(old(store)@, *old(timer)).pause_reply(session_id),
        engine(final(store)@, *final(timer)) == engine(old(store)@, *old(timer)).pause(
            session_id,
            now,
        ),
        old(store)@.intervals_match_status() ==> final(store)@.intervals_match_status(),
        engine(old(store)@, *old(timer)).in_step() && old(store)@.only_running(session_id)
            ==> engine(final(store)@, *final(timer)).in_step(),
{
    proof {
        lemma_pause_keeps_rules(engine(store@, *timer), session_id, now);
    }
    settle(store, session_id, timer, SessionStatus::Paused, now)
}

/// Resumes a paused session: a new interval opens at `now`.
///
/// While the flag says that a session is running the request is rejected
/// with `AlreadyRunning`; a finished session is not resumed.
pub fn resume_timer(store: &mut Store, session_id: i64, timer: &mut TimerState, now: i64) -> (reply:
    Result<Notice, TimerError>)
    requires
        old(store)@.wf(),
    ensures
        final(store)@.wf(),
        reply == engine(old(store)@, *old(timer)).resume_reply(session_id),
        engine(final(store)@, *final(timer)) == engine(old(store)@, *old(timer)).resume(
            session_id,
            now,
        ),
        engine(old(store)@, *old(timer)).in_step() ==> engine(final(store)@, *final(timer)).in_step(),
{
    proof {
        lemma_resume_keeps_rules(engine(store@, *timer), session_id, now);
    }
    if timer.running {
        return Err(TimerError::AlreadyRunning);
    }
    match store.status(session_id) {
        None => {
            return Err(TimerError::NotFound);
        },
        Some(SessionStatus::Finished) => {
            return Err(TimerError::Finished);
        },
        Some(_) => {},
    }
    match store.open_interval(session_id, now) {
        Ok(()) => {},
        Err(error) => {
            return Err(error);
        },
    }
    match store.set_status(session_id, SessionStatus::Running, now) {
        Ok(()) => {},
        Err(error) => {
            return Err(error);
        },
    }
    timer.running = true;
    Ok(SessionStatus::Running.notice())
}

/// Stops a session for good: its open interval ends at `now`, and the
/// session takes no further transition.
pub fn stop_timer(store: &mut Store, session_id: i64, timer: &mut TimerState, now: i64) -> (reply:
    Result<Notice, TimerError>)
    requires
        old(store)@.wf(),
    ensures
        final(store)@.wf(),
        reply == engine(old(store)@, *old(timer)).stop_reply(session_id),
        engine(final(store)@, *final(timer)) == engine(old(store)@, *old(timer)).stop(
            session_id,
            now,
        ),
        old(store)@.intervals_match_status() ==> final(store)@.intervals_match_status(),
        engine(old(store)@, *old(timer)).in_step() && old(store)@.only_running(session_id)
            ==> engine(final(store)@, *final(timer)).in_step(),
{
    proof {
        lemma_stop_keeps_rules(engine(store@, *timer), session_id, now);
    }
    settle(store, session_id, timer, SessionStatus::Finished, now)
}

/// The session's elapsed time at `now`, as text.
pub fn get_session_time(store: &Store, session_id: i64, now: i64) -> (reply: Result<
    String,
    TimerError,
>)
    requires
        store@.wf(),
    ensures
        match reply {
            Ok(text) => elapsed_reply(store@, session_id, now) == Ok::<Seq<char>, TimerError>(
                text@,
            ),
            Err(error) => elapsed_reply(store@, session_id, now) == Err::<Seq<char>, TimerError>(
                error,
            ),
        },
{
    match store.sum_elapsed_seconds(session_id, now) {
        Ok(total) => Ok(format_gitlab_time(total)),
        Err(error) => Err(error),
    }
}

/// Reconciles the latest session when the process starts, and reports it.
///
/// A session that was left running by a process that ended without notice
/// has its open interval ended at `now` and is paused. A session that is
/// paused or finished is reported as it is. Where recovery fails the store
/// is as it was.
pub fn resume_last_session(store: &mut Store, now: i64) -> (reply: Result<
    Option<Recovered>,
    TimerError,
>)
    requires
        old(store)@.wf(),
    ensures
        final(store)@.wf(),
        final(store)@ == recovered(old(store)@, now),
        old(store)@.intervals_match_status() ==> final(store)@.intervals_match_status(),
        match reply {
            Ok(Some(report)) => recovery_reply(old(store)@, now) == Ok::<
                Option<RecoveredView>,
                TimerError,
            >(Some(report@)),
            Ok(None) => recovery_reply(old(store)@, now) == Ok::<
                Option<RecoveredView>,
                TimerError,
            >(None),
            Err(error) => recovery_reply(old(store)@, now) == Err::<
                Option<RecoveredView>,
                TimerError,
            >(error),
        },
{
    proof {
        lemma_recovery_keeps_rules(store@, now);
    }
    let latest = match store.latest_session() {
        Some(latest) => latest,
        None => {
            return Ok(None);
        },
    };
    proof {
        lemma_latest_in_range(store@);
    }
    let elapsed = match get_session_time(store, latest.id, now) {
        Ok(text) => text,
        Err(error) => {
            return Err(error);
        },
    };
    let status = match latest.status {
        SessionStatus::Running => {
            store.close_open_interval(latest.id, now);
            match store.set_status(latest.id, SessionStatus::Paused, now) {
                Ok(()) => {},
                Err(error) => {
                    return Err(error);
                },
            }
            SessionStatus::Paused
        },
        SessionStatus::Paused => SessionStatus::Paused,
        SessionStatus::Finished => SessionStatus::Finished,
    };
    Ok(
        Some(
            Recovered {
                session_id: latest.id,
                group_id: latest.group_id,
                project_id: latest.project_id,
                issue_id: latest.issue_id,
                label: latest.label,
                status: status,
                elapsed: elapsed,
            },
        ),
    )
}

} // verus!
