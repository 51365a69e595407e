//! The session engine as a state machine: what each request answers and
//! what it leaves behind, over the store's rows and the flag that says
//! whether a session is running.

use vstd::prelude::*;
use crate::format::gitlab_time_text;
use crate::model::StoreView;
use crate::status::{notice_of, Notice, SessionStatus, TimerError};

verus! {

/// The answer to a start that took place.
#[derive(Clone, Copy, Debug, PartialEq, Eq)]
pub struct Started {
    /// The id of the new session.
    pub session_id: i64,
    /// What the shell shows from now on.
    pub notice: Notice,
}

/// What recovery reports of the latest session, as contracts see it.
pub struct RecoveredView {
    pub session_id: i64,
    pub group_id: i64,
    pub project_id: i64,
    pub issue_id: i64,
    pub label: Seq<char>,
    pub status: SessionStatus,
    pub elapsed: Seq<char>,
}

/// The engine's whole state: the rows, and the flag of this process.
pub struct EngineView {
    pub store: StoreView,
    pub running: bool,
}

impl EngineView {
    /// What a start answers. It is rejected while the flag is set, and fails
    /// where the store has no id left for the session or for its interval.
    pub open spec fn start_reply(self) -> Result<Started, TimerError> {
        if self.running {
            Err(TimerError::AlreadyRunning)
        } else if self.store.next_session_id() > i64::MAX || self.store.next_interval_id()
            > i64::MAX {
            Err(TimerError::StoreFull)
        } else {
            Ok(
                Started {
                    session_id: self.store.next_session_id() as i64,
                    notice: notice_of(SessionStatus::Running),
                },
            )
        }
    }

    /// The state after a start: a new running session with its first
    /// interval open, and the flag set. A start that is not answered with
    /// `Ok` changes nothing.
    pub open spec fn start(
        self,
        group_id: i64,
        project_id: i64,
        issue_id: i64,
        label: Seq<char>,
        now: i64,
    ) -> EngineView {
        match self.start_reply() {
            Ok(started) => EngineView {
                store: self.store.create_session(
                    group_id,
                    project_id,
                    issue_id,
                    label,
                    now,
                ).open_interval(started.session_id, now),
                running: true,
            },
            Err(_) => self,
        }
    }

    /// What a request answers that takes a session to `status`: the
    /// session must exist and must not be finished, and the shell is told of
    /// the new status.
    pub open spec fn transition_reply(self, session_id: i64, status: SessionStatus) -> Result<
        Notice,
        TimerError,
    > {
        if !self.store.has_session(session_id) {
            Err(TimerError::NotFound)
        } else if self.store.session(session_id).status == SessionStatus::Finished {
            Err(TimerError::Finished)
        } else {
            Ok(notice_of(status))
        }
    }

    /// What a pause answers.
    pub open spec fn pause_reply(self, session_id: i64) -> Result<Notice, TimerError> {
        self.transition_reply(session_id, SessionStatus::Paused)
    }

    /// The state after a pause: the session's open interval ended, the
    /// session paused, the flag cleared. A pause that is not answered with
    /// `Ok` changes nothing.
    pub open spec fn pause(self, session_id: i64, now: i64) -> EngineView {
        if self.pause_reply(session_id) is Ok {
            EngineView {
                store: self.store.close_open_interval(session_id, now).set_status(
                    session_id,
                    SessionStatus::Paused,
                    now,
                ),
                running: false,
            }
        } else {
            self
        }
    }

    /// What a stop answers.
    pub open spec fn stop_reply(self, session_id: i64) -> Result<Notice, TimerError> {
        self.transition_reply(session_id, SessionStatus::Finished)
    }

    /// The state after a stop: the session's open interval ended, the
    /// session finished, the flag cleared. A stop that is not answered with
    /// `Ok` changes nothing.
    pub open spec fn stop(self, session_id: i64, now: i64) -> EngineView {
        if self.stop_reply(session_id) is Ok {
            EngineView {
                store: self.store.close_open_interval(session_id, now).set_status(
                    session_id,
                    SessionStatus::Finished,
                    now,
                ),
                running: false,
            }
        } else {
            self
        }
    }

    /// What a resume answers. It is rejected while the flag is set, and
    /// fails where the store has no id left for the interval.
    pub open spec fn resume_reply(self, session_id: i64) -> Result<Notice, TimerError> {
        if self.running {
            Err(TimerError::AlreadyRunning)
        } else if self.transition_reply(session_id, SessionStatus::Running) is Ok
            && self.store.next_interval_id() > i64::MAX {
            Err(TimerError::StoreFull)
        } else {
            self.transition_reply(session_id, SessionStatus::Running)
        }
    }

    /// The state after a resume: a new interval open, the session running,
    /// the flag set. A resume that is not answered with `Ok` changes
    /// nothing.
    pub open spec fn resume(self, session_id: i64, now: i64) -> EngineView {
        if self.resume_reply(session_id) is Ok {
            EngineView {
                store: self.store.open_interval(session_id, now).set_status(
                    session_id,
                    SessionStatus::Running,
                    now,
                ),
                running: true,
            }
        } else {
            self
        }
    }
}

/// One request for a session that exists already.
pub enum Request {
    Pause,
    Resume,
    Stop,
}

impl EngineView {
    /// The state after one request for the session at `now`.
    pub open spec fn after(self, session_id: i64, request: Request, now: i64) -> EngineView {
        match request {
            Request::Pause => self.pause(session_id, now),
            Request::Resume => self.resume(session_id, now),
            Request::Stop => self.stop(session_id, now),
        }
    }

    /// The state after a sequence of requests for one session, each with
    /// the time at which it is made.
    pub open spec fn after_all(self, session_id: i64, requests: Seq<(Request, i64)>) -> EngineView
        decreases requests.len(),
    {
        if requests.len() == 0 {
            self
        } else {
            self.after_all(session_id, requests.drop_last()).after(
                session_id,
                requests.last().0,
                requests.last().1,
            )
        }
    }
}

impl EngineView {
    /// The engine is in step: its rows are well formed, the intervals match
    /// the status of their sessions, at most one session is running, and
    /// the flag is set exactly when one is.
    pub open spec fn in_step(self) -> bool {
        &&& self.store.wf()
        &&& self.store.intervals_match_status()
        &&& self.store.at_most_one_running()
        &&& self.running == self.store.any_running()
    }
}

/// What a query for a session's elapsed time answers: the text of the sum
/// of its intervals at `now`.
pub open spec fn elapsed_reply(store: StoreView, session_id: i64, now: i64) -> Result<
    Seq<char>,
    TimerError,
> {
    if !store.has_session(session_id) {
        Err(TimerError::NotFound)
    } else if i64::MIN <= store.sum_elapsed_seconds(session_id, now) <= i64::MAX {
        Ok(gitlab_time_text(store.sum_elapsed_seconds(session_id, now)))
    } else {
        Err(TimerError::Overflow)
    }
}

/// The status that recovery leaves a session in: a running session was cut
/// short and is paused; any other status stays.
pub open spec fn reconciled(status: SessionStatus) -> SessionStatus {
    if status == SessionStatus::Running {
        SessionStatus::Paused
    } else {
        status
    }
}

/// What recovery reports: nothing where the store has no session, else the
/// latest session with its reconciled status and its elapsed time at `now`.
pub open spec fn recovery_reply(store: StoreView, now: i64) -> Result<
    Option<RecoveredView>,
    TimerError,
> {
    match store.latest_session() {
        None => Ok(None),
        Some(latest) => match elapsed_reply(store, latest.id, now) {
            Ok(elapsed) => Ok(
                Some(
                    RecoveredView {
                        session_id: latest.id,
                        group_id: latest.group_id,
                        project_id: latest.project_id,
                        issue_id: latest.issue_id,
                        label: latest.label,
                        status: reconciled(latest.status),
                        elapsed: elapsed,
                    },
                ),
            ),
            Err(error) => Err(error),
        },
    }
}

/// The store after recovery. Where the latest session was running, its open
/// interval is ended at `now` and the session is paused; else, and where
/// recovery fails, the store is as it was.
pub open spec fn recovered(store: StoreView, now: i64) -> StoreView {
    match store.latest_session() {
        Some(latest) => if latest.status == SessionStatus::Running && recovery_reply(store, now)
            is Ok {
            store.close_open_interval(latest.id, now).set_status(
                latest.id,
                SessionStatus::Paused,
                now,
            )
        } else {
            store
        },
        None => store,
    }
}

} // verus!
