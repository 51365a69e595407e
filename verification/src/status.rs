//! The small vocabularies of the engine: a session's status, what the shell
//! is told to show, and why a request was not carried out.

use vstd::prelude::*;
use vstd::string::*;

verus! {

/// Where a session stands in its life: it runs, it rests, or it is over.
/// `Finished` is terminal.
#[derive(Clone, Copy, Debug, PartialEq, Eq, Structural)]
pub enum SessionStatus {
    Running,
    Paused,
    Finished,
}

/// What the shell shows after a transition. Nothing is waited for in return.
#[derive(Clone, Copy, Debug, PartialEq, Eq, Structural)]
pub enum Notice {
    Running,
    Paused,
    Idle,
}

/// Why an operation left everything as it was.
///
/// `AlreadyRunning` and `Finished` are rejections: ordinary negative answers
/// to a request that the rules of the engine do not admit. `NotFound` names a
/// session that does not exist. `StoreFull` and `Overflow` are failures of
/// the store itself.
#[derive(Clone, Copy, Debug, PartialEq, Eq, Structural)]
pub enum TimerError {
    /// A session is flagged as running; a second one may not start or resume.
    AlreadyRunning,
    /// The session is finished and takes no further transition.
    Finished,
    /// No session has the given id.
    NotFound,
    /// The store has no id left for a new row.
    StoreFull,
    /// The sum of a session's intervals is not an `i64`.
    Overflow,
}

/// The word under which a status is stored and reported.
pub open spec fn status_text(status: SessionStatus) -> Seq<char> {
    match status {
        SessionStatus::Running => "running"@,
        SessionStatus::Paused => "paused"@,
        SessionStatus::Finished => "finished"@,
    }
}

/// What the shell shows for a session in the given status: a finished
/// session leaves the shell idle.
pub open spec fn notice_of(status: SessionStatus) -> Notice {
    match status {
        SessionStatus::Running => Notice::Running,
        SessionStatus::Paused => Notice::Paused,
        SessionStatus::Finished => Notice::Idle,
    }
}

/// The three status words differ from one another, so a word names at most
/// one status.
pub proof fn lemma_status_text_injective(a: SessionStatus, b: SessionStatus)
    requires
        status_text(a) == status_text(b),
    ensures
        a == b,
{
    reveal_strlit("running");
    reveal_strlit("paused");
    reveal_strlit("finished");
    assert("running"@.len() == 7);
    assert("paused"@.len() == 6);
    assert("finished"@.len() == 8);
}

/// Whether the error is a rejection: an ordinary negative answer, after
/// which the caller goes on, and no failure.
pub open spec fn is_rejection(error: TimerError) -> bool {
    error == TimerError::AlreadyRunning || error == TimerError::Finished
}

/// The sentence that tells a person of the error.
pub open spec fn error_text(error: TimerError) -> Seq<char> {
    match error {
        TimerError::AlreadyRunning => "a session is already running"@,
        TimerError::Finished => "the session is finished"@,
        TimerError::NotFound => "no such session"@,
        TimerError::StoreFull => "the store is full"@,
        TimerError::Overflow => "the elapsed time is out of range"@,
    }
}

impl TimerError {
    /// Whether this is a rejection rather than a failure.
    pub fn is_rejection(self) -> (rejection: bool)
        ensures
            rejection == is_rejection(self),
    {
        match self {
            TimerError::AlreadyRunning => true,
            TimerError::Finished => true,
            TimerError::NotFound => false,
            TimerError::StoreFull => false,
            TimerError::Overflow => false,
        }
    }

    /// The sentence that tells a person of this error.
    pub fn message(self) -> (text: &'static str)
        ensures
            text@ == error_text(self),
    {
        match self {
            TimerError::AlreadyRunning => "a session is already running",
            TimerError::Finished => "the session is finished",
            TimerError::NotFound => "no such session",
            TimerError::StoreFull => "the store is full",
            TimerError::Overflow => "the elapsed time is out of range",
        }
    }
}

impl SessionStatus {
    /// The word for this status.
    pub fn as_str(self) -> (text: &'static str)
        ensures
            text@ == status_text(self),
    {
        match self {
            SessionStatus::Running => "running",
            SessionStatus::Paused => "paused",
            SessionStatus::Finished => "finished",
        }
    }

    /// The status that a word names, if it names one.
    pub fn parse(text: &str) -> (status: Option<SessionStatus>)
        ensures
            forall|named: SessionStatus|
                status == Some(named) <==> text@ == #[trigger] status_text(named),
    {
        let word = text.to_owned();
        let status = if word == "running".to_owned() {
            Some(SessionStatus::Running)
        } else if word == "paused".to_owned() {
            Some(SessionStatus::Paused)
        } else if word == "finished".to_owned() {
            Some(SessionStatus::Finished)
        } else {
            None
        };
        assert forall|named: SessionStatus|
            status == Some(named) <==> text@ == #[trigger] status_text(named) by {
            match status {
                Some(found) => {
                    if text@ == status_text(named) {
                        lemma_status_text_injective(found, named);
                    }
                },
                None => {
                    match named {
                        SessionStatus::Running => {},
                        SessionStatus::Paused => {},
                        SessionStatus::Finished => {},
                    }
                },
            }
        }
        status
    }

    /// What the shell shows for a session in this status.
    pub fn notice(self) -> (notice: Notice)
        ensures
            notice == notice_of(self),
    {
        match self {
            SessionStatus::Running => Notice::Running,
            SessionStatus::Paused => Notice::Paused,
            SessionStatus::Finished => Notice::Idle,
        }
    }
}

} // verus!
