//! The two kinds of row that the store keeps: sessions and their intervals.

use vstd::prelude::*;
use crate::status::SessionStatus;

verus! {

/// One tracked attempt at a work item.
#[derive(Debug, PartialEq, Eq)]
pub struct Session {
    /// Assigned when the session is created; never changes.
    pub id: i64,
    pub group_id: i64,
    pub project_id: i64,
    pub issue_id: i64,
    /// Free text that describes the work.
    pub label: String,
    pub status: SessionStatus,
    /// When the status was last set, in seconds.
    pub updated_at: i64,
}

/// A session as contracts see it: the label is its sequence of characters.
pub struct SessionView {
    pub id: i64,
    pub group_id: i64,
    pub project_id: i64,
    pub issue_id: i64,
    pub label: Seq<char>,
    pub status: SessionStatus,
    pub updated_at: i64,
}

impl View for Session {
    type V = SessionView;

    open spec fn view(&self) -> SessionView {
        SessionView {
            id: self.id,
            group_id: self.group_id,
            project_id: self.project_id,
            issue_id: self.issue_id,
            label: self.label@,
            status: self.status,
            updated_at: self.updated_at,
        }
    }
}

impl Clone for Session {
    fn clone(&self) -> (copy: Session)
        ensures
            copy@ == self@,
    {
        Session {
            id: self.id,
            group_id: self.group_id,
            project_id: self.project_id,
            issue_id: self.issue_id,
            label: self.label.clone(),
            status: self.status,
            updated_at: self.updated_at,
        }
    }
}

/// One contiguous span of time that belongs to a session. While the span is
/// open its end is `None`.
#[derive(Clone, Copy, Debug, PartialEq, Eq)]
pub struct Interval {
    pub id: i64,
    pub session_id: i64,
    pub start_time: i64,
    pub end_time: Option<i64>,
}

/// The views of a sequence of sessions, row by row.
pub open spec fn session_views(rows: Seq<Session>) -> Seq<SessionView> {
    rows.map_values(|row: Session| row@)
}

} // verus!
