use tracetime::rows::{Interval, Session};
use tracetime::status::{SessionStatus, TimerError};
use tracetime::store::Store;

fn session(id: i64, status: SessionStatus, updated_at: i64) -> Session {
    Session {
        id,
        group_id: 10,
        project_id: 20,
        issue_id: 30,
        label: String::from("work"),
        status,
        updated_at,
    }
}

fn interval(id: i64, session_id: i64, start_time: i64, end_time: Option<i64>) -> Interval {
    Interval { id, session_id, start_time, end_time }
}

#[test]
fn a_new_store_is_empty() {
    let store = Store::new();
    assert!(store.sessions().is_empty());
    assert!(store.intervals().is_empty());
    assert_eq!(store.latest_session(), None);
    assert_eq!(store.session(1), None);
    assert_eq!(store.status(1), None);
}

#[test]
fn sessions_are_numbered_from_one() {
    let mut store = Store::new();
    assert_eq!(store.create_session(1, 2, 3, String::from("a"), 100), Ok(1));
    assert_eq!(store.create_session(1, 2, 3, String::from("b"), 101), Ok(2));
    assert_eq!(store.create_session(4, 5, 6, String::from("c"), 102), Ok(3));
    assert_eq!(store.sessions().len(), 3);
    assert_eq!(
        store.session(3),
        Some(Session {
            id: 3,
            group_id: 4,
            project_id: 5,
            issue_id: 6,
            label: String::from("c"),
            status: SessionStatus::Running,
            updated_at: 102,
        })
    );
}

#[test]
fn a_created_session_is_running() {
    let mut store = Store::new();
    let id = store.create_session(1, 2, 3, String::from("a"), 100).unwrap();
    assert_eq!(store.status(id), Some(SessionStatus::Running));
    assert!(store.intervals().is_empty());
}

#[test]
fn an_interval_opens_without_an_end() {
    let mut store = Store::new();
    let id = store.create_session(1, 2, 3, String::from("a"), 100).unwrap();
    assert_eq!(store.open_interval(id, 100), Ok(()));
    assert_eq!(store.intervals().as_slice(), &[interval(1, id, 100, None)]);
    assert_eq!(store.open_interval(id, 200), Ok(()));
    assert_eq!(store.intervals()[1], interval(2, id, 200, None));
}

#[test]
fn no_interval_for_a_session_that_is_not_there() {
    let mut store = Store::new();
    assert_eq!(store.open_interval(1, 100), Err(TimerError::NotFound));
    assert!(store.intervals().is_empty());
}

#[test]
fn closing_sets_the_end_of_the_open_interval_only() {
    let mut store = Store::from_rows(
        vec![session(1, SessionStatus::Running, 5), session(2, SessionStatus::Running, 6)],
        vec![interval(1, 1, 10, Some(20)), interval(2, 1, 30, None), interval(3, 2, 40, None)],
    )
    .unwrap();
    store.close_open_interval(1, 50);
    assert_eq!(
        store.intervals().as_slice(),
        &[interval(1, 1, 10, Some(20)), interval(2, 1, 30, Some(50)), interval(3, 2, 40, None)]
    );
}

#[test]
fn closing_where_nothing_is_open_changes_nothing() {
    let mut store = Store::from_rows(
        vec![session(1, SessionStatus::Paused, 5)],
        vec![interval(1, 1, 10, Some(20))],
    )
    .unwrap();
    store.close_open_interval(1, 50);
    store.close_open_interval(7, 50);
    assert_eq!(store.intervals().as_slice(), &[interval(1, 1, 10, Some(20))]);
    assert_eq!(store.sessions().as_slice(), &[session(1, SessionStatus::Paused, 5)]);
}

#[test]
fn set_status_stamps_the_session() {
    let mut store = Store::from_rows(
        vec![session(1, SessionStatus::Running, 5), session(2, SessionStatus::Paused, 6)],
        vec![],
    )
    .unwrap();
    assert_eq!(store.set_status(1, SessionStatus::Finished, 99), Ok(()));
    assert_eq!(
        store.sessions().as_slice(),
        &[session(1, SessionStatus::Finished, 99), session(2, SessionStatus::Paused, 6)]
    );
}

#[test]
fn set_status_of_a_session_that_is_not_there() {
    let mut store = Store::from_rows(vec![session(1, SessionStatus::Running, 5)], vec![]).unwrap();
    assert_eq!(store.set_status(2, SessionStatus::Paused, 99), Err(TimerError::NotFound));
    assert_eq!(store.sessions().as_slice(), &[session(1, SessionStatus::Running, 5)]);
}

#[test]
fn the_sum_counts_an_open_interval_up_to_now() {
    let store = Store::from_rows(
        vec![session(1, SessionStatus::Running, 5), session(2, SessionStatus::Paused, 6)],
        vec![
            interval(1, 1, 100, Some(110)),
            interval(2, 2, 0, Some(1000)),
            interval(3, 1, 200, Some(207)),
            interval(4, 1, 300, None),
        ],
    )
    .unwrap();
    assert_eq!(store.sum_elapsed_seconds(1, 300), Ok(17));
    assert_eq!(store.sum_elapsed_seconds(1, 325), Ok(42));
    assert_eq!(store.sum_elapsed_seconds(2, 325), Ok(1000));
    assert_eq!(store.sum_elapsed_seconds(2, 5), Ok(1000));
}

#[test]
fn the_sum_of_no_intervals_is_zero() {
    let store = Store::from_rows(vec![session(1, SessionStatus::Paused, 5)], vec![]).unwrap();
    assert_eq!(store.sum_elapsed_seconds(1, 300), Ok(0));
}

#[test]
fn the_sum_of_a_session_that_is_not_there() {
    let store = Store::from_rows(vec![session(1, SessionStatus::Paused, 5)], vec![]).unwrap();
    assert_eq!(store.sum_elapsed_seconds(2, 300), Err(TimerError::NotFound));
}

#[test]
fn a_clock_that_went_back_gives_a_negative_sum() {
    let store = Store::from_rows(
        vec![session(1, SessionStatus::Running, 5)],
        vec![interval(1, 1, 100, Some(90)), interval(2, 1, 200, None)],
    )
    .unwrap();
    assert_eq!(store.sum_elapsed_seconds(1, 150), Ok(-60));
}

#[test]
fn a_sum_beyond_the_integers_is_an_overflow() {
    let store = Store::from_rows(
        vec![session(1, SessionStatus::Running, 5)],
        vec![interval(1, 1, i64::MIN, None)],
    )
    .unwrap();
    assert_eq!(store.sum_elapsed_seconds(1, -1), Ok(i64::MAX));
    assert_eq!(store.sum_elapsed_seconds(1, 0), Err(TimerError::Overflow));
    assert_eq!(store.sum_elapsed_seconds(1, i64::MAX), Err(TimerError::Overflow));
}

#[test]
fn a_sum_that_passes_beyond_the_integers_and_comes_back() {
    let store = Store::from_rows(
        vec![session(1, SessionStatus::Paused, 5)],
        vec![
            interval(1, 1, 0, Some(i64::MAX)),
            interval(2, 1, 0, Some(i64::MAX)),
            interval(3, 1, i64::MAX, Some(0)),
        ],
    )
    .unwrap();
    assert_eq!(store.sum_elapsed_seconds(1, 0), Ok(i64::MAX));
}

#[test]
fn a_sum_below_the_integers_is_an_overflow() {
    let store = Store::from_rows(
        vec![session(1, SessionStatus::Running, 5)],
        vec![interval(1, 1, i64::MAX, None)],
    )
    .unwrap();
    assert_eq!(store.sum_elapsed_seconds(1, -1), Ok(i64::MIN));
    assert_eq!(store.sum_elapsed_seconds(1, -2), Err(TimerError::Overflow));
}

#[test]
fn the_latest_session_is_the_one_updated_last() {
    let store = Store::from_rows(
        vec![
            session(1, SessionStatus::Paused, 50),
            session(2, SessionStatus::Finished, 70),
            session(3, SessionStatus::Paused, 60),
        ],
        vec![],
    )
    .unwrap();
    assert_eq!(store.latest_session(), Some(session(2, SessionStatus::Finished, 70)));
}

#[test]
fn among_sessions_updated_together_the_newest_is_the_latest() {
    let store = Store::from_rows(
        vec![
            session(1, SessionStatus::Paused, 70),
            session(2, SessionStatus::Finished, 70),
            session(3, SessionStatus::Paused, 60),
        ],
        vec![],
    )
    .unwrap();
    assert_eq!(store.latest_session(), Some(session(2, SessionStatus::Finished, 70)));
}

#[test]
fn the_only_session_is_the_latest() {
    let store = Store::from_rows(vec![session(4, SessionStatus::Running, i64::MIN)], vec![]).unwrap();
    assert_eq!(store.latest_session(), Some(session(4, SessionStatus::Running, i64::MIN)));
}

#[test]
fn rows_are_taken_as_they_are() {
    let sessions = vec![session(2, SessionStatus::Paused, 5), session(5, SessionStatus::Running, 9)];
    let intervals = vec![interval(3, 2, 0, Some(4)), interval(4, 5, 9, None)];
    let store = Store::from_rows(sessions, intervals).unwrap();
    assert_eq!(
        store.sessions().as_slice(),
        &[session(2, SessionStatus::Paused, 5), session(5, SessionStatus::Running, 9)]
    );
    assert_eq!(
        store.intervals().as_slice(),
        &[interval(3, 2, 0, Some(4)), interval(4, 5, 9, None)]
    );
    assert_eq!(store.session(5), Some(session(5, SessionStatus::Running, 9)));
    assert_eq!(store.status(2), Some(SessionStatus::Paused));
    assert_eq!(store.session(3), None);
}

#[test]
fn rows_out_of_order_make_no_store() {
    let sessions = vec![session(2, SessionStatus::Paused, 5), session(1, SessionStatus::Paused, 9)];
    assert!(Store::from_rows(sessions, vec![]).is_none());
    let sessions = vec![session(1, SessionStatus::Paused, 5)];
    let intervals = vec![interval(2, 1, 0, Some(4)), interval(1, 1, 9, None)];
    assert!(Store::from_rows(sessions, intervals).is_none());
}

#[test]
fn rows_with_the_same_id_make_no_store() {
    let sessions = vec![session(1, SessionStatus::Paused, 5), session(1, SessionStatus::Paused, 9)];
    assert!(Store::from_rows(sessions, vec![]).is_none());
    let sessions = vec![session(1, SessionStatus::Paused, 5)];
    let intervals = vec![interval(1, 1, 0, Some(4)), interval(1, 1, 9, None)];
    assert!(Store::from_rows(sessions, intervals).is_none());
}

#[test]
fn ids_below_one_make_no_store() {
    assert!(Store::from_rows(vec![session(0, SessionStatus::Paused, 5)], vec![]).is_none());
    assert!(Store::from_rows(vec![session(-3, SessionStatus::Paused, 5)], vec![]).is_none());
    let sessions = vec![session(1, SessionStatus::Paused, 5)];
    assert!(Store::from_rows(sessions, vec![interval(0, 1, 0, None)]).is_none());
}

#[test]
fn an_interval_without_its_session_makes_no_store() {
    let sessions = vec![session(1, SessionStatus::Paused, 5)];
    assert!(Store::from_rows(sessions, vec![interval(1, 2, 0, None)]).is_none());
    assert!(Store::from_rows(vec![], vec![interval(1, 1, 0, None)]).is_none());
}

#[test]
fn a_store_whose_last_session_has_the_greatest_id_is_full() {
    let mut store =
        Store::from_rows(vec![session(i64::MAX, SessionStatus::Paused, 5)], vec![]).unwrap();
    assert!(!store.has_session_id_left());
    assert!(store.has_interval_id_left());
    assert_eq!(
        store.create_session(1, 2, 3, String::from("a"), 100),
        Err(TimerError::StoreFull)
    );
    assert_eq!(store.sessions().len(), 1);
}

#[test]
fn a_store_whose_last_interval_has_the_greatest_id_is_full() {
    let mut store = Store::from_rows(
        vec![session(1, SessionStatus::Paused, 5)],
        vec![interval(i64::MAX, 1, 0, Some(1))],
    )
    .unwrap();
    assert!(store.has_session_id_left());
    assert!(!store.has_interval_id_left());
    assert_eq!(store.open_interval(1, 100), Err(TimerError::StoreFull));
    assert_eq!(store.open_interval(2, 100), Err(TimerError::NotFound));
    assert_eq!(store.intervals().len(), 1);
}

#[test]
fn the_next_id_follows_the_last_one() {
    let mut store = Store::from_rows(
        vec![session(2, SessionStatus::Paused, 5), session(7, SessionStatus::Paused, 9)],
        vec![interval(4, 2, 0, Some(4))],
    )
    .unwrap();
    assert_eq!(store.create_session(1, 2, 3, String::from("a"), 100), Ok(8));
    assert_eq!(store.open_interval(8, 100), Ok(()));
    assert_eq!(store.intervals()[1], interval(5, 8, 100, None));
}

#[test]
fn a_copy_of_a_store_has_the_same_rows() {
    let store = Store::from_rows(
        vec![session(2, SessionStatus::Paused, 5), session(7, SessionStatus::Running, 9)],
        vec![interval(4, 2, 0, Some(4)), interval(5, 7, 9, None)],
    )
    .unwrap();
    let mut copy = store.clone();
    assert_eq!(copy.sessions(), store.sessions());
    assert_eq!(copy.intervals(), store.intervals());
    copy.close_open_interval(7, 20);
    assert_eq!(store.intervals()[1], interval(5, 7, 9, None));
    assert_eq!(copy.intervals()[1], interval(5, 7, 9, Some(20)));
}
