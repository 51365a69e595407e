use tracetime::format::format_gitlab_time;
use tracetime::status::{Notice, SessionStatus, TimerError};

#[test]
fn zero_seconds_is_written_out() {
    assert_eq!(format_gitlab_time(0), "0s");
}

#[test]
fn seconds_alone() {
    assert_eq!(format_gitlab_time(1), "1s");
    assert_eq!(format_gitlab_time(45), "45s");
    assert_eq!(format_gitlab_time(59), "59s");
}

#[test]
fn a_whole_minute_has_no_seconds() {
    assert_eq!(format_gitlab_time(60), "1m");
    assert_eq!(format_gitlab_time(61), "1m1s");
    assert_eq!(format_gitlab_time(120), "2m");
}

#[test]
fn hours_minutes_and_seconds() {
    assert_eq!(format_gitlab_time(3600), "1h");
    assert_eq!(format_gitlab_time(3661), "1h1m1s");
    assert_eq!(format_gitlab_time(3601), "1h1s");
    assert_eq!(format_gitlab_time(7260), "2h1m");
}

#[test]
fn a_day_is_twenty_four_hours() {
    assert_eq!(format_gitlab_time(86400), "1d");
    assert_eq!(format_gitlab_time(86399), "23h59m59s");
    assert_eq!(format_gitlab_time(90061), "1d1h1m1s");
    assert_eq!(format_gitlab_time(86460), "1d1m");
}

#[test]
fn counts_of_several_digits() {
    assert_eq!(format_gitlab_time(10 * 86400 + 10 * 3600 + 10 * 60 + 10), "10d10h10m10s");
    assert_eq!(format_gitlab_time(1234 * 86400), "1234d");
    assert_eq!(format_gitlab_time(100 * 86400 + 7), "100d7s");
}

#[test]
fn the_greatest_total() {
    // 9223372036854775807 = 106751991167300 days, 15 h, 30 min, 7 s
    assert_eq!(format_gitlab_time(i64::MAX), "106751991167300d15h30m7s");
}

#[test]
fn a_negative_total_shows_its_seconds_only() {
    assert_eq!(format_gitlab_time(-1), "-1s");
    assert_eq!(format_gitlab_time(-59), "-59s");
    assert_eq!(format_gitlab_time(-60), "0s");
    assert_eq!(format_gitlab_time(-61), "-1s");
    assert_eq!(format_gitlab_time(-3661), "-1s");
    assert_eq!(format_gitlab_time(-90061), "-1s");
    assert_eq!(format_gitlab_time(-86400), "0s");
}

#[test]
fn the_least_total() {
    // -9223372036854775808 leaves -8 after the days, hours and minutes
    assert_eq!(format_gitlab_time(i64::MIN), "-8s");
}

#[test]
fn every_total_below_a_minute_is_its_own_number() {
    for seconds in 0..60i64 {
        assert_eq!(format_gitlab_time(seconds), format!("{}s", seconds));
    }
}

#[test]
fn status_words() {
    assert_eq!(SessionStatus::Running.as_str(), "running");
    assert_eq!(SessionStatus::Paused.as_str(), "paused");
    assert_eq!(SessionStatus::Finished.as_str(), "finished");
}

#[test]
fn status_words_are_read_back() {
    for status in [SessionStatus::Running, SessionStatus::Paused, SessionStatus::Finished] {
        assert_eq!(SessionStatus::parse(status.as_str()), Some(status));
    }
}

#[test]
fn other_words_name_no_status() {
    assert_eq!(SessionStatus::parse(""), None);
    assert_eq!(SessionStatus::parse("Running"), None);
    assert_eq!(SessionStatus::parse("running "), None);
    assert_eq!(SessionStatus::parse("idle"), None);
    assert_eq!(SessionStatus::parse("pause"), None);
}

#[test]
fn what_the_shell_shows_for_a_status() {
    assert_eq!(SessionStatus::Running.notice(), Notice::Running);
    assert_eq!(SessionStatus::Paused.notice(), Notice::Paused);
    assert_eq!(SessionStatus::Finished.notice(), Notice::Idle);
}

#[test]
fn rejections_and_failures() {
    assert!(TimerError::AlreadyRunning.is_rejection());
    assert!(TimerError::Finished.is_rejection());
    assert!(!TimerError::NotFound.is_rejection());
    assert!(!TimerError::StoreFull.is_rejection());
    assert!(!TimerError::Overflow.is_rejection());
}

#[test]
fn every_error_has_its_sentence() {
    assert_eq!(TimerError::AlreadyRunning.message(), "a session is already running");
    assert_eq!(TimerError::Finished.message(), "the session is finished");
    assert_eq!(TimerError::NotFound.message(), "no such session");
    assert_eq!(TimerError::StoreFull.message(), "the store is full");
    assert_eq!(TimerError::Overflow.message(), "the elapsed time is out of range");
}
