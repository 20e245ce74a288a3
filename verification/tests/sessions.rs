use glazgod::clock::Clock;
use glazgod::session::{SessionState, Timestamp, NANOS_PER_SEC};
use glazgod::settings::{
    CLIPBOARD_CAPTURE_KEY, DEFAULT_NUMBER_TEXT, DEFAULT_SWITCH_TEXT, MIN_SESSION_LENGTH_KEY,
    RECORDING_KEY, SESSION_TIMEOUT_KEY,
};

fn at(secs: i64) -> Timestamp {
    Timestamp { secs, nanos: 0 }
}

fn state(timeout: &str, min_len: &str) -> SessionState {
    SessionState::from_settings_at(timeout, min_len, "true", "true", 0, at(100))
}

fn text(s: &SessionState) -> String {
    s.buffer.iter().collect()
}

#[test]
fn settings_are_read_with_defaults() {
    let s = SessionState::from_settings_at(
        DEFAULT_NUMBER_TEXT,
        DEFAULT_NUMBER_TEXT,
        DEFAULT_SWITCH_TEXT,
        DEFAULT_SWITCH_TEXT,
        0,
        at(1),
    );
    assert_eq!(s.session_timeout, 20);
    assert_eq!(s.min_session_length, 20);
    assert!(s.capture_clipboard);
    assert!(s.is_recording);
    assert!(s.buffer.is_empty());
    assert_eq!(s.cursor_pos, 0);
    assert_eq!(s.created_at, at(1));

    let s = SessionState::from_settings_at("abc", "-3", "false", "yes", 0, at(1));
    assert_eq!(s.session_timeout, 20);
    assert_eq!(s.min_session_length, 20);
    assert!(!s.capture_clipboard);
    assert!(!s.is_recording);

    let s = SessionState::from_settings_at("45", "+3", "true", "TRUE", 0, at(1));
    assert_eq!(s.session_timeout, 45);
    assert_eq!(s.min_session_length, 3);
    assert!(!s.is_recording);
}

#[test]
fn saved_settings_steer_the_state() {
    let mut s = state("20", "20");
    s.apply_setting(SESSION_TIMEOUT_KEY, "60");
    assert_eq!(s.session_timeout, 60);
    s.apply_setting(SESSION_TIMEOUT_KEY, "sixty");
    assert_eq!(s.session_timeout, 20);
    s.apply_setting(MIN_SESSION_LENGTH_KEY, "5");
    assert_eq!(s.min_session_length, 5);
    s.apply_setting(CLIPBOARD_CAPTURE_KEY, "false");
    assert!(!s.capture_clipboard);
    s.apply_setting(RECORDING_KEY, "false");
    assert!(!s.is_recording);
    s.apply_setting(RECORDING_KEY, "true");
    assert!(s.is_recording);
    s.apply_setting("theme", "dark");
    assert_eq!(s.session_timeout, 20);
    assert_eq!(s.min_session_length, 5);
    assert!(!s.capture_clipboard);
    assert!(s.is_recording);
}

#[test]
fn keys_are_recorded_while_recording() {
    let mut s = state("20", "3");
    assert!(s.handle_key_at(1, at(101), Some("hello".to_string()), None).is_none());
    assert!(s.handle_key_at(2, at(102), None, Some("Left")).is_none());
    assert!(s.handle_key_at(3, at(103), None, Some("Backspace")).is_none());
    assert!(s.handle_key_at(4, at(104), None, Some("Enter")).is_none());
    assert!(s.handle_key_at(5, at(105), None, Some("NoSuchKey")).is_none());
    assert_eq!(text(&s), "hel\no");
    assert_eq!(s.cursor_pos, 4);
    assert_eq!(s.last_input_at, 5);
    assert_eq!(s.created_at, at(101));
}

#[test]
fn nothing_is_recorded_while_paused() {
    let mut s = state("20", "3");
    s.set_recording(false);
    assert!(s.handle_key_at(1, at(101), Some("hello".to_string()), None).is_none());
    assert!(s.handle_clipboard_at(1, at(101), "pasted".to_string()).is_none());
    assert!(s.buffer.is_empty());
    assert_eq!(s.last_input_at, 0);
    assert_eq!(s.created_at, at(100));
}

#[test]
fn text_wins_over_a_key_name() {
    let mut s = state("20", "3");
    s.handle_key_at(1, at(101), Some("ab".to_string()), Some("Backspace"));
    assert_eq!(text(&s), "ab");
}

#[test]
fn paste_is_recorded_when_capture_is_on() {
    let mut s = state("20", "3");
    s.handle_key_at(1, at(101), Some("ad".to_string()), None);
    s.handle_key_at(2, at(102), None, Some("Left"));
    assert!(s.handle_clipboard_at(3, at(103), "bc\u{0}".to_string()).is_none());
    assert_eq!(text(&s), "abcd");
    assert_eq!(s.cursor_pos, 3);
    s.apply_setting(CLIPBOARD_CAPTURE_KEY, "false");
    s.handle_clipboard_at(4, at(104), "zz".to_string());
    assert_eq!(text(&s), "abcd");
    assert_eq!(s.last_input_at, 3);
}

#[test]
fn input_after_the_timeout_closes_the_session() {
    let mut s = state("20", "3");
    s.handle_key_at(0, at(100), Some("first session".to_string()), None);
    // 19.9 seconds later the session goes on
    let later = 19 * NANOS_PER_SEC + NANOS_PER_SEC / 2;
    assert!(s.handle_key_at(later, at(119), Some("!".to_string()), None).is_none());
    // a further 20 seconds later it is closed and handed back
    let much_later = later + 20 * NANOS_PER_SEC;
    let saved = s.handle_key_at(much_later, at(140), Some("next".to_string()), None).unwrap();
    assert_eq!(saved.content, "first session!");
    assert_eq!(saved.char_count, 14);
    assert_eq!(saved.id, None);
    assert_eq!(saved.created_at, at(100));
    assert_eq!(saved.ended_at, at(140));
    assert_eq!(text(&s), "next");
    assert_eq!(s.cursor_pos, 4);
    assert_eq!(s.created_at, at(140));
    assert_eq!(s.last_input_at, much_later);
}

#[test]
fn short_sessions_are_dropped() {
    let mut s = state("20", "5");
    s.handle_key_at(0, at(100), Some("ab  \n  ".to_string()), None);
    // seven characters, but only two of them once trimmed
    assert!(s.finalize_session_at(at(110)).is_none());
    assert!(s.buffer.is_empty());
    assert_eq!(s.cursor_pos, 0);
}

#[test]
fn trimmed_length_counts_bytes() {
    let mut s = state("20", "5");
    s.handle_key_at(0, at(100), Some("  世界  ".to_string()), None);
    // two characters of three bytes each, once trimmed
    let saved = s.finalize_session_at(at(101)).unwrap();
    assert_eq!(saved.content, "  世界  ");
    assert_eq!(saved.char_count, 6);
}

#[test]
fn sessions_of_the_minimum_length_are_saved() {
    let mut s = state("20", "3");
    s.handle_key_at(0, at(100), Some("abc".to_string()), None);
    let saved = s.finalize_session_at(at(105)).unwrap();
    assert_eq!(saved.content, "abc");
    assert_eq!(saved.created_at, at(100));
    assert_eq!(saved.ended_at, at(105));
    assert!(s.buffer.is_empty());
}

#[test]
fn timeout_check_closes_only_stale_sessions() {
    let mut s = state("10", "1");
    assert!(s.check_timeout_at(100 * NANOS_PER_SEC, at(200)).is_none());
    s.handle_key_at(NANOS_PER_SEC, at(101), Some("x".to_string()), None);
    assert!(s.check_timeout_at(10 * NANOS_PER_SEC, at(110)).is_none());
    assert_eq!(text(&s), "x");
    let saved = s.check_timeout_at(11 * NANOS_PER_SEC, at(111)).unwrap();
    assert_eq!(saved.content, "x");
    assert!(s.buffer.is_empty());
    // a clock that goes backwards counts as no time passing
    s.handle_key_at(11 * NANOS_PER_SEC, at(111), Some("y".to_string()), None);
    assert!(s.check_timeout_at(0, at(112)).is_none());
}

#[test]
fn timeout_check_runs_while_paused() {
    let mut s = state("1", "1");
    s.handle_key_at(0, at(100), Some("x".to_string()), None);
    s.set_recording(false);
    assert!(s.check_timeout_at(5 * NANOS_PER_SEC, at(105)).is_some());
}

#[test]
fn the_clock_driven_calls_record_input() {
    let clock = Clock::start();
    let mut s = SessionState::from_settings(&clock, "20", "2", "true", "true").unwrap();
    assert!(s.buffer.is_empty());
    assert_eq!(s.session_timeout, 20);
    assert_eq!(s.min_session_length, 2);
    assert!(s.handle_key(&clock, Some("hi".to_string()), None).unwrap().is_none());
    assert!(s.handle_key(&clock, None, Some("Home")).unwrap().is_none());
    assert!(s.handle_clipboard(&clock, "oh ".to_string()).unwrap().is_none());
    assert_eq!(text(&s), "oh hi");
    assert!(s.check_timeout(&clock).unwrap().is_none());
    let saved = s.finalize_session(&clock).unwrap().unwrap();
    assert_eq!(saved.content, "oh hi");
    assert!(saved.created_at.secs > 1_600_000_000);
    assert!(saved.ended_at.secs >= saved.created_at.secs);
    assert!(s.buffer.is_empty());
}

#[test]
fn the_monotonic_clock_moves_forward() {
    let clock = Clock::start();
    let a = clock.monotonic_nanos();
    let mut spin = 0u64;
    for i in 0..100_000u64 {
        spin = spin.wrapping_add(i);
    }
    assert!(spin > 0);
    let b = clock.monotonic_nanos();
    assert!(b >= a);
    let wall = clock.wall_time().unwrap();
    assert!(wall.nanos < 1_000_000_000);
    assert!(wall.secs > 1_600_000_000);
}

use glazgod::clock::{saturating_nanos, timestamp_from_epoch_offset, ClockError};

#[test]
fn clock_readings_are_converted() {
    assert_eq!(saturating_nanos(5), 5);
    assert_eq!(saturating_nanos(u64::MAX as u128), u64::MAX);
    assert_eq!(saturating_nanos(u64::MAX as u128 + 7), u64::MAX);
    assert_eq!(timestamp_from_epoch_offset(Some((12, 34))), Ok(Timestamp { secs: 12, nanos: 34 }));
    assert_eq!(timestamp_from_epoch_offset(Some((i64::MAX as u64, 0))), Ok(Timestamp { secs: i64::MAX, nanos: 0 }));
    assert_eq!(timestamp_from_epoch_offset(Some((i64::MAX as u64 + 1, 0))), Err(ClockError::WallClockOutOfRange));
    assert_eq!(timestamp_from_epoch_offset(None), Err(ClockError::WallClockOutOfRange));
}
