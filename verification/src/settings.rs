//! The settings that steer recording: their keys, their defaults, and how
//! their stored text becomes the session state's values.
use vstd::prelude::*;
use crate::clock::{Clock, ClockError};
use crate::session::{SessionState, SessionView, Timestamp};
use crate::text::{lemma_parse_text_round_trip, nat_text, parse_u64, parse_unsigned, parse_usize, same_text};

verus! {

/// Key of the setting that holds the session timeout, in seconds.
pub const SESSION_TIMEOUT_KEY: &'static str = "session_timeout_seconds";

/// Key of the setting that holds the shortest session worth saving.
pub const MIN_SESSION_LENGTH_KEY: &'static str = "min_session_length";

/// Key of the setting that switches clipboard capture.
pub const CLIPBOARD_CAPTURE_KEY: &'static str = "enable_clipboard_capture";

/// Key of the setting that switches recording.
pub const RECORDING_KEY: &'static str = "enable_recording";

/// Stored text of a numeric setting that was never saved.
pub const DEFAULT_NUMBER_TEXT: &'static str = "20";

/// Stored text of a switch that is on, and of a switch that was never saved.
pub const DEFAULT_SWITCH_TEXT: &'static str = "true";

/// Value of a numeric setting whose text does not parse.
pub const DEFAULT_NUMBER: u64 = 20;

/// The value of a numeric setting stored as `text`, for a type whose largest
/// value is `max`: the number it denotes, or 20 when it does not parse.
pub open spec fn setting_number(text: Seq<char>, max: nat) -> nat {
    match parse_unsigned(text, max) {
        Some(v) => v,
        None => 20,
    }
}

/// The value of a switch stored as `text`: on exactly when it reads `true`.
pub open spec fn setting_switch(text: Seq<char>) -> bool {
    text == DEFAULT_SWITCH_TEXT@
}

impl SessionView {
    /// The state after the setting `key` is saved with the text `value`;
    /// other keys leave it as it is.
    pub open spec fn with_setting(self, key: Seq<char>, value: Seq<char>) -> SessionView {
        if key == SESSION_TIMEOUT_KEY@ {
            SessionView { session_timeout: setting_number(value, u64::MAX as nat) as u64, ..self }
        } else if key == MIN_SESSION_LENGTH_KEY@ {
            SessionView {
                min_session_length: setting_number(value, usize::MAX as nat) as usize,
                ..self
            }
        } else if key == CLIPBOARD_CAPTURE_KEY@ {
            SessionView { capture_clipboard: setting_switch(value), ..self }
        } else if key == RECORDING_KEY@ {
            SessionView { is_recording: setting_switch(value), ..self }
        } else {
            self
        }
    }
}

/// The value of a numeric setting of type `u64` stored as `text`.
pub fn setting_u64(text: &str) -> (r: u64)
    ensures
        r as nat == setting_number(text@, u64::MAX as nat),
{
    match parse_u64(text) {
        Some(v) => v,
        None => DEFAULT_NUMBER,
    }
}

/// The value of a numeric setting of type `usize` stored as `text`.
pub fn setting_usize(text: &str) -> (r: usize)
    ensures
        r as nat == setting_number(text@, usize::MAX as nat),
{
    match parse_usize(text) {
        Some(v) => v,
        None => DEFAULT_NUMBER as usize,
    }
}

/// The value of a switch stored as `text`.
pub fn setting_bool(text: &str) -> (r: bool)
    ensures
        r == setting_switch(text@),
{
    same_text(text, DEFAULT_SWITCH_TEXT)
}

/// A state with an empty buffer, begun at monotonic instant `now` and wall
/// time `wall`, whose settings are read from their stored texts.
pub open spec fn fresh_state(
    timeout: Seq<char>,
    min_session_length: Seq<char>,
    capture_clipboard: Seq<char>,
    recording: Seq<char>,
    now: u64,
    wall: Timestamp,
) -> SessionView {
    SessionView {
        buffer: Seq::empty(),
        cursor_pos: 0,
        created_at: wall,
        last_input_at: now,
        is_recording: setting_switch(recording),
        session_timeout: setting_number(timeout, u64::MAX as nat) as u64,
        min_session_length: setting_number(min_session_length, usize::MAX as nat) as usize,
        capture_clipboard: setting_switch(capture_clipboard),
    }
}

impl SessionState {
    /// A fresh state, with an empty buffer, from the stored texts of the
    /// settings (timeout, shortest session, clipboard capture, recording), at
    /// monotonic instant `now` and wall time `wall`.
    pub fn from_settings_at(
        timeout: &str,
        min_session_length: &str,
        capture_clipboard: &str,
        recording: &str,
        now: u64,
        wall: Timestamp,
    ) -> (s: SessionState)
        ensures
            s@ == fresh_state(timeout@, min_session_length@, capture_clipboard@, recording@, now, wall),
            s@.wf(),
    {
        SessionState {
            buffer: Vec::new(),
            cursor_pos: 0,
            created_at: wall,
            last_input_at: now,
            is_recording: setting_bool(recording),
            session_timeout: setting_u64(timeout),
            min_session_length: setting_usize(min_session_length),
            capture_clipboard: setting_bool(capture_clipboard),
        }
    }

    /// A fresh state as `from_settings_at` makes it, begun at the instants that
    /// `clock` reads; the error when the wall clock cannot be read.
    pub fn from_settings(
        clock: &Clock,
        timeout: &str,
        min_session_length: &str,
        capture_clipboard: &str,
        recording: &str,
    ) -> (r: Result<SessionState, ClockError>)
        ensures
            r matches Ok(s) ==> s@.wf() && exists|now: u64, wall: Timestamp|
                s@ == fresh_state(
                    timeout@,
                    min_session_length@,
                    capture_clipboard@,
                    recording@,
                    now,
                    wall,
                ),
    {
        let now = clock.monotonic_nanos();
        let wall = match clock.wall_time() {
            Ok(t) => t,
            Err(e) => return Err(e),
        };
        let s = SessionState::from_settings_at(timeout, min_session_length, capture_clipboard, recording, now, wall);
        assert(s@ == fresh_state(timeout@, min_session_length@, capture_clipboard@, recording@, now, wall));
        Ok(s)
    }

    /// Takes in a setting that was just saved under `key` with the text
    /// `value`; keys that do not steer recording change nothing.
    pub fn apply_setting(&mut self, key: &str, value: &str)
        ensures
            final(self)@ == old(self)@.with_setting(key@, value@),
    {
        if same_text(key, SESSION_TIMEOUT_KEY) {
            self.session_timeout = setting_u64(value);
        } else if same_text(key, MIN_SESSION_LENGTH_KEY) {
            self.min_session_length = setting_usize(value);
        } else if same_text(key, CLIPBOARD_CAPTURE_KEY) {
            self.capture_clipboard = setting_bool(value);
        } else if same_text(key, RECORDING_KEY) {
            self.is_recording = setting_bool(value);
        }
    }

    /// Switches recording on or off.
    pub fn set_recording(&mut self, enabled: bool)
        ensures
            final(self)@ == (SessionView { is_recording: enabled, ..old(self)@ }),
    {
        self.is_recording = enabled;
    }
}


/// A setting saved while recording takes the same effect as it does when the
/// application next starts and reads it back: applying it to a fresh state
/// gives the fresh state read with the new text.
pub proof fn lemma_saved_setting_survives_restart(
    timeout: Seq<char>,
    min_session_length: Seq<char>,
    capture_clipboard: Seq<char>,
    recording: Seq<char>,
    now: u64,
    wall: Timestamp,
    value: Seq<char>,
)
    ensures
        fresh_state(timeout, min_session_length, capture_clipboard, recording, now, wall).with_setting(
            SESSION_TIMEOUT_KEY@,
            value,
        ) == fresh_state(value, min_session_length, capture_clipboard, recording, now, wall),
        fresh_state(timeout, min_session_length, capture_clipboard, recording, now, wall).with_setting(
            MIN_SESSION_LENGTH_KEY@,
            value,
        ) == fresh_state(timeout, value, capture_clipboard, recording, now, wall),
        fresh_state(timeout, min_session_length, capture_clipboard, recording, now, wall).with_setting(
            CLIPBOARD_CAPTURE_KEY@,
            value,
        ) == fresh_state(timeout, min_session_length, value, recording, now, wall),
        fresh_state(timeout, min_session_length, capture_clipboard, recording, now, wall).with_setting(
            RECORDING_KEY@,
            value,
        ) == fresh_state(timeout, min_session_length, capture_clipboard, value, now, wall),
{
    reveal_strlit("session_timeout_seconds");
    reveal_strlit("min_session_length");
    reveal_strlit("enable_clipboard_capture");
    reveal_strlit("enable_recording");
    assert(SESSION_TIMEOUT_KEY@.len() == 23);
    assert(MIN_SESSION_LENGTH_KEY@.len() == 18);
    assert(CLIPBOARD_CAPTURE_KEY@.len() == 24);
    assert(RECORDING_KEY@.len() == 16);
}


/// Saving a setting takes effect in every state, whatever the buffer holds:
/// the timeout and the shortest session become the number the text denotes
/// (20 when it is not one), the switches become on exactly for `true`, and
/// every other field stays as it was. A number written in decimal is taken
/// as that number.
pub proof fn lemma_setting_applies_in_every_state(v: SessionView, value: Seq<char>, n: nat)
    ensures
        v.with_setting(SESSION_TIMEOUT_KEY@, value) == (SessionView {
            session_timeout: match parse_unsigned(value, u64::MAX as nat) {
                Some(k) => k as u64,
                None => 20u64,
            },
            ..v
        }),
        v.with_setting(MIN_SESSION_LENGTH_KEY@, value) == (SessionView {
            min_session_length: match parse_unsigned(value, usize::MAX as nat) {
                Some(k) => k as usize,
                None => 20usize,
            },
            ..v
        }),
        v.with_setting(CLIPBOARD_CAPTURE_KEY@, value) == (SessionView {
            capture_clipboard: value == "true"@,
            ..v
        }),
        v.with_setting(RECORDING_KEY@, value) == (SessionView { is_recording: value == "true"@, ..v }),
        n <= u64::MAX ==> v.with_setting(SESSION_TIMEOUT_KEY@, nat_text(n)).session_timeout == n,
        n <= usize::MAX ==> v.with_setting(MIN_SESSION_LENGTH_KEY@, nat_text(n)).min_session_length
            == n,
{
    reveal_strlit("session_timeout_seconds");
    reveal_strlit("min_session_length");
    reveal_strlit("enable_clipboard_capture");
    reveal_strlit("enable_recording");
    reveal_strlit("true");
    assert(SESSION_TIMEOUT_KEY@.len() == 23);
    assert(MIN_SESSION_LENGTH_KEY@.len() == 18);
    assert(CLIPBOARD_CAPTURE_KEY@.len() == 24);
    assert(RECORDING_KEY@.len() == 16);
    if n <= u64::MAX {
        lemma_parse_text_round_trip(n, u64::MAX as nat);
    }
    if n <= usize::MAX {
        lemma_parse_text_round_trip(n, usize::MAX as nat);
    }
}

} // verus!
