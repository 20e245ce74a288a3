//! The state of the session being recorded, and what typing, pasting and
//! the passing of time do to it.
use vstd::prelude::*;
use crate::editor::{apply_key, key_effect, key_named, type_text, typed, SpecialKey};
use crate::clock::{Clock, ClockError};
use crate::text::{
    chars_to_string, is_white_space_char, same_text, trim, trim_end, trim_start, trimmed_utf8_len,
    utf8_len,
};

verus! {

/// A point in wall-clock time: seconds since the Unix epoch and the
/// nanoseconds within that second.
#[derive(Clone, Copy, Debug, PartialEq, Eq, Structural)]
pub struct Timestamp {
    pub secs: i64,
    pub nanos: u32,
}

/// Nanoseconds in one second.
pub const NANOS_PER_SEC: u64 = 1_000_000_000;

/// Whole seconds from monotonic instant `since` to monotonic instant `now`,
/// both in nanoseconds; zero when `now` is earlier (`Instant::duration_since`
/// saturates, and `Duration::as_secs` rounds down).
pub open spec fn elapsed_secs(since: u64, now: u64) -> nat {
    if now >= since {
        ((now - since) / 1_000_000_000) as nat
    } else {
        0
    }
}

/// A finished session, as the journal stores it.
pub struct Session {
    pub id: Option<i64>,
    pub created_at: Timestamp,
    pub ended_at: Timestamp,
    pub content: String,
    pub char_count: i32,
}

/// What is being recorded: the text typed so far with its cursor, when the
/// session began and when input last came (monotonic nanoseconds), and the
/// settings that steer recording.
pub struct SessionState {
    pub buffer: Vec<char>,
    pub cursor_pos: usize,
    pub created_at: Timestamp,
    pub last_input_at: u64,
    pub is_recording: bool,
    pub session_timeout: u64,
    pub min_session_length: usize,
    pub capture_clipboard: bool,
}

/// The model of a `SessionState`, with the buffer as a sequence.
pub struct SessionView {
    pub buffer: Seq<char>,
    pub cursor_pos: int,
    pub created_at: Timestamp,
    pub last_input_at: u64,
    pub is_recording: bool,
    pub session_timeout: u64,
    pub min_session_length: usize,
    pub capture_clipboard: bool,
}

impl View for SessionState {
    type V = SessionView;

    open spec fn view(&self) -> SessionView {
        SessionView {
            buffer: self.buffer@,
            cursor_pos: self.cursor_pos as int,
            created_at: self.created_at,
            last_input_at: self.last_input_at,
            is_recording: self.is_recording,
            session_timeout: self.session_timeout,
            min_session_length: self.min_session_length,
            capture_clipboard: self.capture_clipboard,
        }
    }
}

impl SessionView {
    /// The cursor stands within the buffer.
    pub open spec fn wf(self) -> bool {
        0 <= self.cursor_pos <= self.buffer.len()
    }

    /// Input has stopped for at least the session timeout while text waits
    /// in the buffer.
    pub open spec fn timed_out(self, now: u64) -> bool {
        self.buffer.len() > 0 && elapsed_secs(self.last_input_at, now) >= self.session_timeout
    }

    /// The buffer holds at least `min_session_length` characters, and its
    /// text, trimmed of surrounding white space, at least as many UTF-8 bytes.
    pub open spec fn worth_saving(self) -> bool {
        self.buffer.len() >= self.min_session_length && utf8_len(trim(self.buffer))
            >= self.min_session_length
    }

    /// The state with the buffer emptied and the cursor at its start.
    pub open spec fn cleared(self) -> SessionView {
        SessionView { buffer: Seq::empty(), cursor_pos: 0, ..self }
    }

    /// The state once input arrives at monotonic instant `now` and wall time
    /// `wall`: a timed-out session is closed first, the time of input is
    /// noted, and an empty buffer starts a new session at `wall`.
    pub open spec fn touched(self, now: u64, wall: Timestamp) -> SessionView {
        let s = if self.timed_out(now) {
            self.cleared()
        } else {
            self
        };
        SessionView {
            last_input_at: now,
            created_at: if s.buffer.len() == 0 {
                wall
            } else {
                s.created_at
            },
            ..s
        }
    }

    /// The state with buffer and cursor replaced by `edit`.
    pub open spec fn edited(self, edit: (Seq<char>, int)) -> SessionView {
        SessionView { buffer: edit.0, cursor_pos: edit.1, ..self }
    }

    /// The state after typed text, or else a named key, reaches the buffer.
    pub open spec fn after_input(self, text: Option<Seq<char>>, key: Option<Seq<char>>) -> SessionView {
        match text {
            Some(t) => self.edited(typed(self.buffer, self.cursor_pos, t)),
            None => match key {
                Some(name) => match key_named(name) {
                    Some(k) => self.edited(key_effect(self.buffer, self.cursor_pos, k)),
                    None => self,
                },
                None => self,
            },
        }
    }
}

/// `saved`, when present, is the session that the state `v` holds, ended at
/// `ended_at`.
pub open spec fn is_session_of(saved: Option<Session>, v: SessionView, ended_at: Timestamp) -> bool {
    match saved {
        Some(s) => {
            &&& s.id is None
            &&& s.created_at == v.created_at
            &&& s.ended_at == ended_at
            &&& s.content@ == v.buffer
            &&& s.char_count == v.buffer.len() as i32
        },
        None => true,
    }
}

/// The text of an optional string.
pub open spec fn opt_text(t: Option<String>) -> Option<Seq<char>> {
    match t {
        Some(s) => Some(s@),
        None => None,
    }
}

/// The text of an optional string slice.
pub open spec fn opt_str(t: Option<&str>) -> Option<Seq<char>> {
    match t {
        Some(s) => Some(s@),
        None => None,
    }
}

impl SpecialKey {
    /// The key that `name` denotes ("Backspace", "Delete", "Left", "Right",
    /// "Up", "Down", "Home", "End" or "Enter"), if any.
    pub fn from_name(name: &str) -> (r: Option<SpecialKey>)
        ensures
            r == key_named(name@),
    {
        if same_text(name, "Backspace") {
            Some(SpecialKey::Backspace)
        } else if same_text(name, "Delete") {
            Some(SpecialKey::Delete)
        } else if same_text(name, "Left") {
            Some(SpecialKey::Left)
        } else if same_text(name, "Right") {
            Some(SpecialKey::Right)
        } else if same_text(name, "Up") {
            Some(SpecialKey::Up)
        } else if same_text(name, "Down") {
            Some(SpecialKey::Down)
        } else if same_text(name, "Home") {
            Some(SpecialKey::Home)
        } else if same_text(name, "End") {
            Some(SpecialKey::End)
        } else if same_text(name, "Enter") {
            Some(SpecialKey::Enter)
        } else {
            None
        }
    }
}

/// `new` and `saved` are what closing the session `old` at `ended_at` leaves
/// and hands back: the buffer is emptied, and the session is handed back
/// exactly when it is worth saving.
pub open spec fn finalized(old: SessionView, new: SessionView, saved: Option<Session>, ended_at: Timestamp) -> bool {
    &&& new == old.cleared()
    &&& (saved is Some <==> old.worth_saving())
    &&& is_session_of(saved, old, ended_at)
}

/// `new` and `saved` are what checking `old` for a timeout at `now` leaves and
/// hands back: a timed-out session is closed at `ended_at`.
pub open spec fn timeout_checked(
    old: SessionView,
    new: SessionView,
    saved: Option<Session>,
    now: u64,
    ended_at: Timestamp,
) -> bool {
    &&& new == if old.timed_out(now) {
        old.cleared()
    } else {
        old
    }
    &&& (saved is Some <==> old.timed_out(now) && old.worth_saving())
    &&& is_session_of(saved, old, ended_at)
}

/// `new` and `saved` are what input arriving at `now` and `wall` leaves and
/// hands back, when it is taken in: a timed-out session is closed first, then
/// the typed text or named key reaches the buffer.
pub open spec fn input_taken(
    old: SessionView,
    new: SessionView,
    saved: Option<Session>,
    now: u64,
    wall: Timestamp,
    text: Option<Seq<char>>,
    key: Option<Seq<char>>,
) -> bool {
    &&& new == old.touched(now, wall).after_input(text, key)
    &&& (saved is Some <==> old.timed_out(now) && old.worth_saving())
    &&& is_session_of(saved, old, wall)
}

/// `new` and `saved` are what a key arriving at `now` and `wall` leaves and
/// hands back: nothing changes while recording is off.
pub open spec fn key_handled(
    old: SessionView,
    new: SessionView,
    saved: Option<Session>,
    now: u64,
    wall: Timestamp,
    text: Option<Seq<char>>,
    key: Option<Seq<char>>,
) -> bool {
    &&& new.wf()
    &&& (!old.is_recording ==> new == old && saved is None)
    &&& (old.is_recording ==> input_taken(old, new, saved, now, wall, text, key))
}

/// `new` and `saved` are what a paste of `content` arriving at `now` and
/// `wall` leaves and hands back: it is typed in when recording and clipboard
/// capture are both on, and changes nothing otherwise.
pub open spec fn paste_handled(
    old: SessionView,
    new: SessionView,
    saved: Option<Session>,
    now: u64,
    wall: Timestamp,
    content: Seq<char>,
) -> bool {
    &&& new.wf()
    &&& (!(old.is_recording && old.capture_clipboard) ==> new == old && saved is None)
    &&& (old.is_recording && old.capture_clipboard ==> input_taken(
        old,
        new,
        saved,
        now,
        wall,
        Some(content),
        None,
    ))
}

impl SessionState {
    /// Closes the session: when it is worth saving, it is handed back ended at
    /// `ended_at`; either way the buffer is emptied and the cursor reset.
    pub fn finalize_session_at(&mut self, ended_at: Timestamp) -> (saved: Option<Session>)
        ensures
            finalized(old(self)@, final(self)@, saved, ended_at),
    {
        let mut saved: Option<Session> = None;
        if self.buffer.len() >= self.min_session_length {
            let content = chars_to_string(&self.buffer);
            if trimmed_utf8_len(&self.buffer) >= self.min_session_length as u128 {
                saved = Some(
                    Session {
                        id: None,
                        created_at: self.created_at,
                        ended_at,
                        content,
                        char_count: self.buffer.len() as i32,
                    },
                );
            }
        }
        self.buffer.clear();
        self.cursor_pos = 0;
        saved
    }

    /// Closes the session as `finalize_session_at` does, ended at the wall
    /// time that `clock` reads; when the wall clock cannot be read, the error
    /// comes back and the state is left as it was.
    pub fn finalize_session(&mut self, clock: &Clock) -> (r: Result<Option<Session>, ClockError>)
        ensures
            match r {
                Ok(saved) => exists|ended_at: Timestamp|
                    finalized(old(self)@, final(self)@, saved, ended_at),
                Err(_) => final(self)@ == old(self)@,
            },
    {
        let ended_at = match clock.wall_time() {
            Ok(t) => t,
            Err(e) => return Err(e),
        };
        let saved = self.finalize_session_at(ended_at);
        assert(finalized(old(self)@, self@, saved, ended_at));
        Ok(saved)
    }

    /// Whether input has stopped for at least the timeout while text waits.
    fn is_timed_out(&self, now: u64) -> (r: bool)
        ensures
            r == self@.timed_out(now),
    {
        let elapsed = if now >= self.last_input_at {
            (now - self.last_input_at) / NANOS_PER_SEC
        } else {
            0
        };
        !self.buffer.is_empty() && elapsed >= self.session_timeout
    }

    /// Closes the session when input has stopped for at least the timeout
    /// (at monotonic instant `now`) while text waits, handing it back, ended
    /// at `ended_at`, when it is worth saving. Recording being off does not
    /// stop this.
    pub fn check_timeout_at(&mut self, now: u64, ended_at: Timestamp) -> (saved: Option<Session>)
        ensures
            timeout_checked(old(self)@, final(self)@, saved, now, ended_at),
    {
        if self.is_timed_out(now) {
            self.finalize_session_at(ended_at)
        } else {
            None
        }
    }

    /// Checks for a timeout as `check_timeout_at` does, at the instants that
    /// `clock` reads; when the wall clock cannot be read, the error comes back
    /// and the state is left as it was.
    pub fn check_timeout(&mut self, clock: &Clock) -> (r: Result<Option<Session>, ClockError>)
        ensures
            match r {
                Ok(saved) => exists|now: u64, ended_at: Timestamp|
                    timeout_checked(old(self)@, final(self)@, saved, now, ended_at),
                Err(_) => final(self)@ == old(self)@,
            },
    {
        let now = clock.monotonic_nanos();
        let ended_at = match clock.wall_time() {
            Ok(t) => t,
            Err(e) => return Err(e),
        };
        let saved = self.check_timeout_at(now, ended_at);
        assert(timeout_checked(old(self)@, self@, saved, now, ended_at));
        Ok(saved)
    }

    /// What every input does first: a timed-out session is closed, the time
    /// of input is noted, and an empty buffer starts a new session.
    fn begin_input(&mut self, now: u64, wall: Timestamp) -> (saved: Option<Session>)
        requires
            old(self)@.wf(),
        ensures
            final(self)@ == old(self)@.touched(now, wall),
            final(self)@.wf(),
            saved is Some <==> old(self)@.timed_out(now) && old(self)@.worth_saving(),
            is_session_of(saved, old(self)@, wall),
    {
        let saved = self.check_timeout_at(now, wall);
        self.last_input_at = now;
        if self.buffer.is_empty() {
            self.created_at = wall;
        }
        saved
    }

    /// Records a key arriving at monotonic instant `now` and wall time
    /// `wall`: typed `text`, or else the editing key named by `special_key`.
    /// A session that timed out is closed first and handed back when it is
    /// worth saving. Nothing happens while recording is off.
    pub fn handle_key_at(
        &mut self,
        now: u64,
        wall: Timestamp,
        text: Option<String>,
        special_key: Option<&str>,
    ) -> (saved: Option<Session>)
        requires
            old(self)@.wf(),
        ensures
            key_handled(old(self)@, final(self)@, saved, now, wall, opt_text(text), opt_str(special_key)),
    {
        if !self.is_recording {
            return None;
        }
        let saved = self.begin_input(now, wall);
        match text {
            Some(t) => {
                type_text(&mut self.buffer, &mut self.cursor_pos, t.as_str());
            },
            None => match special_key {
                Some(name) => match SpecialKey::from_name(name) {
                    Some(key) => {
                        apply_key(&mut self.buffer, &mut self.cursor_pos, key);
                    },
                    None => {},
                },
                None => {},
            },
        }
        saved
    }

    /// Records a key as `handle_key_at` does, at the instants that `clock`
    /// reads; when the wall clock cannot be read, the error comes back and the
    /// state is left as it was.
    pub fn handle_key(&mut self, clock: &Clock, text: Option<String>, special_key: Option<&str>) -> (r:
        Result<Option<Session>, ClockError>)
        requires
            old(self)@.wf(),
        ensures
            match r {
                Ok(saved) => exists|now: u64, wall: Timestamp|
                    key_handled(
                        old(self)@,
                        final(self)@,
                        saved,
                        now,
                        wall,
                        opt_text(text),
                        opt_str(special_key),
                    ),
                Err(_) => final(self)@ == old(self)@,
            },
    {
        let now = clock.monotonic_nanos();
        let wall = match clock.wall_time() {
            Ok(t) => t,
            Err(e) => return Err(e),
        };
        let ghost text_view = opt_text(text);
        let saved = self.handle_key_at(now, wall, text, special_key);
        assert(key_handled(old(self)@, self@, saved, now, wall, text_view, opt_str(special_key)));
        Ok(saved)
    }

    /// Records pasted `content`, arriving at monotonic instant `now` and wall
    /// time `wall`, as if it were typed, when recording and clipboard capture
    /// are both on. A session that timed out is closed first and handed back
    /// when it is worth saving.
    pub fn handle_clipboard_at(&mut self, now: u64, wall: Timestamp, content: String) -> (saved:
        Option<Session>)
        requires
            old(self)@.wf(),
        ensures
            paste_handled(old(self)@, final(self)@, saved, now, wall, content@),
    {
        if !self.is_recording || !self.capture_clipboard {
            return None;
        }
        let saved = self.begin_input(now, wall);
        type_text(&mut self.buffer, &mut self.cursor_pos, content.as_str());
        saved
    }

    /// Records pasted `content` as `handle_clipboard_at` does, at the instants
    /// that `clock` reads; when the wall clock cannot be read, the error comes
    /// back and the state is left as it was.
    pub fn handle_clipboard(&mut self, clock: &Clock, content: String) -> (r: Result<
        Option<Session>,
        ClockError,
    >)
        requires
            old(self)@.wf(),
        ensures
            match r {
                Ok(saved) => exists|now: u64, wall: Timestamp|
                    paste_handled(old(self)@, final(self)@, saved, now, wall, content@),
                Err(_) => final(self)@ == old(self)@,
            },
    {
        let now = clock.monotonic_nanos();
        let wall = match clock.wall_time() {
            Ok(t) => t,
            Err(e) => return Err(e),
        };
        let ghost content_view = content@;
        let saved = self.handle_clipboard_at(now, wall, content);
        assert(paste_handled(old(self)@, self@, saved, now, wall, content_view));
        Ok(saved)
    }
}

/// Every session handed back is at least as long as the setting asks, in
/// characters and in bytes of its trimmed text.
pub proof fn lemma_saved_sessions_are_long_enough(s: Session, v: SessionView, ended_at: Timestamp)
    requires
        is_session_of(Some(s), v, ended_at),
        v.worth_saving(),
    ensures
        s.content@.len() >= v.min_session_length,
        utf8_len(trim(s.content@)) >= v.min_session_length,
{
}

/// Input that comes after the timeout starts a new, empty session at the
/// time of that input; input that comes in time continues the session.
pub proof fn lemma_timeout_starts_new_session(v: SessionView, now: u64, wall: Timestamp)
    ensures
        v.timed_out(now) ==> v.touched(now, wall).buffer.len() == 0
            && v.touched(now, wall).cursor_pos == 0 && v.touched(now, wall).created_at == wall,
        !v.timed_out(now) && v.buffer.len() > 0 ==> v.touched(now, wall).buffer == v.buffer
            && v.touched(now, wall).created_at == v.created_at,
        v.touched(now, wall).last_input_at == now,
{
}


/// Cutting white space off the front of `s` from position `k` on: when every
/// character before `a` is white space and `a` ends the buffer or holds a
/// character that is not, what is left starts at `a`.
proof fn lemma_trim_start_at(s: Seq<char>, k: int, a: int)
    requires
        0 <= k <= a <= s.len(),
        forall|i: int| 0 <= i < a ==> is_white_space_char(s[i]),
        a == s.len() || !is_white_space_char(s[a]),
    ensures
        trim_start(s.skip(k)) == s.skip(a),
    decreases a - k,
{
    if k < a {
        assert(s.skip(k).drop_first() == s.skip(k + 1));
        lemma_trim_start_at(s, k + 1, a);
    }
}

/// Cutting white space off the back of `t.take(j)`: when every character from
/// `m` on is white space and `m` starts the text or follows a character that
/// is not, what is left ends at `m`.
proof fn lemma_trim_end_at(t: Seq<char>, j: int, m: int)
    requires
        0 <= m <= j <= t.len(),
        forall|i: int| m <= i < t.len() ==> is_white_space_char(t[i]),
        m == 0 || !is_white_space_char(t[m - 1]),
    ensures
        trim_end(t.take(j)) == t.take(m),
    decreases j - m,
{
    if j > m {
        assert(t.take(j).drop_last() == t.take(j - 1));
        lemma_trim_end_at(t, j - 1, m);
    }
}

/// Trimming keeps exactly the stretch from the first character that is not
/// white space to the last one.
pub proof fn lemma_trim_keeps_inner_text(s: Seq<char>, a: int, b: int)
    requires
        0 <= a <= b <= s.len(),
        forall|i: int| 0 <= i < a ==> is_white_space_char(s[i]),
        a == s.len() || !is_white_space_char(s[a]),
        forall|i: int| b <= i < s.len() ==> is_white_space_char(s[i]),
        b == a || !is_white_space_char(s[b - 1]),
    ensures
        trim(s) == s.subrange(a, b),
{
    lemma_trim_start_at(s, 0, a);
    assert(s.skip(0) == s);
    let t = s.skip(a);
    assert forall|i: int| b - a <= i < t.len() implies is_white_space_char(t[i]) by {
        assert(t[i] == s[a + i]);
    }
    if b > a {
        assert(t[b - a - 1] == s[b - 1]);
    }
    lemma_trim_end_at(t, t.len() as int, b - a);
    assert(t.take(t.len() as int) == t);
    assert(t.take(b - a) == s.subrange(a, b));
}

/// A session is worth saving exactly when it holds at least
/// `min_session_length` characters and the stretch from its first character
/// that is not white space to its last one takes at least as many UTF-8
/// bytes; white space inside that stretch counts. Closing such a session
/// always hands it back.
pub proof fn lemma_long_sessions_are_saved(v: SessionView, a: int, b: int)
    requires
        0 <= a <= b <= v.buffer.len(),
        forall|i: int| 0 <= i < a ==> is_white_space_char(v.buffer[i]),
        a == v.buffer.len() || !is_white_space_char(v.buffer[a]),
        forall|i: int| b <= i < v.buffer.len() ==> is_white_space_char(v.buffer[i]),
        b == a || !is_white_space_char(v.buffer[b - 1]),
    ensures
        v.worth_saving() <==> (v.buffer.len() >= v.min_session_length && utf8_len(
            v.buffer.subrange(a, b),
        ) >= v.min_session_length),
        forall|new: SessionView, saved: Option<Session>, ended_at: Timestamp|
            #![trigger finalized(v, new, saved, ended_at)]
            finalized(v, new, saved, ended_at) ==> (saved is Some <==> (v.buffer.len()
                >= v.min_session_length && utf8_len(v.buffer.subrange(a, b))
                >= v.min_session_length)),
{
    lemma_trim_keeps_inner_text(v.buffer, a, b);
}

/// A session times out exactly when text waits in the buffer and at least
/// `session_timeout` seconds have passed since the last input (a timeout of
/// zero passes at once, even if the clock went back); so once timed out, it
/// stays timed out at every later instant, and checking then closes it.
pub proof fn lemma_timeout_after_pause(v: SessionView, now: u64)
    ensures
        v.timed_out(now) <==> (v.buffer.len() > 0 && (v.session_timeout == 0 || now as int
            >= v.last_input_at as int + v.session_timeout as int * 1_000_000_000)),
        forall|later: u64| #![trigger v.timed_out(later)]
            v.timed_out(now) && now <= later ==> v.timed_out(later),
        forall|new: SessionView, saved: Option<Session>, ended_at: Timestamp|
            #![trigger timeout_checked(v, new, saved, now, ended_at)]
            timeout_checked(v, new, saved, now, ended_at) && v.buffer.len() > 0 && now as int
                >= v.last_input_at as int + v.session_timeout as int * 1_000_000_000
                ==> new.buffer.len() == 0,
{
    let t = v.session_timeout as int;
    if now >= v.last_input_at {
        let d = now as int - v.last_input_at as int;
        assert((d / 1_000_000_000 >= t) <==> (d >= t * 1_000_000_000)) by (nonlinear_arith)
            requires
                d >= 0,
                t >= 0,
        ;
    }
    assert forall|later: u64| #![trigger v.timed_out(later)]
        v.timed_out(now) && now <= later implies v.timed_out(later) by {
        if later >= v.last_input_at {
            let d2 = later as int - v.last_input_at as int;
            assert((d2 / 1_000_000_000 >= t) <==> (d2 >= t * 1_000_000_000)) by (nonlinear_arith)
                requires
                    d2 >= 0,
                    t >= 0,
            ;
        }
        if now >= v.last_input_at {
            let d = now as int - v.last_input_at as int;
            assert((d / 1_000_000_000 >= t) <==> (d >= t * 1_000_000_000)) by (nonlinear_arith)
                requires
                    d >= 0,
                    t >= 0,
            ;
        }
    }
}

} // verus!
