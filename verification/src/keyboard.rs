//! The decisions of the keyboard hook: which key events become typed text,
//! editing keys or a paste.
use vstd::prelude::*;
use crate::editor::{key_named, SpecialKey};

verus! {

/// The keys that the hook tells apart; every other key is `Other`.
#[derive(Clone, Copy, Debug, PartialEq, Eq, Structural)]
pub enum Key {
    ControlLeft,
    ControlRight,
    KeyV,
    Backspace,
    Delete,
    LeftArrow,
    RightArrow,
    UpArrow,
    DownArrow,
    Home,
    End,
    Return,
    Other,
}

/// A keyboard event: a key goes down, a key comes up, or anything else.
#[derive(Clone, Copy, Debug, PartialEq, Eq, Structural)]
pub enum KeyEvent {
    KeyPress(Key),
    KeyRelease(Key),
    Other,
}

/// What the hook asks for in answer to an event.
pub enum HookAction {
    /// Nothing to record.
    Ignore,
    /// Read the clipboard and record its text as pasted.
    ReadClipboard,
    /// Record an editing key.
    Special(SpecialKey),
    /// Record typed text.
    Text(String),
}

/// The editing key that `key` stands for, if any.
pub open spec fn editing_key(key: Key) -> Option<SpecialKey> {
    match key {
        Key::Backspace => Some(SpecialKey::Backspace),
        Key::Delete => Some(SpecialKey::Delete),
        Key::LeftArrow => Some(SpecialKey::Left),
        Key::RightArrow => Some(SpecialKey::Right),
        Key::UpArrow => Some(SpecialKey::Up),
        Key::DownArrow => Some(SpecialKey::Down),
        Key::Home => Some(SpecialKey::Home),
        Key::End => Some(SpecialKey::End),
        Key::Return => Some(SpecialKey::Enter),
        _ => None,
    }
}

/// A Control key, left or right.
pub open spec fn is_ctrl(key: Key) -> bool {
    key == Key::ControlLeft || key == Key::ControlRight
}

/// An event that presses or releases a Control key.
pub open spec fn is_ctrl_event(event: KeyEvent) -> bool {
    match event {
        KeyEvent::KeyPress(k) => is_ctrl(k),
        KeyEvent::KeyRelease(k) => is_ctrl(k),
        KeyEvent::Other => false,
    }
}

/// Whether a Control key is held after `event`, when `held` says whether one
/// was held before: a press of either Control key sets it, a release of
/// either clears it, anything else leaves it.
pub open spec fn ctrl_after(held: bool, event: KeyEvent) -> bool {
    match event {
        KeyEvent::KeyPress(k) => if is_ctrl(k) {
            true
        } else {
            held
        },
        KeyEvent::KeyRelease(k) => if is_ctrl(k) {
            false
        } else {
            held
        },
        KeyEvent::Other => held,
    }
}

/// Whether a Control key is held after `events`, in order, when `held` says
/// whether one was held before them.
pub open spec fn ctrl_after_all(held: bool, events: Seq<KeyEvent>) -> bool
    decreases events.len(),
{
    if events.len() == 0 {
        held
    } else {
        ctrl_after(ctrl_after_all(held, events.drop_last()), events.last())
    }
}

/// The event at `i` presses a Control key, and no later event of `events`
/// presses or releases one.
pub open spec fn last_ctrl_event_is_press(events: Seq<KeyEvent>, i: int) -> bool {
    &&& 0 <= i < events.len()
    &&& events[i] matches KeyEvent::KeyPress(k) && is_ctrl(k)
    &&& forall|j: int| i < j < events.len() ==> !is_ctrl_event(#[trigger] events[j])
}

/// After any run of events seen by a new hook, a Control key counts as held
/// exactly when the last event that touched a Control key (left or right)
/// pressed one.
pub proof fn lemma_ctrl_held_after_events(events: Seq<KeyEvent>)
    ensures
        ctrl_after_all(false, events) <==> exists|i: int| last_ctrl_event_is_press(events, i),
    decreases events.len(),
{
    if events.len() > 0 {
        let prev = events.drop_last();
        let n = events.len() - 1;
        let e = events.last();
        lemma_ctrl_held_after_events(prev);
        if is_ctrl_event(e) {
            if e matches KeyEvent::KeyPress(_) {
                assert(last_ctrl_event_is_press(events, n));
            } else {
                assert forall|i: int| !last_ctrl_event_is_press(events, i) by {
                    if 0 <= i < n {
                        assert(is_ctrl_event(events[n]));
                    }
                }
            }
        } else {
            if ctrl_after_all(false, prev) {
                let i = choose|i: int| last_ctrl_event_is_press(prev, i);
                assert forall|j: int| i < j < events.len() implies !is_ctrl_event(#[trigger] events[j]) by {
                    if j < n {
                        assert(events[j] == prev[j]);
                    }
                }
                assert(events[i] == prev[i]);
                assert(last_ctrl_event_is_press(events, i));
            } else {
                assert forall|i: int| !last_ctrl_event_is_press(events, i) by {
                    if last_ctrl_event_is_press(events, i) {
                        assert(i != n);
                        assert(events[i] == prev[i]);
                        assert forall|j: int| i < j < prev.len() implies !is_ctrl_event(#[trigger] prev[j]) by {
                            assert(events[j] == prev[j]);
                        }
                        assert(last_ctrl_event_is_press(prev, i));
                    }
                }
            }
        }
    }
}

/// The editing key that `key` stands for, if any.
pub fn editing_key_of(key: Key) -> (r: Option<SpecialKey>)
    ensures
        r == editing_key(key),
{
    match key {
        Key::Backspace => Some(SpecialKey::Backspace),
        Key::Delete => Some(SpecialKey::Delete),
        Key::LeftArrow => Some(SpecialKey::Left),
        Key::RightArrow => Some(SpecialKey::Right),
        Key::UpArrow => Some(SpecialKey::Up),
        Key::DownArrow => Some(SpecialKey::Down),
        Key::Home => Some(SpecialKey::Home),
        Key::End => Some(SpecialKey::End),
        Key::Return => Some(SpecialKey::Enter),
        _ => None,
    }
}

impl SpecialKey {
    /// The name under which the session buffer knows this key.
    pub fn name(self) -> (r: &'static str)
        ensures
            key_named(r@) == Some(self),
    {
        proof {
            reveal_strlit("Backspace");
            reveal_strlit("Delete");
            reveal_strlit("Left");
            reveal_strlit("Right");
            reveal_strlit("Up");
            reveal_strlit("Down");
            reveal_strlit("Home");
            reveal_strlit("End");
            reveal_strlit("Enter");
            assert("Backspace"@.len() == 9 && "Backspace"@[0] == 'B');
            assert("Delete"@.len() == 6 && "Delete"@[0] == 'D');
            assert("Left"@.len() == 4 && "Left"@[0] == 'L');
            assert("Right"@.len() == 5 && "Right"@[0] == 'R');
            assert("Up"@.len() == 2 && "Up"@[0] == 'U');
            assert("Down"@.len() == 4 && "Down"@[0] == 'D');
            assert("Home"@.len() == 4 && "Home"@[0] == 'H');
            assert("End"@.len() == 3 && "End"@[0] == 'E');
            assert("Enter"@.len() == 5 && "Enter"@[0] == 'E');
        }
        match self {
            SpecialKey::Backspace => "Backspace",
            SpecialKey::Delete => "Delete",
            SpecialKey::Left => "Left",
            SpecialKey::Right => "Right",
            SpecialKey::Up => "Up",
            SpecialKey::Down => "Down",
            SpecialKey::Home => "Home",
            SpecialKey::End => "End",
            SpecialKey::Enter => "Enter",
        }
    }
}

/// The keyboard hook's memory: whether a Control key is held down.
pub struct KeyboardHook {
    ctrl_pressed: bool,
}

impl KeyboardHook {
    /// Whether a Control key is held down.
    pub closed spec fn ctrl_held(&self) -> bool {
        self.ctrl_pressed
    }

    /// A hook that has seen no key.
    pub fn new() -> (h: KeyboardHook)
        ensures
            !h.ctrl_held(),
    {
        KeyboardHook { ctrl_pressed: false }
    }

    /// Whether a Control key is held down.
    pub fn ctrl_pressed(&self) -> (r: bool)
        ensures
            r == self.ctrl_held(),
    {
        self.ctrl_pressed
    }

    /// Takes in `event`, whose key produces the text `name` (if any), and
    /// says what to record: Control keys are only remembered; V with Control
    /// held reads the clipboard; editing keys are recorded as such; any other
    /// key press records its text.
    pub fn on_event(&mut self, event: KeyEvent, name: Option<String>) -> (a: HookAction)
        ensures
            final(self).ctrl_held() == ctrl_after(old(self).ctrl_held(), event),
            match event {
                KeyEvent::KeyPress(k) => if is_ctrl(k) {
                    a is Ignore
                } else if k == Key::KeyV && old(self).ctrl_held() {
                    a is ReadClipboard
                } else if editing_key(k) is Some {
                    a == HookAction::Special(editing_key(k)->0)
                } else {
                    match name {
                        Some(t) => a matches HookAction::Text(s) && s@ == t@,
                        None => a is Ignore,
                    }
                },
                _ => a is Ignore,
            },
    {
        match event {
            KeyEvent::KeyPress(k) => {
                if k == Key::ControlLeft || k == Key::ControlRight {
                    self.ctrl_pressed = true;
                    HookAction::Ignore
                } else if k == Key::KeyV && self.ctrl_pressed {
                    HookAction::ReadClipboard
                } else {
                    match editing_key_of(k) {
                        Some(sk) => HookAction::Special(sk),
                        None => match name {
                            Some(t) => HookAction::Text(t),
                            None => HookAction::Ignore,
                        },
                    }
                }
            },
            KeyEvent::KeyRelease(k) => {
                if k == Key::ControlLeft || k == Key::ControlRight {
                    self.ctrl_pressed = false;
                }
                HookAction::Ignore
            },
            KeyEvent::Other => HookAction::Ignore,
        }
    }
}

} // verus!
