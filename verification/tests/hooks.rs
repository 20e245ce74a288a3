use glazgod::editor::SpecialKey;
use glazgod::keyboard::{HookAction, Key, KeyEvent, KeyboardHook};
use glazgod::tray::{tray_action, TrayAction};

fn is_text(a: &HookAction, t: &str) -> bool {
    matches!(a, HookAction::Text(s) if s == t)
}

#[test]
fn ctrl_v_reads_the_clipboard() {
    let mut h = KeyboardHook::new();
    assert!(!h.ctrl_pressed());
    assert!(matches!(h.on_event(KeyEvent::KeyPress(Key::ControlLeft), None), HookAction::Ignore));
    assert!(h.ctrl_pressed());
    assert!(matches!(
        h.on_event(KeyEvent::KeyPress(Key::KeyV), Some("v".to_string())),
        HookAction::ReadClipboard
    ));
    assert!(matches!(h.on_event(KeyEvent::KeyRelease(Key::ControlLeft), None), HookAction::Ignore));
    assert!(!h.ctrl_pressed());
    let a = h.on_event(KeyEvent::KeyPress(Key::KeyV), Some("v".to_string()));
    assert!(is_text(&a, "v"));
}

#[test]
fn right_ctrl_counts_too() {
    let mut h = KeyboardHook::new();
    h.on_event(KeyEvent::KeyPress(Key::ControlRight), None);
    assert!(matches!(h.on_event(KeyEvent::KeyPress(Key::KeyV), None), HookAction::ReadClipboard));
    h.on_event(KeyEvent::KeyRelease(Key::ControlRight), None);
    assert!(matches!(h.on_event(KeyEvent::KeyPress(Key::KeyV), None), HookAction::Ignore));
}

#[test]
fn editing_keys_are_named() {
    let mut h = KeyboardHook::new();
    let cases = [
        (Key::Backspace, SpecialKey::Backspace),
        (Key::Delete, SpecialKey::Delete),
        (Key::LeftArrow, SpecialKey::Left),
        (Key::RightArrow, SpecialKey::Right),
        (Key::UpArrow, SpecialKey::Up),
        (Key::DownArrow, SpecialKey::Down),
        (Key::Home, SpecialKey::Home),
        (Key::End, SpecialKey::End),
        (Key::Return, SpecialKey::Enter),
    ];
    for (k, sk) in cases {
        match h.on_event(KeyEvent::KeyPress(k), Some("\r".to_string())) {
            HookAction::Special(got) => assert_eq!(got, sk),
            _ => panic!("{:?} was not an editing key", k),
        }
    }
}

#[test]
fn other_keys_type_their_text() {
    let mut h = KeyboardHook::new();
    let a = h.on_event(KeyEvent::KeyPress(Key::Other), Some("é".to_string()));
    assert!(is_text(&a, "é"));
    assert!(matches!(h.on_event(KeyEvent::KeyPress(Key::Other), None), HookAction::Ignore));
    assert!(matches!(
        h.on_event(KeyEvent::KeyRelease(Key::Other), Some("x".to_string())),
        HookAction::Ignore
    ));
    assert!(matches!(h.on_event(KeyEvent::Other, Some("x".to_string())), HookAction::Ignore));
}

#[test]
fn tray_entries() {
    assert_eq!(tray_action("quit"), TrayAction::Quit);
    assert_eq!(tray_action("open"), TrayAction::Open);
    assert_eq!(tray_action("pause"), TrayAction::Pause);
    assert_eq!(tray_action("resume"), TrayAction::Resume);
    assert_eq!(tray_action("other"), TrayAction::Ignore);
}
