use glazgod::editor::{apply_key, find_line_end, find_line_start, type_text, SpecialKey};

fn chars(s: &str) -> Vec<char> {
    s.chars().collect()
}

fn text(v: &[char]) -> String {
    v.iter().collect()
}

fn press(buf: &str, cursor: usize, key: SpecialKey) -> (String, usize) {
    let mut b = chars(buf);
    let mut c = cursor;
    apply_key(&mut b, &mut c, key);
    (text(&b), c)
}

#[test]
fn typing_inserts_at_cursor() {
    let mut b = chars("held");
    let mut c = 3;
    type_text(&mut b, &mut c, "lo wor");
    assert_eq!(text(&b), "hello word");
    assert_eq!(c, 9);
}

#[test]
fn typing_drops_control_characters_but_keeps_line_breaks_and_tabs() {
    let mut b = Vec::new();
    let mut c = 0;
    type_text(&mut b, &mut c, "a\u{7}b\n\tc\r\u{1b}d\u{7f}\u{85}e");
    assert_eq!(text(&b), "ab\n\tc\rde");
    assert_eq!(c, 8);
}

#[test]
fn typing_keeps_non_ascii_text() {
    let mut b = Vec::new();
    let mut c = 0;
    type_text(&mut b, &mut c, "héllo 世界");
    assert_eq!(text(&b), "héllo 世界");
    assert_eq!(c, 8);
}

#[test]
fn backspace_removes_before_cursor() {
    assert_eq!(press("abc", 2, SpecialKey::Backspace), ("ac".to_string(), 1));
    assert_eq!(press("abc", 0, SpecialKey::Backspace), ("abc".to_string(), 0));
    assert_eq!(press("", 0, SpecialKey::Backspace), ("".to_string(), 0));
}

#[test]
fn delete_removes_at_cursor() {
    assert_eq!(press("abc", 1, SpecialKey::Delete), ("ac".to_string(), 1));
    assert_eq!(press("abc", 3, SpecialKey::Delete), ("abc".to_string(), 3));
}

#[test]
fn left_and_right_stop_at_the_ends() {
    assert_eq!(press("abc", 0, SpecialKey::Left), ("abc".to_string(), 0));
    assert_eq!(press("abc", 2, SpecialKey::Left), ("abc".to_string(), 1));
    assert_eq!(press("abc", 3, SpecialKey::Right), ("abc".to_string(), 3));
    assert_eq!(press("abc", 1, SpecialKey::Right), ("abc".to_string(), 2));
}

#[test]
fn enter_inserts_a_newline() {
    assert_eq!(press("ab", 1, SpecialKey::Enter), ("a\nb".to_string(), 2));
}

#[test]
fn home_and_end_find_the_line_bounds() {
    let s = "one\ntwo three\nfour";
    assert_eq!(press(s, 8, SpecialKey::Home).1, 4);
    assert_eq!(press(s, 8, SpecialKey::End).1, 13);
    assert_eq!(press(s, 2, SpecialKey::Home).1, 0);
    assert_eq!(press(s, 15, SpecialKey::End).1, 18);
    assert_eq!(press(s, 4, SpecialKey::Home).1, 4);
    assert_eq!(press(s, 13, SpecialKey::End).1, 13);
}

#[test]
fn up_keeps_the_column_or_clamps_it() {
    let s = "ab\ncdefg\nhijk";
    // from 'f' (column 3 of the second line) to the end of the short first line
    assert_eq!(press(s, 6, SpecialKey::Up).1, 2);
    // from 'j' (column 2 of the third line) to column 2 of the second line
    assert_eq!(press(s, 11, SpecialKey::Up).1, 5);
    // from the first line to the start of the buffer
    assert_eq!(press(s, 1, SpecialKey::Up).1, 0);
}

#[test]
fn down_keeps_the_column_or_clamps_it() {
    let s = "ab\ncdefg\nhi";
    assert_eq!(press(s, 1, SpecialKey::Down).1, 4);
    // from column 4 of the second line to the end of the short last line
    assert_eq!(press(s, 7, SpecialKey::Down).1, 11);
    // from the last line to the end of the buffer
    assert_eq!(press(s, 9, SpecialKey::Down).1, 11);
    // at the end of a line the cursor sits on its newline
    assert_eq!(press(s, 2, SpecialKey::Down).1, 5);
}

#[test]
fn navigation_keeps_the_text() {
    let s = "ab\ncd";
    for key in [
        SpecialKey::Left,
        SpecialKey::Right,
        SpecialKey::Up,
        SpecialKey::Down,
        SpecialKey::Home,
        SpecialKey::End,
    ] {
        assert_eq!(press(s, 4, key).0, s);
    }
}

#[test]
fn backspace_undoes_typing_and_enter() {
    let mut b = chars("a\nbc");
    let mut c = 3;
    type_text(&mut b, &mut c, "x");
    apply_key(&mut b, &mut c, SpecialKey::Backspace);
    assert_eq!((text(&b), c), ("a\nbc".to_string(), 3));
    apply_key(&mut b, &mut c, SpecialKey::Enter);
    apply_key(&mut b, &mut c, SpecialKey::Backspace);
    assert_eq!((text(&b), c), ("a\nbc".to_string(), 3));
}

#[test]
fn down_then_up_returns() {
    let s = "abc\ndefg";
    let (_, d) = press(s, 2, SpecialKey::Down);
    assert_eq!(d, 6);
    assert_eq!(press(s, d, SpecialKey::Up).1, 2);
    let (_, u) = press(s, 7, SpecialKey::Up);
    assert_eq!(u, 3);
    assert_eq!(press(s, u, SpecialKey::Down).1, 7);
}

#[test]
fn line_bounds_of_positions() {
    let b = chars("x\nyz\n");
    assert_eq!(find_line_start(&b, 0), 0);
    assert_eq!(find_line_start(&b, 3), 2);
    assert_eq!(find_line_start(&b, 5), 5);
    assert_eq!(find_line_end(&b, 0), 1);
    assert_eq!(find_line_end(&b, 2), 4);
    assert_eq!(find_line_end(&b, 5), 5);
}

#[test]
fn key_names_round_trip() {
    for key in [
        SpecialKey::Backspace,
        SpecialKey::Delete,
        SpecialKey::Left,
        SpecialKey::Right,
        SpecialKey::Up,
        SpecialKey::Down,
        SpecialKey::Home,
        SpecialKey::End,
        SpecialKey::Enter,
    ] {
        assert_eq!(SpecialKey::from_name(key.name()), Some(key));
    }
    assert_eq!(SpecialKey::from_name("Up"), Some(SpecialKey::Up));
    assert_eq!(SpecialKey::from_name("Escape"), None);
    assert_eq!(SpecialKey::from_name("up"), None);
}
