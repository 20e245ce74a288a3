use glazgod::text::{
    chars_of, chars_to_string, int_to_text, is_control, is_recorded, is_white_space,
    parse_u64, parse_unsigned_up_to, parse_usize, same_text, trimmed_utf8_len, utf8_width_of,
};

#[test]
fn control_characters_match_std() {
    for c in ['\0', '\u{1f}', '\u{7f}', '\u{80}', '\u{9f}', '\u{a0}', 'a', ' ', '\n', '世'] {
        assert_eq!(is_control(c), c.is_control(), "{:?}", c);
    }
}

#[test]
fn recorded_characters() {
    assert!(is_recorded('a'));
    assert!(is_recorded('\n'));
    assert!(is_recorded('\t'));
    assert!(is_recorded('\r'));
    assert!(!is_recorded('\u{8}'));
    assert!(!is_recorded('\u{85}'));
}

#[test]
fn white_space_matches_std() {
    for v in 0u32..0x3100 {
        if let Some(c) = char::from_u32(v) {
            assert_eq!(is_white_space(c), c.is_whitespace(), "{:#x}", v);
        }
    }
}

#[test]
fn utf8_width_matches_std() {
    for c in ['a', '\u{7f}', 'é', '\u{7ff}', '\u{800}', '世', '\u{ffff}', '\u{10000}', '😀'] {
        assert_eq!(utf8_width_of(c) as usize, c.len_utf8());
    }
}

#[test]
fn trimmed_length_matches_std() {
    for s in ["", "   ", "  ab ", "\u{3000}é x\t\n", "x", " 世界 ", "\u{85}a\u{a0}"] {
        let v: Vec<char> = s.chars().collect();
        assert_eq!(trimmed_utf8_len(&v), s.trim().len() as u128, "{:?}", s);
    }
}

#[test]
fn parsing_matches_std() {
    for s in [
        "0", "20", "+7", "-7", "+", "-", "", " 5", "5 ", "007", "12a",
        "18446744073709551615", "18446744073709551616", "99999999999999999999999",
    ] {
        assert_eq!(parse_u64(s), s.parse::<u64>().ok(), "{:?}", s);
        assert_eq!(parse_usize(s), s.parse::<usize>().ok(), "{:?}", s);
    }
}

#[test]
fn parsing_up_to_a_bound() {
    assert_eq!(parse_unsigned_up_to("255", 255), Some(255));
    assert_eq!(parse_unsigned_up_to("256", 255), None);
    assert_eq!(parse_unsigned_up_to("9", 5), None);
}

#[test]
fn integer_text_matches_std() {
    for n in [0i64, 7, 10, 42, -1, -120, i64::MAX, i64::MIN] {
        assert_eq!(int_to_text(n), n.to_string());
    }
}

#[test]
fn integer_text_parses_back() {
    for n in [0u64, 9, 10, 123456, u64::MAX] {
        let t = int_to_text(n as i64);
        if (n as i64) >= 0 {
            assert_eq!(parse_u64(&t), Some(n));
        }
    }
}

#[test]
fn chars_and_strings() {
    let v = chars_of("a世\n");
    assert_eq!(v, vec!['a', '世', '\n']);
    assert_eq!(chars_to_string(&v), "a世\n");
    assert!(same_text("abc", "abc"));
    assert!(!same_text("abc", "abd"));
}
