//! Lines of the session buffer and what each editing key does to the buffer
//! and its cursor.
use vstd::prelude::*;
use crate::text::{is_recorded, is_recorded_char, recorded_chars};

verus! {

/// Index of the first character of the line that holds position `pos`: one
/// past the last newline before `pos`, or 0 when there is none.
pub open spec fn line_start(s: Seq<char>, pos: int) -> int
    decreases pos,
{
    if pos <= 0 {
        0
    } else if s[pos - 1] == '\n' {
        pos
    } else {
        line_start(s, pos - 1)
    }
}

/// Index of the first newline at or after `pos`, or the length of `s` when
/// none follows: the end of the line that holds `pos`.
pub open spec fn line_end(s: Seq<char>, pos: int) -> int
    decreases s.len() - pos,
{
    if pos >= s.len() {
        s.len() as int
    } else if s[pos] == '\n' {
        pos
    } else {
        line_end(s, pos + 1)
    }
}

pub open spec fn min(a: int, b: int) -> int {
    if a <= b {
        a
    } else {
        b
    }
}

/// Where the up arrow takes the cursor: the same column of the previous line,
/// or that line's end when it is shorter; the start of the buffer from the
/// first line.
pub open spec fn up_target(s: Seq<char>, pos: int) -> int {
    let start = line_start(s, pos);
    if start == 0 {
        0
    } else {
        let prev_start = line_start(s, start - 1);
        prev_start + min(pos - start, (start - 1) - prev_start)
    }
}

/// Where the down arrow takes the cursor: the same column of the next line,
/// or that line's end when it is shorter; the end of the buffer from the last
/// line.
pub open spec fn down_target(s: Seq<char>, pos: int) -> int {
    let end = line_end(s, pos);
    if end == s.len() {
        s.len() as int
    } else {
        let next_start = end + 1;
        next_start + min(pos - line_start(s, pos), line_end(s, next_start) - next_start)
    }
}

/// The editing keys that the session buffer understands.
#[derive(Clone, Copy, Debug, PartialEq, Eq, Structural)]
pub enum SpecialKey {
    Backspace,
    Delete,
    Left,
    Right,
    Up,
    Down,
    Home,
    End,
    Enter,
}

/// The key that `name` denotes, if any.
pub open spec fn key_named(name: Seq<char>) -> Option<SpecialKey> {
    if name == "Backspace"@ {
        Some(SpecialKey::Backspace)
    } else if name == "Delete"@ {
        Some(SpecialKey::Delete)
    } else if name == "Left"@ {
        Some(SpecialKey::Left)
    } else if name == "Right"@ {
        Some(SpecialKey::Right)
    } else if name == "Up"@ {
        Some(SpecialKey::Up)
    } else if name == "Down"@ {
        Some(SpecialKey::Down)
    } else if name == "Home"@ {
        Some(SpecialKey::Home)
    } else if name == "End"@ {
        Some(SpecialKey::End)
    } else if name == "Enter"@ {
        Some(SpecialKey::Enter)
    } else {
        None
    }
}

/// The buffer and cursor after `text` is typed at cursor `cur`: its recorded
/// characters are inserted there and the cursor moves past them.
pub open spec fn typed(s: Seq<char>, cur: int, text: Seq<char>) -> (Seq<char>, int) {
    let r = recorded_chars(text);
    (s.take(cur) + r + s.skip(cur), cur + r.len())
}

/// The buffer and cursor after `key` is pressed with the cursor at `cur`.
pub open spec fn key_effect(s: Seq<char>, cur: int, key: SpecialKey) -> (Seq<char>, int) {
    match key {
        SpecialKey::Backspace => if cur > 0 && s.len() > 0 {
            (s.remove(cur - 1), cur - 1)
        } else {
            (s, cur)
        },
        SpecialKey::Delete => if cur < s.len() {
            (s.remove(cur), cur)
        } else {
            (s, cur)
        },
        SpecialKey::Left => if cur > 0 {
            (s, cur - 1)
        } else {
            (s, cur)
        },
        SpecialKey::Right => if cur < s.len() {
            (s, cur + 1)
        } else {
            (s, cur)
        },
        SpecialKey::Up => (s, up_target(s, cur)),
        SpecialKey::Down => (s, down_target(s, cur)),
        SpecialKey::Home => (s, line_start(s, cur)),
        SpecialKey::End => (s, line_end(s, cur)),
        SpecialKey::Enter => (s.insert(cur, '\n'), cur + 1),
    }
}

/// `line_start` is one past the last newline before `pos` (or 0), and no
/// newline stands between it and `pos`.
pub proof fn lemma_line_start(s: Seq<char>, pos: int)
    requires
        0 <= pos <= s.len(),
    ensures
        0 <= line_start(s, pos) <= pos,
        line_start(s, pos) > 0 ==> s[line_start(s, pos) - 1] == '\n',
        forall|i: int| line_start(s, pos) <= i < pos ==> s[i] != '\n',
    decreases pos,
{
    if pos > 0 && s[pos - 1] != '\n' {
        lemma_line_start(s, pos - 1);
    }
}

/// `line_end` is the first newline at or after `pos` (or the length of `s`),
/// and no newline stands between `pos` and it.
pub proof fn lemma_line_end(s: Seq<char>, pos: int)
    requires
        0 <= pos <= s.len(),
    ensures
        pos <= line_end(s, pos) <= s.len(),
        line_end(s, pos) < s.len() ==> s[line_end(s, pos)] == '\n',
        forall|i: int| pos <= i < line_end(s, pos) ==> s[i] != '\n',
    decreases s.len() - pos,
{
    if pos < s.len() && s[pos] != '\n' {
        lemma_line_end(s, pos + 1);
    }
}

/// The start of the line that holds `pos` (the index just after the last
/// newline before `pos`, or 0).
pub fn find_line_start(buf: &Vec<char>, pos: usize) -> (r: usize)
    requires
        pos <= buf.len(),
    ensures
        r == line_start(buf@, pos as int),
{
    let mut i = pos;
    while i > 0 && buf[i - 1] != '\n'
        invariant
            i <= pos <= buf.len(),
            line_start(buf@, i as int) == line_start(buf@, pos as int),
        decreases i,
    {
        i = i - 1;
    }
    i
}

/// The end of the line that holds `pos` (the index of the first newline at
/// or after `pos`, or the length of the buffer).
pub fn find_line_end(buf: &Vec<char>, pos: usize) -> (r: usize)
    requires
        pos <= buf.len(),
    ensures
        r == line_end(buf@, pos as int),
{
    let mut i = pos;
    while i < buf.len() && buf[i] != '\n'
        invariant
            pos <= i <= buf.len(),
            line_end(buf@, i as int) == line_end(buf@, pos as int),
        decreases buf.len() - i,
    {
        i = i + 1;
    }
    i
}


/// Every key leaves the cursor within the buffer.
pub proof fn lemma_key_effect_in_bounds(s: Seq<char>, cur: int, key: SpecialKey)
    requires
        0 <= cur <= s.len(),
    ensures
        0 <= key_effect(s, cur, key).1 <= key_effect(s, cur, key).0.len(),
{
    lemma_line_start(s, cur);
    lemma_line_end(s, cur);
    match key {
        SpecialKey::Up => {
            let start = line_start(s, cur);
            if start > 0 {
                lemma_line_start(s, start - 1);
            }
        },
        SpecialKey::Down => {
            let end = line_end(s, cur);
            if end < s.len() {
                lemma_line_end(s, end + 1);
            }
        },
        _ => {},
    }
}

/// Applies `key` to the buffer and its cursor.
pub fn apply_key(buf: &mut Vec<char>, cursor: &mut usize, key: SpecialKey)
    requires
        *old(cursor) <= old(buf).len(),
    ensures
        (final(buf)@, *final(cursor) as int) == key_effect(old(buf)@, *old(cursor) as int, key),
        *final(cursor) <= final(buf).len(),
{
    proof {
        lemma_key_effect_in_bounds(buf@, *cursor as int, key);
        lemma_line_start(buf@, *cursor as int);
        lemma_line_end(buf@, *cursor as int);
    }
    match key {
        SpecialKey::Backspace => {
            if *cursor > 0 && !buf.is_empty() {
                *cursor = *cursor - 1;
                let pos = *cursor;
                buf.remove(pos);
            }
        },
        SpecialKey::Delete => {
            let pos = *cursor;
            if pos < buf.len() {
                buf.remove(pos);
            }
        },
        SpecialKey::Left => {
            if *cursor > 0 {
                *cursor = *cursor - 1;
            }
        },
        SpecialKey::Right => {
            if *cursor < buf.len() {
                *cursor = *cursor + 1;
            }
        },
        SpecialKey::Up => {
            let pos = *cursor;
            let start = find_line_start(buf, pos);
            if start == 0 {
                *cursor = 0;
            } else {
                let last_nl = start - 1;
                let offset = pos - start;
                let prev_start = find_line_start(buf, last_nl);
                proof {
                    lemma_line_start(buf@, last_nl as int);
                }
                let prev_len = last_nl - prev_start;
                *cursor = prev_start + if offset < prev_len {
                    offset
                } else {
                    prev_len
                };
            }
        },
        SpecialKey::Down => {
            let pos = *cursor;
            let next_nl = find_line_end(buf, pos);
            if next_nl == buf.len() {
                *cursor = buf.len();
            } else {
                let start = find_line_start(buf, pos);
                let offset = pos - start;
                let next_end = find_line_end(buf, next_nl + 1);
                proof {
                    lemma_line_end(buf@, next_nl + 1);
                }
                let next_len = next_end - (next_nl + 1);
                *cursor = next_nl + 1 + if offset < next_len {
                    offset
                } else {
                    next_len
                };
            }
        },
        SpecialKey::Home => {
            let pos = *cursor;
            *cursor = find_line_start(buf, pos);
        },
        SpecialKey::End => {
            let pos = *cursor;
            *cursor = find_line_end(buf, pos);
        },
        SpecialKey::Enter => {
            let pos = *cursor;
            buf.insert(pos, '\n');
            let len = buf.len();
            assert(pos < len);
            *cursor = pos + 1;
        },
    }
}


/// Types `text` at the cursor: each recorded character is inserted there and
/// the cursor moves past it.
pub fn type_text(buf: &mut Vec<char>, cursor: &mut usize, text: &str)
    requires
        *old(cursor) <= old(buf).len(),
    ensures
        (final(buf)@, *final(cursor) as int) == typed(old(buf)@, *old(cursor) as int, text@),
        *final(cursor) <= final(buf).len(),
{
    let ghost cur0 = *cursor as int;
    let ghost pre = buf@.take(cur0);
    let ghost post = buf@.skip(cur0);
    assert(buf@ == pre + recorded_chars(text@.take(0)) + post) by {
        reveal_with_fuel(Seq::filter, 1);
        assert(text@.take(0) == Seq::<char>::empty());
    }
    for c in it: text.chars()
        invariant
            it.seq() == text@,
            *cursor <= buf.len(),
            buf@ == pre + recorded_chars(text@.take(it.index() as int)) + post,
            *cursor as int == cur0 + recorded_chars(text@.take(it.index() as int)).len(),
            pre.len() == cur0,
    {
        let ghost i = it.index() as int;
        let ghost before = recorded_chars(text@.take(i));
        assert(text@.take(i + 1) == text@.take(i).push(c));
        proof {
            text@.take(i).lemma_filter_push(c, |c: char| is_recorded_char(c));
        }
        if is_recorded(c) {
            let pos = *cursor;
            if pos <= buf.len() {
                buf.insert(pos, c);
                let len = buf.len();
                assert(pos < len);
                *cursor = pos + 1;
                assert(buf@ == pre + before.push(c) + post);
            }
        }
    }
    assert(text@.take(text@.len() as int) == text@);
}


/// Moving across a stretch free of newlines keeps the start of the line.
proof fn lemma_line_start_across(s: Seq<char>, p: int, q: int)
    requires
        0 <= p <= q <= s.len(),
        forall|i: int| p <= i < q ==> s[i] != '\n',
    ensures
        line_start(s, q) == line_start(s, p),
    decreases q - p,
{
    if q > p {
        lemma_line_start_across(s, p, q - 1);
    }
}

/// Moving across a stretch free of newlines keeps the end of the line.
proof fn lemma_line_end_across(s: Seq<char>, p: int, q: int)
    requires
        0 <= p <= q <= s.len(),
        forall|i: int| p <= i < q ==> s[i] != '\n',
    ensures
        line_end(s, p) == line_end(s, q),
    decreases q - p,
{
    if q > p {
        lemma_line_end_across(s, p + 1, q);
    }
}

/// Home and End keep the cursor on its line: pressing either again, or the
/// other one, finds the same start and end of line.
pub proof fn lemma_home_end_stay_on_line(s: Seq<char>, p: int)
    requires
        0 <= p <= s.len(),
    ensures
        line_start(s, line_start(s, p)) == line_start(s, p),
        line_end(s, line_end(s, p)) == line_end(s, p),
        line_start(s, line_end(s, p)) == line_start(s, p),
        line_end(s, line_start(s, p)) == line_end(s, p),
{
    lemma_line_start(s, p);
    lemma_line_end(s, p);
    lemma_line_start_across(s, p, line_end(s, p));
    lemma_line_end_across(s, line_start(s, p), p);
}

/// The arrow and Home/End keys move the cursor and leave the text as it is.
pub proof fn lemma_moves_keep_text(s: Seq<char>, cur: int, key: SpecialKey)
    requires
        key != SpecialKey::Backspace,
        key != SpecialKey::Delete,
        key != SpecialKey::Enter,
    ensures
        key_effect(s, cur, key).0 == s,
{
}

/// Left undoes Right, and Right undoes Left, away from the ends of the buffer.
pub proof fn lemma_left_right_inverse(s: Seq<char>, cur: int)
    requires
        0 <= cur <= s.len(),
    ensures
        cur < s.len() ==> key_effect(s, cur + 1, SpecialKey::Left) == (s, cur)
            && key_effect(s, cur, SpecialKey::Right) == (s, cur + 1),
        cur > 0 ==> key_effect(s, cur - 1, SpecialKey::Right) == (s, cur)
            && key_effect(s, cur, SpecialKey::Left) == (s, cur - 1),
{
}

/// Backspace undoes the typing of one recorded character.
pub proof fn lemma_backspace_undoes_typing(s: Seq<char>, cur: int, c: char)
    requires
        0 <= cur <= s.len(),
        is_recorded_char(c),
    ensures
        ({
            let t = typed(s, cur, seq![c]);
            key_effect(t.0, t.1, SpecialKey::Backspace) == (s, cur)
        }),
{
    reveal_with_fuel(Seq::filter, 2);
    assert(seq![c].drop_last() == Seq::<char>::empty());
    assert(recorded_chars(seq![c]) == seq![c]);
    let t = typed(s, cur, seq![c]);
    assert(t.0.remove(cur) == s);
}

/// Backspace undoes Enter.
pub proof fn lemma_backspace_undoes_enter(s: Seq<char>, cur: int)
    requires
        0 <= cur <= s.len(),
    ensures
        ({
            let t = key_effect(s, cur, SpecialKey::Enter);
            key_effect(t.0, t.1, SpecialKey::Backspace) == (s, cur)
        }),
{
    let t = key_effect(s, cur, SpecialKey::Enter);
    assert(t.0.remove(cur) == s);
}


/// Down then Up comes back to where the cursor was, when a next line exists
/// and reaches the cursor's column.
pub proof fn lemma_down_then_up(s: Seq<char>, p: int)
    requires
        0 <= p <= s.len(),
        line_end(s, p) < s.len(),
        line_end(s, line_end(s, p) + 1) - (line_end(s, p) + 1) >= p - line_start(s, p),
    ensures
        up_target(s, down_target(s, p)) == p,
{
    let a = line_start(s, p);
    let e = line_end(s, p);
    let b = e + 1;
    let k = p - a;
    lemma_line_start(s, p);
    lemma_line_end(s, p);
    lemma_line_end(s, b);
    assert(down_target(s, p) == b + k);
    lemma_line_start_across(s, b, b + k);
    assert(line_start(s, b) == b);
    lemma_line_start_across(s, p, e);
    assert(line_start(s, b - 1) == a);
}

/// Up then Down comes back to where the cursor was, when a previous line
/// exists and reaches the cursor's column.
pub proof fn lemma_up_then_down(s: Seq<char>, p: int)
    requires
        0 <= p <= s.len(),
        line_start(s, p) > 0,
        (line_start(s, p) - 1) - line_start(s, line_start(s, p) - 1) >= p - line_start(s, p),
    ensures
        down_target(s, up_target(s, p)) == p,
{
    let a = line_start(s, p);
    let c = line_start(s, a - 1);
    let k = p - a;
    lemma_line_start(s, p);
    lemma_line_end(s, p);
    lemma_line_start(s, a - 1);
    assert(up_target(s, p) == c + k);
    lemma_line_end_across(s, c + k, a - 1);
    assert(line_end(s, a - 1) == a - 1);
    lemma_line_start_across(s, c + k, a - 1);
    lemma_line_start_across(s, c, c + k);
    lemma_line_end_across(s, a, p);
}


/// `a` is the start of the line that holds `pos`: the buffer's start or just
/// after a newline, with no newline from `a` up to `pos`.
pub open spec fn starts_line_of(s: Seq<char>, a: int, pos: int) -> bool {
    &&& 0 <= a <= pos <= s.len()
    &&& (a == 0 || s[a - 1] == '\n')
    &&& forall|i: int| a <= i < pos ==> s[i] != '\n'
}

/// `e` ends the line that holds `pos`: the buffer's end or a newline, with no
/// newline from `pos` up to `e`.
pub open spec fn ends_line_of(s: Seq<char>, pos: int, e: int) -> bool {
    &&& 0 <= pos <= e <= s.len()
    &&& (e == s.len() || s[e] == '\n')
    &&& forall|i: int| pos <= i < e ==> s[i] != '\n'
}

/// Found by its defining property, the start of a line is `line_start`.
proof fn lemma_start_is_line_start(s: Seq<char>, a: int, pos: int)
    requires
        starts_line_of(s, a, pos),
    ensures
        line_start(s, pos) == a,
{
    lemma_line_start_across(s, a, pos);
}

/// Found by its defining property, the end of a line is `line_end`.
proof fn lemma_end_is_line_end(s: Seq<char>, pos: int, e: int)
    requires
        ends_line_of(s, pos, e),
    ensures
        line_end(s, pos) == e,
{
    lemma_line_end_across(s, pos, e);
}

/// Down from a line that has a next one lands on that next line, at the same
/// column or at the next line's end when it is shorter; from the last line it
/// lands at the end of the buffer. The text does not change.
pub proof fn lemma_down_lands_on_next_line(s: Seq<char>, cur: int, a: int, nl: int, e: int)
    requires
        starts_line_of(s, a, cur),
        ends_line_of(s, cur, nl),
        nl < s.len(),
        ends_line_of(s, nl + 1, e),
    ensures
        key_effect(s, cur, SpecialKey::Down) == (s, nl + 1 + if cur - a <= e - (nl + 1) {
            cur - a
        } else {
            e - (nl + 1)
        }),
{
    lemma_start_is_line_start(s, a, cur);
    lemma_end_is_line_end(s, cur, nl);
    lemma_end_is_line_end(s, nl + 1, e);
}

/// Down from the last line goes to the end of the buffer.
pub proof fn lemma_down_from_last_line(s: Seq<char>, cur: int)
    requires
        ends_line_of(s, cur, s.len() as int),
    ensures
        key_effect(s, cur, SpecialKey::Down) == (s, s.len() as int),
{
    lemma_end_is_line_end(s, cur, s.len() as int);
}

/// Up from a line that has a previous one lands on that previous line, at the
/// same column or at the previous line's end when it is shorter. The text does
/// not change.
pub proof fn lemma_up_lands_on_previous_line(s: Seq<char>, cur: int, a: int, p: int)
    requires
        starts_line_of(s, a, cur),
        a > 0,
        starts_line_of(s, p, a - 1),
    ensures
        key_effect(s, cur, SpecialKey::Up) == (s, p + if cur - a <= (a - 1) - p {
            cur - a
        } else {
            (a - 1) - p
        }),
{
    lemma_start_is_line_start(s, a, cur);
    lemma_start_is_line_start(s, p, a - 1);
}

/// Up from the first line goes to the start of the buffer.
pub proof fn lemma_up_from_first_line(s: Seq<char>, cur: int)
    requires
        starts_line_of(s, 0, cur),
    ensures
        key_effect(s, cur, SpecialKey::Up) == (s, 0int),
{
    lemma_start_is_line_start(s, 0, cur);
}

/// Home goes to the start of the cursor's line and End to its end.
pub proof fn lemma_home_end_land_on_line_bounds(s: Seq<char>, cur: int, a: int, e: int)
    requires
        starts_line_of(s, a, cur),
        ends_line_of(s, cur, e),
    ensures
        key_effect(s, cur, SpecialKey::Home) == (s, a),
        key_effect(s, cur, SpecialKey::End) == (s, e),
{
    lemma_start_is_line_start(s, a, cur);
    lemma_end_is_line_end(s, cur, e);
}

/// What the keys that change the text do, whatever character is at stake
/// (newlines included): Delete removes the character at the cursor and keeps
/// the cursor; Backspace removes the one before it and steps back; Enter puts
/// a newline at the cursor and steps past it. At the ends of the buffer,
/// where there is nothing to remove, nothing changes.
pub proof fn lemma_editing_keys_change_one_character(s: Seq<char>, cur: int)
    requires
        0 <= cur <= s.len(),
    ensures
        cur < s.len() ==> ({
            let r = key_effect(s, cur, SpecialKey::Delete);
            &&& r.1 == cur
            &&& r.0.len() == s.len() - 1
            &&& forall|i: int| 0 <= i < cur ==> r.0[i] == s[i]
            &&& forall|i: int| cur <= i < s.len() - 1 ==> r.0[i] == s[i + 1]
        }),
        cur == s.len() ==> key_effect(s, cur, SpecialKey::Delete) == (s, cur),
        cur > 0 ==> ({
            let r = key_effect(s, cur, SpecialKey::Backspace);
            &&& r.1 == cur - 1
            &&& r.0.len() == s.len() - 1
            &&& forall|i: int| 0 <= i < cur - 1 ==> r.0[i] == s[i]
            &&& forall|i: int| cur - 1 <= i < s.len() - 1 ==> r.0[i] == s[i + 1]
        }),
        cur == 0 ==> key_effect(s, cur, SpecialKey::Backspace) == (s, cur),
        ({
            let r = key_effect(s, cur, SpecialKey::Enter);
            &&& r.1 == cur + 1
            &&& r.0.len() == s.len() + 1
            &&& r.0[cur] == '\n'
            &&& forall|i: int| 0 <= i < cur ==> r.0[i] == s[i]
            &&& forall|i: int| cur <= i < s.len() ==> r.0[i + 1] == s[i]
        }),
{
}

} // verus!
