use glazgod::storage::{escape_sql_quotes, Storage, DATABASE_FILE};
use std::path::PathBuf;

#[test]
fn all_sessions_newest_first() {
    let q = "SELECT id, created_at, ended_at, content, char_count FROM sessions ORDER BY created_at DESC";
    assert_eq!(Storage::sessions_query(None), q);
    assert_eq!(Storage::sessions_query(Some(String::new())), q);
}

#[test]
fn search_filters_by_content() {
    assert_eq!(
        Storage::sessions_query(Some("rust".to_string())),
        "SELECT id, created_at, ended_at, content, char_count FROM sessions WHERE content LIKE '%rust%' ORDER BY created_at DESC"
    );
    assert_eq!(
        Storage::sessions_query(Some("it's".to_string())),
        "SELECT id, created_at, ended_at, content, char_count FROM sessions WHERE content LIKE '%it''s%' ORDER BY created_at DESC"
    );
}

#[test]
fn quotes_are_doubled() {
    assert_eq!(escape_sql_quotes("a'b''c"), "a''b''''c");
    assert_eq!(escape_sql_quotes("plain"), "plain");
    assert_eq!(escape_sql_quotes("'"), "''");
}

#[test]
fn delete_lists_the_ids() {
    assert_eq!(Storage::delete_sessions_query(&vec![3, -1, 42]), "DELETE FROM sessions WHERE id IN (3,-1,42)");
    assert_eq!(Storage::delete_sessions_query(&vec![7]), "DELETE FROM sessions WHERE id IN (7)");
    assert_eq!(Storage::delete_sessions_query(&vec![]), "DELETE FROM sessions WHERE id IN ()");
}

#[test]
fn database_lives_in_the_data_directory() {
    let s = Storage::new(&PathBuf::from("/data/app"));
    assert_eq!(s.db_path(), &PathBuf::from("/data/app").join(DATABASE_FILE));
    assert_eq!(DATABASE_FILE, "glazgod.db");
}

use glazgod::session::{Session, Timestamp};

fn session_at(created: Timestamp, ended: Timestamp) -> Session {
    Session { id: None, created_at: created, ended_at: ended, content: "text".to_string(), char_count: 4 }
}

#[test]
fn times_are_stored_as_rfc3339() {
    let s = session_at(Timestamp { secs: 1431648000, nanos: 0 }, Timestamp { secs: 1431648001, nanos: 123_000_000 });
    let (c, e) = s.row_times().unwrap();
    assert_eq!(c, "2015-05-15T00:00:00+00:00");
    assert_eq!(e, "2015-05-15T00:00:01.123+00:00");
}

#[test]
fn times_out_of_range_are_refused() {
    let s = session_at(Timestamp { secs: i64::MAX, nanos: 0 }, Timestamp { secs: 0, nanos: 0 });
    assert!(s.row_times().is_none());
    let s = session_at(Timestamp { secs: 0, nanos: 0 }, Timestamp { secs: 0, nanos: 2_000_000_000 });
    assert!(s.row_times().is_none());
}

#[test]
fn rows_are_read_back() {
    let s = Session::from_row(7, "1996-12-19T16:39:57-08:00", "1996-12-20T00:39:58.5Z", "hi".to_string(), 2).unwrap();
    assert_eq!(s.id, Some(7));
    assert_eq!(s.created_at, Timestamp { secs: 851042397, nanos: 0 });
    assert_eq!(s.ended_at, Timestamp { secs: 851042398, nanos: 500_000_000 });
    assert_eq!(s.content, "hi");
    assert_eq!(s.char_count, 2);
    assert!(Session::from_row(1, "yesterday", "1996-12-20T00:39:58Z", String::new(), 0).is_none());
    assert!(Session::from_row(1, "1996-12-20T00:39:58Z", "", String::new(), 0).is_none());
}

#[test]
fn stored_times_read_back_the_same() {
    let created = Timestamp { secs: 1_700_000_000, nanos: 987_654_321 };
    let ended = Timestamp { secs: 1_700_000_100, nanos: 5 };
    let (c, e) = session_at(created, ended).row_times().unwrap();
    let back = Session::from_row(1, &c, &e, "text".to_string(), 4).unwrap();
    assert_eq!(back.created_at, created);
    assert_eq!(back.ended_at, ended);
}

#[test]
fn four_digit_years_read_back_the_same() {
    let first = Timestamp { secs: -62_167_219_200, nanos: 0 };
    let last = Timestamp { secs: 253_402_300_799, nanos: 999_999_999 };
    let (c, e) = session_at(first, last).row_times().unwrap();
    assert_eq!(c, "0000-01-01T00:00:00+00:00");
    assert_eq!(e, "9999-12-31T23:59:59.999999999+00:00");
    let back = Session::from_row(2, &c, &e, "text".to_string(), 4).unwrap();
    assert_eq!(back.created_at, first);
    assert_eq!(back.ended_at, last);
}

#[test]
fn leap_seconds_read_back_the_same() {
    let leap = Timestamp { secs: 1_483_228_799, nanos: 1_500_000_000 };
    let (c, _) = session_at(leap, leap).row_times().unwrap();
    assert_eq!(c, "2016-12-31T23:59:60.500+00:00");
    let back = Session::from_row(3, &c, &c, "text".to_string(), 4).unwrap();
    assert_eq!(back.created_at, leap);
}

#[test]
fn quotes_in_a_search_stay_inside_the_pattern() {
    let q = Storage::sessions_query(Some("x'); DELETE FROM sessions; --".to_string()));
    assert_eq!(
        q,
        "SELECT id, created_at, ended_at, content, char_count FROM sessions WHERE content LIKE '%x''); DELETE FROM sessions; --%' ORDER BY created_at DESC"
    );
    assert_eq!(&q[87..88], "%");
}
