//! Where the journal is kept and the text of the queries that read and
//! delete its sessions.
use vstd::prelude::*;
use vstd::string::StringExecFns;
use crate::session::{Session, Timestamp};
use crate::text::{int_text, int_to_text, push_char};

verus! {

/// `std::path::PathBuf`, carried through as an opaque value.
#[verifier::external_type_specification]
#[verifier::external_body]
pub struct ExPathBuf(std::path::PathBuf);

/// Name of the database file within the application's data directory.
pub const DATABASE_FILE: &'static str = "glazgod.db";

/// The path that `Path::join` makes of `dir` with `name` appended as a
/// further component. `Path::join` depends on its arguments alone.
pub uninterp spec fn joined_path(dir: std::path::PathBuf, name: Seq<char>) -> std::path::PathBuf;

/// `dir` with `name` appended as a further component (`Path::join`); what
/// that path is, is left to the name `joined_path`.
#[verifier::external_body]
fn join_path(dir: &std::path::PathBuf, name: &str) -> (r: std::path::PathBuf)
    ensures
        r == joined_path(*dir, name@),
{
    dir.join(name)
}

/// The journal's storage: the path of its database.
pub struct Storage {
    db_path: std::path::PathBuf,
}

/// The instant, as seconds since the Unix epoch and nanoseconds within the
/// second, that chrono's RFC 3339 parser reads from `text`
/// (`DateTime::parse_from_rfc3339`), or `None` when it rejects the text.
pub uninterp spec fn rfc3339_instant(text: Seq<char>) -> Option<(i64, u32)>;

/// The RFC 3339 text that chrono writes for the UTC instant `secs`, `nanos`
/// (`DateTime::to_rfc3339`), or `None` when chrono cannot represent that
/// instant (`DateTime::from_timestamp`).
pub uninterp spec fn rfc3339_text(secs: i64, nanos: u32) -> Option<Seq<char>>;

/// An instant that chrono writes with a four-digit year (0000 to 9999): one
/// that its RFC 3339 parser reads back as it was. A leap second (nanoseconds
/// from one to two billion, in the last second of a minute) is written as
/// second 60 and read back the same way.
pub open spec fn in_rfc3339_range(secs: i64, nanos: u32) -> bool {
    &&& -62_167_219_200 <= secs <= 253_402_300_799
    &&& (nanos < 1_000_000_000 || (nanos < 2_000_000_000 && secs % 60 == 59))
}

/// Reads an RFC 3339 time (`chrono::DateTime::parse_from_rfc3339`), as the
/// instant it denotes.
#[verifier::external_body]
fn parse_rfc3339(text: &str) -> (r: Option<Timestamp>)
    ensures
        match r {
            Some(t) => rfc3339_instant(text@) == Some((t.secs, t.nanos)),
            None => rfc3339_instant(text@) is None,
        },
{
    match chrono::DateTime::parse_from_rfc3339(text) {
        Ok(d) => Some(Timestamp { secs: d.timestamp(), nanos: d.timestamp_subsec_nanos() }),
        Err(_) => None,
    }
}

/// Writes the UTC instant `t` as RFC 3339 text (`chrono::DateTime::to_rfc3339`
/// of `chrono::DateTime::from_timestamp`). For an instant in
/// `in_rfc3339_range`, chrono writes the year with four digits, the seconds
/// (60 for a leap second) and every nonzero nanosecond digit it needs, and the
/// offset `+00:00`, which its RFC 3339 parser reads back as the same instant.
#[verifier::external_body]
fn format_rfc3339(t: Timestamp) -> (r: Option<String>)
    ensures
        match r {
            Some(s) => rfc3339_text(t.secs, t.nanos) == Some(s@),
            None => rfc3339_text(t.secs, t.nanos) is None,
        },
        in_rfc3339_range(t.secs, t.nanos) ==> r is Some && rfc3339_instant(r->0@) == Some((t.secs, t.nanos)),
{
    match chrono::DateTime::from_timestamp(t.secs, t.nanos) {
        Some(d) => Some(d.to_rfc3339()),
        None => None,
    }
}

/// `s` with every single quote doubled, as an SQL string literal needs.
pub open spec fn escape_quotes(s: Seq<char>) -> Seq<char>
    decreases s.len(),
{
    if s.len() == 0 {
        Seq::empty()
    } else {
        escape_quotes(s.drop_last()) + if s.last() == '\'' {
            seq!['\'', '\'']
        } else {
            seq![s.last()]
        }
    }
}

/// The query for the stored sessions, newest first; a non-empty `search`
/// keeps those whose content holds it.
pub open spec fn sessions_query_text(search: Option<Seq<char>>) -> Seq<char> {
    let filter = match search {
        Some(s) => if s.len() > 0 {
            " WHERE content LIKE '%"@ + escape_quotes(s) + "%'"@
        } else {
            Seq::empty()
        },
        None => Seq::empty(),
    };
    "SELECT id, created_at, ended_at, content, char_count FROM sessions"@ + filter
        + " ORDER BY created_at DESC"@
}

/// The decimal texts of `ids`, separated by commas.
pub open spec fn id_list(ids: Seq<i64>) -> Seq<char>
    decreases ids.len(),
{
    if ids.len() == 0 {
        Seq::empty()
    } else if ids.len() == 1 {
        int_text(ids[0] as int)
    } else {
        id_list(ids.drop_last()) + seq![','] + int_text(ids.last() as int)
    }
}

/// The statement that deletes the sessions whose ids are `ids`.
pub open spec fn delete_query_text(ids: Seq<i64>) -> Seq<char> {
    "DELETE FROM sessions WHERE id IN ("@ + id_list(ids) + ")"@
}

impl Session {
    /// The session's times as the journal stores them, RFC 3339 text of its
    /// start and of its end; `None` when chrono cannot represent either. Times
    /// with a four-digit year are always written, and read back as the same
    /// instants.
    pub fn row_times(&self) -> (r: Option<(String, String)>)
        ensures
            in_rfc3339_range(self.created_at.secs, self.created_at.nanos) && in_rfc3339_range(
                self.ended_at.secs,
                self.ended_at.nanos,
            ) ==> (r matches Some((c, e)) && rfc3339_instant(c@) == Some(
                (self.created_at.secs, self.created_at.nanos),
            ) && rfc3339_instant(e@) == Some((self.ended_at.secs, self.ended_at.nanos))),
            match r {
                Some((c, e)) => rfc3339_text(self.created_at.secs, self.created_at.nanos) == Some(c@)
                    && rfc3339_text(self.ended_at.secs, self.ended_at.nanos) == Some(e@),
                None => rfc3339_text(self.created_at.secs, self.created_at.nanos) is None
                    || rfc3339_text(self.ended_at.secs, self.ended_at.nanos) is None,
            },
    {
        match format_rfc3339(self.created_at) {
            Some(c) => match format_rfc3339(self.ended_at) {
                Some(e) => Some((c, e)),
                None => None,
            },
            None => None,
        }
    }

    /// The session that a row of the journal holds, its times read as
    /// RFC 3339 text; `None` when either time does not parse.
    pub fn from_row(id: i64, created_at: &str, ended_at: &str, content: String, char_count: i32) -> (r:
        Option<Session>)
        ensures
            match r {
                Some(s) => {
                    &&& s.id == Some(id)
                    &&& rfc3339_instant(created_at@) == Some((s.created_at.secs, s.created_at.nanos))
                    &&& rfc3339_instant(ended_at@) == Some((s.ended_at.secs, s.ended_at.nanos))
                    &&& s.content@ == content@
                    &&& s.char_count == char_count
                },
                None => rfc3339_instant(created_at@) is None || rfc3339_instant(ended_at@) is None,
            },
    {
        match parse_rfc3339(created_at) {
            Some(c) => match parse_rfc3339(ended_at) {
                Some(e) => Some(Session { id: Some(id), created_at: c, ended_at: e, content, char_count }),
                None => None,
            },
            None => None,
        }
    }
}

/// `s` with every single quote doubled (`s.replace("'", "''")`).
pub fn escape_sql_quotes(s: &str) -> (r: String)
    ensures
        r@ == escape_quotes(s@),
{
    let mut out = String::new();
    for c in it: s.chars()
        invariant
            it.seq() == s@,
            out@ == escape_quotes(s@.take(it.index() as int)),
    {
        let ghost i = it.index() as int;
        assert(s@.take(i + 1).drop_last() == s@.take(i));
        if c == '\'' {
            push_char(&mut out, '\'');
            push_char(&mut out, '\'');
        } else {
            push_char(&mut out, c);
        }
        assert(out@ == escape_quotes(s@.take(i + 1)));
    }
    assert(s@.take(s@.len() as int) == s@);
    out
}

impl Storage {
    /// The path of the database.
    pub closed spec fn path(&self) -> std::path::PathBuf {
        self.db_path
    }

    /// The storage kept in `app_dir`, whose database is the file
    /// `DATABASE_FILE` there.
    pub fn new(app_dir: &std::path::PathBuf) -> (s: Storage)
        ensures
            s.path() == joined_path(*app_dir, DATABASE_FILE@),
    {
        Storage { db_path: join_path(app_dir, DATABASE_FILE) }
    }

    /// The path of the database.
    pub fn db_path(&self) -> (p: &std::path::PathBuf)
        ensures
            *p == self.path(),
    {
        &self.db_path
    }

    /// The query for the stored sessions, newest first, keeping those whose
    /// content holds a non-empty `search`.
    pub fn sessions_query(search: Option<String>) -> (q: String)
        ensures
            q@ == sessions_query_text(
                match search {
                    Some(s) => Some(s@),
                    None => None,
                },
            ),
    {
        let mut query = String::new();
        query.append("SELECT id, created_at, ended_at, content, char_count FROM sessions");
        match search {
            Some(s) => {
                if !s.as_str().is_empty() {
                    query.append(" WHERE content LIKE '%");
                    let escaped = escape_sql_quotes(s.as_str());
                    query.append(escaped.as_str());
                    query.append("%'");
                }
            },
            None => {},
        }
        query.append(" ORDER BY created_at DESC");
        query
    }

    /// The statement that deletes the sessions whose ids are `ids`.
    pub fn delete_sessions_query(ids: &Vec<i64>) -> (q: String)
        ensures
            q@ == delete_query_text(ids@),
    {
        let mut list = String::new();
        let n = ids.len();
        let mut i: usize = 0;
        while i < n
            invariant
                i <= n == ids.len(),
                list@ == id_list(ids@.take(i as int)),
            decreases n - i,
        {
            let ghost taken = ids@.take(i as int + 1);
            assert(taken.drop_last() == ids@.take(i as int));
            if i > 0 {
                push_char(&mut list, ',');
            }
            let t = int_to_text(ids[i]);
            list.append(t.as_str());
            assert(i == 0 ==> ids@.take(i as int) == Seq::<i64>::empty());
            i = i + 1;
        }
        assert(ids@.take(n as int) == ids@);
        let mut query = String::new();
        query.append("DELETE FROM sessions WHERE id IN (");
        query.append(list.as_str());
        query.append(")");
        query
    }
}


/// Text without single quotes goes into a query as it is.
pub proof fn lemma_escape_keeps_plain_text(s: Seq<char>)
    requires
        forall|i: int| 0 <= i < s.len() ==> s[i] != '\'',
    ensures
        escape_quotes(s) == s,
    decreases s.len(),
{
    if s.len() > 0 {
        lemma_escape_keeps_plain_text(s.drop_last());
        assert(s.drop_last().push(s.last()) == s);
    }
}

/// Escaping adds exactly one character for each single quote: the quote that
/// doubles it.
pub proof fn lemma_escape_length(s: Seq<char>)
    ensures
        escape_quotes(s).len() == s.len() + s.filter(|c: char| c == '\'').len(),
    decreases s.len(),
{
    reveal_with_fuel(Seq::filter, 1);
    if s.len() > 0 {
        lemma_escape_length(s.drop_last());
    }
}


/// How SQL reads the body of a string literal, from just after its opening
/// quote: two quotes in a row stand for one quote, and a single quote closes
/// the literal. The value read and the text after the closing quote, or
/// `None` when the literal is never closed.
pub open spec fn read_sql_literal(t: Seq<char>) -> Option<(Seq<char>, Seq<char>)>
    decreases t.len(),
{
    if t.len() == 0 {
        None
    } else if t[0] == '\'' {
        if t.len() >= 2 && t[1] == '\'' {
            match read_sql_literal(t.skip(2)) {
                Some((v, rest)) => Some((seq!['\''] + v, rest)),
                None => None,
            }
        } else {
            Some((Seq::empty(), t.skip(1)))
        }
    } else {
        match read_sql_literal(t.skip(1)) {
            Some((v, rest)) => Some((seq![t[0]] + v, rest)),
            None => None,
        }
    }
}

/// Escaping text piece by piece is escaping it whole.
pub proof fn lemma_escape_concat(a: Seq<char>, b: Seq<char>)
    ensures
        escape_quotes(a + b) == escape_quotes(a) + escape_quotes(b),
    decreases b.len(),
{
    if b.len() == 0 {
        assert(a + b == a);
        assert(escape_quotes(a) + escape_quotes(b) == escape_quotes(a));
    } else {
        lemma_escape_concat(a, b.drop_last());
        assert((a + b).drop_last() == a + b.drop_last());
        assert((a + b).last() == b.last());
    }
}

/// Escaped text read as the body of a literal gives the text back, and leaves
/// the literal open for what follows it.
proof fn lemma_read_escaped(s: Seq<char>, t: Seq<char>)
    ensures
        read_sql_literal(escape_quotes(s) + t) == match read_sql_literal(t) {
            Some((v, rest)) => Some((s + v, rest)),
            None => None::<(Seq<char>, Seq<char>)>,
        },
    decreases s.len(),
{
    if s.len() == 0 {
        assert(escape_quotes(s) + t == t);
        match read_sql_literal(t) {
            Some((v, rest)) => {
                assert(s + v == v);
            },
            None => {},
        }
    } else {
        let c = s[0];
        let r = s.skip(1);
        assert(s == seq![c] + r);
        lemma_escape_concat(seq![c], r);
        assert(seq![c].drop_last() == Seq::<char>::empty());
        lemma_read_escaped(r, t);
        let x = escape_quotes(s) + t;
        if c == '\'' {
            assert(escape_quotes(Seq::<char>::empty()) + seq!['\'', '\''] == seq!['\'', '\'']);
            assert(escape_quotes(seq![c]) == seq!['\'', '\'']);
            assert(x == seq!['\'', '\''] + (escape_quotes(r) + t));
            assert(x.skip(2) == escape_quotes(r) + t);
            match read_sql_literal(t) {
                Some((v, rest)) => {
                    assert(seq!['\''] + (r + v) == s + v);
                },
                None => {},
            }
        } else {
            assert(escape_quotes(Seq::<char>::empty()) + seq![c] == seq![c]);
            assert(escape_quotes(seq![c]) == seq![c]);
            assert(x == seq![c] + (escape_quotes(r) + t));
            assert(x.skip(1) == escape_quotes(r) + t);
            match read_sql_literal(t) {
                Some((v, rest)) => {
                    assert(seq![c] + (r + v) == s + v);
                },
                None => {},
            }
        }
    }
}

/// A search cannot break out of the query's LIKE pattern: SQL reads the
/// quoted pattern `'%` + escaped search + `%'` as exactly `%`, the search
/// and `%`, and goes on with the text that follows the closing quote, whatever
/// quotes the search holds. (In the query that text starts with a space; a
/// quote there would instead double the closing one.)
pub proof fn lemma_search_stays_in_pattern(search: Seq<char>, tail: Seq<char>)
    requires
        tail.len() == 0 || tail[0] != '\'',
    ensures
        read_sql_literal(seq!['%'] + escape_quotes(search) + seq!['%', '\''] + tail) == Some(
            (seq!['%'] + search + seq!['%'], tail),
        ),
{
    let closing = seq!['%', '\''] + tail;
    assert(closing.skip(1) == seq!['\''] + tail);
    assert((seq!['\''] + tail).skip(1) == tail);
    assert(read_sql_literal(seq!['\''] + tail) == Some((Seq::<char>::empty(), tail)));
    assert(read_sql_literal(closing) == Some((seq!['%'], tail)));
    lemma_read_escaped(search, closing);
    let body = escape_quotes(search) + closing;
    let whole = seq!['%'] + escape_quotes(search) + seq!['%', '\''] + tail;
    assert(whole == seq!['%'] + body);
    assert(whole.skip(1) == body);
    assert(seq!['%'] + (search + seq!['%']) == seq!['%'] + search + seq!['%']);
}


/// In the query for a non-empty search, the LIKE pattern that opens after
/// its first 87 characters reads as `%`, the search and `%`, and the query
/// goes on with the ordering clause, whatever quotes the search holds.
pub proof fn lemma_sessions_query_keeps_search_in_pattern(search: Seq<char>)
    requires
        search.len() > 0,
    ensures
        read_sql_literal(sessions_query_text(Some(search)).skip(87)) == Some(
            (seq!['%'] + search + seq!['%'], " ORDER BY created_at DESC"@),
        ),
{
    reveal_strlit("SELECT id, created_at, ended_at, content, char_count FROM sessions");
    reveal_strlit(" WHERE content LIKE '%");
    reveal_strlit("%'");
    reveal_strlit(" ORDER BY created_at DESC");
    let head = "SELECT id, created_at, ended_at, content, char_count FROM sessions"@;
    let open = " WHERE content LIKE '%"@;
    let tail = " ORDER BY created_at DESC"@;
    assert(head.len() == 66);
    assert(open.len() == 22);
    assert(tail[0] == ' ');
    let q = sessions_query_text(Some(search));
    assert(q == head + open + escape_quotes(search) + "%'"@ + tail);
    assert(q.skip(87) == seq!['%'] + escape_quotes(search) + seq!['%', '\''] + tail);
    lemma_search_stays_in_pattern(search, tail);
}

} // verus!
