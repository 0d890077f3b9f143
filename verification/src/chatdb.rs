//! Reading incoming messages out of the macOS Messages database: the
//! Core Data timestamp conversion and the incremental poll cursor.

use vstd::prelude::*;
use vstd::string::StrSliceExecFns;

verus! {

/// Seconds between the Unix epoch (1970-01-01) and the Apple Core Data
/// epoch (2001-01-01).
pub const CORE_DATA_EPOCH_OFFSET: i64 = 978_307_200;

/// Integer division rounding toward zero, for a positive divisor.
pub open spec fn trunc_div(a: int, b: int) -> int {
    if a >= 0 {
        a / b
    } else {
        -((-a) / b)
    }
}

/// Convert a macOS Core Data nanosecond timestamp to Unix epoch
/// seconds.
pub fn core_data_ns_to_unix(ns: i64) -> (r: i64)
    ensures
        r == trunc_div(ns as int, 1_000_000_000) + 978_307_200,
{
    if ns >= 0 {
        ns / 1_000_000_000 + CORE_DATA_EPOCH_OFFSET
    } else {
        let m = -(ns + 1);
        let q = m / 1_000_000_000;
        let carry: i64 = if m % 1_000_000_000 == 999_999_999 {
            1
        } else {
            0
        };
        proof {
            assert(-(ns as int) == m + 1);
            assert((m + 1) as int / 1_000_000_000 == q + carry) by {
                assert(m as int == 1_000_000_000 * (m as int / 1_000_000_000) + (m as int
                    % 1_000_000_000)) by (nonlinear_arith);
                if m % 1_000_000_000 == 999_999_999 {
                    assert((m + 1) as int == 1_000_000_000 * (q + 1) + 0);
                    assert((1_000_000_000 * (q + 1) + 0) / 1_000_000_000 == q + 1) by (nonlinear_arith)
                        requires q >= 0;
                } else {
                    assert((m + 1) as int == 1_000_000_000 * q + (m as int % 1_000_000_000 + 1));
                    assert((1_000_000_000 * q + (m as int % 1_000_000_000 + 1)) / 1_000_000_000
                        == q) by (nonlinear_arith)
                        requires
                            q >= 0,
                            0 < m as int % 1_000_000_000 + 1 < 1_000_000_000,
                    ;
                }
            }
        }
        -(q + carry) + CORE_DATA_EPOCH_OFFSET
    }
}

/// A single incoming message read from the Messages database.
#[derive(Debug, Clone)]
pub struct IncomingMessage {
    pub rowid: i64,
    pub text: String,
    pub sender: String,
    pub timestamp: i64,
}

/// Read-only handle to the Messages database, with the poll cursor.
pub struct ChatDb {
    conn: rusqlite::Connection,
    last_seen_rowid: i64,
}

/// Open the Messages database read-only.
///
/// Relies on `rusqlite::Connection::open_with_flags` with the read-only
/// and no-mutex flags. What the file holds belongs to another program,
/// so nothing is promised of the contents.
#[verifier::external_body]
fn open_chatdb_connection(path: &str) -> (r: Result<rusqlite::Connection, String>)
{
    let flags = rusqlite::OpenFlags::SQLITE_OPEN_READ_ONLY
        | rusqlite::OpenFlags::SQLITE_OPEN_NO_MUTEX;
    match rusqlite::Connection::open_with_flags(std::path::Path::new(path), flags) {
        Ok(c) => Ok(c),
        Err(e) => Err(format!(
            "failed to open chat.db at {path}: {e}. Ensure Full Disk Access is granted to the terminal / OpenCrust binary in System Settings -> Privacy & Security -> Full Disk Access.",
        )),
    }
}

/// The largest message rowid, clamped non-negative, or zero of an
/// empty table.
///
/// Relies on `rusqlite::Connection::query_row` with
/// `COALESCE(MAX(ROWID), 0)`; a table of another program may hold
/// explicitly negative rowids, so the body clamps the value.
#[verifier::external_body]
fn query_max_rowid(c: &rusqlite::Connection) -> (r: Result<i64, String>)
    ensures
        r is Ok ==> r->Ok_0 >= 0,
{
    c.query_row("SELECT COALESCE(MAX(ROWID), 0) FROM message", [], |row| {
        row.get(0).map(|n: i64| n.max(0))
    }).map_err(|e| format!("failed to query max ROWID: {e}"))
}

/// The direct incoming messages after the cursor, as
/// `(rowid, text, date, sender)` rows in date order.
///
/// Relies on `rusqlite::Connection::prepare` / `query_map`: the `WHERE`
/// clause keeps only rows past the cursor that are not from the user
/// and not group-chat rows, and `ORDER BY m.date ASC` sorts by the date
/// column. What the rows hold belongs to another program.
#[verifier::external_body]
fn query_new_messages(c: &rusqlite::Connection, last_seen: i64) -> (r: Result<
    Vec<(i64, Option<String>, i64, String)>,
    String,
>)
    ensures
        r is Ok ==> forall|i: int|
            0 <= i < r->Ok_0@.len() ==> (#[trigger] r->Ok_0@[i]).0 > last_seen,
        r is Ok ==> forall|i: int, j: int|
            0 <= i < j < r->Ok_0@.len() ==> (#[trigger] r->Ok_0@[i]).2 <= (#[trigger] r->Ok_0@[j]).2,
{
    let mut stmt = c.prepare(
        "SELECT m.ROWID, m.text, m.date, m.is_from_me, m.cache_roomnames, h.id AS sender_id \
         FROM message m \
         JOIN handle h ON m.handle_id = h.ROWID \
         WHERE m.ROWID > ?1 AND m.is_from_me = 0 \
           AND (m.cache_roomnames IS NULL OR m.cache_roomnames = '') \
         ORDER BY m.date ASC",
    ).map_err(|e| e.to_string())?;
    let rows = stmt.query_map([last_seen], |row| {
        Ok((row.get(0)?, row.get(1)?, row.get(2)?, row.get(5)?))
    }).map_err(|e| e.to_string())?;
    let mut out = Vec::new();
    for row in rows {
        out.push(row.map_err(|e| e.to_string())?);
    }
    Ok(out)
}

/// The view of one queried message row.
pub open spec fn row_view(t: (i64, Option<String>, i64, String)) -> (
    int,
    Option<Seq<char>>,
    int,
    Seq<char>,
) {
    (
        t.0 as int,
        match t.1 {
            Some(s) => Some(s@),
            None => None,
        },
        t.2 as int,
        t.3@,
    )
}

/// The predicate keeping the rows that carry text.
pub open spec fn has_text_pred() -> spec_fn((int, Option<Seq<char>>, int, Seq<char>)) -> bool {
    |row: (int, Option<Seq<char>>, int, Seq<char>)| row.1 is Some && row.1->0.len() > 0
}

/// The rows that carry non-empty text, in queried order.
pub open spec fn kept_rows(rows: Seq<(int, Option<Seq<char>>, int, Seq<char>)>) -> Seq<
    (int, Option<Seq<char>>, int, Seq<char>),
> {
    rows.filter(has_text_pred())
}

/// The largest rowid among `rows`, starting from `cur`.
pub open spec fn max_rowid_from(cur: int, rows: Seq<(int, Option<Seq<char>>, int, Seq<char>)>) -> int
    decreases rows.len(),
{
    if rows.len() == 0 {
        cur
    } else {
        let rest = max_rowid_from(cur, rows.drop_last());
        if rows.last().0 > rest {
            rows.last().0
        } else {
            rest
        }
    }
}

impl ChatDb {
    /// Where the poll cursor stands.
    pub closed spec fn cursor(&self) -> int {
        self.last_seen_rowid as int
    }

    /// Open the Messages database read-only and set the cursor to the
    /// present maximum, so only messages arriving later are picked up.
    pub fn open(path: &str) -> (r: Result<ChatDb, String>)
        ensures
            r is Ok ==> r->Ok_0.cursor() >= 0,
    {
        let conn = match open_chatdb_connection(path) {
            Ok(c) => c,
            Err(e) => {
                return Err(e);
            },
        };
        let max_rowid = match query_max_rowid(&conn) {
            Ok(m) => m,
            Err(e) => {
                return Err(e);
            },
        };
        Ok(ChatDb { conn, last_seen_rowid: max_rowid })
    }

    /// Poll for new incoming direct messages since the last poll, in
    /// date order. For some sequence of queried rows, all past the old
    /// cursor, the result carries exactly the rows with non-empty text,
    /// in order, each with that row's rowid, text, sender and converted
    /// timestamp; the cursor advances to the largest rowid seen. A
    /// failed read leaves the cursor alone and yields nothing (the
    /// empty row sequence).
    pub fn poll(&mut self) -> (r: Vec<IncomingMessage>)
        ensures
            exists|rows: Seq<(int, Option<Seq<char>>, int, Seq<char>)>|
                #![auto]
                {
                    &&& forall|i: int| 0 <= i < rows.len() ==> rows[i].0 > old(self).cursor()
                    &&& final(self).cursor() == max_rowid_from(old(self).cursor(), rows)
                    &&& r@.len() == kept_rows(rows).len()
                    &&& forall|i: int|
                        #![trigger kept_rows(rows)[i]]
                        0 <= i < kept_rows(rows).len() ==> {
                            let msg = r@[i];
                            let row = kept_rows(rows)[i];
                            &&& msg.rowid as int == row.0
                            &&& msg.text@ == row.1->0
                            &&& msg.sender@ == row.3
                            &&& msg.timestamp as int == trunc_div(row.2, 1_000_000_000)
                                + 978_307_200
                        }
                },
            final(self).cursor() >= old(self).cursor(),
            forall|i: int|
                0 <= i < r@.len() ==> (#[trigger] r@[i]).rowid > old(self).cursor() && r@[i].rowid
                    <= final(self).cursor() && r@[i].text@.len() > 0,
    {
        let rows = match query_new_messages(&self.conn, self.last_seen_rowid) {
            Ok(rows) => rows,
            Err(_) => {
                let r: Vec<IncomingMessage> = Vec::new();
                proof {
                    let empty_rows = Seq::<(int, Option<Seq<char>>, int, Seq<char>)>::empty();
                    reveal(Seq::filter);
                    assert(max_rowid_from(self.cursor(), empty_rows) == self.cursor());
                    assert(kept_rows(empty_rows).len() == 0);
                    assert({
                        &&& forall|i: int|
                            0 <= i < empty_rows.len() ==> empty_rows[i].0 > old(self).cursor()
                        &&& self.cursor() == max_rowid_from(old(self).cursor(), empty_rows)
                        &&& r@.len() == kept_rows(empty_rows).len()
                        &&& forall|i: int|
                            #![trigger kept_rows(empty_rows)[i]]
                            0 <= i < kept_rows(empty_rows).len() ==> {
                                let msg = r@[i];
                                let row = kept_rows(empty_rows)[i];
                                &&& msg.rowid as int == row.0
                                &&& msg.text@ == row.1->0
                                &&& msg.sender@ == row.3
                                &&& msg.timestamp as int == trunc_div(row.2, 1_000_000_000)
                                    + 978_307_200
                            }
                    });
                }
                return r;
            },
        };
        let ghost rows_view = rows@.map_values(|t: (i64, Option<String>, i64, String)| row_view(t));
        let ghost start_cursor = self.last_seen_rowid as int;
        let mut out: Vec<IncomingMessage> = Vec::new();
        let mut i: usize = 0;
        proof {
            reveal(Seq::filter);
            assert(kept_rows(rows_view.take(0)) =~= Seq::<
                (int, Option<Seq<char>>, int, Seq<char>),
            >::empty());
        }
        while i < rows.len()
            invariant
                rows_view == rows@.map_values(
                    |t: (i64, Option<String>, i64, String)| row_view(t),
                ),
                i <= rows@.len(),
                self.conn == old(self).conn,
                self.last_seen_rowid >= start_cursor,
                self.last_seen_rowid as int == max_rowid_from(start_cursor, rows_view.take(i as int)),
                forall|k: int|
                    0 <= k < rows@.len() ==> (#[trigger] rows@[k]).0 > start_cursor,
                out@.len() == kept_rows(rows_view.take(i as int)).len(),
                forall|k: int|
                    0 <= k < out@.len() ==> {
                        let msg = #[trigger] out@[k];
                        let row = kept_rows(rows_view.take(i as int))[k];
                        &&& msg.rowid as int == row.0
                        &&& msg.text@ == row.1->0
                        &&& msg.sender@ == row.3
                        &&& msg.timestamp as int == trunc_div(row.2, 1_000_000_000) + 978_307_200
                    },
                forall|k: int|
                    0 <= k < out@.len() ==> (#[trigger] out@[k]).rowid > start_cursor
                        && out@[k].rowid <= self.last_seen_rowid && out@[k].text@.len() > 0,
            decreases rows@.len() - i,
        {
            let rowid = rows[i].0;
            if rowid > self.last_seen_rowid {
                self.last_seen_rowid = rowid;
            }
            match &rows[i].1 {
                Some(text) => {
                    if text.as_str().unicode_len() > 0 {
                        let date = rows[i].2;
                        out.push(
                            IncomingMessage {
                                rowid,
                                text: text.clone(),
                                sender: rows[i].3.clone(),
                                timestamp: core_data_ns_to_unix(date),
                            },
                        );
                    }
                },
                None => {},
            }
            i = i + 1;
            proof {
                reveal(Seq::filter);
                let cur = rows_view.take(i as int);
                assert(cur.drop_last() =~= rows_view.take(i as int - 1));
                assert(cur.last() == row_view(rows@[i as int - 1]));
            }
        }
        proof {
            assert(rows_view.take(rows@.len() as int) =~= rows_view);
            assert(forall|i: int|
                0 <= i < rows_view.len() ==> (#[trigger] rows_view[i]).0 > old(self).cursor());
            assert({
                &&& forall|i: int| 0 <= i < rows_view.len() ==> rows_view[i].0 > old(self).cursor()
                &&& self.cursor() == max_rowid_from(old(self).cursor(), rows_view)
                &&& out@.len() == kept_rows(rows_view).len()
                &&& forall|i: int|
                    #![trigger kept_rows(rows_view)[i]]
                    0 <= i < kept_rows(rows_view).len() ==> {
                        let msg = out@[i];
                        let row = kept_rows(rows_view)[i];
                        &&& msg.rowid as int == row.0
                        &&& msg.text@ == row.1->0
                        &&& msg.sender@ == row.3
                        &&& msg.timestamp as int == trunc_div(row.2, 1_000_000_000) + 978_307_200
                    }
            });
        }
        out
    }
}

} // verus!
