//! Durable storage for sessions, messages and scheduled heartbeat tasks,
//! backed by an embedded SQLite database (the `rusqlite` crate).
//!
//! The verifier sees the database through three model functions giving
//! the contents of the three tables; every SQL statement sits in a small
//! trusted wrapper whose contract says how it moves the models.

use vstd::prelude::*;
use vstd::string::StringExecFns;

use crate::errors::Error;
use crate::timefmt::{format_rfc3339, lex_le, rfc3339_of, spec_parse_timestamp, parse_timestamp, MAX_UNIX_SECONDS};

verus! {

/// The SQLite connection type of the `rusqlite` crate, opaque to the
/// verifier.
#[verifier::external_type_specification]
#[verifier::external_body]
pub struct ExConnection(rusqlite::Connection);

/// The `sessions` table: session id to
/// `(channel_id, user_id, created_at text, updated_at text)`.
pub uninterp spec fn db_sessions(c: rusqlite::Connection) -> Map<
    Seq<char>,
    (Option<Seq<char>>, Option<Seq<char>>, Seq<char>, Seq<char>),
>;

/// The `messages` table in rowid (insertion) order:
/// `(id, session_id, role, content, created_at text)`.
pub uninterp spec fn db_messages(c: rusqlite::Connection) -> Seq<
    (Seq<char>, Seq<char>, Seq<char>, Seq<char>, Seq<char>),
>;

/// The `scheduled_tasks` table in rowid (insertion) order:
/// `(id, session_id, user_id, fire_at text, reason, status)`.
pub uninterp spec fn db_tasks(c: rusqlite::Connection) -> Seq<
    (Seq<char>, Seq<char>, Seq<char>, Seq<char>, Seq<char>, Seq<char>),
>;

/// The view of an optional borrowed string.
pub open spec fn opt_view(o: Option<&str>) -> Option<Seq<char>> {
    match o {
        Some(s) => Some(s@),
        None => None,
    }
}

/// The predicate keeping one session's messages.
pub open spec fn msg_of_session(sid: Seq<char>) -> spec_fn(
    (Seq<char>, Seq<char>, Seq<char>, Seq<char>, Seq<char>),
) -> bool {
    |m: (Seq<char>, Seq<char>, Seq<char>, Seq<char>, Seq<char>)| m.1 == sid
}

/// The predicate keeping every other session's messages.
pub open spec fn msg_not_of_session(sid: Seq<char>) -> spec_fn(
    (Seq<char>, Seq<char>, Seq<char>, Seq<char>, Seq<char>),
) -> bool {
    |m: (Seq<char>, Seq<char>, Seq<char>, Seq<char>, Seq<char>)| m.1 != sid
}

/// The messages of one session, in stored order.
pub open spec fn msgs_for(
    ms: Seq<(Seq<char>, Seq<char>, Seq<char>, Seq<char>, Seq<char>)>,
    sid: Seq<char>,
) -> Seq<(Seq<char>, Seq<char>, Seq<char>, Seq<char>, Seq<char>)> {
    ms.filter(msg_of_session(sid))
}

/// The messages that do not belong to one session, in stored order.
pub open spec fn msgs_except(
    ms: Seq<(Seq<char>, Seq<char>, Seq<char>, Seq<char>, Seq<char>)>,
    sid: Seq<char>,
) -> Seq<(Seq<char>, Seq<char>, Seq<char>, Seq<char>, Seq<char>)> {
    ms.filter(msg_not_of_session(sid))
}

/// Is a message id already present?
pub open spec fn msg_id_taken(
    ms: Seq<(Seq<char>, Seq<char>, Seq<char>, Seq<char>, Seq<char>)>,
    id: Seq<char>,
) -> bool {
    exists|i: int| 0 <= i < ms.len() && #[trigger] ms[i].0 == id
}

/// The predicate keeping every other session's tasks.
pub open spec fn task_not_of_session(sid: Seq<char>) -> spec_fn(
    (Seq<char>, Seq<char>, Seq<char>, Seq<char>, Seq<char>, Seq<char>),
) -> bool {
    |t: (Seq<char>, Seq<char>, Seq<char>, Seq<char>, Seq<char>, Seq<char>)| t.1 != sid
}

/// The predicate keeping one session's pending tasks.
pub open spec fn task_pending_of_session(sid: Seq<char>) -> spec_fn(
    (Seq<char>, Seq<char>, Seq<char>, Seq<char>, Seq<char>, Seq<char>),
) -> bool {
    |t: (Seq<char>, Seq<char>, Seq<char>, Seq<char>, Seq<char>, Seq<char>)|
        t.1 == sid && t.5 == "pending"@
}

/// The tasks that do not belong to one session, in stored order.
pub open spec fn tasks_except(
    ts: Seq<(Seq<char>, Seq<char>, Seq<char>, Seq<char>, Seq<char>, Seq<char>)>,
    sid: Seq<char>,
) -> Seq<(Seq<char>, Seq<char>, Seq<char>, Seq<char>, Seq<char>, Seq<char>)> {
    ts.filter(task_not_of_session(sid))
}

/// The pending tasks of one session, in stored order.
pub open spec fn pending_for(
    ts: Seq<(Seq<char>, Seq<char>, Seq<char>, Seq<char>, Seq<char>, Seq<char>)>,
    sid: Seq<char>,
) -> Seq<(Seq<char>, Seq<char>, Seq<char>, Seq<char>, Seq<char>, Seq<char>)> {
    ts.filter(task_pending_of_session(sid))
}

/// Is a task id already present?
pub open spec fn task_id_taken(
    ts: Seq<(Seq<char>, Seq<char>, Seq<char>, Seq<char>, Seq<char>, Seq<char>)>,
    id: Seq<char>,
) -> bool {
    exists|i: int| 0 <= i < ts.len() && #[trigger] ts[i].0 == id
}

/// The task table after one task's status turns to `fired`.
pub open spec fn tasks_fired(
    ts: Seq<(Seq<char>, Seq<char>, Seq<char>, Seq<char>, Seq<char>, Seq<char>)>,
    id: Seq<char>,
) -> Seq<(Seq<char>, Seq<char>, Seq<char>, Seq<char>, Seq<char>, Seq<char>)> {
    ts.map_values(
        |t: (Seq<char>, Seq<char>, Seq<char>, Seq<char>, Seq<char>, Seq<char>)|
            if t.0 == id {
                (t.0, t.1, t.2, t.3, t.4, "fired"@)
            } else {
                t
            },
    )
}

/// The pending tasks whose fire-at text is at or before `now_text`, in
/// stored order.
pub open spec fn due_for(
    ts: Seq<(Seq<char>, Seq<char>, Seq<char>, Seq<char>, Seq<char>, Seq<char>)>,
    now_text: Seq<char>,
) -> Seq<(Seq<char>, Seq<char>, Seq<char>, Seq<char>, Seq<char>, Seq<char>)> {
    ts.filter(
        |t: (Seq<char>, Seq<char>, Seq<char>, Seq<char>, Seq<char>, Seq<char>)|
            t.5 == "pending"@ && lex_le(t.3, now_text),
    )
}

/// The sessions map after one session's `updated_at` text changes.
pub open spec fn touched(
    ss: Map<Seq<char>, (Option<Seq<char>>, Option<Seq<char>>, Seq<char>, Seq<char>)>,
    id: Seq<char>,
    now_text: Seq<char>,
) -> Map<Seq<char>, (Option<Seq<char>>, Option<Seq<char>>, Seq<char>, Seq<char>)> {
    if ss.contains_key(id) {
        ss.insert(id, (ss[id].0, ss[id].1, ss[id].2, now_text))
    } else {
        ss
    }
}

/// The first `n` elements of `s`, or all of them if fewer.
pub open spec fn take_at_most<A>(s: Seq<A>, n: int) -> Seq<A> {
    if n <= s.len() {
        s.take(n)
    } else {
        s
    }
}

/// Does the database hold no rows at all?
pub open spec fn db_empty(c: rusqlite::Connection) -> bool {
    &&& db_sessions(c) == Map::<
        Seq<char>,
        (Option<Seq<char>>, Option<Seq<char>>, Seq<char>, Seq<char>),
    >::empty()
    &&& db_messages(c) == Seq::<(Seq<char>, Seq<char>, Seq<char>, Seq<char>, Seq<char>)>::empty()
    &&& db_tasks(c) == Seq::<
        (Seq<char>, Seq<char>, Seq<char>, Seq<char>, Seq<char>, Seq<char>),
    >::empty()
}

/// A fresh string form of a version-4 UUID.
///
/// Relies on `uuid::Uuid::new_v4` and its hyphenated display form, which
/// is always 36 characters. The value itself is random, so nothing more
/// is promised.
#[verifier::external_body]
pub fn new_uuid_string() -> (r: String)
    ensures
        r@.len() == 36,
{
    uuid::Uuid::new_v4().to_string()
}

/// The present time as non-negative Unix seconds.
///
/// Relies on `std::time::SystemTime::now` and `duration_since`; a clock
/// before 1970 reads as zero. Nothing else can be promised of a clock.
#[verifier::external_body]
pub fn now_unix_seconds() -> (r: i64)
    ensures
        r >= 0,
{
    match std::time::SystemTime::now().duration_since(std::time::UNIX_EPOCH) {
        Ok(d) => i64::try_from(d.as_secs()).unwrap_or(i64::MAX),
        Err(_) => 0,
    }
}

/// Open a fresh private in-memory SQLite database.
///
/// Relies on `rusqlite::Connection::open_in_memory`: a new in-memory
/// database holds no rows at all.
#[verifier::external_body]
fn open_in_memory_connection() -> (r: Result<rusqlite::Connection, String>)
    ensures
        r is Ok ==> db_empty(r->Ok_0),
{
    match rusqlite::Connection::open_in_memory() {
        Ok(c) => Ok(c),
        Err(e) => Err(e.to_string()),
    }
}

/// Open (creating if missing) a SQLite database file.
///
/// Relies on `rusqlite::Connection::open`. What the file holds is
/// whatever an earlier process left there, so nothing is promised of the
/// contents; they are finite.
#[verifier::external_body]
fn open_path_connection(path: &str) -> (r: Result<rusqlite::Connection, String>)
    ensures
        r is Ok ==> db_sessions(r->Ok_0).dom().finite(),
{
    match rusqlite::Connection::open(std::path::Path::new(path)) {
        Ok(c) => Ok(c),
        Err(e) => Err(e.to_string()),
    }
}

/// Run the idempotent schema migration: WAL mode, foreign-key
/// enforcement, and the three tables with the message index.
///
/// Relies on `rusqlite::Connection::execute_batch`; `PRAGMA` and
/// `CREATE TABLE IF NOT EXISTS` / `CREATE INDEX IF NOT EXISTS` never
/// change the rows of an existing table.
#[verifier::external_body]
fn init_schema(c: &mut rusqlite::Connection) -> (r: Result<(), String>)
    ensures
        db_sessions(*final(c)) == db_sessions(*old(c)),
        db_messages(*final(c)) == db_messages(*old(c)),
        db_tasks(*final(c)) == db_tasks(*old(c)),
{
    c.execute_batch(
        "PRAGMA journal_mode=WAL;
         PRAGMA foreign_keys=ON;
         CREATE TABLE IF NOT EXISTS sessions (
             id TEXT PRIMARY KEY,
             channel_id TEXT,
             user_id TEXT,
             created_at TEXT NOT NULL,
             updated_at TEXT NOT NULL
         );
         CREATE TABLE IF NOT EXISTS messages (
             id TEXT PRIMARY KEY,
             session_id TEXT NOT NULL REFERENCES sessions(id) ON DELETE CASCADE,
             role TEXT NOT NULL,
             content TEXT NOT NULL,
             created_at TEXT NOT NULL
         );
         CREATE INDEX IF NOT EXISTS idx_messages_session
             ON messages(session_id, created_at);
         CREATE TABLE IF NOT EXISTS scheduled_tasks (
             id TEXT PRIMARY KEY,
             session_id TEXT NOT NULL REFERENCES sessions(id) ON DELETE CASCADE,
             user_id TEXT NOT NULL,
             fire_at TEXT NOT NULL,
             reason TEXT NOT NULL,
             status TEXT NOT NULL DEFAULT 'pending'
         );",
    ).map_err(|e| e.to_string())
}

/// Insert a session row.
///
/// Relies on `rusqlite::Connection::execute` with `INSERT`: the insert
/// succeeds only when the primary key is fresh, and a failed statement
/// changes nothing.
#[verifier::external_body]
fn insert_session_row(
    c: &mut rusqlite::Connection,
    id: &str,
    channel: Option<&str>,
    user: Option<&str>,
    now_text: &str,
) -> (r: Result<(), String>)
    ensures
        r is Ok ==> !db_sessions(*old(c)).contains_key(id@),
        r is Ok ==> db_sessions(*final(c)) == db_sessions(*old(c)).insert(
            id@,
            (opt_view(channel), opt_view(user), now_text@, now_text@),
        ),
        r is Ok ==> db_messages(*final(c)) == db_messages(*old(c)) && db_tasks(*final(c))
            == db_tasks(*old(c)),
        db_sessions(*old(c)).contains_key(id@) ==> r is Err,
        r is Err ==> db_sessions(*final(c)) == db_sessions(*old(c)) && db_messages(*final(c))
            == db_messages(*old(c)) && db_tasks(*final(c)) == db_tasks(*old(c)),
{
    c.execute(
        "INSERT INTO sessions (id, channel_id, user_id, created_at, updated_at) VALUES (?1, ?2, ?3, ?4, ?5)",
        (id, channel, user, now_text, now_text),
    ).map(|_| ()).map_err(|e| e.to_string())
}

/// Insert a session row, or rewrite the channel, user and `updated_at`
/// of an existing one, keeping its `created_at`.
///
/// Relies on `rusqlite::Connection::execute` with
/// `INSERT ... ON CONFLICT(id) DO UPDATE`: a fresh id inserts, a
/// present id updates in place, and a failed statement changes
/// nothing.
#[verifier::external_body]
fn upsert_session_row(
    c: &mut rusqlite::Connection,
    id: &str,
    channel: Option<&str>,
    user: Option<&str>,
    now_text: &str,
) -> (r: Result<(), String>)
    ensures
        r is Ok && !db_sessions(*old(c)).contains_key(id@) ==> db_sessions(*final(c))
            == db_sessions(*old(c)).insert(
            id@,
            (opt_view(channel), opt_view(user), now_text@, now_text@),
        ),
        r is Ok && db_sessions(*old(c)).contains_key(id@) ==> db_sessions(*final(c))
            == db_sessions(*old(c)).insert(
            id@,
            (opt_view(channel), opt_view(user), db_sessions(*old(c))[id@].2, now_text@),
        ),
        r is Ok ==> db_messages(*final(c)) == db_messages(*old(c)) && db_tasks(*final(c))
            == db_tasks(*old(c)),
        r is Err ==> db_sessions(*final(c)) == db_sessions(*old(c)) && db_messages(*final(c))
            == db_messages(*old(c)) && db_tasks(*final(c)) == db_tasks(*old(c)),
{
    c.execute(
        "INSERT INTO sessions (id, channel_id, user_id, created_at, updated_at) VALUES (?1, ?2, ?3, ?4, ?4) ON CONFLICT(id) DO UPDATE SET channel_id = ?2, user_id = ?3, updated_at = ?4",
        (id, channel, user, now_text),
    ).map(|_| ()).map_err(|e| e.to_string())
}

/// Read one session row.
///
/// Relies on `rusqlite::Connection::query_row`: the row for the key, or
/// no row at all.
#[verifier::external_body]
fn query_session_row(c: &rusqlite::Connection, id: &str) -> (r: Result<
    Option<(Option<String>, Option<String>, String, String)>,
    String,
>)
    ensures
        r is Ok && r->Ok_0 is Some ==> db_sessions(*c).contains_key(id@) && ({
            let t = r->Ok_0->0;
            db_sessions(*c)[id@] == (
                match t.0 {
                    Some(s) => Some(s@),
                    None => None,
                },
                match t.1 {
                    Some(s) => Some(s@),
                    None => None,
                },
                t.2@,
                t.3@,
            )
        }),
        r is Ok && r->Ok_0 is None ==> !db_sessions(*c).contains_key(id@),
{
    let res = c.query_row(
        "SELECT channel_id, user_id, created_at, updated_at FROM sessions WHERE id = ?1",
        (id,),
        |row| Ok((row.get(0)?, row.get(1)?, row.get(2)?, row.get(3)?)),
    );
    match res {
        Ok(t) => Ok(Some(t)),
        Err(rusqlite::Error::QueryReturnedNoRows) => Ok(None),
        Err(e) => Err(e.to_string()),
    }
}

/// Delete a session row; the schema's foreign keys cascade to the
/// session's messages and scheduled tasks.
///
/// Relies on `rusqlite::Connection::execute` with `DELETE` and on the
/// `ON DELETE CASCADE` clauses under `PRAGMA foreign_keys=ON`; the
/// pragma holds on every store connection because both constructors
/// run the schema migration, which sets it, before handing the
/// connection out.
#[verifier::external_body]
fn delete_session_row(c: &mut rusqlite::Connection, id: &str) -> (r: Result<(), String>)
    ensures
        r is Ok ==> db_sessions(*final(c)) == db_sessions(*old(c)).remove(id@),
        r is Ok ==> db_messages(*final(c)) == msgs_except(db_messages(*old(c)), id@),
        r is Ok ==> db_tasks(*final(c)) == tasks_except(db_tasks(*old(c)), id@),
        r is Err ==> db_sessions(*final(c)) == db_sessions(*old(c)) && db_messages(*final(c))
            == db_messages(*old(c)) && db_tasks(*final(c)) == db_tasks(*old(c)),
{
    c.execute("DELETE FROM sessions WHERE id = ?1", (id,))
        .map(|_| ())
        .map_err(|e| e.to_string())
}

/// Rewrite a session's `updated_at`; a missing key changes nothing.
///
/// Relies on `rusqlite::Connection::execute` with `UPDATE ... WHERE`.
#[verifier::external_body]
fn touch_session_row(c: &mut rusqlite::Connection, id: &str, now_text: &str) -> (r: Result<
    (),
    String,
>)
    ensures
        r is Ok ==> db_sessions(*final(c)) == touched(db_sessions(*old(c)), id@, now_text@),
        r is Ok ==> db_messages(*final(c)) == db_messages(*old(c)) && db_tasks(*final(c))
            == db_tasks(*old(c)),
        r is Err ==> db_sessions(*final(c)) == db_sessions(*old(c)) && db_messages(*final(c))
            == db_messages(*old(c)) && db_tasks(*final(c)) == db_tasks(*old(c)),
{
    c.execute(
        "UPDATE sessions SET updated_at = ?2 WHERE id = ?1",
        (id, now_text),
    ).map(|_| ()).map_err(|e| e.to_string())
}

/// Insert a message row.
///
/// Relies on `rusqlite::Connection::execute` with `INSERT`: the primary
/// key must be fresh, the foreign key (enforced under
/// `PRAGMA foreign_keys=ON`, set by the schema migration on every
/// store connection) makes a missing session fail the statement, and
/// new rows take the largest rowid, so they come last in rowid order.
#[verifier::external_body]
fn insert_message_row(
    c: &mut rusqlite::Connection,
    id: &str,
    session: &str,
    role: &str,
    content: &str,
    now_text: &str,
) -> (r: Result<(), String>)
    ensures
        r is Ok ==> db_sessions(*old(c)).contains_key(session@) && !msg_id_taken(
            db_messages(*old(c)),
            id@,
        ),
        r is Ok ==> db_messages(*final(c)) == db_messages(*old(c)).push(
            (id@, session@, role@, content@, now_text@),
        ),
        r is Ok ==> db_sessions(*final(c)) == db_sessions(*old(c)) && db_tasks(*final(c))
            == db_tasks(*old(c)),
        !db_sessions(*old(c)).contains_key(session@) ==> r is Err,
        msg_id_taken(db_messages(*old(c)), id@) ==> r is Err,
        r is Err ==> db_sessions(*final(c)) == db_sessions(*old(c)) && db_messages(*final(c))
            == db_messages(*old(c)) && db_tasks(*final(c)) == db_tasks(*old(c)),
{
    c.execute(
        "INSERT INTO messages (id, session_id, role, content, created_at) VALUES (?1, ?2, ?3, ?4, ?5)",
        (id, session, role, content, now_text),
    ).map(|_| ()).map_err(|e| e.to_string())
}

/// Read the messages of one session in rowid (insertion) order, up to
/// `limit` rows.
///
/// Relies on `rusqlite::Connection::prepare` / `query_map` with
/// `SELECT ... ORDER BY rowid ASC LIMIT`: live rowids grow with
/// insertion order, so the rows come back as the model sequence.
#[verifier::external_body]
fn query_message_rows(c: &rusqlite::Connection, session: &str, limit: i64) -> (r: Result<
    Vec<(String, String, String, String, String)>,
    String,
>)
    requires
        limit >= 0,
    ensures
        r is Ok ==> r->Ok_0@.map_values(
            |t: (String, String, String, String, String)| (t.0@, t.1@, t.2@, t.3@, t.4@),
        ) == take_at_most(msgs_for(db_messages(*c), session@), limit as int),
{
    let mut stmt = c.prepare(
        "SELECT id, session_id, role, content, created_at FROM messages WHERE session_id = ?1 ORDER BY rowid ASC LIMIT ?2",
    ).map_err(|e| e.to_string())?;
    let rows = stmt.query_map((session, limit), |row| {
        Ok((row.get(0)?, row.get(1)?, row.get(2)?, row.get(3)?, row.get(4)?))
    }).map_err(|e| e.to_string())?;
    let mut out = Vec::new();
    for row in rows {
        out.push(row.map_err(|e| e.to_string())?);
    }
    Ok(out)
}

/// Count the session rows.
///
/// Relies on `rusqlite::Connection::query_row` with `COUNT(*)`; the
/// count fits a machine word.
#[verifier::external_body]
fn count_session_rows(c: &rusqlite::Connection) -> (r: Result<usize, String>)
    ensures
        r is Ok ==> r->Ok_0 == db_sessions(*c).dom().len(),
{
    let n: i64 = c.query_row("SELECT COUNT(*) FROM sessions", [], |row| row.get(0))
        .map_err(|e| e.to_string())?;
    Ok(usize::try_from(n).unwrap_or(0))
}

/// Count one session's pending tasks.
///
/// Relies on `rusqlite::Connection::query_row` with `COUNT(*)`.
#[verifier::external_body]
fn count_pending_rows(c: &rusqlite::Connection, session: &str) -> (r: Result<i64, String>)
    ensures
        r is Ok ==> r->Ok_0 == pending_for(db_tasks(*c), session@).len(),
{
    c.query_row(
        "SELECT COUNT(*) FROM scheduled_tasks WHERE session_id = ?1 AND status = 'pending'",
        (session,),
        |row| row.get(0),
    ).map_err(|e| e.to_string())
}

/// Insert a scheduled task row with status `pending`.
///
/// Relies on `rusqlite::Connection::execute` with `INSERT`, as for
/// message rows.
#[verifier::external_body]
fn insert_task_row(
    c: &mut rusqlite::Connection,
    id: &str,
    session: &str,
    user: &str,
    fire_at_text: &str,
    reason: &str,
) -> (r: Result<(), String>)
    ensures
        r is Ok ==> db_sessions(*old(c)).contains_key(session@) && !task_id_taken(
            db_tasks(*old(c)),
            id@,
        ),
        r is Ok ==> db_tasks(*final(c)) == db_tasks(*old(c)).push(
            (id@, session@, user@, fire_at_text@, reason@, "pending"@),
        ),
        r is Ok ==> db_sessions(*final(c)) == db_sessions(*old(c)) && db_messages(*final(c))
            == db_messages(*old(c)),
        !db_sessions(*old(c)).contains_key(session@) ==> r is Err,
        r is Err ==> db_sessions(*final(c)) == db_sessions(*old(c)) && db_messages(*final(c))
            == db_messages(*old(c)) && db_tasks(*final(c)) == db_tasks(*old(c)),
{
    c.execute(
        "INSERT INTO scheduled_tasks (id, session_id, user_id, fire_at, reason, status) VALUES (?1, ?2, ?3, ?4, ?5, 'pending')",
        (id, session, user, fire_at_text, reason),
    ).map(|_| ()).map_err(|e| e.to_string())
}

/// Turn one task's status to `fired`; a missing id changes nothing.
///
/// Relies on `rusqlite::Connection::execute` with `UPDATE ... WHERE`.
#[verifier::external_body]
fn mark_task_fired_row(c: &mut rusqlite::Connection, task_id: &str) -> (r: Result<(), String>)
    ensures
        r is Ok ==> db_tasks(*final(c)) == tasks_fired(db_tasks(*old(c)), task_id@),
        r is Ok ==> db_sessions(*final(c)) == db_sessions(*old(c)) && db_messages(*final(c))
            == db_messages(*old(c)),
        r is Err ==> db_sessions(*final(c)) == db_sessions(*old(c)) && db_messages(*final(c))
            == db_messages(*old(c)) && db_tasks(*final(c)) == db_tasks(*old(c)),
{
    c.execute(
        "UPDATE scheduled_tasks SET status = 'fired' WHERE id = ?1",
        (task_id,),
    ).map(|_| ()).map_err(|e| e.to_string())
}

/// Read the pending tasks due at or before `now_text`.
///
/// Relies on `rusqlite::Connection::prepare` / `query_map`; the `<=`
/// comparison under BINARY collation matches lexicographic order on the
/// ASCII timestamp texts the store writes. The rows come in `fire_at`
/// order, a permutation of the model's filtered sequence.
#[verifier::external_body]
fn query_due_rows(c: &rusqlite::Connection, now_text: &str) -> (r: Result<
    Vec<(String, String, String, String, String, String)>,
    String,
>)
    ensures
        r is Ok ==> r->Ok_0@.map_values(
            |t: (String, String, String, String, String, String)| (
                t.0@,
                t.1@,
                t.2@,
                t.3@,
                t.4@,
                t.5@,
            ),
        ).to_multiset() == due_for(db_tasks(*c), now_text@).to_multiset(),
{
    let mut stmt = c.prepare(
        "SELECT id, session_id, user_id, fire_at, reason, status FROM scheduled_tasks WHERE status = 'pending' AND fire_at <= ?1 ORDER BY fire_at ASC",
    ).map_err(|e| e.to_string())?;
    let rows = stmt.query_map((now_text,), |row| {
        Ok((row.get(0)?, row.get(1)?, row.get(2)?, row.get(3)?, row.get(4)?, row.get(5)?))
    }).map_err(|e| e.to_string())?;
    let mut out = Vec::new();
    for row in rows {
        out.push(row.map_err(|e| e.to_string())?);
    }
    Ok(out)
}

/// A persisted session record.
#[derive(Debug, Clone)]
pub struct SessionRecord {
    pub id: String,
    pub channel_id: Option<String>,
    pub user_id: Option<String>,
    pub created_at: i64,
    pub updated_at: i64,
}

/// A persisted message within a session.
#[derive(Debug, Clone)]
pub struct MessageRecord {
    pub id: String,
    pub session_id: String,
    pub role: String,
    pub content: String,
    pub created_at: i64,
}

/// A persisted scheduled heartbeat task.
#[derive(Debug, Clone)]
pub struct TaskRecord {
    pub id: String,
    pub session_id: String,
    pub user_id: String,
    pub fire_at: i64,
    pub reason: String,
    pub status: String,
}

/// Persistent storage for conversation sessions, message history and
/// scheduled heartbeat tasks.
pub struct SessionStore {
    conn: rusqlite::Connection,
}

impl SessionStore {
    /// The sessions table: id to
    /// `(channel_id, user_id, created_at text, updated_at text)`.
    pub closed spec fn sessions(&self) -> Map<
        Seq<char>,
        (Option<Seq<char>>, Option<Seq<char>>, Seq<char>, Seq<char>),
    > {
        db_sessions(self.conn)
    }

    /// The messages table in insertion order.
    pub closed spec fn messages(&self) -> Seq<
        (Seq<char>, Seq<char>, Seq<char>, Seq<char>, Seq<char>),
    > {
        db_messages(self.conn)
    }

    /// The scheduled-tasks table in insertion order.
    pub closed spec fn tasks(&self) -> Seq<
        (Seq<char>, Seq<char>, Seq<char>, Seq<char>, Seq<char>, Seq<char>),
    > {
        db_tasks(self.conn)
    }

    /// Does the store hold no sessions, messages or tasks?
    pub open spec fn is_empty_store(&self) -> bool {
        &&& self.sessions() == Map::<
            Seq<char>,
            (Option<Seq<char>>, Option<Seq<char>>, Seq<char>, Seq<char>),
        >::empty()
        &&& self.messages() == Seq::<
            (Seq<char>, Seq<char>, Seq<char>, Seq<char>, Seq<char>),
        >::empty()
        &&& self.tasks() == Seq::<
            (Seq<char>, Seq<char>, Seq<char>, Seq<char>, Seq<char>, Seq<char>),
        >::empty()
    }

    /// Open a store on a fresh private in-memory database.
    pub fn in_memory() -> (r: Result<SessionStore, Error>)
        ensures
            r is Ok ==> r->Ok_0.is_empty_store(),
            r is Err ==> r->Err_0 is Database,
    {
        match open_in_memory_connection() {
            Ok(mut conn) => {
                match init_schema(&mut conn) {
                    Ok(()) => Ok(SessionStore { conn }),
                    Err(e) => Err(Error::Database(e)),
                }
            },
            Err(e) => Err(Error::Database(e)),
        }
    }

    /// Open a store on a database file, creating the file and the schema
    /// if they are missing.
    pub fn open(path: &str) -> (r: Result<SessionStore, Error>)
        ensures
            r is Err ==> r->Err_0 is Database,
    {
        match open_path_connection(path) {
            Ok(mut conn) => {
                match init_schema(&mut conn) {
                    Ok(()) => Ok(SessionStore { conn }),
                    Err(e) => Err(Error::Database(e)),
                }
            },
            Err(e) => Err(Error::Database(e)),
        }
    }

    /// Create a session at the given instant.
    pub fn create_session_at(
        &mut self,
        id: &str,
        user_id: Option<&str>,
        channel_id: Option<&str>,
        now: i64,
    ) -> (r: Result<(), Error>)
        requires
            0 <= now <= MAX_UNIX_SECONDS,
        ensures
            r is Ok ==> !old(self).sessions().contains_key(id@),
            r is Ok ==> final(self).sessions() == old(self).sessions().insert(
                id@,
                (opt_view(channel_id), opt_view(user_id), rfc3339_of(now as int), rfc3339_of(now as int)),
            ),
            r is Ok ==> final(self).messages() == old(self).messages() && final(self).tasks()
                == old(self).tasks(),
            old(self).sessions().contains_key(id@) ==> r is Err,
            r is Err ==> final(self).sessions() == old(self).sessions() && final(self).messages()
                == old(self).messages() && final(self).tasks() == old(self).tasks(),
            r is Err ==> r->Err_0 is Database,
    {
        let now_text = format_rfc3339(now);
        match insert_session_row(&mut self.conn, id, channel_id, user_id, now_text.as_str()) {
            Ok(()) => Ok(()),
            Err(e) => Err(Error::Database(e)),
        }
    }

    /// Create a session stamped with the present time.
    pub fn create_session(&mut self, id: &str, user_id: Option<&str>, channel_id: Option<&str>) -> (r:
        Result<(), Error>)
        ensures
            r is Ok ==> !old(self).sessions().contains_key(id@),
            r is Ok ==> exists|t: int|
                #![auto]
                0 <= t && final(self).sessions() == old(self).sessions().insert(
                    id@,
                    (opt_view(channel_id), opt_view(user_id), rfc3339_of(t), rfc3339_of(t)),
                ),
            r is Ok ==> final(self).messages() == old(self).messages() && final(self).tasks()
                == old(self).tasks(),
            old(self).sessions().contains_key(id@) ==> r is Err,
            r is Err ==> final(self).sessions() == old(self).sessions() && final(self).messages()
                == old(self).messages() && final(self).tasks() == old(self).tasks(),
            r is Err ==> r->Err_0 is Database,
    {
        let now = clamp_now(now_unix_seconds());
        let r = self.create_session_at(id, user_id, channel_id, now);
        proof {
            if r is Ok {
                assert(0 <= now as int && self.sessions() == old(self).sessions().insert(
                    id@,
                    (
                        opt_view(channel_id),
                        opt_view(user_id),
                        rfc3339_of(now as int),
                        rfc3339_of(now as int),
                    ),
                ));
            }
        }
        r
    }

    /// Create a session, or rewrite an existing one's channel and user
    /// and stamp it, at the given instant; the original creation
    /// instant of an existing session stands.
    pub fn upsert_session_at(
        &mut self,
        id: &str,
        channel_id: Option<&str>,
        user_id: Option<&str>,
        now: i64,
    ) -> (r: Result<(), Error>)
        requires
            0 <= now <= MAX_UNIX_SECONDS,
        ensures
            r is Ok && !old(self).sessions().contains_key(id@) ==> final(self).sessions() == old(
                self,
            ).sessions().insert(
                id@,
                (opt_view(channel_id), opt_view(user_id), rfc3339_of(now as int), rfc3339_of(now as int)),
            ),
            r is Ok && old(self).sessions().contains_key(id@) ==> final(self).sessions() == old(
                self,
            ).sessions().insert(
                id@,
                (
                    opt_view(channel_id),
                    opt_view(user_id),
                    old(self).sessions()[id@].2,
                    rfc3339_of(now as int),
                ),
            ),
            r is Ok ==> final(self).messages() == old(self).messages() && final(self).tasks()
                == old(self).tasks(),
            r is Err ==> final(self).sessions() == old(self).sessions() && final(self).messages()
                == old(self).messages() && final(self).tasks() == old(self).tasks(),
            r is Err ==> r->Err_0 is Database,
    {
        let now_text = format_rfc3339(now);
        match upsert_session_row(&mut self.conn, id, channel_id, user_id, now_text.as_str()) {
            Ok(()) => Ok(()),
            Err(e) => Err(Error::Database(e)),
        }
    }

    /// Create or rewrite a session, stamped with the present time.
    pub fn upsert_session(&mut self, id: &str, channel_id: Option<&str>, user_id: Option<&str>) -> (r:
        Result<(), Error>)
        ensures
            r is Ok ==> exists|t: int|
                #![auto]
                0 <= t && (final(self).sessions() == old(self).sessions().insert(
                    id@,
                    (opt_view(channel_id), opt_view(user_id), rfc3339_of(t), rfc3339_of(t)),
                ) || (old(self).sessions().contains_key(id@) && final(self).sessions() == old(
                    self,
                ).sessions().insert(
                    id@,
                    (opt_view(channel_id), opt_view(user_id), old(self).sessions()[id@].2, rfc3339_of(t)),
                ))),
            r is Ok ==> final(self).messages() == old(self).messages() && final(self).tasks()
                == old(self).tasks(),
            r is Err ==> final(self).sessions() == old(self).sessions() && final(self).messages()
                == old(self).messages() && final(self).tasks() == old(self).tasks(),
            r is Err ==> r->Err_0 is Database,
    {
        let now = clamp_now(now_unix_seconds());
        let r = self.upsert_session_at(id, channel_id, user_id, now);
        proof {
            if r is Ok {
                let t = now as int;
                if !old(self).sessions().contains_key(id@) {
                    assert(0 <= t && self.sessions() == old(self).sessions().insert(
                        id@,
                        (opt_view(channel_id), opt_view(user_id), rfc3339_of(t), rfc3339_of(t)),
                    ));
                } else {
                    assert(0 <= t && old(self).sessions().contains_key(id@)
                        && self.sessions() == old(self).sessions().insert(
                        id@,
                        (
                            opt_view(channel_id),
                            opt_view(user_id),
                            old(self).sessions()[id@].2,
                            rfc3339_of(t),
                        ),
                    ));
                }
            }
        }
        r
    }

    /// Look a session up: the record for a stored id, `None` for an
    /// unknown one, and a `database` error when the read itself fails.
    pub fn get_session(&self, id: &str) -> (r: Result<Option<SessionRecord>, Error>)
        ensures
            r is Ok ==> ((r->Ok_0 is Some) <==> self.sessions().contains_key(id@)),
            r is Ok && r->Ok_0 is Some ==> ({
                let rec = r->Ok_0->0;
                let row = self.sessions()[id@];
                &&& rec.id@ == id@
                &&& (match rec.channel_id {
                    Some(s) => Some(s@),
                    None => None,
                }) == row.0
                &&& (match rec.user_id {
                    Some(s) => Some(s@),
                    None => None,
                }) == row.1
                &&& (spec_parse_timestamp(row.2) is Some ==> rec.created_at
                    == spec_parse_timestamp(row.2)->0)
                &&& (spec_parse_timestamp(row.3) is Some ==> rec.updated_at
                    == spec_parse_timestamp(row.3)->0)
            }),
            r is Err ==> r->Err_0 is Database,
    {
        match query_session_row(&self.conn, id) {
            Ok(Some((channel_id, user_id, created_text, updated_text))) => {
                let created_at = parse_or_now(created_text.as_str());
                let updated_at = parse_or_now(updated_text.as_str());
                Ok(
                    Some(
                        SessionRecord {
                            id: copy_str(id),
                            channel_id,
                            user_id,
                            created_at,
                            updated_at,
                        },
                    ),
                )
            },
            Ok(None) => Ok(None),
            Err(e) => Err(Error::Database(e)),
        }
    }

    /// Delete a session; the removal cascades to its messages and its
    /// scheduled tasks.
    pub fn delete_session(&mut self, id: &str) -> (r: Result<(), Error>)
        ensures
            r is Ok ==> final(self).sessions() == old(self).sessions().remove(id@),
            r is Ok ==> final(self).messages() == msgs_except(old(self).messages(), id@),
            r is Ok ==> final(self).tasks() == tasks_except(old(self).tasks(), id@),
            r is Err ==> final(self).sessions() == old(self).sessions() && final(self).messages()
                == old(self).messages() && final(self).tasks() == old(self).tasks(),
            r is Err ==> r->Err_0 is Database,
    {
        match delete_session_row(&mut self.conn, id) {
            Ok(()) => Ok(()),
            Err(e) => Err(Error::Database(e)),
        }
    }

    /// Stamp a session's `updated_at` with the given instant; a missing
    /// session changes nothing.
    pub fn touch_session_at(&mut self, id: &str, now: i64) -> (r: Result<(), Error>)
        requires
            0 <= now <= MAX_UNIX_SECONDS,
        ensures
            r is Ok ==> final(self).sessions() == touched(
                old(self).sessions(),
                id@,
                rfc3339_of(now as int),
            ),
            r is Ok ==> final(self).messages() == old(self).messages() && final(self).tasks()
                == old(self).tasks(),
            r is Err ==> final(self).sessions() == old(self).sessions() && final(self).messages()
                == old(self).messages() && final(self).tasks() == old(self).tasks(),
            r is Err ==> r->Err_0 is Database,
    {
        let now_text = format_rfc3339(now);
        match touch_session_row(&mut self.conn, id, now_text.as_str()) {
            Ok(()) => Ok(()),
            Err(e) => Err(Error::Database(e)),
        }
    }

    /// Stamp a session's `updated_at` with the present time.
    pub fn touch_session(&mut self, id: &str) -> (r: Result<(), Error>)
        ensures
            r is Ok ==> exists|t: int|
                #![auto]
                0 <= t && final(self).sessions() == touched(
                    old(self).sessions(),
                    id@,
                    rfc3339_of(t),
                ),
            r is Ok ==> final(self).messages() == old(self).messages() && final(self).tasks()
                == old(self).tasks(),
            r is Err ==> final(self).sessions() == old(self).sessions() && final(self).messages()
                == old(self).messages() && final(self).tasks() == old(self).tasks(),
            r is Err ==> r->Err_0 is Database,
    {
        let now = clamp_now(now_unix_seconds());
        let r = self.touch_session_at(id, now);
        proof {
            if r is Ok {
                assert(0 <= now as int && self.sessions() == touched(
                    old(self).sessions(),
                    id@,
                    rfc3339_of(now as int),
                ));
            }
        }
        r
    }

    /// Append a message to a session at the given instant and bump the
    /// session's `updated_at`; the returned id is the new message's.
    pub fn append_message_at(&mut self, session_id: &str, role: &str, content: &str, now: i64) -> (r:
        Result<String, Error>)
        requires
            0 <= now <= MAX_UNIX_SECONDS,
        ensures
            r is Ok ==> old(self).sessions().contains_key(session_id@),
            r is Ok ==> final(self).messages() == old(self).messages().push(
                (r->Ok_0@, session_id@, role@, content@, rfc3339_of(now as int)),
            ),
            r is Ok ==> final(self).sessions() == touched(
                old(self).sessions(),
                session_id@,
                rfc3339_of(now as int),
            ),
            r is Ok ==> final(self).tasks() == old(self).tasks(),
            !old(self).sessions().contains_key(session_id@) ==> r is Err,
            r is Err ==> r->Err_0 is Database,
            r is Err ==> final(self).sessions() == old(self).sessions() && final(self).tasks()
                == old(self).tasks(),
            r is Err ==> final(self).messages() == old(self).messages() || final(self).messages()
                == old(self).messages().push(
                (
                    final(self).messages().last().0,
                    session_id@,
                    role@,
                    content@,
                    rfc3339_of(now as int),
                ),
            ),
    {
        let id = new_uuid_string();
        let now_text = format_rfc3339(now);
        match insert_message_row(
            &mut self.conn,
            id.as_str(),
            session_id,
            role,
            content,
            now_text.as_str(),
        ) {
            Ok(()) => {},
            Err(e) => {
                return Err(Error::Database(e));
            },
        }
        match touch_session_row(&mut self.conn, session_id, now_text.as_str()) {
            Ok(()) => Ok(id),
            Err(e) => Err(Error::Database(e)),
        }
    }

    /// Append a message stamped with the present time.
    pub fn append_message(&mut self, session_id: &str, role: &str, content: &str) -> (r: Result<
        String,
        Error,
    >)
        ensures
            r is Ok ==> old(self).sessions().contains_key(session_id@),
            r is Ok ==> exists|t: int|
                #![auto]
                0 <= t && final(self).messages() == old(self).messages().push(
                    (r->Ok_0@, session_id@, role@, content@, rfc3339_of(t)),
                ) && final(self).sessions() == touched(
                    old(self).sessions(),
                    session_id@,
                    rfc3339_of(t),
                ),
            r is Ok ==> final(self).tasks() == old(self).tasks(),
            !old(self).sessions().contains_key(session_id@) ==> r is Err,
            r is Err ==> r->Err_0 is Database,
    {
        let now = clamp_now(now_unix_seconds());
        let r = self.append_message_at(session_id, role, content, now);
        proof {
            if r is Ok {
                let t = now as int;
                assert(0 <= t && self.messages() == old(self).messages().push(
                    ((r->Ok_0)@, session_id@, role@, content@, rfc3339_of(t)),
                ) && self.sessions() == touched(old(self).sessions(), session_id@, rfc3339_of(t)));
            }
        }
        r
    }

    /// Read a session's messages in append order, up to `limit` rows.
    pub fn get_messages(&self, session_id: &str, limit: usize) -> (r: Result<
        Vec<MessageRecord>,
        Error,
    >)
        requires
            limit <= 0x7fff_ffff_ffff_ffff,
        ensures
            r is Ok ==> ({
                let expected = take_at_most(
                    msgs_for(self.messages(), session_id@),
                    limit as int,
                );
                &&& r->Ok_0@.len() == expected.len()
                &&& forall|i: int|
                    0 <= i < expected.len() ==> {
                        let rec = #[trigger] r->Ok_0@[i];
                        &&& rec.id@ == expected[i].0
                        &&& rec.session_id@ == expected[i].1
                        &&& rec.role@ == expected[i].2
                        &&& rec.content@ == expected[i].3
                        &&& (spec_parse_timestamp(expected[i].4) is Some ==> rec.created_at
                            == spec_parse_timestamp(expected[i].4)->0)
                    }
            }),
            r is Err ==> r->Err_0 is Database,
    {
        let sql_limit: i64 = limit as i64;
        let rows = match query_message_rows(&self.conn, session_id, sql_limit) {
            Ok(rows) => rows,
            Err(e) => {
                return Err(Error::Database(e));
            },
        };
        let ghost expected = take_at_most(msgs_for(self.messages(), session_id@), limit as int);
        let mut out: Vec<MessageRecord> = Vec::new();
        let mut i: usize = 0;
        while i < rows.len()
            invariant
                i <= rows@.len(),
                out@.len() == i,
                forall|k: int|
                    0 <= k < i ==> {
                        let rec = #[trigger] out@[k];
                        &&& rec.id@ == rows@[k].0@
                        &&& rec.session_id@ == rows@[k].1@
                        &&& rec.role@ == rows@[k].2@
                        &&& rec.content@ == rows@[k].3@
                        &&& (spec_parse_timestamp(rows@[k].4@) is Some ==> rec.created_at
                            == spec_parse_timestamp(rows@[k].4@)->0)
                    },
            decreases rows@.len() - i,
        {
            let (id, sid, role, content, created_text) = copy_row5(&rows, i);
            let created_at = parse_or_now(created_text.as_str());
            out.push(MessageRecord { id, session_id: sid, role, content, created_at });
            i = i + 1;
        }
        proof {
            let mapped = rows@.map_values(
                |t: (String, String, String, String, String)| (t.0@, t.1@, t.2@, t.3@, t.4@),
            );
            if limit as int <= msgs_for(self.messages(), session_id@).len() {
                assert(mapped == take_at_most(msgs_for(self.messages(), session_id@), sql_limit as int));
            }
            assert(mapped =~= expected);
        }
        Ok(out)
    }

    /// Count the sessions the store holds.
    pub fn session_count(&self) -> (r: Result<usize, Error>)
        ensures
            r is Ok ==> r->Ok_0 == self.sessions().dom().len(),
            r is Err ==> r->Err_0 is Database,
    {
        match count_session_rows(&self.conn) {
            Ok(n) => Ok(n),
            Err(e) => Err(Error::Database(e)),
        }
    }

    /// Count one session's pending heartbeat tasks.
    pub fn count_pending_tasks_for_session(&self, session_id: &str) -> (r: Result<i64, Error>)
        ensures
            r is Ok ==> r->Ok_0 == pending_for(self.tasks(), session_id@).len(),
            r is Err ==> r->Err_0 is Database,
    {
        match count_pending_rows(&self.conn, session_id) {
            Ok(n) => Ok(n),
            Err(e) => Err(Error::Database(e)),
        }
    }

    /// Persist a pending heartbeat task that fires at `fire_at`; the
    /// returned id is the new task's.
    pub fn schedule_task(&mut self, session_id: &str, user_id: &str, fire_at: i64, reason: &str) -> (r:
        Result<String, Error>)
        requires
            0 <= fire_at <= MAX_UNIX_SECONDS,
        ensures
            r is Ok ==> old(self).sessions().contains_key(session_id@),
            r is Ok ==> final(self).tasks() == old(self).tasks().push(
                (r->Ok_0@, session_id@, user_id@, rfc3339_of(fire_at as int), reason@, "pending"@),
            ),
            r is Ok ==> final(self).sessions() == old(self).sessions() && final(self).messages()
                == old(self).messages(),
            !old(self).sessions().contains_key(session_id@) ==> r is Err,
            r is Err ==> final(self).sessions() == old(self).sessions() && final(self).messages()
                == old(self).messages() && final(self).tasks() == old(self).tasks(),
            r is Err ==> r->Err_0 is Database,
    {
        let id = new_uuid_string();
        let fire_text = format_rfc3339(fire_at);
        match insert_task_row(
            &mut self.conn,
            id.as_str(),
            session_id,
            user_id,
            fire_text.as_str(),
            reason,
        ) {
            Ok(()) => Ok(id),
            Err(e) => Err(Error::Database(e)),
        }
    }

    /// Transition a task to `fired`; a missing id changes nothing.
    pub fn mark_task_fired(&mut self, task_id: &str) -> (r: Result<(), Error>)
        ensures
            r is Ok ==> final(self).tasks() == tasks_fired(old(self).tasks(), task_id@),
            r is Ok ==> final(self).sessions() == old(self).sessions() && final(self).messages()
                == old(self).messages(),
            r is Err ==> final(self).sessions() == old(self).sessions() && final(self).messages()
                == old(self).messages() && final(self).tasks() == old(self).tasks(),
            r is Err ==> r->Err_0 is Database,
    {
        match mark_task_fired_row(&mut self.conn, task_id) {
            Ok(()) => Ok(()),
            Err(e) => Err(Error::Database(e)),
        }
    }

    /// Read the pending tasks due at or before `now`, for the external
    /// dispatcher.
    pub fn due_tasks(&self, now: i64) -> (r: Result<Vec<TaskRecord>, Error>)
        requires
            0 <= now <= MAX_UNIX_SECONDS,
        ensures
            r is Ok ==> exists|rows: Seq<(Seq<char>, Seq<char>, Seq<char>, Seq<char>, Seq<char>, Seq<char>)>|
                {
                    &&& #[trigger] rows.to_multiset() == due_for(
                        self.tasks(),
                        rfc3339_of(now as int),
                    ).to_multiset()
                    &&& r->Ok_0@.len() == rows.len()
                    &&& forall|i: int|
                        0 <= i < rows.len() ==> {
                            let rec = #[trigger] r->Ok_0@[i];
                            &&& rec.id@ == rows[i].0
                            &&& rec.session_id@ == rows[i].1
                            &&& rec.user_id@ == rows[i].2
                            &&& (spec_parse_timestamp(rows[i].3) is Some ==> rec.fire_at
                                == spec_parse_timestamp(rows[i].3)->0)
                            &&& rec.reason@ == rows[i].4
                            &&& rec.status@ == rows[i].5
                        }
                },
            r is Err ==> r->Err_0 is Database,
    {
        let now_text = format_rfc3339(now);
        let rows = match query_due_rows(&self.conn, now_text.as_str()) {
            Ok(rows) => rows,
            Err(e) => {
                return Err(Error::Database(e));
            },
        };
        let ghost rows_view = rows@.map_values(
            |t: (String, String, String, String, String, String)| (
                t.0@,
                t.1@,
                t.2@,
                t.3@,
                t.4@,
                t.5@,
            ),
        );
        let mut out: Vec<TaskRecord> = Vec::new();
        let mut i: usize = 0;
        while i < rows.len()
            invariant
                i <= rows@.len(),
                out@.len() == i,
                rows_view == rows@.map_values(
                    |t: (String, String, String, String, String, String)| (
                        t.0@,
                        t.1@,
                        t.2@,
                        t.3@,
                        t.4@,
                        t.5@,
                    ),
                ),
                forall|k: int|
                    0 <= k < i ==> {
                        let rec = #[trigger] out@[k];
                        &&& rec.id@ == rows_view[k].0
                        &&& rec.session_id@ == rows_view[k].1
                        &&& rec.user_id@ == rows_view[k].2
                        &&& (spec_parse_timestamp(rows_view[k].3) is Some ==> rec.fire_at
                            == spec_parse_timestamp(rows_view[k].3)->0)
                        &&& rec.reason@ == rows_view[k].4
                        &&& rec.status@ == rows_view[k].5
                    },
            decreases rows@.len() - i,
        {
            let (id, sid, uid, fire_text, reason, status) = copy_row6(&rows, i);
            let fire_at = match parse_timestamp(fire_text.as_str()) {
                Some(t) => t,
                None => 0,
            };
            out.push(
                TaskRecord { id, session_id: sid, user_id: uid, fire_at, reason, status },
            );
            i = i + 1;
        }
        Ok(out)
    }
}

/// Law: appending a message to a session extends that session's
/// history by exactly the new message, at the end; every other
/// session's history reads back unchanged. Together with the contracts
/// of `append_message_at` and `get_messages`, an unlimited read after a
/// successful append returns the messages appended so far, in append
/// order.
pub proof fn lemma_append_preserves_history(
    ms: Seq<(Seq<char>, Seq<char>, Seq<char>, Seq<char>, Seq<char>)>,
    sid: Seq<char>,
    row: (Seq<char>, Seq<char>, Seq<char>, Seq<char>, Seq<char>),
)
    requires
        row.1 == sid,
    ensures
        msgs_for(ms.push(row), sid) == msgs_for(ms, sid).push(row),
        forall|other: Seq<char>|
            other != sid ==> #[trigger] msgs_for(ms.push(row), other) == msgs_for(ms, other),
{
    reveal(Seq::filter);
    assert(ms.push(row).drop_last() =~= ms);
    assert(msgs_for(ms.push(row), sid) == msgs_for(ms, sid).push(row));
    assert forall|other: Seq<char>| other != sid implies #[trigger] msgs_for(ms.push(row), other)
        == msgs_for(ms, other) by {
        assert(ms.push(row).drop_last() =~= ms);
        assert(row.1 != other);
    }
}

/// Law: appending keeps the session fresh. The `updated_at` text an
/// append at `now` writes parses back to exactly `now`, so it is at or
/// past any instant the session carried before, whenever the clock did
/// not run backwards.
pub proof fn lemma_append_bumps_updated_at(prior: int, now: int)
    requires
        0 <= prior <= now <= MAX_UNIX_SECONDS,
    ensures
        spec_parse_timestamp(rfc3339_of(now)) == Some(now),
        spec_parse_timestamp(rfc3339_of(prior))->0 <= spec_parse_timestamp(rfc3339_of(now))->0,
{
    crate::timefmt::lemma_rfc3339_roundtrip(prior);
    crate::timefmt::lemma_rfc3339_roundtrip(now);
}

/// Law: a pending task is due exactly when its recorded fire-at
/// instant is at or before the polling instant. For the texts the
/// store writes, the lexicographic comparison the due query uses
/// agrees with the clock.
pub proof fn lemma_due_matches_clock(fire: int, now: int)
    requires
        0 <= fire <= MAX_UNIX_SECONDS,
        0 <= now <= MAX_UNIX_SECONDS,
    ensures
        lex_le(rfc3339_of(fire), rfc3339_of(now)) == (fire <= now),
{
    crate::timefmt::lemma_rfc3339_preserves_order(fire, now);
}

/// A filtered sequence is empty when no element passes the predicate.
proof fn lemma_filter_empty<A>(s: Seq<A>, p: spec_fn(A) -> bool)
    requires
        forall|i: int| 0 <= i < s.len() ==> !p(#[trigger] s[i]),
    ensures
        s.filter(p) == Seq::<A>::empty(),
    decreases s.len(),
{
    reveal(Seq::filter);
    if s.len() > 0 {
        lemma_filter_empty(s.drop_last(), p);
        assert(!p(s.last()));
    }
    assert(s.filter(p) =~= Seq::<A>::empty());
}

/// Law: deleting a session removes all its messages and all its
/// scheduled tasks. After the cascade of `delete_session`, the
/// session's message history reads back empty and it has no pending
/// tasks left.
pub proof fn lemma_delete_cascades(
    ms: Seq<(Seq<char>, Seq<char>, Seq<char>, Seq<char>, Seq<char>)>,
    ts: Seq<(Seq<char>, Seq<char>, Seq<char>, Seq<char>, Seq<char>, Seq<char>)>,
    sid: Seq<char>,
)
    ensures
        msgs_for(msgs_except(ms, sid), sid) == Seq::<
            (Seq<char>, Seq<char>, Seq<char>, Seq<char>, Seq<char>),
        >::empty(),
        pending_for(tasks_except(ts, sid), sid) == Seq::<
            (Seq<char>, Seq<char>, Seq<char>, Seq<char>, Seq<char>, Seq<char>),
        >::empty(),
        forall|i: int|
            0 <= i < msgs_except(ms, sid).len() ==> (#[trigger] msgs_except(ms, sid)[i]).1 != sid,
        forall|i: int|
            0 <= i < tasks_except(ts, sid).len() ==> (#[trigger] tasks_except(ts, sid)[i]).1
                != sid,
{
    assert forall|i: int| 0 <= i < msgs_except(ms, sid).len() implies (#[trigger] msgs_except(
        ms,
        sid,
    )[i]).1 != sid by {
        ms.lemma_filter_pred(msg_not_of_session(sid), i);
    }
    assert forall|i: int| 0 <= i < tasks_except(ts, sid).len() implies (#[trigger] tasks_except(
        ts,
        sid,
    )[i]).1 != sid by {
        ts.lemma_filter_pred(task_not_of_session(sid), i);
    }
    lemma_filter_empty(msgs_except(ms, sid), msg_of_session(sid));
    lemma_filter_empty(tasks_except(ts, sid), task_pending_of_session(sid));
}

/// Clamp a non-negative clock reading into the formatter's range.
pub fn clamp_now(t: i64) -> (r: i64)
    requires
        t >= 0,
    ensures
        0 <= r <= MAX_UNIX_SECONDS,
        t <= MAX_UNIX_SECONDS ==> r == t,
{
    if t > MAX_UNIX_SECONDS {
        MAX_UNIX_SECONDS
    } else {
        t
    }
}

/// Parse a stored timestamp; a row holding text the parser cannot read
/// falls back to the present time.
fn parse_or_now(s: &str) -> (r: i64)
    ensures
        spec_parse_timestamp(s@) is Some ==> r == spec_parse_timestamp(s@)->0,
{
    match parse_timestamp(s) {
        Some(t) => t,
        None => now_unix_seconds(),
    }
}

/// Clone a borrowed string.
fn copy_str(s: &str) -> (r: String)
    ensures
        r@ == s@,
{
    String::from_str(s)
}

/// Clone the five fields of a message row.
fn copy_row5(rows: &Vec<(String, String, String, String, String)>, i: usize) -> (r: (
    String,
    String,
    String,
    String,
    String,
))
    requires
        i < rows@.len(),
    ensures
        r.0@ == rows@[i as int].0@,
        r.1@ == rows@[i as int].1@,
        r.2@ == rows@[i as int].2@,
        r.3@ == rows@[i as int].3@,
        r.4@ == rows@[i as int].4@,
{
    let row = &rows[i];
    (row.0.clone(), row.1.clone(), row.2.clone(), row.3.clone(), row.4.clone())
}

/// Clone the six fields of a task row.
fn copy_row6(rows: &Vec<(String, String, String, String, String, String)>, i: usize) -> (r: (
    String,
    String,
    String,
    String,
    String,
    String,
))
    requires
        i < rows@.len(),
    ensures
        r.0@ == rows@[i as int].0@,
        r.1@ == rows@[i as int].1@,
        r.2@ == rows@[i as int].2@,
        r.3@ == rows@[i as int].3@,
        r.4@ == rows@[i as int].4@,
        r.5@ == rows@[i as int].5@,
{
    let row = &rows[i];
    (row.0.clone(), row.1.clone(), row.2.clone(), row.3.clone(), row.4.clone(), row.5.clone())
}

} // verus!
