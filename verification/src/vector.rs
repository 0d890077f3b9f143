//! Vector database for semantic search: an embeddings table with a
//! string-to-rowid map bridging to the optional KNN virtual table.
//! Vectors travel as little-endian float bytes, four bytes a dimension;
//! without the native KNN extension, search yields nothing and insert
//! is a silent no-op.
//!
//! The verifier sees the database through three model functions: the
//! set of table names, the id-to-rowid map, and the set of
//! `(dimensionality, rowid)` rows held by the KNN tables.

use vstd::prelude::*;
use vstd::string::StringExecFns;

use crate::errors::Error;
use crate::text::{dec_seq, decimal_string};

verus! {

/// The names of the tables the store's database holds.
pub uninterp spec fn db_tables(c: rusqlite::Connection) -> Set<Seq<char>>;

/// The `vec_id_map` table: entry id to its stable rowid.
pub uninterp spec fn db_id_map(c: rusqlite::Connection) -> Map<Seq<char>, int>;

/// The rows of the KNN virtual tables, as
/// `(dimensionality, rowid)` pairs.
pub uninterp spec fn db_vec_rows(c: rusqlite::Connection) -> Set<(int, int)>;

/// The name of the KNN table for one dimensionality.
pub open spec fn vec_table_text(dimensions: int) -> Seq<char> {
    "vec_embeddings_"@ + dec_seq(dimensions)
}

/// Does the database hold no tables and no rows at all?
pub open spec fn vec_db_empty(c: rusqlite::Connection) -> bool {
    &&& db_tables(c) == Set::<Seq<char>>::empty()
    &&& db_id_map(c) == Map::<Seq<char>, int>::empty()
    &&& db_vec_rows(c) == Set::<(int, int)>::empty()
}

/// Check that the KNN extension answers on this connection.
///
/// Relies on `rusqlite::Connection::query_row` with the extension's
/// version function: the call succeeds only where the extension is
/// loaded.
#[verifier::external_body]
fn probe_vec_extension(c: &rusqlite::Connection) -> (r: bool)
{
    c.query_row("SELECT vec_version()", [], |row| row.get::<_, String>(0)).is_ok()
}

/// Open a fresh private in-memory database.
///
/// Relies on `rusqlite::Connection::open_in_memory`: a new in-memory
/// database holds no tables and no rows.
#[verifier::external_body]
fn open_in_memory_connection() -> (r: Result<rusqlite::Connection, String>)
    ensures
        r is Ok ==> vec_db_empty(r->Ok_0),
{
    match rusqlite::Connection::open_in_memory() {
        Ok(c) => Ok(c),
        Err(e) => Err(e.to_string()),
    }
}

/// Open (creating if missing) a database file.
///
/// Relies on `rusqlite::Connection::open`. What the file holds is
/// whatever an earlier process left there, so nothing is promised of
/// the contents.
#[verifier::external_body]
fn open_path_connection(path: &str) -> (r: Result<rusqlite::Connection, String>)
{
    match rusqlite::Connection::open(std::path::Path::new(path)) {
        Ok(c) => Ok(c),
        Err(e) => Err(e.to_string()),
    }
}

/// Create the embeddings table and the rowid map if they are missing.
///
/// Relies on `rusqlite::Connection::execute_batch` with idempotent
/// `CREATE TABLE IF NOT EXISTS` statements: afterwards both tables
/// exist, no table disappears (bookkeeping tables such as the
/// autoincrement sequence may also appear), and no rows of the modeled
/// tables change, also on partial failure.
#[verifier::external_body]
fn init_vector_schema(c: &mut rusqlite::Connection) -> (r: Result<(), String>)
    ensures
        db_tables(*old(c)).subset_of(db_tables(*final(c))),
        db_id_map(*final(c)) == db_id_map(*old(c)),
        db_vec_rows(*final(c)) == db_vec_rows(*old(c)),
        r is Ok ==> db_tables(*final(c)).contains("embeddings"@) && db_tables(
            *final(c),
        ).contains("vec_id_map"@),
{
    c.execute_batch(
        "CREATE TABLE IF NOT EXISTS embeddings (
             id TEXT PRIMARY KEY,
             source TEXT NOT NULL,
             content TEXT NOT NULL,
             embedding BLOB,
             metadata TEXT DEFAULT '{}',
             created_at TEXT NOT NULL DEFAULT (datetime('now'))
         );
         CREATE TABLE IF NOT EXISTS vec_id_map (
             rowid INTEGER PRIMARY KEY AUTOINCREMENT,
             entry_id TEXT NOT NULL UNIQUE
         );",
    ).map_err(|e| e.to_string())
}

/// Does a table of this name exist?
///
/// Relies on `rusqlite::Connection::query_row` against
/// `sqlite_master`.
#[verifier::external_body]
fn table_exists_row(c: &rusqlite::Connection, name: &str) -> (r: Result<bool, String>)
    ensures
        r is Ok ==> r->Ok_0 == db_tables(*c).contains(name@),
{
    c.query_row(
        "SELECT count(*) > 0 FROM sqlite_master WHERE type='table' AND name=?1",
        (name,),
        |row| row.get(0),
    ).map_err(|e| e.to_string())
}

/// Create the KNN virtual table for one dimensionality.
///
/// Relies on `rusqlite::Connection::execute_batch` with
/// `CREATE VIRTUAL TABLE ... USING vec0`: the named table exists
/// afterwards (its shadow tables may appear beside it), an empty new
/// table holds no rows, and the modeled rows and id map are untouched.
#[verifier::external_body]
fn create_vec_table(c: &mut rusqlite::Connection, table_name: &str, dimensions: usize) -> (r:
    Result<(), String>)
    ensures
        db_tables(*old(c)).subset_of(db_tables(*final(c))),
        db_id_map(*final(c)) == db_id_map(*old(c)),
        db_vec_rows(*final(c)) == db_vec_rows(*old(c)),
        r is Ok ==> db_tables(*final(c)).contains(table_name@),
{
    let sql = format!("CREATE VIRTUAL TABLE [{table_name}] USING vec0(embedding float[{dimensions}])");
    c.execute_batch(&sql).map_err(|e| e.to_string())
}

/// Record an entry id in the rowid map if it is new.
///
/// Relies on `rusqlite::Connection::execute` with `INSERT OR IGNORE`
/// into an `AUTOINCREMENT` table: a present id is left alone, a fresh
/// id gets a rowid no existing entry carries, and a failed statement
/// changes nothing.
#[verifier::external_body]
fn upsert_id_map(c: &mut rusqlite::Connection, id: &str) -> (r: Result<(), String>)
    ensures
        db_tables(*final(c)) == db_tables(*old(c)),
        db_vec_rows(*final(c)) == db_vec_rows(*old(c)),
        r is Ok && db_id_map(*old(c)).contains_key(id@) ==> db_id_map(*final(c)) == db_id_map(
            *old(c),
        ),
        r is Ok && !db_id_map(*old(c)).contains_key(id@) ==> exists|rid: int|
            #![auto]
            db_id_map(*final(c)) == db_id_map(*old(c)).insert(id@, rid) && (forall|k: Seq<char>|
                db_id_map(*old(c)).contains_key(k) ==> #[trigger] db_id_map(*old(c))[k] != rid),
        r is Err ==> db_id_map(*final(c)) == db_id_map(*old(c)),
{
    c.execute("INSERT OR IGNORE INTO vec_id_map (entry_id) VALUES (?1)", (id,))
        .map(|_| ())
        .map_err(|e| e.to_string())
}

/// The mapped rowid of an entry id.
///
/// Relies on `rusqlite::Connection::query_row`: the stored value for a
/// present key, an error for a missing one.
#[verifier::external_body]
fn query_mapped_rowid(c: &rusqlite::Connection, id: &str) -> (r: Result<i64, String>)
    ensures
        r is Ok ==> db_id_map(*c).contains_key(id@) && r->Ok_0 as int == db_id_map(*c)[id@],
        !db_id_map(*c).contains_key(id@) ==> r is Err,
{
    c.query_row("SELECT rowid FROM vec_id_map WHERE entry_id = ?1", (id,), |row| row.get(0))
        .map_err(|e| e.to_string())
}

/// Write one embedding row of the KNN table, replacing an old row of
/// the same rowid.
///
/// Relies on `rusqlite::Connection::execute` with
/// `INSERT OR REPLACE`: afterwards the table of this dimensionality
/// holds the rowid; a failed statement changes nothing.
#[verifier::external_body]
fn replace_vec_row(
    c: &mut rusqlite::Connection,
    table_name: &str,
    dimensions: usize,
    rowid: i64,
    blob: &Vec<u8>,
) -> (r: Result<(), String>)
    requires
        table_name@ == vec_table_text(dimensions as int),
    ensures
        db_tables(*final(c)) == db_tables(*old(c)),
        db_id_map(*final(c)) == db_id_map(*old(c)),
        r is Ok ==> db_vec_rows(*final(c)) == db_vec_rows(*old(c)).insert(
            (dimensions as int, rowid as int),
        ),
        r is Err ==> db_vec_rows(*final(c)) == db_vec_rows(*old(c)),
{
    c.execute(
        &format!("INSERT OR REPLACE INTO [{table_name}] (rowid, embedding) VALUES (?1, ?2)"),
        (rowid, blob.as_slice()),
    ).map(|_| ()).map_err(|e| e.to_string())
}

/// The nearest entry ids for a query vector, nearest first.
///
/// Relies on `rusqlite::Connection::prepare` / `query_map` with the KNN
/// table's `MATCH ... AND k = ?` form, which yields at most `k` rows
/// ordered by ascending distance; the join brings back only ids whose
/// mapped rowid is a stored row of this dimensionality.
#[verifier::external_body]
fn knn_query(
    c: &rusqlite::Connection,
    table_name: &str,
    dimensions: usize,
    blob: &Vec<u8>,
    k: i64,
) -> (r: Result<Vec<String>, String>)
    requires
        k >= 0,
        table_name@ == vec_table_text(dimensions as int),
    ensures
        r is Ok ==> r->Ok_0@.len() <= k,
        r is Ok ==> forall|i: int|
            0 <= i < r->Ok_0@.len() ==> db_id_map(*c).contains_key(
                (#[trigger] r->Ok_0@[i])@,
            ) && db_vec_rows(*c).contains((dimensions as int, db_id_map(*c)[r->Ok_0@[i]@])),
{
    let mut stmt = c.prepare(
        &format!(
            "SELECT m.entry_id FROM [{table_name}] v JOIN vec_id_map m ON m.rowid = v.rowid WHERE v.embedding MATCH ?1 AND k = ?2 ORDER BY v.distance ASC",
        ),
    ).map_err(|e| e.to_string())?;
    let rows = stmt.query_map((blob.as_slice(), k), |row| row.get(0)).map_err(|e| e.to_string())?;
    let mut out = Vec::new();
    for row in rows {
        out.push(row.map_err(|e| e.to_string())?);
    }
    Ok(out)
}

/// Vector database for semantic search and memory embeddings; callers
/// fall back to their own similarity search when the KNN extension is
/// absent.
pub struct VectorStore {
    conn: rusqlite::Connection,
    vec_enabled: bool,
}

impl VectorStore {
    /// Is the KNN extension answering on this store's connection?
    pub closed spec fn spec_vec_enabled(&self) -> bool {
        self.vec_enabled
    }

    /// The names of the tables the store holds.
    pub closed spec fn tables(&self) -> Set<Seq<char>> {
        db_tables(self.conn)
    }

    /// The entry-id-to-rowid map.
    pub closed spec fn id_map(&self) -> Map<Seq<char>, int> {
        db_id_map(self.conn)
    }

    /// The `(dimensionality, rowid)` rows of the KNN tables.
    pub closed spec fn vec_rows(&self) -> Set<(int, int)> {
        db_vec_rows(self.conn)
    }

    /// Open a store on a database file. The KNN extension takes part
    /// only where the embedding process registered it before this call.
    pub fn open(path: &str) -> (r: Result<VectorStore, Error>)
        ensures
            r is Ok ==> r->Ok_0.tables().contains("embeddings"@) && r->Ok_0.tables().contains(
                "vec_id_map"@,
            ),
            r is Err ==> r->Err_0 is Database,
    {
        let conn = match open_path_connection(path) {
            Ok(c) => c,
            Err(e) => {
                return Err(Error::Database(e));
            },
        };
        Self::finish_open(conn)
    }

    /// Open a store on a fresh private in-memory database.
    pub fn in_memory() -> (r: Result<VectorStore, Error>)
        ensures
            r is Ok ==> r->Ok_0.tables().contains("embeddings"@) && r->Ok_0.tables().contains(
                "vec_id_map"@,
            ),
            r is Ok ==> r->Ok_0.id_map() == Map::<Seq<char>, int>::empty(),
            r is Ok ==> r->Ok_0.vec_rows() == Set::<(int, int)>::empty(),
            r is Err ==> r->Err_0 is Database,
    {
        let conn = match open_in_memory_connection() {
            Ok(c) => c,
            Err(e) => {
                return Err(Error::Database(e));
            },
        };
        Self::finish_open(conn)
    }

    /// Probe the extension and run the migrations.
    fn finish_open(conn: rusqlite::Connection) -> (r: Result<VectorStore, Error>)
        ensures
            r is Ok ==> db_tables(conn).subset_of(r->Ok_0.tables()),
            r is Ok ==> r->Ok_0.tables().contains("embeddings"@) && r->Ok_0.tables().contains(
                "vec_id_map"@,
            ),
            r is Ok ==> r->Ok_0.id_map() == db_id_map(conn),
            r is Ok ==> r->Ok_0.vec_rows() == db_vec_rows(conn),
            r is Err ==> r->Err_0 is Database,
    {
        let mut conn = conn;
        let vec_enabled = probe_vec_extension(&conn);
        match init_vector_schema(&mut conn) {
            Ok(()) => Ok(VectorStore { conn, vec_enabled }),
            Err(e) => Err(Error::Database(e)),
        }
    }

    /// Whether the KNN extension is available on this store.
    pub fn vec_enabled(&self) -> (r: bool)
        ensures
            r == self.spec_vec_enabled(),
    {
        self.vec_enabled
    }

    /// Does a table of this name exist in the store's database?
    pub fn table_exists(&self, name: &str) -> (r: Result<bool, Error>)
        ensures
            r is Ok ==> r->Ok_0 == self.tables().contains(name@),
            r is Err ==> r->Err_0 is Database,
    {
        match table_exists_row(&self.conn, name) {
            Ok(b) => Ok(b),
            Err(e) => Err(Error::Database(e)),
        }
    }

    /// Create or verify the KNN virtual table for one dimensionality; a
    /// store without the extension leaves this a no-op.
    pub fn ensure_vec_table(&mut self, dimensions: usize) -> (r: Result<(), Error>)
        ensures
            final(self).spec_vec_enabled() == old(self).spec_vec_enabled(),
            final(self).id_map() == old(self).id_map(),
            final(self).vec_rows() == old(self).vec_rows(),
            old(self).tables().subset_of(final(self).tables()),
            !old(self).spec_vec_enabled() ==> r is Ok && final(self).tables() == old(
                self,
            ).tables(),
            old(self).spec_vec_enabled() && r is Ok ==> final(self).tables().contains(
                vec_table_text(dimensions as int),
            ),
            r is Err ==> r->Err_0 is Database,
    {
        if !self.vec_enabled {
            return Ok(());
        }
        let table_name = vec_table_name(dimensions);
        let exists = match table_exists_row(&self.conn, table_name.as_str()) {
            Ok(b) => b,
            Err(e) => {
                return Err(Error::Database(e));
            },
        };
        if !exists {
            match create_vec_table(&mut self.conn, table_name.as_str(), dimensions) {
                Ok(()) => {},
                Err(e) => {
                    return Err(Error::Database(e));
                },
            }
        }
        Ok(())
    }

    /// Insert an embedding, given as little-endian float bytes, four a
    /// dimension; the entry id maps to a stable rowid and the row of
    /// that rowid is written, so repeating an insert leaves the same
    /// state as one insert. A store without the extension ignores the
    /// call and is unchanged.
    pub fn insert_embedding(&mut self, id: &str, blob: &Vec<u8>, dimensions: usize) -> (r: Result<
        (),
        Error,
    >)
        requires
            blob@.len() == 4 * dimensions,
        ensures
            final(self).spec_vec_enabled() == old(self).spec_vec_enabled(),
            final(self).tables() == old(self).tables(),
            !old(self).spec_vec_enabled() ==> r is Ok && final(self).id_map() == old(
                self,
            ).id_map() && final(self).vec_rows() == old(self).vec_rows(),
            old(self).spec_vec_enabled() && r is Ok ==> exists|rid: int|
                #![auto]
                {
                    &&& final(self).id_map() == old(self).id_map().insert(id@, rid)
                    &&& (old(self).id_map().contains_key(id@) ==> rid == old(self).id_map()[id@])
                    &&& final(self).vec_rows() == old(self).vec_rows().insert(
                        (dimensions as int, rid),
                    )
                },
            r is Err ==> r->Err_0 is Database,
            r is Err ==> final(self).vec_rows() == old(self).vec_rows(),
    {
        if !self.vec_enabled {
            return Ok(());
        }
        let table_name = vec_table_name(dimensions);
        match upsert_id_map(&mut self.conn, id) {
            Ok(()) => {},
            Err(e) => {
                return Err(Error::Database(e));
            },
        }
        let rowid = match query_mapped_rowid(&self.conn, id) {
            Ok(v) => v,
            Err(e) => {
                return Err(Error::Database(e));
            },
        };
        match replace_vec_row(&mut self.conn, table_name.as_str(), dimensions, rowid, blob) {
            Ok(()) => {
                proof {
                    if old(self).id_map().contains_key(id@) {
                        assert(self.id_map() =~= old(self).id_map().insert(
                            id@,
                            old(self).id_map()[id@],
                        ));
                    }
                }
                Ok(())
            },
            Err(e) => Err(Error::Database(e)),
        }
    }

    /// The entry ids of the nearest stored embeddings, nearest first,
    /// at most `limit` of them, each an id whose mapped rowid is stored
    /// at this dimensionality; empty without the extension.
    pub fn search_nearest(&self, query_blob: &Vec<u8>, dimensions: usize, limit: usize) -> (r:
        Result<Vec<String>, Error>)
        requires
            query_blob@.len() == 4 * dimensions,
            limit <= 0x7fff_ffff_ffff_ffff,
        ensures
            !self.spec_vec_enabled() ==> r is Ok && r->Ok_0@.len() == 0,
            r is Ok ==> r->Ok_0@.len() <= limit,
            r is Ok ==> forall|i: int|
                0 <= i < r->Ok_0@.len() ==> self.id_map().contains_key(
                    (#[trigger] r->Ok_0@[i])@,
                ) && self.vec_rows().contains((dimensions as int, self.id_map()[r->Ok_0@[i]@])),
            r is Err ==> r->Err_0 is Database,
    {
        if !self.vec_enabled {
            return Ok(Vec::new());
        }
        let table_name = vec_table_name(dimensions);
        match knn_query(&self.conn, table_name.as_str(), dimensions, query_blob, limit as i64) {
            Ok(ids) => Ok(ids),
            Err(e) => Err(Error::Database(e)),
        }
    }
}

/// The KNN table name for one dimensionality.
fn vec_table_name(dimensions: usize) -> (r: String)
    ensures
        r@ == vec_table_text(dimensions as int),
{
    let mut r = String::new();
    r.append("vec_embeddings_");
    let n = decimal_string(dimensions as u64);
    r.append(n.as_str());
    r
}

} // verus!
