//! The SQLite index of the vault: files, their chunks, and the FTS5 table
//! that the chunk triggers keep in step with them.
//!
//! SQLite does the storing and the searching; what a statement does to the
//! database, and what a query returns, depend on the database and are not
//! stated. A [`StorageManager`] keeps, as ghost state, the history of the
//! calls it made and of SQLite's answers: its contracts say which statement,
//! with which parameters, each method hands to SQLite, and what it returns
//! for each answer.
use vstd::prelude::*;

use crate::error::JeanneError;
use crate::json::{json_title_of, title_from_json};
use crate::models::{opt_string_view, IndexedChunk, SearchResult, VaultStats};
use crate::paths::{file_stem, path_file_stem};
use crate::sqlite::{
    connect, connect_in_memory, opened_at, opened_in_memory, query_i64, query_search_rows,
    query_usize, run_batch, run_statement, Database, Issued,
};
use crate::text::{decimal, i64_to_decimal, trim, trim_ws};

verus! {

/// A value bound to a statement parameter.
pub enum SqlValue {
    Text(String),
    Integer(i64),
    Null,
}

/// The mathematical content of a [`SqlValue`].
pub enum SqlValueView {
    Text(Seq<char>),
    Integer(i64),
    Null,
}

impl View for SqlValue {
    type V = SqlValueView;

    open spec fn view(&self) -> SqlValueView {
        match self {
            SqlValue::Text(s) => SqlValueView::Text(s@),
            SqlValue::Integer(i) => SqlValueView::Integer(*i),
            SqlValue::Null => SqlValueView::Null,
        }
    }
}

/// The views of a parameter list.
pub open spec fn params_view(v: Seq<SqlValue>) -> Seq<SqlValueView> {
    v.map_values(|p: SqlValue| p@)
}

/// One row of the search query, as SQLite returns it.
pub struct SearchRow {
    pub chunk_id: String,
    pub file_path: String,
    pub snippet: String,
    /// The BM25 score, written by SQLite with 17 significant digits, enough
    /// to read back the same double.
    pub score: String,
    pub statut: String,
    pub date_creation: i64,
    pub frontmatter_json: Option<String>,
}

/// The pragma set on every new connection.
pub const FOREIGN_KEYS_SQL: &'static str = "PRAGMA foreign_keys = ON;";

/// The pragmas and the schema of the index: the `files` and `chunks`
/// tables, the `fts_notes` FTS5 table, and the triggers that copy every
/// insertion, deletion and update of a chunk into `fts_notes`.
pub const SCHEMA_SQL: &'static str = r#"
PRAGMA journal_mode = WAL;
PRAGMA synchronous = NORMAL;
PRAGMA foreign_keys = ON;
PRAGMA busy_timeout = 5000;

CREATE TABLE IF NOT EXISTS files (
    file_path TEXT PRIMARY KEY,
    file_hash TEXT NOT NULL,
    last_modified INTEGER NOT NULL,
    frontmatter_json TEXT
);

CREATE TABLE IF NOT EXISTS chunks (
    chunk_id TEXT PRIMARY KEY,
    file_path TEXT NOT NULL,
    chunk_index INTEGER NOT NULL,
    content TEXT NOT NULL,
    token_count INTEGER NOT NULL,
    note_type TEXT NOT NULL,
    statut TEXT NOT NULL,
    date_creation INTEGER NOT NULL,
    FOREIGN KEY(file_path) REFERENCES files(file_path) ON DELETE CASCADE
);

CREATE VIRTUAL TABLE IF NOT EXISTS fts_notes USING fts5(
    chunk_id UNINDEXED,
    content,
    file_path UNINDEXED,
    tokenize = 'porter unicode61'
);

CREATE TRIGGER IF NOT EXISTS chunks_ai AFTER INSERT ON chunks BEGIN
    INSERT INTO fts_notes(chunk_id, content, file_path)
    VALUES (new.chunk_id, new.content, new.file_path);
END;

CREATE TRIGGER IF NOT EXISTS chunks_ad AFTER DELETE ON chunks BEGIN
    DELETE FROM fts_notes WHERE chunk_id = old.chunk_id;
END;

CREATE TRIGGER IF NOT EXISTS chunks_au AFTER UPDATE ON chunks BEGIN
    DELETE FROM fts_notes WHERE chunk_id = old.chunk_id;
    INSERT INTO fts_notes(chunk_id, content, file_path)
    VALUES (new.chunk_id, new.content, new.file_path);
END;
"#;

/// Inserts a chunk, or replaces every column of the chunk with the same id.
pub const UPSERT_CHUNK_SQL: &'static str = r#"
INSERT INTO chunks (
    chunk_id, file_path, chunk_index, content,
    token_count, note_type, statut, date_creation
) VALUES (?1, ?2, ?3, ?4, ?5, ?6, ?7, ?8)
ON CONFLICT(chunk_id) DO UPDATE SET
    file_path = excluded.file_path,
    chunk_index = excluded.chunk_index,
    content = excluded.content,
    token_count = excluded.token_count,
    note_type = excluded.note_type,
    statut = excluded.statut,
    date_creation = excluded.date_creation;
"#;

/// Deletes one chunk by id.
pub const DELETE_CHUNK_SQL: &'static str = "DELETE FROM chunks WHERE chunk_id = ?1;";

/// Inserts a file, or updates the hash, date and front matter of the file
/// with the same path (its chunks stay).
pub const UPSERT_FILE_SQL: &'static str = r#"
INSERT INTO files (file_path, file_hash, last_modified, frontmatter_json)
VALUES (?1, ?2, ?3, ?4)
ON CONFLICT(file_path) DO UPDATE SET
    file_hash = excluded.file_hash,
    last_modified = excluded.last_modified,
    frontmatter_json = excluded.frontmatter_json;
"#;

/// Deletes one file by path; its chunks go with it.
pub const DELETE_FILE_SQL: &'static str = "DELETE FROM files WHERE file_path = ?1;";

/// The BM25 full-text query: best matches first, with a highlighted snippet.
pub const SEARCH_SQL: &'static str = r#"
SELECT
    f.chunk_id,
    c.file_path,
    snippet(fts_notes, 1, '<mark>', '</mark>', '...', 32) AS snippet,
    printf('%.17g', -bm25(fts_notes)) AS score_text,
    c.statut,
    c.date_creation,
    fi.frontmatter_json,
    -bm25(fts_notes) AS score
FROM fts_notes f
JOIN chunks c ON c.chunk_id = f.chunk_id
LEFT JOIN files fi ON fi.file_path = c.file_path
WHERE fts_notes MATCH ?1
ORDER BY score DESC
LIMIT ?2
"#;

/// Counts the indexed files.
pub const COUNT_FILES_SQL: &'static str = "SELECT COUNT(*) FROM files";

/// Counts the indexed chunks.
pub const COUNT_CHUNKS_SQL: &'static str = "SELECT COUNT(*) FROM chunks";

/// The latest modification date among the indexed files (0 when none).
pub const LAST_SCAN_SQL: &'static str = "SELECT COALESCE(MAX(last_modified), 0) FROM files";

/// The parameters of the chunk upsert, in column order; the counters are
/// converted to SQLite integers as `usize as i64` does.
pub open spec fn chunk_params_spec(c: IndexedChunk) -> Seq<SqlValueView> {
    seq![
        SqlValueView::Text(c.chunk_id@),
        SqlValueView::Text(c.file_path@),
        SqlValueView::Integer(c.chunk_index as i64),
        SqlValueView::Text(c.content@),
        SqlValueView::Integer(c.token_count as i64),
        SqlValueView::Text(c.note_type@),
        SqlValueView::Text(c.statut@),
        SqlValueView::Integer(c.date_creation),
    ]
}

/// The parameters of the chunk upsert for `chunk`.
pub fn chunk_params(chunk: &IndexedChunk) -> (r: Vec<SqlValue>)
    ensures
        params_view(r@) == chunk_params_spec(*chunk),
{
    let mut v: Vec<SqlValue> = Vec::new();
    v.push(SqlValue::Text(chunk.chunk_id.clone()));
    v.push(SqlValue::Text(chunk.file_path.clone()));
    v.push(SqlValue::Integer(chunk.chunk_index as i64));
    v.push(SqlValue::Text(chunk.content.clone()));
    v.push(SqlValue::Integer(chunk.token_count as i64));
    v.push(SqlValue::Text(chunk.note_type.clone()));
    v.push(SqlValue::Text(chunk.statut.clone()));
    v.push(SqlValue::Integer(chunk.date_creation));
    assert(params_view(v@) =~= chunk_params_spec(*chunk));
    v
}

/// The parameters of the file upsert, in column order; a missing front
/// matter is stored as NULL.
pub open spec fn file_params_spec(
    file_path: Seq<char>,
    file_hash: Seq<char>,
    last_modified: i64,
    frontmatter_json: Option<Seq<char>>,
) -> Seq<SqlValueView> {
    seq![
        SqlValueView::Text(file_path),
        SqlValueView::Text(file_hash),
        SqlValueView::Integer(last_modified),
        match frontmatter_json {
            Some(j) => SqlValueView::Text(j),
            None => SqlValueView::Null,
        },
    ]
}

/// The parameters of the file upsert.
pub fn file_params(
    file_path: &str,
    file_hash: &str,
    last_modified: i64,
    frontmatter_json: Option<&str>,
) -> (r: Vec<SqlValue>)
    ensures
        params_view(r@) == file_params_spec(
            file_path@,
            file_hash@,
            last_modified,
            match frontmatter_json {
                Some(j) => Some(j@),
                None => None,
            },
        ),
{
    let mut v: Vec<SqlValue> = Vec::new();
    v.push(SqlValue::Text(String::from_str(file_path)));
    v.push(SqlValue::Text(String::from_str(file_hash)));
    v.push(SqlValue::Integer(last_modified));
    match frontmatter_json {
        Some(j) => v.push(SqlValue::Text(String::from_str(j))),
        None => v.push(SqlValue::Null),
    }
    assert(params_view(v@) =~= file_params_spec(
        file_path@,
        file_hash@,
        last_modified,
        match frontmatter_json {
            Some(j) => Some(j@),
            None => None,
        },
    ));
    v
}

/// The single text parameter of a delete by key.
pub fn key_params(key: &str) -> (r: Vec<SqlValue>)
    ensures
        params_view(r@) == seq![SqlValueView::Text(key@)],
{
    let mut v: Vec<SqlValue> = Vec::new();
    v.push(SqlValue::Text(String::from_str(key)));
    assert(params_view(v@) =~= seq![SqlValueView::Text(key@)]);
    v
}

/// The number of hits a search returns when the caller names none.
pub const DEFAULT_SEARCH_LIMIT: usize = 20;

/// The number of hits asked for: the caller's, else [`DEFAULT_SEARCH_LIMIT`].
pub fn requested_limit(limit: Option<usize>) -> (r: usize)
    ensures
        r == match limit {
            Some(l) => l,
            None => 20,
        },
{
    match limit {
        Some(l) => l,
        None => DEFAULT_SEARCH_LIMIT,
    }
}

/// The row limit handed to SQLite: `limit` when it fits an `i64`, else 50.
pub open spec fn sql_limit_spec(limit: usize) -> i64 {
    if limit <= i64::MAX {
        limit as i64
    } else {
        50
    }
}

/// The row limit handed to SQLite for `limit`.
pub fn sql_limit(limit: usize) -> (r: i64)
    ensures
        r == sql_limit_spec(limit),
{
    let wide: u64 = limit as u64;
    if wide <= 9223372036854775807u64 {
        limit as i64
    } else {
        50
    }
}

/// The title of a hit: the `title` recorded in the file's front matter,
/// else the stem of the file path, else the file path itself.
pub open spec fn search_title(file_path: Seq<char>, frontmatter_json: Option<Seq<char>>) -> Seq<
    char,
> {
    let recorded = match frontmatter_json {
        Some(j) => json_title_of(j),
        None => None,
    };
    match recorded {
        Some(t) => t,
        None => match path_file_stem(file_path) {
            Some(s) => s,
            None => file_path,
        },
    }
}

/// `res` is the search result made from `row`.
pub open spec fn result_of_row(res: SearchResult, row: SearchRow) -> bool {
    &&& res.chunk_id@ == row.chunk_id@
    &&& res.file_path@ == row.file_path@
    &&& res.title@ == search_title(row.file_path@, opt_string_view(row.frontmatter_json))
    &&& res.snippet@ == row.snippet@
    &&& res.score@ == row.score@
    &&& res.statut@ == row.statut@
    &&& res.date_creation@ == decimal(row.date_creation as int)
}

/// `res` holds one search result per row of `rows`, in the same order.
pub open spec fn results_of_rows(res: Seq<SearchResult>, rows: Seq<SearchRow>) -> bool {
    &&& res.len() == rows.len()
    &&& forall|i: int| 0 <= i < res.len() ==> result_of_row(#[trigger] res[i], rows[i])
}

/// Computes the title of a hit.
pub fn search_result_title(file_path: &String, frontmatter_json: &Option<String>) -> (r: String)
    ensures
        r@ == search_title(file_path@, opt_string_view(*frontmatter_json)),
{
    let recorded = match frontmatter_json {
        Some(j) => title_from_json(j.as_str()),
        None => None,
    };
    match recorded {
        Some(t) => t,
        None => match file_stem(file_path.as_str()) {
            Some(s) => s,
            None => file_path.clone(),
        },
    }
}

/// Turns one row of the search query into a search result.
pub fn search_result_from_row(row: &SearchRow) -> (r: SearchResult)
    ensures
        result_of_row(r, *row),
{
    let title = search_result_title(&row.file_path, &row.frontmatter_json);
    let date_creation = i64_to_decimal(row.date_creation);
    SearchResult {
        chunk_id: row.chunk_id.clone(),
        file_path: row.file_path.clone(),
        title,
        snippet: row.snippet.clone(),
        score: row.score.clone(),
        statut: row.statut.clone(),
        date_creation,
    }
}

/// Turns the rows of the search query into search results, in order.
pub fn search_results_from_rows(rows: &Vec<SearchRow>) -> (r: Vec<SearchResult>)
    ensures
        r.len() == rows.len(),
        forall|i: int| 0 <= i < r.len() ==> result_of_row(#[trigger] r@[i], rows@[i]),
{
    let mut out: Vec<SearchResult> = Vec::new();
    let mut i: usize = 0;
    while i < rows.len()
        invariant
            i <= rows.len(),
            out.len() == i,
            forall|k: int| 0 <= k < i ==> result_of_row(#[trigger] out@[k], rows@[k]),
        decreases rows.len() - i,
    {
        let res = search_result_from_row(&rows[i]);
        out.push(res);
        i = i + 1;
    }
    out
}

/// The match expression handed to FTS5: the query without surrounding
/// whitespace; `None` when nothing is left to search for.
pub fn fts_terms(query: &str) -> (r: Option<String>)
    ensures
        r is None <==> trim_ws(query@).len() == 0,
        r matches Some(t) ==> t@ == trim_ws(query@),
{
    let t = trim(query);
    if t.as_str().is_empty() {
        None
    } else {
        Some(t)
    }
}

/// Maps an SQLite error to the library's error.
fn db_error(e: rusqlite::Error) -> (r: JeanneError)
    ensures
        r == JeanneError::Database(e),
{
    JeanneError::Database(e)
}

/// A statement as handed to SQLite: its text and its parameters.
pub type SqlStatement = (Seq<char>, Seq<SqlValueView>);

/// What a call that returns nothing gives the library: `Ok`, or the SQLite
/// error as a database error.
pub open spec fn db_unit(outcome: Result<(), rusqlite::Error>) -> Result<(), JeanneError> {
    match outcome {
        Ok(()) => Ok(()),
        Err(e) => Err(JeanneError::Database(e)),
    }
}

/// `after` is `before` with one more call.
pub open spec fn one_more(before: Seq<Issued>, after: Seq<Issued>) -> bool {
    &&& after.len() == before.len() + 1
    &&& after.drop_last() == before
}

/// `after` begins with `before`.
pub open spec fn extends(before: Seq<Issued>, after: Seq<Issued>) -> bool {
    &&& before.len() <= after.len()
    &&& after.subrange(0, before.len() as int) == before
}

/// The calls in `after` that came after those of `before`.
pub open spec fn added(before: Seq<Issued>, after: Seq<Issued>) -> Seq<Issued> {
    after.subrange(before.len() as int, after.len() as int)
}

/// `x` ran the statement `sql` with `params`, and `r` is what it gave.
pub open spec fn ran_statement(
    x: Issued,
    sql: Seq<char>,
    params: Seq<SqlValueView>,
    r: Result<(), JeanneError>,
) -> bool {
    x matches Issued::Statement { sql: s, params: p, outcome } && s == sql && p == params && r
        == db_unit(outcome)
}

/// `x` ran the batch `sql`, and `r` is what it gave.
pub open spec fn ran_batch(x: Issued, sql: Seq<char>, r: Result<(), JeanneError>) -> bool {
    x matches Issued::Batch { sql: s, outcome } && s == sql && r == db_unit(outcome)
}

/// `h` records each of `stmts`, in order, each one succeeding.
pub open spec fn all_ran(h: Seq<Issued>, stmts: Seq<SqlStatement>) -> bool {
    &&& h.len() == stmts.len()
    &&& forall|i: int|
        0 <= i < h.len() ==> #[trigger] h[i] == Issued::Statement {
            sql: stmts[i].0,
            params: stmts[i].1,
            outcome: Ok(()),
        }
}

/// `h` records `stmts` run in order until one of them failed with `e`;
/// none after it was run.
pub open spec fn stopped_at(h: Seq<Issued>, stmts: Seq<SqlStatement>, e: rusqlite::Error) -> bool {
    &&& 1 <= h.len() <= stmts.len()
    &&& all_ran(h.drop_last(), stmts.take(h.len() - 1))
    &&& h.last() == Issued::Statement {
        sql: stmts[h.len() - 1].0,
        params: stmts[h.len() - 1].1,
        outcome: Err(e),
    }
}

/// `h` records `stmts` run in order up to the first failure; `r` is `Ok`
/// when all of them succeeded, else that failure.
pub open spec fn ran_in_order(h: Seq<Issued>, stmts: Seq<SqlStatement>, r: Result<(), JeanneError>) -> bool {
    ||| all_ran(h, stmts) && r is Ok
    ||| r matches Err(JeanneError::Database(e)) && stopped_at(h, stmts, e)
}

/// Two runs in order, one after the other, make one run of both.
pub proof fn lemma_all_ran_concat(
    h1: Seq<Issued>,
    s1: Seq<SqlStatement>,
    h2: Seq<Issued>,
    s2: Seq<SqlStatement>,
)
    requires
        all_ran(h1, s1),
        all_ran(h2, s2),
    ensures
        all_ran(h1 + h2, s1 + s2),
{
    assert forall|i: int| 0 <= i < (h1 + h2).len() implies #[trigger] (h1 + h2)[i]
        == Issued::Statement {
        sql: (s1 + s2)[i].0,
        params: (s1 + s2)[i].1,
        outcome: Ok(()),
    } by {
        if i >= h1.len() {
            assert(h2[i - h1.len()] == Issued::Statement {
                sql: s2[i - h1.len()].0,
                params: s2[i - h1.len()].1,
                outcome: Ok(()),
            });
        } else {
            assert(h1[i] == Issued::Statement { sql: s1[i].0, params: s1[i].1, outcome: Ok(()) });
        }
    }
}

/// A run that succeeded, then one that stopped, make one run that stopped.
pub proof fn lemma_stopped_concat(
    h1: Seq<Issued>,
    s1: Seq<SqlStatement>,
    h2: Seq<Issued>,
    s2: Seq<SqlStatement>,
    e: rusqlite::Error,
)
    requires
        all_ran(h1, s1),
        stopped_at(h2, s2, e),
    ensures
        stopped_at(h1 + h2, s1 + s2, e),
{
    lemma_all_ran_concat(h1, s1, h2.drop_last(), s2.take(h2.len() - 1));
    assert((h1 + h2).drop_last() =~= h1 + h2.drop_last());
    assert((s1 + s2).take((h1 + h2).len() - 1) =~= s1 + s2.take(h2.len() - 1));
    assert((s1 + s2)[(h1 + h2).len() - 1] == s2[h2.len() - 1]);
}

/// A run that stopped within the first statements of a longer list stopped
/// within that list too.
pub proof fn lemma_stopped_prefix(
    h: Seq<Issued>,
    s: Seq<SqlStatement>,
    t: Seq<SqlStatement>,
    e: rusqlite::Error,
)
    requires
        stopped_at(h, s, e),
    ensures
        stopped_at(h, s + t, e),
{
    assert((s + t).take(h.len() - 1) =~= s.take(h.len() - 1));
    assert((s + t)[h.len() - 1] == s[h.len() - 1]);
}

/// One call that ran `stmt` extends a successful run by that statement:
/// the whole is a run of both that succeeded, or that stopped at `stmt`.
pub proof fn lemma_run_one_more(
    h: Seq<Issued>,
    s: Seq<SqlStatement>,
    x: Issued,
    stmt: SqlStatement,
    r: Result<(), JeanneError>,
)
    requires
        all_ran(h, s),
        ran_statement(x, stmt.0, stmt.1, r),
    ensures
        r is Ok ==> all_ran(h.push(x), s.push(stmt)),
        r matches Err(JeanneError::Database(e)) ==> stopped_at(h.push(x), s.push(stmt), e),
        ran_in_order(h.push(x), s.push(stmt), r),
{
    assert(h.push(x).drop_last() =~= h);
    assert(s.push(stmt).take(h.len() as int) =~= s);
    if r is Ok {
        assert forall|i: int| 0 <= i < h.push(x).len() implies #[trigger] h.push(x)[i]
            == Issued::Statement {
            sql: s.push(stmt)[i].0,
            params: s.push(stmt)[i].1,
            outcome: Ok(()),
        } by {
            if i < h.len() {
                assert(h[i] == Issued::Statement { sql: s[i].0, params: s[i].1, outcome: Ok(()) });
            } else {
                let o = x->Statement_outcome;
                let u: () = o->Ok_0;
                assert(o == Ok::<(), rusqlite::Error>(u));
                assert(x == Issued::Statement { sql: stmt.0, params: stmt.1, outcome: Ok(()) });
            }
        }
    }
}

/// Local persistence of the vault index in SQLite with FTS5.
///
/// A manager holds a [`Database`]: a connection and the log of the calls
/// made on it, which only the wrappers of [`crate::sqlite`] extend. The
/// contracts say which statement, with which parameters, each method hands
/// to SQLite, and what it returns for each answer.
pub struct StorageManager {
    db: Database,
}

impl StorageManager {
    /// The calls made on the manager's connection, in order, since it was
    /// opened.
    pub closed spec fn history(&self) -> Seq<Issued> {
        self.db.calls()
    }

    /// The connection that the manager holds.
    pub closed spec fn connection(&self) -> rusqlite::Connection {
        self.db.connection()
    }

    /// Opens or creates the database at `path` and turns on foreign keys.
    /// The directory that holds it must exist.
    pub fn open(path: &str) -> (r: Result<Self, JeanneError>)
        ensures
            r matches Err(e) ==> e is Database,
            r matches Ok(s) ==> s.history() == opened_at(path@).push(pragma_run()),
    {
        let mut db = match connect(path) {
            Ok(d) => d,
            Err(e) => return Err(db_error(e)),
        };
        let out = run_batch(&mut db, FOREIGN_KEYS_SQL);
        match out {
            Ok(u) => {
                assert(out == Ok::<(), rusqlite::Error>(u));
                Ok(StorageManager { db })
            },
            Err(e) => Err(db_error(e)),
        }
    }

    /// Opens a fresh in-memory database with foreign keys on.
    pub fn open_in_memory() -> (r: Result<Self, JeanneError>)
        ensures
            r matches Err(e) ==> e is Database,
            r matches Ok(s) ==> s.history() == opened_in_memory().push(pragma_run()),
    {
        let mut db = match connect_in_memory() {
            Ok(d) => d,
            Err(e) => return Err(db_error(e)),
        };
        let out = run_batch(&mut db, FOREIGN_KEYS_SQL);
        match out {
            Ok(u) => {
                assert(out == Ok::<(), rusqlite::Error>(u));
                Ok(StorageManager { db })
            },
            Err(e) => Err(db_error(e)),
        }
    }

    /// Runs `sql` as one batch on the connection.
    pub(crate) fn execute_batch(&mut self, sql: &str) -> (r: Result<(), JeanneError>)
        ensures
            one_more(old(self).history(), final(self).history()),
            ran_batch(final(self).history().last(), sql@, r),
            final(self).connection() == old(self).connection(),
    {
        let out = run_batch(&mut self.db, sql);
        assert(self.db.calls().drop_last() =~= old(self).db.calls());
        match out {
            Ok(()) => Ok(()),
            Err(e) => Err(db_error(e)),
        }
    }

    /// Sets the pragmas (WAL journal, foreign keys, busy timeout) and creates
    /// the tables, the FTS5 table and its triggers when they are missing.
    pub fn init_schema(&mut self) -> (r: Result<(), JeanneError>)
        ensures
            one_more(old(self).history(), final(self).history()),
            ran_batch(final(self).history().last(), SCHEMA_SQL@, r),
            final(self).connection() == old(self).connection(),
    {
        self.execute_batch(SCHEMA_SQL)
    }

    fn execute(&mut self, sql: &str, params: &Vec<SqlValue>) -> (r: Result<(), JeanneError>)
        ensures
            one_more(old(self).history(), final(self).history()),
            ran_statement(final(self).history().last(), sql@, params_view(params@), r),
            final(self).connection() == old(self).connection(),
    {
        let out = run_statement(&mut self.db, sql, params);
        assert(self.db.calls().drop_last() =~= old(self).db.calls());
        match out {
            Ok(_) => Ok(()),
            Err(e) => Err(db_error(e)),
        }
    }

    /// Indexes a chunk: inserts it, or overwrites the chunk with the same id
    /// (the triggers keep `fts_notes` in step).
    pub fn index_chunk(&mut self, chunk: &IndexedChunk) -> (r: Result<(), JeanneError>)
        ensures
            one_more(old(self).history(), final(self).history()),
            ran_statement(
                final(self).history().last(),
                UPSERT_CHUNK_SQL@,
                chunk_params_spec(*chunk),
                r,
            ),
            final(self).connection() == old(self).connection(),
    {
        let params = chunk_params(chunk);
        self.execute(UPSERT_CHUNK_SQL, &params)
    }

    /// Deletes the chunk with the given id (and its FTS5 row).
    pub fn delete_chunk(&mut self, chunk_id: &str) -> (r: Result<(), JeanneError>)
        ensures
            one_more(old(self).history(), final(self).history()),
            ran_statement(
                final(self).history().last(),
                DELETE_CHUNK_SQL@,
                seq![SqlValueView::Text(chunk_id@)],
                r,
            ),
            final(self).connection() == old(self).connection(),
    {
        let params = key_params(chunk_id);
        self.execute(DELETE_CHUNK_SQL, &params)
    }

    /// Records a file: inserts it, or updates the hash, modification date and
    /// front matter of the file with the same path.
    pub fn upsert_file(
        &mut self,
        file_path: &str,
        file_hash: &str,
        last_modified: i64,
        frontmatter_json: Option<&str>,
    ) -> (r: Result<(), JeanneError>)
        ensures
            one_more(old(self).history(), final(self).history()),
            ran_statement(
                final(self).history().last(),
                UPSERT_FILE_SQL@,
                file_params_spec(
                    file_path@,
                    file_hash@,
                    last_modified,
                    match frontmatter_json {
                        Some(j) => Some(j@),
                        None => None,
                    },
                ),
                r,
            ),
            final(self).connection() == old(self).connection(),
    {
        let params = file_params(file_path, file_hash, last_modified, frontmatter_json);
        self.execute(UPSERT_FILE_SQL, &params)
    }

    /// Deletes the file with the given path; its chunks, and their FTS5 rows,
    /// go with it.
    pub fn delete_file(&mut self, file_path: &str) -> (r: Result<(), JeanneError>)
        ensures
            one_more(old(self).history(), final(self).history()),
            ran_statement(
                final(self).history().last(),
                DELETE_FILE_SQL@,
                seq![SqlValueView::Text(file_path@)],
                r,
            ),
            final(self).connection() == old(self).connection(),
    {
        let params = key_params(file_path);
        self.execute(DELETE_FILE_SQL, &params)
    }

    /// BM25 full-text search over the indexed chunks.
    ///
    /// A query that is empty once trimmed finds nothing and asks nothing of
    /// SQLite. Otherwise the trimmed query is the FTS5 match expression and
    /// the row limit is `limit` (50 when `limit` does not fit an `i64`); the
    /// rows come back best first, and each becomes a result whose title is
    /// the one recorded in its file's front matter, else the stem of its path.
    pub fn search_fts(&mut self, query: &str, limit: usize) -> (r: Result<
        Vec<SearchResult>,
        JeanneError,
    >)
        ensures
            trim_ws(query@).len() == 0 ==> r is Ok && r->Ok_0@.len() == 0 && final(self).history()
                == old(self).history(),
            trim_ws(query@).len() > 0 ==> one_more(old(self).history(), final(self).history())
                && searched(final(self).history().last(), trim_ws(query@), sql_limit_spec(limit), r),
            r matches Err(e) ==> e is Database,
            r matches Ok(v) ==> v@.len() <= sql_limit_spec(limit),
            final(self).connection() == old(self).connection(),
    {
        let terms = match fts_terms(query) {
            Some(t) => t,
            None => return Ok(Vec::new()),
        };
        let limit_i64 = sql_limit(limit);
        let out = query_search_rows(&mut self.db, SEARCH_SQL, terms.as_str(), limit_i64);
        assert(self.db.calls().drop_last() =~= old(self).db.calls());
        match out {
            Ok(rows) => {
                let ghost rv = rows@;
                let results = search_results_from_rows(&rows);
                let res: Result<Vec<SearchResult>, JeanneError> = Ok(results);
                assert(results_of_rows(res->Ok_0@, rv));
                res
            },
            Err(e) => Err(db_error(e)),
        }
    }

    /// Counts the indexed files and chunks, and finds the latest modification
    /// date among the files (0 when there is none).
    pub fn get_stats(&mut self) -> (r: Result<VaultStats, JeanneError>)
        ensures
            extends(old(self).history(), final(self).history()),
            stats_read(added(old(self).history(), final(self).history()), r),
            final(self).connection() == old(self).connection(),
    {
        let ghost h0 = self.db.calls();
        let files = query_usize(&mut self.db, COUNT_FILES_SQL);
        let ghost h1 = self.db.calls();
        let total_files = match files {
            Ok(n) => n,
            Err(e) => {
                assert(added(h0, h1) =~= seq![h1.last()]);
                assert(h1.subrange(0, h0.len() as int) =~= h0);
                return Err(db_error(e));
            },
        };
        let chunks = query_usize(&mut self.db, COUNT_CHUNKS_SQL);
        let ghost h2 = self.db.calls();
        let total_chunks = match chunks {
            Ok(n) => n,
            Err(e) => {
                assert(added(h0, h2) =~= seq![h1.last(), h2.last()]);
                assert(h2.subrange(0, h0.len() as int) =~= h0);
                return Err(db_error(e));
            },
        };
        let last = query_i64(&mut self.db, LAST_SCAN_SQL);
        let ghost h3 = self.db.calls();
        assert(added(h0, h3) =~= seq![h1.last(), h2.last(), h3.last()]);
        assert(h3.subrange(0, h0.len() as int) =~= h0);
        match last {
            Ok(n) => Ok(VaultStats { total_files, total_chunks, last_scan_timestamp: n }),
            Err(e) => Err(db_error(e)),
        }
    }

    /// The underlying SQLite connection, for inspection and tests.
    pub fn raw_connection(&self) -> (r: &rusqlite::Connection)
        ensures
            *r == self.connection(),
    {
        self.db.raw()
    }
}

/// The foreign-keys pragma that every newly opened manager runs, run with
/// success.
pub open spec fn pragma_run() -> Issued {
    Issued::Batch { sql: FOREIGN_KEYS_SQL@, outcome: Ok(()) }
}

/// `x` ran the search query with the match expression `terms` and the row
/// limit `limit`, and `r` is what it gave: one result per row, in order,
/// or the error as a database error.
pub open spec fn searched(
    x: Issued,
    terms: Seq<char>,
    limit: i64,
    r: Result<Vec<SearchResult>, JeanneError>,
) -> bool {
    x matches Issued::Search { sql, terms: t, limit: l, outcome } && sql == SEARCH_SQL@ && t
        == terms && l == limit && match outcome {
        Ok(rows) => r matches Ok(v) && results_of_rows(v@, rows),
        Err(e) => r == Err::<Vec<SearchResult>, JeanneError>(JeanneError::Database(e)),
    }
}

/// The row limit handed to SQLite is the caller's limit whenever it fits
/// an `i64`, and never negative.
pub proof fn lemma_row_limit_is_the_callers(limit: usize)
    ensures
        limit <= i64::MAX ==> sql_limit_spec(limit) == limit,
        sql_limit_spec(limit) >= 0,
{
}

/// Each hit of a search is the row it was read from: the same chunk, the
/// path of the note that holds it (the row's `file_path`, not its chunk
/// id), its snippet, score and status, its date in decimal, and as title
/// the one recorded in the note's front matter or else the stem of that
/// path; hits come one per row, in the order of the rows.
pub proof fn lemma_hits_are_their_rows(
    x: Issued,
    terms: Seq<char>,
    limit: i64,
    r: Result<Vec<SearchResult>, JeanneError>,
)
    requires
        searched(x, terms, limit, r),
        r is Ok,
    ensures
        x->Search_outcome is Ok,
        r->Ok_0@.len() == x->Search_outcome->Ok_0.len(),
        forall|i: int|
            0 <= i < r->Ok_0@.len() ==> {
                let hit = #[trigger] r->Ok_0@[i];
                let row = x->Search_outcome->Ok_0[i];
                &&& hit.chunk_id@ == row.chunk_id@
                &&& hit.file_path@ == row.file_path@
                &&& hit.snippet@ == row.snippet@
                &&& hit.score@ == row.score@
                &&& hit.statut@ == row.statut@
                &&& hit.date_creation@ == decimal(row.date_creation as int)
                &&& hit.title@ == (match row.frontmatter_json {
                    Some(j) => match json_title_of(j@) {
                        Some(t) => t,
                        None => match path_file_stem(row.file_path@) {
                            Some(stem) => stem,
                            None => row.file_path@,
                        },
                    },
                    None => match path_file_stem(row.file_path@) {
                        Some(stem) => stem,
                        None => row.file_path@,
                    },
                })
            },
{
    let rows = x->Search_outcome->Ok_0;
    let v = r->Ok_0@;
    assert forall|i: int| 0 <= i < v.len() implies result_of_row(#[trigger] v[i], rows[i]) by {}
}

/// `h` records the statistics queries, in order, until the first that
/// failed, and `r` holds the three values read, or that failure.
pub open spec fn stats_read(h: Seq<Issued>, r: Result<VaultStats, JeanneError>) -> bool {
    h.len() >= 1 && match h[0] {
        Issued::Count { sql, outcome: Err(e) } => sql == COUNT_FILES_SQL@ && h.len() == 1 && r
            == Err::<VaultStats, JeanneError>(JeanneError::Database(e)),
        Issued::Count { sql, outcome: Ok(files) } => sql == COUNT_FILES_SQL@ && h.len() >= 2
            && match h[1] {
            Issued::Count { sql: s2, outcome: Err(e) } => s2 == COUNT_CHUNKS_SQL@ && h.len() == 2
                && r == Err::<VaultStats, JeanneError>(JeanneError::Database(e)),
            Issued::Count { sql: s2, outcome: Ok(chunks) } => s2 == COUNT_CHUNKS_SQL@ && h.len()
                == 3 && match h[2] {
                Issued::Number { sql: s3, outcome: Err(e) } => s3 == LAST_SCAN_SQL@ && r
                    == Err::<VaultStats, JeanneError>(JeanneError::Database(e)),
                Issued::Number { sql: s3, outcome: Ok(last) } => s3 == LAST_SCAN_SQL@ && r == Ok::<
                    VaultStats,
                    JeanneError,
                >(VaultStats { total_files: files, total_chunks: chunks, last_scan_timestamp: last }),
                _ => false,
            },
            _ => false,
        },
        _ => false,
    }
}

} // verus!
