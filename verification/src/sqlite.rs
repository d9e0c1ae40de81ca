//! The SQLite connection of the index, and the log of the calls made on it.
//!
//! A [`Database`] holds a `rusqlite` connection and, as ghost state, the
//! calls made on it in order, each with what SQLite answered. The log is
//! private to this module and only the trusted wrappers below, each of
//! which makes one call on the connection, say how it grows: by exactly
//! the call that the wrapper made. The rest of the library reads the log
//! and states its contracts over it.
use vstd::prelude::*;

use crate::storage::{SearchRow, SqlValue, SqlValueView, SEARCH_SQL};

verus! {

#[verifier::external_type_specification]
#[verifier::external_body]
pub struct ExConnection(rusqlite::Connection);

/// One call made on a connection, with what SQLite answered.
pub enum Issued {
    /// The database file at `path` was opened (`Connection::open`).
    Open { path: Seq<char> },
    /// A fresh in-memory database was opened (`Connection::open_in_memory`).
    OpenInMemory,
    /// A batch of statements, run with `execute_batch`.
    Batch { sql: Seq<char>, outcome: Result<(), rusqlite::Error> },
    /// One statement with parameters, run with `execute`.
    Statement { sql: Seq<char>, params: Seq<SqlValueView>, outcome: Result<(), rusqlite::Error> },
    /// A query whose single value was read as a count.
    Count { sql: Seq<char>, outcome: Result<usize, rusqlite::Error> },
    /// A query whose single value was read as an integer.
    Number { sql: Seq<char>, outcome: Result<i64, rusqlite::Error> },
    /// The search query, with its match expression and its row limit.
    Search {
        sql: Seq<char>,
        terms: Seq<char>,
        limit: i64,
        outcome: Result<Seq<SearchRow>, rusqlite::Error>,
    },
}

/// An open SQLite connection with the log of the calls made on it.
pub struct Database {
    conn: rusqlite::Connection,
    calls: Ghost<Seq<Issued>>,
}

impl Database {
    /// The calls made on this connection, in order, since it was opened.
    pub closed spec fn calls(&self) -> Seq<Issued> {
        self.calls@
    }

    /// The connection itself.
    pub closed spec fn connection(&self) -> rusqlite::Connection {
        self.conn
    }

    /// The underlying connection.
    pub fn raw(&self) -> (r: &rusqlite::Connection)
        ensures
            *r == self.connection(),
    {
        &self.conn
    }
}

/// The log of a database just opened at `path`.
pub open spec fn opened_at(path: Seq<char>) -> Seq<Issued> {
    seq![Issued::Open { path }]
}

/// The log of a database just opened in memory.
pub open spec fn opened_in_memory() -> Seq<Issued> {
    seq![Issued::OpenInMemory]
}

/// What a statement's outcome records: success or the error, without the
/// number of rows it changed.
pub open spec fn without_count(r: Result<usize, rusqlite::Error>) -> Result<(), rusqlite::Error> {
    match r {
        Ok(_) => Ok(()),
        Err(e) => Err(e),
    }
}

/// What the search query's outcome records: the rows read, or the error.
pub open spec fn rows_read(r: Result<Vec<SearchRow>, rusqlite::Error>) -> Result<
    Seq<SearchRow>,
    rusqlite::Error,
> {
    match r {
        Ok(rows) => Ok(rows@),
        Err(e) => Err(e),
    }
}

/// Opens (or creates) the database file at `path` with `Connection::open`.
/// Claims that a database it returns has the opening of `path` as its only
/// call; whether it succeeds depends on the file system.
#[verifier::external_body]
pub(crate) fn connect(path: &str) -> (r: Result<Database, rusqlite::Error>)
    ensures
        r matches Ok(db) ==> db.calls() == opened_at(path@),
{
    let conn = rusqlite::Connection::open(path)?;
    let calls: Ghost<Seq<Issued>> = Ghost(opened_at(path@));
    Ok(Database { conn, calls })
}

/// Opens a fresh in-memory database with `Connection::open_in_memory`.
/// Claims that a database it returns has that opening as its only call.
#[verifier::external_body]
pub(crate) fn connect_in_memory() -> (r: Result<Database, rusqlite::Error>)
    ensures
        r matches Ok(db) ==> db.calls() == opened_in_memory(),
{
    let conn = rusqlite::Connection::open_in_memory()?;
    let calls: Ghost<Seq<Issued>> = Ghost(opened_in_memory());
    Ok(Database { conn, calls })
}

/// Runs a batch of SQL statements with `Connection::execute_batch`. Claims
/// that the connection stays and that its log grows by this batch and its
/// outcome; the outcome depends on the database.
#[verifier::external_body]
pub(crate) fn run_batch(db: &mut Database, sql: &str) -> (r: Result<(), rusqlite::Error>)
    ensures
        final(db).connection() == old(db).connection(),
        final(db).calls() == old(db).calls().push(Issued::Batch { sql: sql@, outcome: r }),
{
    db.conn.execute_batch(sql)
}

/// Runs one statement with `Connection::execute`, binding each parameter,
/// in order, as the SQLite value of the same kind (`types::Value`). Claims
/// that the connection stays and that its log grows by this statement, its
/// parameters and its outcome; the outcome depends on the database.
#[verifier::external_body]
pub(crate) fn run_statement(db: &mut Database, sql: &str, params: &Vec<SqlValue>) -> (r: Result<
    usize,
    rusqlite::Error,
>)
    ensures
        final(db).connection() == old(db).connection(),
        final(db).calls() == old(db).calls().push(
            Issued::Statement {
                sql: sql@,
                params: params@.map_values(|p: SqlValue| p@),
                outcome: without_count(r),
            },
        ),
{
    let values = params.iter().map(
        |p| match p {
            SqlValue::Text(s) => rusqlite::types::Value::Text(s.clone()),
            SqlValue::Integer(i) => rusqlite::types::Value::Integer(*i),
            SqlValue::Null => rusqlite::types::Value::Null,
        },
    );
    db.conn.execute(sql, rusqlite::params_from_iter(values))
}

/// Reads the first column of the first row of `sql` as a `usize` with
/// `Connection::query_row`. Claims that the connection stays and that its
/// log grows by this query and its outcome.
#[verifier::external_body]
pub(crate) fn query_usize(db: &mut Database, sql: &str) -> (r: Result<usize, rusqlite::Error>)
    ensures
        final(db).connection() == old(db).connection(),
        final(db).calls() == old(db).calls().push(Issued::Count { sql: sql@, outcome: r }),
{
    db.conn.query_row(sql, [], |row| row.get(0))
}

/// Reads the first column of the first row of `sql` as an `i64` with
/// `Connection::query_row`. Claims that the connection stays and that its
/// log grows by this query and its outcome.
#[verifier::external_body]
pub(crate) fn query_i64(db: &mut Database, sql: &str) -> (r: Result<i64, rusqlite::Error>)
    ensures
        final(db).connection() == old(db).connection(),
        final(db).calls() == old(db).calls().push(Issued::Number { sql: sql@, outcome: r }),
{
    db.conn.query_row(sql, [], |row| row.get(0))
}

/// Runs the search query [`SEARCH_SQL`] with the match expression and the
/// row limit (`Connection::prepare`, `Statement::query_map`), reading the
/// first seven columns of each row into a [`SearchRow`]. Claims that the
/// connection stays, that its log grows by this query and the rows read
/// (or the error), and that no more rows come back than the limit, which
/// that query hands to SQLite's `LIMIT` (a non-negative limit bounds the
/// rows a `SELECT` yields); which rows come back depends on the database.
#[verifier::external_body]
pub(crate) fn query_search_rows(db: &mut Database, sql: &str, terms: &str, limit: i64) -> (r: Result<
    Vec<SearchRow>,
    rusqlite::Error,
>)
    requires
        sql@ == SEARCH_SQL@,
        0 <= limit,
    ensures
        r matches Ok(rows) ==> rows@.len() <= limit,
        final(db).connection() == old(db).connection(),
        final(db).calls() == old(db).calls().push(
            Issued::Search { sql: sql@, terms: terms@, limit, outcome: rows_read(r) },
        ),
{
    let mut stmt = db.conn.prepare(sql)?;
    let rows = stmt.query_map(
        (terms, limit),
        |row|
            Ok(SearchRow {
                chunk_id: row.get(0)?,
                file_path: row.get(1)?,
                snippet: row.get(2)?,
                score: row.get(3)?,
                statut: row.get(4)?,
                date_creation: row.get(5)?,
                frontmatter_json: row.get(6)?,
            }),
    )?;
    rows.collect()
}

} // verus!
