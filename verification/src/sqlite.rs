//! The connection the library runs its statements on, with the record of
//! every statement it ran and of what SQLite answered.

use vstd::prelude::*;
use rusqlite::types::{Value, ValueRef};
use crate::db::{SqlParam, SqlCell, ParamValue, param_values};

verus! {

/// What SQLite answered to a query: an error before any row, or one entry
/// per row it stepped (the row, or the error that stopped the stepping).
pub type QueryAnswer = Result<Seq<Result<Seq<SqlCell>, rusqlite::Error>>, rusqlite::Error>;

/// One statement the library ran on a connection, with SQLite's answer.
pub enum Stmt {
    /// A statement run for its effect, with its bound values, and the
    /// number of rows it changed or the error.
    Execute { sql: Seq<char>, params: Seq<ParamValue>, result: Result<usize, rusqlite::Error> },
    /// Statements run together without parameters.
    Batch { sql: Seq<char>, result: Result<(), rusqlite::Error> },
    /// A question for the row id of the latest insert, and the id.
    RowId { id: i64 },
    /// A query with its bound values, and its rows.
    Query { sql: Seq<char>, params: Seq<ParamValue>, result: QueryAnswer },
}

/// A SQLite connection. Every statement the library runs goes through it
/// and is recorded, in order, with what SQLite answered.
pub struct Db {
    conn: rusqlite::Connection,
    log: Ghost<Seq<Stmt>>,
}

impl Db {
    /// The statements run on this connection so far, oldest first.
    pub closed spec fn log(&self) -> Seq<Stmt> {
        self.log@
    }

    /// A connection on which nothing has been run yet.
    pub fn new(conn: rusqlite::Connection) -> (db: Db)
        ensures
            db.log() == Seq::<Stmt>::empty(),
    {
        Db { conn, log: Ghost(Seq::empty()) }
    }

    /// The underlying connection, for reading outside the library.
    pub fn connection(&self) -> &rusqlite::Connection {
        &self.conn
    }
}

/// A query's answer as plain values: every row as its sequence of cells.
pub open spec fn answer_view(
    r: Result<Vec<Result<Vec<SqlCell>, rusqlite::Error>>, rusqlite::Error>,
) -> QueryAnswer {
    match r {
        Ok(items) => Ok(
            items@.map_values(
                |it: Result<Vec<SqlCell>, rusqlite::Error>|
                    match it {
                        Ok(row) => Ok(row@),
                        Err(e) => Err(e),
                    },
            ),
        ),
        Err(e) => Err(e),
    }
}

/// The SQLite value bound for a parameter: the integer, text or null it
/// holds, one for one.
#[verifier::external_body]
fn sql_value(p: &SqlParam) -> Value {
    match p {
        SqlParam::Int(i) => Value::Integer(*i),
        SqlParam::Text(s) => Value::Text(s.clone()),
        SqlParam::Null => Value::Null,
    }
}

/// Runs one statement with the parameters bound in order
/// (`rusqlite::Connection::execute`) and records it with SQLite's answer.
/// What it changes, and whether it succeeds, depends on the database: of
/// the answer nothing is stated but that it is the one recorded.
#[verifier::external_body]
pub(crate) fn execute(db: &mut Db, sql: &str, params: &Vec<SqlParam>) -> (r: Result<
    usize,
    rusqlite::Error,
>)
    ensures
        final(db).log() == old(db).log().push(
            Stmt::Execute { sql: sql@, params: param_values(params@), result: r },
        ),
{
    db.conn.execute(sql, rusqlite::params_from_iter(params.iter().map(sql_value)))
}

/// Runs statements without parameters (`rusqlite::Connection::execute_batch`)
/// and records them with SQLite's answer, which depends on the database.
#[verifier::external_body]
pub(crate) fn execute_batch(db: &mut Db, sql: &str) -> (r: Result<(), rusqlite::Error>)
    ensures
        final(db).log() == old(db).log().push(Stmt::Batch { sql: sql@, result: r }),
{
    db.conn.execute_batch(sql)
}

/// The row id of the latest successful insert on the connection
/// (`rusqlite::Connection::last_insert_rowid`), recorded; it depends on the
/// database.
#[verifier::external_body]
pub(crate) fn last_insert_rowid(db: &mut Db) -> (r: i64)
    ensures
        final(db).log() == old(db).log().push(Stmt::RowId { id: r }),
{
    db.conn.last_insert_rowid()
}

/// Prepares a query (`rusqlite::Connection::prepare`), runs it with the
/// parameters bound in order (`rusqlite::Statement::query_map`) and takes
/// every column of every row as it is stored (`rusqlite::Row::get_ref`),
/// texts as their bytes: one entry per row stepped, an error where stepping
/// failed. The query is recorded with that answer, which depends on the
/// database.
#[verifier::external_body]
pub(crate) fn query_values(db: &mut Db, sql: &str, params: &Vec<SqlParam>) -> (r: Result<
    Vec<Result<Vec<SqlCell>, rusqlite::Error>>,
    rusqlite::Error,
>)
    ensures
        final(db).log() == old(db).log().push(
            Stmt::Query { sql: sql@, params: param_values(params@), result: answer_view(r) },
        ),
{
    let mut stmt = db.conn.prepare(sql)?;
    let n = stmt.column_count();
    let rows = stmt.query_map(rusqlite::params_from_iter(params.iter().map(sql_value)), |row| {
        (0..n).map(|i| row.get_ref(i).map(|v| match v {
            ValueRef::Null => SqlCell::Null,
            ValueRef::Integer(x) => SqlCell::Int(x),
            ValueRef::Real(_) => SqlCell::Real,
            ValueRef::Text(t) => SqlCell::Text(t.to_vec()),
            ValueRef::Blob(b) => SqlCell::Blob(b.to_vec()),
        })).collect()
    })?;
    Ok(rows.collect())
}

} // verus!
