//! The calls into SQLite, through rusqlite. Each is a thin wrapper whose
//! contract says only what holds of every reply.

use vstd::prelude::*;
use rusqlite::types::Value;
use rusqlite::{params_from_iter, Connection};
use crate::rows::SqlValue;

verus! {

/// A connection to a SQLite database; opaque here.
#[verifier::external_type_specification]
#[verifier::external_body]
pub struct ExConnection(rusqlite::Connection);

/// Relies on rusqlite's `Connection::open`: opens, or creates, the database
/// file at `path`.
#[verifier::external_body]
pub(crate) fn open_connection(path: &str) -> (r: Result<Connection, rusqlite::Error>) {
    Connection::open(path)
}

/// Relies on rusqlite's `Connection::execute_batch`: runs the statements of
/// `sql`, which take no parameters, one after another.
#[verifier::external_body]
pub(crate) fn execute_batch(c: &Connection, sql: &str) -> (r: Result<(), rusqlite::Error>) {
    c.execute_batch(sql)
}

/// Relies on rusqlite's `Connection::prepare` and `Statement::query_map`: runs
/// `sql` with `texts` bound to its first parameters, in order, and `id`, if
/// given, to the one after them; reads, from each row it yields, the first
/// `width` cells, as `Row::get` hands them out. A row with fewer cells is an
/// error (`InvalidColumnIndex`).
#[verifier::external_body]
pub(crate) fn query(c: &Connection, sql: &str, texts: &Vec<String>, id: Option<i64>, width: usize) -> (r:
    Result<Vec<Vec<SqlValue>>, rusqlite::Error>)
    ensures
        r matches Ok(rows) ==> forall|i: int| 0 <= i < rows.len() ==> (#[trigger] rows[i]).len() == width,
{
    let mut stmt = c.prepare(sql)?;
    let bound = params_from_iter(texts.iter().cloned().map(Value::Text).chain(id.map(Value::Integer)));
    let rows = stmt.query_map(bound, |row| (0..width).map(|i| row.get(i)).collect::<Result<Vec<Value>, _>>())?;
    rows.map(|cells| Ok(cells?.into_iter().map(|v| match v {
        Value::Null => SqlValue::Null,
        Value::Integer(n) => SqlValue::Integer(n),
        Value::Real(_) => SqlValue::Real,
        Value::Text(t) => SqlValue::Text(t),
        Value::Blob(b) => SqlValue::Blob(b),
    }).collect())).collect()
}

/// Relies on rusqlite's `Error::sqlite_extended_error_code`: the extended
/// result code of a failure that SQLite itself reported, if it was one.
#[verifier::external_body]
pub(crate) fn extended_code(e: &rusqlite::Error) -> (r: Option<i32>) {
    e.sqlite_extended_error_code()
}

} // verus!
