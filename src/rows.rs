//! The three persisted relations, and the decoding of a record that the
//! store returns into a typed row.

use vstd::prelude::*;
use crate::error::CxdError;
use crate::sqlite::execute_batch;

verus! {

/// The command relation; `name` is unique.
pub const CMD_SCHEMA: &'static str = "CREATE TABLE IF NOT EXISTS cxd_cmd (
    id      INTEGER PRIMARY KEY AUTOINCREMENT,
    name    TEXT NOT NULL,
    cmd     TEXT NOT NULL,
    dir     TEXT NOT NULL,
    UNIQUE(id)
    UNIQUE(name)
)";

/// The argument relation; each row belongs to one command and goes with it.
pub const ARG_SCHEMA: &'static str = "CREATE TABLE IF NOT EXISTS cxd_arg (
    id          INTEGER PRIMARY KEY AUTOINCREMENT,
    cmd_id      INTEGER NOT NULL,
    data        TEXT NOT NULL,
    UNIQUE(id)
    FOREIGN KEY(cmd_id) REFERENCES cxd_cmd(id)
    ON DELETE CASCADE ON UPDATE CASCADE
)";

/// The environment relation; each row belongs to one command and goes with it.
pub const ENV_SCHEMA: &'static str = "CREATE TABLE IF NOT EXISTS cxd_env (
    id          INTEGER PRIMARY KEY AUTOINCREMENT,
    cmd_id      INTEGER NOT NULL,
    key         TEXT NOT NULL,
    value       TEXT NOT NULL,
    UNIQUE(id)
    FOREIGN KEY(cmd_id) REFERENCES cxd_cmd(id)
    ON DELETE CASCADE ON UPDATE CASCADE
)";

/// One cell of a record, as the store hands it back.
#[derive(Debug)]
pub enum SqlValue {
    Null,
    Integer(i64),
    /// A floating-point cell; no relation here holds one, so its value is not kept.
    Real,
    Text(String),
    Blob(Vec<u8>),
}

/// The integer in cell `i` of `rec`, if that cell exists and holds one.
pub open spec fn int_at(rec: Seq<SqlValue>, i: int) -> Option<i64> {
    if 0 <= i < rec.len() {
        match rec[i] {
            SqlValue::Integer(n) => Some(n),
            _ => None,
        }
    } else {
        None
    }
}

/// The text in cell `i` of `rec`, if that cell exists and holds one.
pub open spec fn text_at(rec: Seq<SqlValue>, i: int) -> Option<Seq<char>> {
    if 0 <= i < rec.len() {
        match rec[i] {
            SqlValue::Text(s) => Some(s@),
            _ => None,
        }
    } else {
        None
    }
}

/// The first of `cols` (each a column index and whether it holds text) whose
/// cell in `rec` is missing or of the wrong kind.
pub open spec fn first_bad(rec: Seq<SqlValue>, cols: Seq<(int, bool)>) -> Option<int>
    decreases cols.len(),
{
    if cols.len() == 0 {
        None
    } else {
        let (i, is_text) = cols[0];
        let ok = if is_text { text_at(rec, i) is Some } else { int_at(rec, i) is Some };
        if !ok { Some(i) } else { first_bad(rec, cols.drop_first()) }
    }
}

/// Reads the integer in cell `i`.
pub fn int_cell(rec: &Vec<SqlValue>, i: usize) -> (r: Option<i64>)
    ensures
        r == int_at(rec@, i as int),
{
    if i < rec.len() {
        match &rec[i] {
            SqlValue::Integer(n) => Some(*n),
            _ => None,
        }
    } else {
        None
    }
}

/// Reads the text in cell `i`.
pub fn text_cell(rec: &Vec<SqlValue>, i: usize) -> (r: Option<String>)
    ensures
        match r {
            Some(s) => text_at(rec@, i as int) == Some(s@),
            None => text_at(rec@, i as int) is None,
        },
{
    if i < rec.len() {
        match &rec[i] {
            SqlValue::Text(s) => Some(s.clone()),
            _ => None,
        }
    } else {
        None
    }
}

/// A row of the command relation: `id`, `name`, `cmd`, `dir`, in that order.
#[derive(Debug)]
pub struct CmdRow {
    pub id: i64,
    pub name: String,
    pub cmd: String,
    pub dir: String,
}

/// The columns of a command record, in order, and which of them hold text.
pub open spec fn cmd_columns() -> Seq<(int, bool)> {
    seq![(0, false), (1, true), (2, true), (3, true)]
}

/// A row of the argument relation: `id`, `cmd_id`, `data`, in that order.
#[derive(Debug)]
pub struct ArgRow {
    pub id: i64,
    pub cmd_id: i64,
    pub data: String,
}

/// The columns of an argument record, in order, and which of them hold text.
pub open spec fn arg_columns() -> Seq<(int, bool)> {
    seq![(0, false), (1, false), (2, true)]
}

/// A row of the environment relation: `id`, `cmd_id`, `key`, `value`, in that order.
#[derive(Debug)]
pub struct EnvRow {
    pub id: i64,
    pub cmd_id: i64,
    pub key: String,
    pub value: String,
}

/// The columns of an environment record, in order, and which of them hold text.
pub open spec fn env_columns() -> Seq<(int, bool)> {
    seq![(0, false), (1, false), (2, true), (3, true)]
}

/// The error for a record whose first unusable field is `column`.
fn bad_column(column: usize) -> (e: CxdError)
    ensures
        e == (CxdError::RowDecode { column }),
{
    CxdError::RowDecode { column }
}

impl CmdRow {
    /// Creates the relation, unless it exists already.
    pub fn init(c: &rusqlite::Connection) -> (r: Result<(), CxdError>)
        ensures
            r matches Err(e) ==> e is Sql,
    {
        match execute_batch(c, CMD_SCHEMA) {
            Ok(()) => Ok(()),
            Err(e) => Err(CxdError::Sql(e)),
        }
    }

    /// Decodes a record of the command relation.
    pub fn from_record(rec: &Vec<SqlValue>) -> (r: Result<CmdRow, CxdError>)
        ensures
            match r {
                Ok(row) => {
                    &&& first_bad(rec@, cmd_columns()) is None
                    &&& int_at(rec@, 0) == Some(row.id)
                    &&& text_at(rec@, 1) == Some(row.name@)
                    &&& text_at(rec@, 2) == Some(row.cmd@)
                    &&& text_at(rec@, 3) == Some(row.dir@)
                },
                Err(e) => first_bad(rec@, cmd_columns()) matches Some(c)
                    && e == (CxdError::RowDecode { column: c as usize }),
            },
    {
        proof {
            reveal_with_fuel(first_bad, 5);
        }
        let id = match int_cell(rec, 0) {
            Some(n) => n,
            None => return Err(bad_column(0)),
        };
        let name = match text_cell(rec, 1) {
            Some(s) => s,
            None => return Err(bad_column(1)),
        };
        let cmd = match text_cell(rec, 2) {
            Some(s) => s,
            None => return Err(bad_column(2)),
        };
        let dir = match text_cell(rec, 3) {
            Some(s) => s,
            None => return Err(bad_column(3)),
        };
        Ok(CmdRow { id, name, cmd, dir })
    }
}

impl ArgRow {
    /// Creates the relation, unless it exists already.
    pub fn init(c: &rusqlite::Connection) -> (r: Result<(), CxdError>)
        ensures
            r matches Err(e) ==> e is Sql,
    {
        match execute_batch(c, ARG_SCHEMA) {
            Ok(()) => Ok(()),
            Err(e) => Err(CxdError::Sql(e)),
        }
    }

    /// Decodes a record of the argument relation.
    pub fn from_record(rec: &Vec<SqlValue>) -> (r: Result<ArgRow, CxdError>)
        ensures
            match r {
                Ok(row) => {
                    &&& first_bad(rec@, arg_columns()) is None
                    &&& int_at(rec@, 0) == Some(row.id)
                    &&& int_at(rec@, 1) == Some(row.cmd_id)
                    &&& text_at(rec@, 2) == Some(row.data@)
                },
                Err(e) => first_bad(rec@, arg_columns()) matches Some(c)
                    && e == (CxdError::RowDecode { column: c as usize }),
            },
    {
        proof {
            reveal_with_fuel(first_bad, 4);
        }
        let id = match int_cell(rec, 0) {
            Some(n) => n,
            None => return Err(bad_column(0)),
        };
        let cmd_id = match int_cell(rec, 1) {
            Some(n) => n,
            None => return Err(bad_column(1)),
        };
        let data = match text_cell(rec, 2) {
            Some(s) => s,
            None => return Err(bad_column(2)),
        };
        Ok(ArgRow { id, cmd_id, data })
    }
}

impl EnvRow {
    /// Creates the relation, unless it exists already.
    pub fn init(c: &rusqlite::Connection) -> (r: Result<(), CxdError>)
        ensures
            r matches Err(e) ==> e is Sql,
    {
        match execute_batch(c, ENV_SCHEMA) {
            Ok(()) => Ok(()),
            Err(e) => Err(CxdError::Sql(e)),
        }
    }

    /// Decodes a record of the environment relation.
    pub fn from_record(rec: &Vec<SqlValue>) -> (r: Result<EnvRow, CxdError>)
        ensures
            match r {
                Ok(row) => {
                    &&& first_bad(rec@, env_columns()) is None
                    &&& int_at(rec@, 0) == Some(row.id)
                    &&& int_at(rec@, 1) == Some(row.cmd_id)
                    &&& text_at(rec@, 2) == Some(row.key@)
                    &&& text_at(rec@, 3) == Some(row.value@)
                },
                Err(e) => first_bad(rec@, env_columns()) matches Some(c)
                    && e == (CxdError::RowDecode { column: c as usize }),
            },
    {
        proof {
            reveal_with_fuel(first_bad, 5);
        }
        let id = match int_cell(rec, 0) {
            Some(n) => n,
            None => return Err(bad_column(0)),
        };
        let cmd_id = match int_cell(rec, 1) {
            Some(n) => n,
            None => return Err(bad_column(1)),
        };
        let key = match text_cell(rec, 2) {
            Some(s) => s,
            None => return Err(bad_column(2)),
        };
        let value = match text_cell(rec, 3) {
            Some(s) => s,
            None => return Err(bad_column(3)),
        };
        Ok(EnvRow { id, cmd_id, key, value })
    }
}

/// Whether every record of `recs` decodes under `cols`.
pub open spec fn all_decode(recs: Seq<Vec<SqlValue>>, cols: Seq<(int, bool)>) -> bool {
    forall|i: int| 0 <= i < recs.len() ==> (first_bad((#[trigger] recs[i])@, cols) is None)
}

/// The error for the first record of `recs` that does not decode under `cols`.
pub open spec fn first_record_error(
    recs: Seq<Vec<SqlValue>>,
    cols: Seq<(int, bool)>,
    e: CxdError,
) -> bool {
    exists|i: int|
        {
            &&& 0 <= i < recs.len()
            &&& all_decode(recs.take(i), cols)
            &&& (#[trigger] first_bad(recs[i]@, cols)) matches Some(c)
            &&& e == (CxdError::RowDecode { column: c as usize })
        }
}

impl ArgRow {
    /// Decodes every record of the argument relation, keeping their order.
    pub fn from_records(recs: &Vec<Vec<SqlValue>>) -> (r: Result<Vec<ArgRow>, CxdError>)
        ensures
            r is Ok <==> all_decode(recs@, arg_columns()),
            r matches Ok(rows) ==> rows.len() == recs.len() && forall|i: int|
                0 <= i < rows.len() ==> {
                    &&& int_at(recs@[i]@, 0) == Some(#[trigger] rows@[i].id)
                    &&& int_at(recs@[i]@, 1) == Some(rows@[i].cmd_id)
                    &&& text_at(recs@[i]@, 2) == Some(rows@[i].data@)
                },
            r matches Err(e) ==> first_record_error(recs@, arg_columns(), e),
    {
        let mut rows: Vec<ArgRow> = Vec::new();
        let mut i: usize = 0;
        while i < recs.len()
            invariant
                i <= recs.len(),
                rows.len() == i,
                all_decode(recs@.take(i as int), arg_columns()),
                forall|k: int|
                    0 <= k < i ==> {
                        &&& int_at(recs@[k]@, 0) == Some(#[trigger] rows@[k].id)
                        &&& int_at(recs@[k]@, 1) == Some(rows@[k].cmd_id)
                        &&& text_at(recs@[k]@, 2) == Some(rows@[k].data@)
                    },
            decreases recs.len() - i,
        {
            match ArgRow::from_record(&recs[i]) {
                Ok(row) => rows.push(row),
                Err(e) => {
                    assert(!all_decode(recs@, arg_columns()));
                    assert(first_record_error(recs@, arg_columns(), e));
                    return Err(e);
                },
            }
            i += 1;
            assert(all_decode(recs@.take(i as int), arg_columns())) by {
                assert forall|k: int| 0 <= k < i implies (first_bad(
                    (#[trigger] recs@.take(i as int)[k])@,
                    arg_columns(),
                ) is None) by {
                    if k < i - 1 {
                        assert(recs@.take(i as int)[k] == recs@.take(i - 1)[k]);
                    }
                }
            }
        }
        assert(recs@.take(i as int) =~= recs@);
        Ok(rows)
    }
}

impl EnvRow {
    /// Decodes every record of the environment relation, keeping their order.
    pub fn from_records(recs: &Vec<Vec<SqlValue>>) -> (r: Result<Vec<EnvRow>, CxdError>)
        ensures
            r is Ok <==> all_decode(recs@, env_columns()),
            r matches Ok(rows) ==> rows.len() == recs.len() && forall|i: int|
                0 <= i < rows.len() ==> {
                    &&& int_at(recs@[i]@, 0) == Some(#[trigger] rows@[i].id)
                    &&& int_at(recs@[i]@, 1) == Some(rows@[i].cmd_id)
                    &&& text_at(recs@[i]@, 2) == Some(rows@[i].key@)
                    &&& text_at(recs@[i]@, 3) == Some(rows@[i].value@)
                },
            r matches Err(e) ==> first_record_error(recs@, env_columns(), e),
    {
        let mut rows: Vec<EnvRow> = Vec::new();
        let mut i: usize = 0;
        while i < recs.len()
            invariant
                i <= recs.len(),
                rows.len() == i,
                all_decode(recs@.take(i as int), env_columns()),
                forall|k: int|
                    0 <= k < i ==> {
                        &&& int_at(recs@[k]@, 0) == Some(#[trigger] rows@[k].id)
                        &&& int_at(recs@[k]@, 1) == Some(rows@[k].cmd_id)
                        &&& text_at(recs@[k]@, 2) == Some(rows@[k].key@)
                        &&& text_at(recs@[k]@, 3) == Some(rows@[k].value@)
                    },
            decreases recs.len() - i,
        {
            match EnvRow::from_record(&recs[i]) {
                Ok(row) => rows.push(row),
                Err(e) => {
                    assert(!all_decode(recs@, env_columns()));
                    assert(first_record_error(recs@, env_columns(), e));
                    return Err(e);
                },
            }
            i += 1;
            assert(all_decode(recs@.take(i as int), env_columns())) by {
                assert forall|k: int| 0 <= k < i implies (first_bad(
                    (#[trigger] recs@.take(i as int)[k])@,
                    env_columns(),
                ) is None) by {
                    if k < i - 1 {
                        assert(recs@.take(i as int)[k] == recs@.take(i - 1)[k]);
                    }
                }
            }
        }
        assert(recs@.take(i as int) =~= recs@);
        Ok(rows)
    }
}

} // verus!
