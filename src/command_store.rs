//! The store of commands: three relations in one SQLite database, and the
//! operations over whole commands that callers use.

use vstd::prelude::*;
use rusqlite::Connection;
use crate::cli::texts;
use crate::command::{Command, dir_text, matches_record};
use crate::error::CxdError;
use crate::resolver::{Resolution, Scope, resolve, resolve_spec, strict_dir, current_dir};
use crate::rows::{ArgRow, CmdRow, EnvRow, SqlValue, int_at};
use crate::sqlite::{execute_batch, extended_code, open_connection, query};

verus! {

/// The extended result code with which SQLite rejects a row that repeats a
/// value of a `UNIQUE` column.
pub const SQLITE_CONSTRAINT_UNIQUE: i32 = 2067;

const FOREIGN_KEYS_ON: &'static str = "PRAGMA foreign_keys = ON";

const BEGIN: &'static str = "BEGIN";

const COMMIT: &'static str = "COMMIT";

const ROLLBACK: &'static str = "ROLLBACK";

const INSERT_CMD: &'static str = "INSERT INTO cxd_cmd (name, cmd, dir) VALUES (?1, ?2, ?3) RETURNING id";

const INSERT_ARG: &'static str = "INSERT INTO cxd_arg (data, cmd_id) VALUES (?1, ?2)";

const INSERT_ENV: &'static str = "INSERT INTO cxd_env (key, value, cmd_id) VALUES (?1, ?2, ?3)";

const SELECT_BY_NAME: &'static str = "SELECT id, name, cmd, dir FROM cxd_cmd WHERE name = ?1";

const SELECT_ALL: &'static str = "SELECT id, name, cmd, dir FROM cxd_cmd ORDER BY id";

const SELECT_ARGS: &'static str = "SELECT id, cmd_id, data FROM cxd_arg WHERE cmd_id = ?1 ORDER BY id";

const SELECT_ENVS: &'static str = "SELECT id, cmd_id, key, value FROM cxd_env WHERE cmd_id = ?1 ORDER BY id";

const DELETE_BY_NAME: &'static str = "DELETE FROM cxd_cmd WHERE name = ?1 RETURNING id";

const DELETE_BY_ID: &'static str = "DELETE FROM cxd_cmd WHERE id = ?1 RETURNING id";

/// Whether a failed insert failed because the name is already taken, from
/// the extended result code of the failure.
pub fn is_duplicate(code: Option<i32>) -> (r: bool)
    ensures
        r == (code == Some(SQLITE_CONSTRAINT_UNIQUE)),
{
    match code {
        Some(c) => c == SQLITE_CONSTRAINT_UNIQUE,
        None => false,
    }
}

/// The id in the first record that `RETURNING id` yielded.
pub fn new_id(recs: &Vec<Vec<SqlValue>>) -> (r: Result<i64, CxdError>)
    ensures
        match r {
            Ok(id) => recs.len() > 0 && int_at(recs@[0]@, 0) == Some(id),
            Err(e) => (recs.len() == 0 || int_at(recs@[0]@, 0) is None) && e == (CxdError::RowDecode {
                column: 0,
            }),
        },
{
    if recs.len() == 0 {
        return Err(CxdError::RowDecode { column: 0 });
    }
    match crate::rows::int_cell(&recs[0], 0) {
        Some(id) => Ok(id),
        None => Err(CxdError::RowDecode { column: 0 }),
    }
}

/// The texts bound to a new command row: its name, its command and its
/// directory as stored (the empty text for none).
pub fn command_params(cmd: &Command) -> (r: Vec<String>)
    ensures
        texts(r@) == seq![cmd.name@, cmd.command@, dir_text(cmd.dir)],
{
    let dir = match &cmd.dir {
        Some(d) => d.clone(),
        None => String::new(),
    };
    let r = vec![cmd.name.clone(), cmd.command.clone(), dir];
    assert(texts(r@) =~= seq![cmd.name@, cmd.command@, dir_text(cmd.dir)]);
    r
}

/// The text bound to a new argument row.
pub fn arg_params(arg: &String) -> (r: Vec<String>)
    ensures
        texts(r@) == seq![arg@],
{
    let r = vec![arg.clone()];
    assert(texts(r@) =~= seq![arg@]);
    r
}

/// The texts bound to a new environment row: the key, then the value.
pub fn env_params(pair: &(String, String)) -> (r: Vec<String>)
    ensures
        texts(r@) == seq![pair.0@, pair.1@],
{
    let r = vec![pair.0.clone(), pair.1.clone()];
    assert(texts(r@) =~= seq![pair.0@, pair.1@]);
    r
}

/// What inserting a command row came to, from the store's reply and, for a
/// failure, its extended result code: a name already taken is `None`, any
/// other failure a store error, and a reply the new id.
pub fn insert_reply(reply: Result<Vec<Vec<SqlValue>>, rusqlite::Error>, code: Option<i32>) -> (r:
    Result<Option<i64>, CxdError>)
    ensures
        reply is Err ==> (r == Ok::<Option<i64>, CxdError>(None) <==> code == Some(
            SQLITE_CONSTRAINT_UNIQUE,
        )),
        reply matches Err(e0) ==> (code != Some(SQLITE_CONSTRAINT_UNIQUE) ==> r == Err::<
            Option<i64>,
            CxdError,
        >(CxdError::Sql(e0))),
        reply matches Ok(recs) ==> match r {
            Ok(Some(id)) => recs.len() > 0 && int_at(recs@[0]@, 0) == Some(id),
            Ok(None) => false,
            Err(e) => (recs.len() == 0 || int_at(recs@[0]@, 0) is None) && e == (CxdError::RowDecode {
                column: 0,
            }),
        },
{
    match reply {
        Ok(recs) => match new_id(&recs) {
            Ok(id) => Ok(Some(id)),
            Err(e) => Err(e),
        },
        Err(e) => {
            if is_duplicate(code) {
                Ok(None)
            } else {
                Err(CxdError::Sql(e))
            }
        },
    }
}

/// The command that a lookup by name found: the last one assembled, where it
/// carries that name.
pub fn pick_named(found: Vec<Command>, name: &str) -> (r: Option<Command>)
    ensures
        r == (if found@.len() > 0 && found@.last().name@ == name@ {
            Some(found@.last())
        } else {
            None
        }),
{
    let mut found = found;
    match found.pop() {
        Some(c) => {
            if crate::text::same(c.name.as_str(), name) {
                Some(c)
            } else {
                None
            }
        },
        None => None,
    }
}

/// Whether a delete removed a command: whether its `RETURNING` reply holds a
/// record.
pub fn removed(recs: &Vec<Vec<SqlValue>>) -> (r: bool)
    ensures
        r == (recs@.len() > 0),
{
    recs.len() > 0
}

/// Represents a connection to the database for operating on commands.
pub struct CommandStore {
    c: Connection,
}

impl CommandStore {
    /// Opens, or creates, the store file at `path`, turns on the enforcement
    /// of foreign keys (and so cascading deletes), and makes sure that the
    /// three relations exist.
    pub fn new(path: &str) -> (r: Result<CommandStore, CxdError>)
        ensures
            r matches Err(e) ==> e is Sql,
    {
        let c = match open_connection(path) {
            Ok(c) => c,
            Err(e) => return Err(CxdError::Sql(e)),
        };
        if let Err(e) = execute_batch(&c, FOREIGN_KEYS_ON) {
            return Err(CxdError::Sql(e));
        }
        CmdRow::init(&c)?;
        ArgRow::init(&c)?;
        EnvRow::init(&c)?;
        Ok(CommandStore { c })
    }

    /// Abandons the open transaction, after a failure.
    fn abandon(&self, e: CxdError) -> (r: CxdError)
        ensures
            r == e,
    {
        let _ = execute_batch(&self.c, ROLLBACK);
        e
    }

    /// Inserts `cmd` (whose `id` is ignored) with its arguments, in order, and
    /// its environment pairs, all in one transaction. Returns the new id, or
    /// `None` where a command of that name is already stored, which leaves
    /// the store as it was.
    pub fn insert(&self, cmd: &Command) -> (r: Result<Option<i64>, CxdError>)
        requires
            cmd.wf(),
        ensures
            r matches Err(e) ==> (e is Sql || e is RowDecode),
    {
        if let Err(e) = execute_batch(&self.c, BEGIN) {
            return Err(CxdError::Sql(e));
        }
        let params = command_params(cmd);
        let reply = query(&self.c, INSERT_CMD, &params, None, 1);
        let code = match &reply {
            Ok(_) => None,
            Err(e) => extended_code(e),
        };
        let id = match insert_reply(reply, code) {
            Ok(Some(id)) => id,
            other => {
                let _ = execute_batch(&self.c, ROLLBACK);
                return other;
            },
        };
        let mut i: usize = 0;
        while i < cmd.args.len()
            decreases cmd.args.len() - i,
        {
            let params = arg_params(&cmd.args[i]);
            if let Err(e) = query(&self.c, INSERT_ARG, &params, Some(id), 0) {
                return Err(self.abandon(CxdError::Sql(e)));
            }
            i += 1;
        }
        let mut j: usize = 0;
        while j < cmd.envs.len()
            decreases cmd.envs.len() - j,
        {
            let params = env_params(&cmd.envs[j]);
            if let Err(e) = query(&self.c, INSERT_ENV, &params, Some(id), 0) {
                return Err(self.abandon(CxdError::Sql(e)));
            }
            j += 1;
        }
        if let Err(e) = execute_batch(&self.c, COMMIT) {
            return Err(self.abandon(CxdError::Sql(e)));
        }
        Ok(Some(id))
    }

    /// The command named `name`, with its arguments and environment, if one
    /// is stored.
    pub fn get_by_name(&self, name: &str) -> (r: Result<Option<Command>, CxdError>)
        ensures
            r matches Ok(Some(c)) ==> c.name@ == name@ && c.wf(),
    {
        let texts = vec![name.to_owned()];
        let recs = match query(&self.c, SELECT_BY_NAME, &texts, None, 4) {
            Ok(recs) => recs,
            Err(e) => return Err(CxdError::Sql(e)),
        };
        let found = self.assemble(&recs)?;
        Ok(pick_named(found, name))
    }

    /// Deletes the command named `name`; its arguments and environment go with
    /// it. Returns whether a command was removed.
    pub fn delete_by_name(&self, name: &str) -> (r: Result<bool, CxdError>)
        ensures
            r matches Err(e) ==> e is Sql,
    {
        let texts = vec![name.to_owned()];
        match query(&self.c, DELETE_BY_NAME, &texts, None, 1) {
            Ok(recs) => Ok(removed(&recs)),
            Err(e) => Err(CxdError::Sql(e)),
        }
    }

    /// Deletes the command with id `id`; its arguments and environment go with
    /// it. Returns whether a command was removed.
    pub fn delete_by_id(&self, id: i64) -> (r: Result<bool, CxdError>)
        ensures
            r matches Err(e) ==> e is Sql,
    {
        match query(&self.c, DELETE_BY_ID, &Vec::new(), Some(id), 1) {
            Ok(recs) => Ok(removed(&recs)),
            Err(e) => Err(CxdError::Sql(e)),
        }
    }

    /// Every stored command, each with its arguments and environment.
    pub fn fetch_all(&self) -> (r: Result<Vec<Command>, CxdError>)
        ensures
            r matches Ok(cs) ==> forall|i: int| 0 <= i < cs.len() ==> (#[trigger] cs@[i]).wf(),
    {
        let recs = match query(&self.c, SELECT_ALL, &Vec::new(), None, 4) {
            Ok(recs) => recs,
            Err(e) => return Err(CxdError::Sql(e)),
        };
        self.assemble(&recs)
    }

    /// Resolves `name` under `scope` among every stored command.
    pub fn resolve(&self, name: &str, scope: &Scope) -> (r: Result<Resolution, CxdError>)
        ensures
            r matches Ok(res) ==> exists|cmds: Seq<Command>|
                (forall|i: int| 0 <= i < cmds.len() ==> (#[trigger] cmds[i]).wf()) && res@
                    == resolve_spec(cmds, name@, strict_dir(*scope), current_dir(*scope)),
    {
        let all = self.fetch_all()?;
        let ghost cmds = all@;
        let res = resolve(all, name, scope);
        assert(res@ == resolve_spec(cmds, name@, strict_dir(*scope), current_dir(*scope)));
        Ok(res)
    }

    /// Assembles each command record, in order, with the arguments and the
    /// environment that the store holds for it.
    fn assemble(&self, recs: &Vec<Vec<SqlValue>>) -> (r: Result<Vec<Command>, CxdError>)
        ensures
            r matches Ok(cs) ==> cs.len() == recs.len() && forall|i: int|
                0 <= i < cs.len() ==> matches_record(#[trigger] cs@[i], recs@[i]@) && cs@[i].wf(),
    {
        let mut out: Vec<Command> = Vec::new();
        let mut i: usize = 0;
        while i < recs.len()
            invariant
                i <= recs.len(),
                out.len() == i,
                forall|k: int|
                    0 <= k < i ==> matches_record(#[trigger] out@[k], recs@[k]@) && out@[k].wf(),
            decreases recs.len() - i,
        {
            let id = match crate::rows::int_cell(&recs[i], 0) {
                Some(id) => id,
                None => return Err(CxdError::RowDecode { column: 0 }),
            };
            let none = Vec::new();
            let args = match query(&self.c, SELECT_ARGS, &none, Some(id), 3) {
                Ok(a) => a,
                Err(e) => return Err(CxdError::Sql(e)),
            };
            let envs = match query(&self.c, SELECT_ENVS, &none, Some(id), 4) {
                Ok(v) => v,
                Err(e) => return Err(CxdError::Sql(e)),
            };
            let c = Command::from_records(&recs[i], &args, &envs)?;
            out.push(c);
            i += 1;
        }
        Ok(out)
    }
}

} // verus!
