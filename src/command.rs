//! The stored command, assembled from its three kinds of rows.

use vstd::prelude::*;
use crate::error::CxdError;
use crate::rows::{
    ArgRow, CmdRow, EnvRow, SqlValue, all_decode, arg_columns, cmd_columns, env_columns, first_bad,
    int_at, text_at,
};

verus! {

/// A named, storable shell invocation.
#[derive(Debug)]
pub struct Command {
    /// Assigned by the store; zero until then.
    pub id: i64,
    /// The unique name the command is stored under.
    pub name: String,
    /// The executable, as a bare name or a path.
    pub command: String,
    /// The working directory; `None` for a global command.
    pub dir: Option<String>,
    /// The arguments, in order.
    pub args: Vec<String>,
    /// The environment pairs, in the order they were given.
    pub envs: Vec<(String, String)>,
}

/// The directory as the store keeps it: the empty text stands for "none".
pub open spec fn dir_text(dir: Option<String>) -> Seq<char> {
    match dir {
        Some(d) => d@,
        None => Seq::empty(),
    }
}

/// The directory as a value of text, or none.
pub open spec fn dir_view(dir: Option<String>) -> Option<Seq<char>> {
    match dir {
        Some(d) => Some(d@),
        None => None,
    }
}

/// The directory for a stored text: the empty text is "none".
pub open spec fn dir_of_text(t: Seq<char>) -> Option<Seq<char>> {
    if t.len() == 0 { None } else { Some(t) }
}

pub open spec fn args_view(args: Seq<String>) -> Seq<Seq<char>> {
    args.map_values(|a: String| a@)
}

pub open spec fn envs_view(envs: Seq<(String, String)>) -> Seq<(Seq<char>, Seq<char>)> {
    envs.map_values(|p: (String, String)| (p.0@, p.1@))
}

impl Command {
    /// A command that uses its directory in a way the store can keep: a
    /// directory, when there is one, is not the empty text.
    pub open spec fn wf(&self) -> bool {
        self.dir matches Some(d) ==> d@.len() > 0
    }

    /// Assembles a command from its row and the rows that belong to it.
    pub fn new(cmd_row: CmdRow, arg_rows: Vec<ArgRow>, env_rows: Vec<EnvRow>) -> (r: Self)
        ensures
            r.id == cmd_row.id,
            r.name@ == cmd_row.name@,
            r.command@ == cmd_row.cmd@,
            dir_view(r.dir) == dir_of_text(cmd_row.dir@),
            args_view(r.args@) == arg_rows@.map_values(|a: ArgRow| a.data@),
            envs_view(r.envs@) == env_rows@.map_values(|e: EnvRow| (e.key@, e.value@)),
            r.wf(),
    {
        let mut args: Vec<String> = Vec::new();
        let mut i: usize = 0;
        while i < arg_rows.len()
            invariant
                i <= arg_rows.len(),
                args@.len() == i,
                forall|k: int| 0 <= k < i ==> #[trigger] args@[k]@ == arg_rows@[k].data@,
            decreases arg_rows.len() - i,
        {
            args.push(arg_rows[i].data.clone());
            i += 1;
        }
        assert(args_view(args@) =~= arg_rows@.map_values(|a: ArgRow| a.data@));
        let mut envs: Vec<(String, String)> = Vec::new();
        let mut j: usize = 0;
        while j < env_rows.len()
            invariant
                j <= env_rows.len(),
                envs@.len() == j,
                forall|k: int|
                    0 <= k < j ==> #[trigger] envs@[k].0@ == env_rows@[k].key@ && envs@[k].1@
                        == env_rows@[k].value@,
            decreases env_rows.len() - j,
        {
            envs.push((env_rows[j].key.clone(), env_rows[j].value.clone()));
            j += 1;
        }
        assert(envs_view(envs@) =~= env_rows@.map_values(|e: EnvRow| (e.key@, e.value@)));
        let dir = if cmd_row.dir.as_str().unicode_len() == 0 {
            None
        } else {
            Some(cmd_row.dir)
        };
        Command { id: cmd_row.id, name: cmd_row.name, command: cmd_row.cmd, dir, args, envs }
    }
}

/// Whether `c` is what the command record `rec` says, arguments and
/// environment aside.
pub open spec fn matches_record(c: Command, rec: Seq<SqlValue>) -> bool {
    &&& int_at(rec, 0) == Some(c.id)
    &&& text_at(rec, 1) == Some(c.name@)
    &&& text_at(rec, 2) == Some(c.command@)
    &&& text_at(rec, 3) matches Some(d) && dir_view(c.dir) == dir_of_text(d)
}

/// The argument texts that the argument records hold, in order.
pub open spec fn record_args(recs: Seq<Vec<SqlValue>>) -> Seq<Seq<char>> {
    recs.map_values(|r: Vec<SqlValue>| text_at(r@, 2)->Some_0)
}

/// The environment pairs that the environment records hold, in order.
pub open spec fn record_envs(recs: Seq<Vec<SqlValue>>) -> Seq<(Seq<char>, Seq<char>)> {
    recs.map_values(|r: Vec<SqlValue>| (text_at(r@, 2)->Some_0, text_at(r@, 3)->Some_0))
}

/// A well-formed command reads back as it was stored: where the command
/// record holds the name, command and stored directory that an insert binds,
/// and the argument and environment records hold, in order, the texts bound
/// for each argument and each pair, any command assembled from those records
/// (as `from_records` assembles one) has the same name, command, directory,
/// arguments in the same order and environment pairs in the same order, and
/// the id of the record.
pub proof fn lemma_stored_command_reads_back(
    c: Command,
    id: i64,
    rec: Seq<SqlValue>,
    arg_recs: Seq<Vec<SqlValue>>,
    env_recs: Seq<Vec<SqlValue>>,
    back: Command,
)
    requires
        c.wf(),
        int_at(rec, 0) == Some(id),
        text_at(rec, 1) == Some(c.name@),
        text_at(rec, 2) == Some(c.command@),
        text_at(rec, 3) == Some(dir_text(c.dir)),
        arg_recs.len() == c.args@.len(),
        forall|i: int| 0 <= i < arg_recs.len() ==> text_at((#[trigger] arg_recs[i])@, 2) == Some(c.args@[i]@),
        env_recs.len() == c.envs@.len(),
        forall|i: int|
            0 <= i < env_recs.len() ==> text_at((#[trigger] env_recs[i])@, 2) == Some(c.envs@[i].0@)
                && text_at(env_recs[i]@, 3) == Some(c.envs@[i].1@),
        matches_record(back, rec),
        args_view(back.args@) == record_args(arg_recs),
        envs_view(back.envs@) == record_envs(env_recs),
    ensures
        back.id == id,
        back.name@ == c.name@,
        back.command@ == c.command@,
        dir_view(back.dir) == dir_view(c.dir),
        args_view(back.args@) == args_view(c.args@),
        envs_view(back.envs@) == envs_view(c.envs@),
{
    if c.dir is None {
        assert(dir_of_text(dir_text(c.dir)) == None::<Seq<char>>);
    }
    assert(record_args(arg_recs) =~= args_view(c.args@));
    assert(record_envs(env_recs) =~= envs_view(c.envs@));
}

impl Command {
    /// Assembles a command from its record and the records of its arguments
    /// and its environment; fails on the first record that does not decode.
    pub fn from_records(
        cmd_rec: &Vec<SqlValue>,
        arg_recs: &Vec<Vec<SqlValue>>,
        env_recs: &Vec<Vec<SqlValue>>,
    ) -> (r: Result<Command, CxdError>)
        ensures
            r is Ok <==> (first_bad(cmd_rec@, cmd_columns()) is None && all_decode(
                arg_recs@,
                arg_columns(),
            ) && all_decode(env_recs@, env_columns())),
            r matches Ok(c) ==> {
                &&& matches_record(c, cmd_rec@)
                &&& args_view(c.args@) == record_args(arg_recs@)
                &&& envs_view(c.envs@) == record_envs(env_recs@)
                &&& c.wf()
            },
            r matches Err(e) ==> e is RowDecode,
    {
        let row = CmdRow::from_record(cmd_rec)?;
        let args = ArgRow::from_records(arg_recs)?;
        let envs = EnvRow::from_records(env_recs)?;
        let c = Command::new(row, args, envs);
        assert(args_view(c.args@) =~= record_args(arg_recs@)) by {
            assert forall|k: int| 0 <= k < args@.len() implies text_at(arg_recs@[k]@, 2) == Some(
                args@[k].data@,
            ) by {
                assert(int_at(arg_recs@[k]@, 0) == Some(args@[k].id));
            }
            assert(args@.map_values(|a: ArgRow| a.data@) =~= record_args(arg_recs@));
        }
        assert(envs_view(c.envs@) =~= record_envs(env_recs@)) by {
            assert forall|k: int| 0 <= k < envs@.len() implies text_at(env_recs@[k]@, 2) == Some(
                envs@[k].key@,
            ) && text_at(env_recs@[k]@, 3) == Some(envs@[k].value@) by {
                assert(int_at(env_recs@[k]@, 0) == Some(envs@[k].id));
            }
            assert(envs@.map_values(|e: EnvRow| (e.key@, e.value@)) =~= record_envs(env_recs@));
        }
        Ok(c)
    }
}

/// The character of the decimal digit `d`.
pub open spec fn digit_char(d: int) -> char {
    if d == 0 { '0' }
    else if d == 1 { '1' }
    else if d == 2 { '2' }
    else if d == 3 { '3' }
    else if d == 4 { '4' }
    else if d == 5 { '5' }
    else if d == 6 { '6' }
    else if d == 7 { '7' }
    else if d == 8 { '8' }
    else { '9' }
}

/// The decimal digits of the natural number `n`, most significant first.
pub open spec fn digits(n: nat) -> Seq<char>
    decreases n,
{
    if n < 10 {
        seq![digit_char(n as int)]
    } else {
        digits(n / 10) + seq![digit_char((n % 10) as int)]
    }
}

/// The decimal text of the integer `n`, with a leading `-` when it is negative.
pub open spec fn decimal(n: int) -> Seq<char> {
    if n < 0 { seq!['-'] + digits((-n) as nat) } else { digits(n as nat) }
}

/// The texts of `parts`, with one space between each two.
pub open spec fn joined(parts: Seq<Seq<char>>) -> Seq<char>
    decreases parts.len(),
{
    if parts.len() == 0 {
        Seq::empty()
    } else if parts.len() == 1 {
        parts[0]
    } else {
        joined(parts.drop_last()) + " "@ + parts.last()
    }
}

/// One environment pair as `key=value`.
pub open spec fn pair_text(p: (Seq<char>, Seq<char>)) -> Seq<char> {
    p.0 + "="@ + p.1
}

/// The lines that list the environment pairs of `envs`, from the first.
pub open spec fn env_lines(envs: Seq<(Seq<char>, Seq<char>)>) -> Seq<char>
    decreases envs.len(),
{
    if envs.len() == 0 {
        Seq::empty()
    } else {
        env_lines(envs.drop_last()) + "    "@ + pair_text(envs.last()) + "\n"@
    }
}

/// How a command is shown to a user: its id and name; its environment, on
/// one line where there is one pair; its directory, where it has one; and
/// the command line itself.
pub open spec fn describe_spec(c: Command) -> Seq<char> {
    let envs = envs_view(c.envs@);
    let head = "["@ + decimal(c.id as int) + "]: "@ + c.name@ + "\n"@;
    let env = if envs.len() == 1 {
        "  env: "@ + pair_text(envs[0]) + "\n"@
    } else if envs.len() > 1 {
        "  env:\n"@ + env_lines(envs)
    } else {
        Seq::empty()
    };
    let dir = match c.dir {
        Some(d) => "  dir: "@ + d@ + "\n"@,
        None => Seq::empty(),
    };
    head + env + dir + "  cmd: "@ + c.command@ + " "@ + joined(args_view(c.args@))
}

/// The text of the decimal digit `d`.
fn digit_str(d: u64) -> (r: &'static str)
    requires
        d < 10,
    ensures
        r@ == seq![digit_char(d as int)],
{
    proof {
        reveal_strlit("0");
        reveal_strlit("1");
        reveal_strlit("2");
        reveal_strlit("3");
        reveal_strlit("4");
        reveal_strlit("5");
        reveal_strlit("6");
        reveal_strlit("7");
        reveal_strlit("8");
        reveal_strlit("9");
    }
    let r = if d == 0 { "0" }
    else if d == 1 { "1" }
    else if d == 2 { "2" }
    else if d == 3 { "3" }
    else if d == 4 { "4" }
    else if d == 5 { "5" }
    else if d == 6 { "6" }
    else if d == 7 { "7" }
    else if d == 8 { "8" }
    else { "9" };
    assert(r@ =~= seq![digit_char(d as int)]);
    r
}

/// Appends the decimal digits of `n` to `out`.
fn append_digits(out: &mut String, n: u64)
    ensures
        final(out)@ == old(out)@ + digits(n as nat),
    decreases n,
{
    if n >= 10 {
        append_digits(out, n / 10);
    }
    out.append(digit_str(n % 10));
    assert(final(out)@ =~= old(out)@ + digits(n as nat));
}

/// Appends the decimal text of `n` to `out`.
fn append_decimal(out: &mut String, n: i64)
    ensures
        final(out)@ == old(out)@ + decimal(n as int),
{
    if n < 0 {
        proof {
            reveal_strlit("-");
        }
        out.append("-");
        let m: u64 = (0 - (n as i128)) as u64;
        append_digits(out, m);
        assert(final(out)@ =~= old(out)@ + decimal(n as int));
    } else {
        append_digits(out, n as u64);
    }
}

impl Command {
    /// How the command is shown to a user; see `describe_spec`.
    #[verifier::rlimit(50)]
    pub fn describe(&self) -> (r: String)
        ensures
            r@ == describe_spec(*self),
    {
        let ghost envs = envs_view(self.envs@);
        let mut out = String::new();
        out.append("[");
        append_decimal(&mut out, self.id);
        out.append("]: ");
        out.append(self.name.as_str());
        out.append("\n");
        let ghost head = out@;
        if self.envs.len() == 1 {
            out.append("  env: ");
            out.append(self.envs[0].0.as_str());
            out.append("=");
            out.append(self.envs[0].1.as_str());
            out.append("\n");
        } else if self.envs.len() > 1 {
            out.append("  env:\n");
            let mut i: usize = 0;
            while i < self.envs.len()
                invariant
                    i <= self.envs.len(),
                    envs == envs_view(self.envs@),
                    out@ == head + "  env:\n"@ + env_lines(envs.take(i as int)),
                decreases self.envs.len() - i,
            {
                out.append("    ");
                out.append(self.envs[i].0.as_str());
                out.append("=");
                out.append(self.envs[i].1.as_str());
                out.append("\n");
                assert(envs.take(i + 1 as int).drop_last() =~= envs.take(i as int));
                assert(out@ =~= head + "  env:\n"@ + env_lines(envs.take(i + 1 as int)));
                i += 1;
            }
            assert(envs.take(i as int) =~= envs);
        }
        let ghost with_env = out@;
        if let Some(d) = &self.dir {
            out.append("  dir: ");
            out.append(d.as_str());
            out.append("\n");
        }
        out.append("  cmd: ");
        out.append(self.command.as_str());
        out.append(" ");
        let ghost line = out@;
        let ghost args = args_view(self.args@);
        let mut j: usize = 0;
        while j < self.args.len()
            invariant
                j <= self.args.len(),
                args == args_view(self.args@),
                out@ == line + joined(args.take(j as int)),
            decreases self.args.len() - j,
        {
            if j > 0 {
                out.append(" ");
            }
            out.append(self.args[j].as_str());
            assert(args.take(j + 1 as int).drop_last() =~= args.take(j as int));
            assert(out@ =~= line + joined(args.take(j + 1 as int)));
            j += 1;
        }
        assert(args.take(j as int) =~= args);
        out
    }
}

} // verus!
