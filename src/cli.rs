//! The operations and options of the command line, and the rules that read
//! them.

use vstd::prelude::*;
use crate::command::Command;
use crate::error::CxdError;
use crate::text::same;

verus! {

/// An operation of the tool; running a stored command is the absence of one.
#[derive(Debug, Clone, Copy, PartialEq, Eq, Structural)]
pub enum Op {
    Add,
    Remove,
    List,
    Clear,
}

/// The flags that ask for each operation, as help text shows them.
pub open spec fn op_flags(op: Op) -> Seq<char> {
    match op {
        Op::Add => "-a|--add"@,
        Op::Remove => "-r|--remove"@,
        Op::List => "-l|--list"@,
        Op::Clear => "-c|--clear"@,
    }
}

impl Op {
    /// The flags that ask for this operation, as help text shows them.
    pub fn flags(&self) -> (r: &'static str)
        ensures
            r@ == op_flags(*self),
    {
        match self {
            Op::Add => "-a|--add",
            Op::Remove => "-r|--remove",
            Op::List => "-l|--list",
            Op::Clear => "-c|--clear",
        }
    }
}

/// Which help was asked for.
#[derive(Debug, Clone, Copy, PartialEq, Eq, Structural)]
pub enum HelpType {
    Short,
    Long,
}

/// The command line, read but only loosely checked.
#[derive(Debug)]
pub struct CxdArgs {
    pub file: Option<String>,
    pub op: Option<Op>,
    pub op_args: Vec<String>,
    pub env: Vec<(String, String)>,
    pub cwd: bool,
    pub dir: Option<String>,
    pub id: bool,
    pub help: Option<HelpType>,
    pub version: bool,
}

impl Default for CxdArgs {
    fn default() -> (r: CxdArgs)
        ensures
            r.file is None,
            r.op is None,
            r.op_args@.len() == 0,
            r.env@.len() == 0,
            !r.cwd,
            r.dir is None,
            !r.id,
            r.help is None,
            !r.version,
    {
        CxdArgs {
            file: None,
            op: None,
            op_args: Vec::new(),
            env: Vec::new(),
            cwd: false,
            dir: None,
            id: false,
            help: None,
            version: false,
        }
    }
}

/// Whether `a` asks for the add operation.
pub open spec fn is_add_flag(a: Seq<char>) -> bool {
    a == "-a"@ || a == "--add"@
}

/// Whether `a` is an option of add that takes the next argument as its value.
pub open spec fn takes_value(a: Seq<char>) -> bool {
    a == "--env"@ || a == "-e"@ || a == "--dir"@ || a == "-d"@
}

/// Whether `a` looks like an option.
pub open spec fn is_option(a: Seq<char>) -> bool {
    a.len() > 0 && a[0] == '-'
}

/// The first index at or after `from` that asks for the add operation.
pub open spec fn first_add_flag(args: Seq<Seq<char>>, from: int) -> Option<int>
    decreases args.len() - from,
{
    if from < 0 || from >= args.len() {
        None
    } else if is_add_flag(args[from]) {
        Some(from)
    } else {
        first_add_flag(args, from + 1)
    }
}

/// The index, at or after `j`, of the name given to add: the first argument
/// that is not an option and not the value of one, or the argument right
/// after `--`. `last` says that `--` was just seen, `skip` that the argument
/// at `j` is the value of an option.
pub open spec fn add_name_at(args: Seq<Seq<char>>, j: int, last: bool, skip: bool) -> Option<int>
    decreases args.len() - j,
{
    if j < 0 || j >= args.len() {
        None
    } else if last {
        Some(j)
    } else if skip {
        add_name_at(args, j + 1, false, false)
    } else if takes_value(args[j]) {
        add_name_at(args, j + 1, false, true)
    } else if args[j] == "--"@ {
        add_name_at(args, j + 1, true, false)
    } else if !is_option(args[j]) {
        Some(j)
    } else {
        add_name_at(args, j + 1, false, false)
    }
}

/// One less than the index of the name given to add, in the full argument
/// list whose first element is the program's own name.
pub open spec fn add_args_start(args: Seq<Seq<char>>) -> Option<int> {
    match first_add_flag(args, 0) {
        Some(p) => match add_name_at(args, p + 1, false, false) {
            Some(j) => Some(j - 1),
            None => None,
        },
        None => None,
    }
}

pub open spec fn texts(args: Seq<String>) -> Seq<Seq<char>> {
    args.map_values(|a: String| a@)
}

/// Whether `a` starts with a dash.
fn starts_with_dash(a: &str) -> (r: bool)
    ensures
        r == is_option(a@),
{
    a.unicode_len() > 0 && a.get_char(0) == '-'
}

/// Add takes every argument after its name, options of the command included,
/// so these must be kept from the option parser. In the full argument list
/// `args`, whose first element is the program's own name, finds where the
/// arguments of add begin: one less than the index of the name.
pub fn find_add_args(args: &Vec<String>) -> (r: Option<usize>)
    ensures
        match r {
            Some(i) => add_args_start(texts(args@)) == Some(i as int),
            None => add_args_start(texts(args@)) is None,
        },
{
    let ghost t = texts(args@);
    let mut p: usize = 0;
    while p < args.len() && !(same(args[p].as_str(), "-a") || same(args[p].as_str(), "--add"))
        invariant
            p <= args.len(),
            t == texts(args@),
            first_add_flag(t, 0) == first_add_flag(t, p as int),
        decreases args.len() - p,
    {
        assert(t[p as int] == args@[p as int]@);
        p += 1;
    }
    if p == args.len() {
        return None;
    }
    assert(first_add_flag(t, 0) == Some(p as int)) by {
        assert(t[p as int] == args@[p as int]@);
    }
    let mut j: usize = p + 1;
    let mut last = false;
    let mut skip = false;
    while j < args.len()
        invariant
            p < j <= args.len(),
            t == texts(args@),
            add_name_at(t, j as int, last, skip) == add_name_at(t, p + 1, false, false),
            first_add_flag(t, 0) == Some(p as int),
        decreases args.len() - j,
    {
        let a = args[j].as_str();
        assert(t[j as int] == a@);
        if last {
            return Some(j - 1);
        } else if skip {
            skip = false;
        } else if same(a, "--env") || same(a, "-e") || same(a, "--dir") || same(a, "-d") {
            skip = true;
        } else if same(a, "--") {
            last = true;
        } else if !starts_with_dash(a) {
            return Some(j - 1);
        }
        j += 1;
    }
    None
}

/// A parser of command-line options; opaque here.
#[verifier::external_type_specification]
#[verifier::external_body]
pub struct ExArguments(pico_args::Arguments);

/// The arguments that a parser has not consumed yet, in order.
pub uninterp spec fn unread(a: pico_args::Arguments) -> Seq<Seq<char>>;

/// The index of the first argument of `s` that is `k`.
pub open spec fn first_index(s: Seq<Seq<char>>, k: Seq<char>) -> Option<int>
    decreases s.len(),
{
    if s.len() == 0 {
        None
    } else if s[0] == k {
        Some(0)
    } else {
        match first_index(s.drop_first(), k) {
            Some(i) => Some(i + 1),
            None => None,
        }
    }
}

/// Where a parser finds an option given as a short and a long key: the
/// first use of the short key, else the first use of the long one.
pub open spec fn key_index(s: Seq<Seq<char>>, short: Seq<char>, long: Seq<char>) -> Option<int> {
    match first_index(s, short) {
        Some(i) => Some(i),
        None => first_index(s, long),
    }
}

/// A short key: a dash and one other character.
pub open spec fn short_key(k: Seq<char>) -> bool {
    k.len() == 2 && k[0] == '-' && k[1] != '-'
}

/// A long key: two dashes and a name.
pub open spec fn long_key(k: Seq<char>) -> bool {
    k.len() > 2 && k[0] == '-' && k[1] == '-'
}

/// Relies on `pico_args::Arguments::from_vec`: the parser starts with every
/// argument of `args` unread, in order.
#[verifier::external_body]
fn parser_for(args: Vec<String>) -> (r: pico_args::Arguments)
    ensures
        unread(r) == texts(args@),
{
    pico_args::Arguments::from_vec(args.into_iter().map(Into::into).collect())
}

/// Relies on `pico_args::Arguments::contains` with one key: consumes the
/// first argument equal to `key`, and says whether there was one.
#[verifier::external_body]
fn take_flag(a: &mut pico_args::Arguments, key: &'static str) -> (r: bool)
    requires
        short_key(key@) || long_key(key@),
    ensures
        match first_index(unread(*old(a)), key@) {
            Some(i) => r && unread(*final(a)) == unread(*old(a)).remove(i),
            None => !r && unread(*final(a)) == unread(*old(a)),
        },
{
    a.contains(key)
}

/// Relies on `pico_args::Arguments::contains` with a short and a long key:
/// consumes the first use of the short key, else the first use of the long
/// one, and says whether there was one.
#[verifier::external_body]
fn take_either_flag(a: &mut pico_args::Arguments, short: &'static str, long: &'static str) -> (r: bool)
    requires
        short_key(short@),
        long_key(long@),
    ensures
        match key_index(unread(*old(a)), short@, long@) {
            Some(i) => r && unread(*final(a)) == unread(*old(a)).remove(i),
            None => !r && unread(*final(a)) == unread(*old(a)),
        },
{
    a.contains([short, long])
}

/// Relies on `pico_args::Arguments::opt_value_from_str` into a `String`: where
/// the option is used (as `key_index` finds it) and an argument follows, that
/// argument is its value and both are consumed; where nothing follows, an
/// error (`OptionWithoutAValue`) that consumes nothing.
#[verifier::external_body]
fn take_value(a: &mut pico_args::Arguments, short: &'static str, long: &'static str) -> (r: Result<
    Option<String>,
    pico_args::Error,
>)
    requires
        short_key(short@),
        long_key(long@),
    ensures
        match key_index(unread(*old(a)), short@, long@) {
            Some(i) => if i + 1 < unread(*old(a)).len() {
                r matches Ok(Some(v)) && v@ == unread(*old(a))[i + 1] && unread(*final(a))
                    == unread(*old(a)).remove(i).remove(i)
            } else {
                r is Err && unread(*final(a)) == unread(*old(a))
            },
            None => r matches Ok(None) && unread(*final(a)) == unread(*old(a)),
        },
{
    a.opt_value_from_str::<[&'static str; 2], String>([short, long])
}

/// Relies on `pico_args::Arguments::finish`: the arguments left unread, in
/// order.
#[verifier::external_body]
fn leftover(a: pico_args::Arguments) -> (r: Vec<String>)
    ensures
        texts(r@) == unread(a),
{
    a.finish().into_iter().map(|s| s.to_string_lossy().into_owned()).collect()
}

proof fn lemma_first_add_flag_range(args: Seq<Seq<char>>, from: int)
    ensures
        first_add_flag(args, from) matches Some(p) ==> from <= p < args.len(),
    decreases args.len() - from,
{
    if 0 <= from < args.len() && !is_add_flag(args[from]) {
        lemma_first_add_flag_range(args, from + 1);
    }
}

proof fn lemma_add_name_range(args: Seq<Seq<char>>, j: int, last: bool, skip: bool)
    ensures
        add_name_at(args, j, last, skip) matches Some(k) ==> j <= k < args.len(),
    decreases args.len() - j,
{
    if 0 <= j < args.len() {
        lemma_add_name_range(args, j + 1, false, false);
        lemma_add_name_range(args, j + 1, false, true);
        lemma_add_name_range(args, j + 1, true, false);
    }
}

proof fn lemma_add_args_start_range(args: Seq<Seq<char>>)
    ensures
        add_args_start(args) matches Some(i) ==> 0 <= i && i + 1 < args.len(),
{
    lemma_first_add_flag_range(args, 0);
    if let Some(p) = first_add_flag(args, 0) {
        lemma_add_name_range(args, p + 1, false, false);
    }
}

proof fn lemma_first_index(s: Seq<Seq<char>>, k: Seq<char>)
    ensures
        match first_index(s, k) {
            Some(i) => 0 <= i < s.len() && s[i] == k && s.contains(k),
            None => !s.contains(k),
        },
    decreases s.len(),
{
    if s.len() > 0 {
        lemma_first_index(s.drop_first(), k);
        if let Some(i) = first_index(s.drop_first(), k) {
            assert(s[i + 1] == s.drop_first()[i]);
        }
        if s[0] != k && s.contains(k) {
            let j = choose|j: int| 0 <= j < s.len() && s[j] == k;
            assert(s.drop_first()[j - 1] == k);
        }
    }
}

proof fn lemma_remove_other(s: Seq<Seq<char>>, i: int, k: Seq<char>)
    requires
        0 <= i < s.len(),
        s[i] != k,
    ensures
        s.remove(i).contains(k) == s.contains(k),
{
    if s.contains(k) {
        let j = choose|j: int| 0 <= j < s.len() && s[j] == k;
        if j < i {
            assert(s.remove(i)[j] == k);
        } else {
            assert(s.remove(i)[j - 1] == k);
        }
    }
    if s.remove(i).contains(k) {
        let j = choose|j: int| 0 <= j < s.remove(i).len() && s.remove(i)[j] == k;
        if j < i {
            assert(s[j] == k);
        } else {
            assert(s[j + 1] == k);
        }
    }
}

/// The arguments before those that add takes, without the program's own
/// name: what the option parser reads.
pub open spec fn head_args(raw: Seq<Seq<char>>) -> Seq<Seq<char>> {
    if raw.len() == 0 {
        Seq::empty()
    } else {
        match add_args_start(raw) {
            Some(i) => raw.subrange(1, i + 1),
            None => raw.subrange(1, raw.len() as int),
        }
    }
}

/// The arguments that add takes whole: its name, the command and the
/// command's own arguments.
pub open spec fn add_tail(raw: Seq<Seq<char>>) -> Seq<Seq<char>> {
    match add_args_start(raw) {
        Some(i) => raw.subrange(i + 1, raw.len() as int),
        None => Seq::empty(),
    }
}

/// The help asked for: the long one wins over the short one.
pub open spec fn help_of(head: Seq<Seq<char>>) -> Option<HelpType> {
    if head.contains("--help"@) {
        Some(HelpType::Long)
    } else if head.contains("-h"@) {
        Some(HelpType::Short)
    } else {
        None
    }
}

/// Whether an error is one that reading the command line can give.
pub open spec fn is_cli_error(e: CxdError) -> bool {
    ||| e is CliParse
    ||| e is IncompatibleOperations
    ||| e is OptionsIncompatible
    ||| e is OptionRequires
    ||| e is ArgumentParse
}

/// The error for an option given without the operation it belongs to.
fn requires_op(name: &str, op: &str) -> (e: CxdError)
    ensures
        e matches CxdError::OptionRequires { name: n, requires: o } && n@ == name@ && o@ == op@,
{
    CxdError::OptionRequires { name: name.to_owned(), requires: op.to_owned() }
}

/// Whether every argument of `s` is also one of `t`.
pub open spec fn within(s: Seq<Seq<char>>, t: Seq<Seq<char>>) -> bool {
    forall|x: Seq<char>| s.contains(x) ==> t.contains(x)
}

/// Whether `s` holds one of the flags that ask for `op`.
pub open spec fn asks_for(s: Seq<Seq<char>>, op: Op) -> bool {
    match op {
        Op::Add => s.contains("-a"@) || s.contains("--add"@),
        Op::Remove => s.contains("-r"@) || s.contains("--remove"@),
        Op::List => s.contains("-l"@) || s.contains("--list"@),
        Op::Clear => s.contains("--clear"@),
    }
}

proof fn lemma_remove_within(s: Seq<Seq<char>>, i: int)
    requires
        0 <= i < s.len(),
    ensures
        within(s.remove(i), s),
{
    assert forall|x: Seq<char>| s.remove(i).contains(x) implies s.contains(x) by {
        let j = choose|j: int| 0 <= j < s.remove(i).len() && s.remove(i)[j] == x;
        if j < i {
            assert(s[j] == x);
        } else {
            assert(s[j + 1] == x);
        }
    }
}

proof fn lemma_key_index(s: Seq<Seq<char>>, short: Seq<char>, long: Seq<char>)
    ensures
        key_index(s, short, long) matches Some(i) ==> 0 <= i < s.len() && (s.contains(short)
            || s.contains(long)),
        key_index(s, short, long) matches Some(i) ==> s.len() >= 1 && within(s.remove(i), s),
        key_index(s, short, long) matches Some(i) ==> i + 1 < s.len() ==> within(
            s.remove(i).remove(i),
            s,
        ),
{
    lemma_first_index(s, short);
    lemma_first_index(s, long);
    if let Some(i) = key_index(s, short, long) {
        lemma_remove_within(s, i);
        if i + 1 < s.len() {
            lemma_remove_within(s.remove(i), i);
        }
    }
}

/// What is left of `s` once the first `k` is consumed.
pub open spec fn drop_flag(s: Seq<Seq<char>>, k: Seq<char>) -> Seq<Seq<char>> {
    match first_index(s, k) {
        Some(i) => s.remove(i),
        None => s,
    }
}

/// Whether `s` uses the option given by a short and a long key.
pub open spec fn has_either(s: Seq<Seq<char>>, short: Seq<char>, long: Seq<char>) -> bool {
    key_index(s, short, long) is Some
}

/// What is left of `s` once the option given by a short and a long key is
/// consumed.
pub open spec fn drop_either(s: Seq<Seq<char>>, short: Seq<char>, long: Seq<char>) -> Seq<Seq<char>> {
    match key_index(s, short, long) {
        Some(i) => s.remove(i),
        None => s,
    }
}

/// The value of an option that takes one: none where the option is not
/// used, and an error where nothing follows it.
pub open spec fn value_of(s: Seq<Seq<char>>, short: Seq<char>, long: Seq<char>) -> Result<
    Option<Seq<char>>,
    (),
> {
    match key_index(s, short, long) {
        Some(i) => if 0 <= i && i + 1 < s.len() {
            Ok(Some(s[i + 1]))
        } else {
            Err(())
        },
        None => Ok(None),
    }
}

/// What is left of `s` once an option and its value are consumed.
pub open spec fn drop_value(s: Seq<Seq<char>>, short: Seq<char>, long: Seq<char>) -> Seq<Seq<char>> {
    match key_index(s, short, long) {
        Some(i) => if 0 <= i && i + 1 < s.len() {
            s.remove(i).remove(i)
        } else {
            s
        },
        None => s,
    }
}

/// The operation flags, read in the order add, remove, list, clear: the
/// operation, or the first pair that conflict, the later one first.
pub open spec fn ops_spec(s: Seq<Seq<char>>) -> Result<Option<Op>, (Op, Op)> {
    let a = has_either(s, "-a"@, "--add"@);
    let s1 = drop_either(s, "-a"@, "--add"@);
    let r = has_either(s1, "-r"@, "--remove"@);
    let s2 = drop_either(s1, "-r"@, "--remove"@);
    let l = has_either(s2, "-l"@, "--list"@);
    let s3 = drop_either(s2, "-l"@, "--list"@);
    let c = first_index(s3, "--clear"@) is Some;
    if r && a {
        Err((Op::Remove, Op::Add))
    } else if l && (a || r) {
        Err((Op::List, if r { Op::Remove } else { Op::Add }))
    } else if c && (a || r || l) {
        Err((Op::Clear, if l { Op::List } else if r { Op::Remove } else { Op::Add }))
    } else if a {
        Ok(Some(Op::Add))
    } else if r {
        Ok(Some(Op::Remove))
    } else if l {
        Ok(Some(Op::List))
    } else if c {
        Ok(Some(Op::Clear))
    } else {
        Ok(None)
    }
}

/// What is left of `s` once the operation flags are consumed.
pub open spec fn ops_rest(s: Seq<Seq<char>>) -> Seq<Seq<char>> {
    drop_flag(
        drop_either(drop_either(drop_either(s, "-a"@, "--add"@), "-r"@, "--remove"@), "-l"@, "--list"@),
        "--clear"@,
    )
}

/// The ways in which reading a command line can fail.
pub enum CliFault {
    /// The option parser failed (an option without its value).
    Parse,
    /// Two operations were asked for: the later one, then the earlier one.
    Incompatible(Op, Op),
    /// Two options that exclude each other.
    Conflict,
    /// An option without its operation.
    NeedsOp,
    /// An argument of the wrong shape.
    BadArgument,
}

/// The fault that an error of reading the command line stands for.
pub open spec fn fault_of(e: CxdError) -> Option<CliFault> {
    match e {
        CxdError::CliParse(_) => Some(CliFault::Parse),
        CxdError::IncompatibleOperations(a, b) => Some(CliFault::Incompatible(a, b)),
        CxdError::OptionsIncompatible(..) => Some(CliFault::Conflict),
        CxdError::OptionRequires { .. } => Some(CliFault::NeedsOp),
        CxdError::ArgumentParse { .. } => Some(CliFault::BadArgument),
        _ => None,
    }
}

/// The environment pairs given with `-e`/`--env`, in the order the parser
/// finds them; each must be `KEY=VALUE` (split at the first `=`) and belongs
/// to add alone.
pub open spec fn env_spec(s: Seq<Seq<char>>, is_add: bool) -> Result<
    Seq<(Seq<char>, Seq<char>)>,
    CliFault,
>
    decreases s.len(),
{
    match key_index(s, "-e"@, "--env"@) {
        None => Ok(Seq::empty()),
        Some(i) => if !(0 <= i && i + 1 < s.len()) {
            Err(CliFault::Parse)
        } else if !is_add {
            Err(CliFault::NeedsOp)
        } else {
            let v = s[i + 1];
            match crate::text::char_index(v, '=') {
                None => Err(CliFault::BadArgument),
                Some(j) => match env_spec(s.remove(i).remove(i), is_add) {
                    Ok(rest) => Ok(seq![(v.subrange(0, j), v.subrange(j + 1, v.len() as int))] + rest),
                    Err(f) => Err(f),
                },
            }
        },
    }
}

/// What is left of `s` once every environment pair is consumed.
pub open spec fn env_rest(s: Seq<Seq<char>>) -> Seq<Seq<char>>
    decreases s.len(),
{
    match key_index(s, "-e"@, "--env"@) {
        Some(i) => if 0 <= i && i + 1 < s.len() {
            env_rest(s.remove(i).remove(i))
        } else {
            s
        },
        None => s,
    }
}

/// The parsed command line, as values of text.
pub struct ArgsView {
    pub file: Option<Seq<char>>,
    pub op: Option<Op>,
    pub op_args: Seq<Seq<char>>,
    pub env: Seq<(Seq<char>, Seq<char>)>,
    pub cwd: bool,
    pub dir: Option<Seq<char>>,
    pub id: bool,
    pub help: Option<HelpType>,
    pub version: bool,
}

impl View for CxdArgs {
    type V = ArgsView;

    open spec fn view(&self) -> ArgsView {
        ArgsView {
            file: crate::command::dir_view(self.file),
            op: self.op,
            op_args: texts(self.op_args@),
            env: crate::command::envs_view(self.env@),
            cwd: self.cwd,
            dir: crate::command::dir_view(self.dir),
            id: self.id,
            help: self.help,
            version: self.version,
        }
    }
}

/// What reading the full argument list `raw` comes to. Options are read from
/// the arguments before add's (the program's name left out) in this order:
/// help, version, the file, the operations, `--cwd`, `--dir`, every `--env`,
/// `--id`; what is left is the operation's arguments, and for add must be
/// nothing, add taking its own arguments whole.
pub open spec fn parse_spec(raw: Seq<Seq<char>>) -> Result<ArgsView, CliFault> {
    let h = head_args(raw);
    let s3 = drop_flag(drop_flag(drop_flag(h, "-h"@), "--help"@), "--version"@);
    match value_of(s3, "-f"@, "--file"@) {
        Err(_) => Err(CliFault::Parse),
        Ok(file) => {
            let s4 = drop_value(s3, "-f"@, "--file"@);
            match ops_spec(s4) {
                Err((x, y)) => Err(CliFault::Incompatible(x, y)),
                Ok(op) => {
                    let is_add = op == Some(Op::Add);
                    let s5 = ops_rest(s4);
                    let cwd = has_either(s5, "-c"@, "--cwd"@);
                    let s6 = drop_either(s5, "-c"@, "--cwd"@);
                    if cwd && !is_add {
                        Err(CliFault::NeedsOp)
                    } else {
                        match value_of(s6, "-d"@, "--dir"@) {
                            Err(_) => Err(CliFault::Parse),
                            Ok(dir) => if dir is Some && cwd {
                                Err(CliFault::Conflict)
                            } else if dir is Some && !is_add {
                                Err(CliFault::NeedsOp)
                            } else {
                                let s7 = drop_value(s6, "-d"@, "--dir"@);
                                match env_spec(s7, is_add) {
                                    Err(f) => Err(f),
                                    Ok(env) => {
                                        let s8 = env_rest(s7);
                                        let id = has_either(s8, "-i"@, "--id"@);
                                        let rest = drop_either(s8, "-i"@, "--id"@);
                                        if id && op != Some(Op::Remove) {
                                            Err(CliFault::NeedsOp)
                                        } else if is_add && rest.len() > 0 {
                                            Err(CliFault::BadArgument)
                                        } else {
                                            Ok(
                                                ArgsView {
                                                    file,
                                                    op,
                                                    op_args: if is_add {
                                                        add_tail(raw)
                                                    } else {
                                                        rest
                                                    },
                                                    env,
                                                    cwd,
                                                    dir,
                                                    id,
                                                    help: help_of(h),
                                                    version: h.contains("--version"@),
                                                },
                                            )
                                        }
                                    },
                                }
                            },
                        }
                    }
                },
            }
        },
    }
}

/// Prepends `p` to the pairs of a successful reading.
pub open spec fn prepend(
    p: Seq<(Seq<char>, Seq<char>)>,
    r: Result<Seq<(Seq<char>, Seq<char>)>, CliFault>,
) -> Result<Seq<(Seq<char>, Seq<char>)>, CliFault> {
    match r {
        Ok(x) => Ok(p + x),
        Err(f) => Err(f),
    }
}

/// The command that add saves, from add's arguments: the first names it, the
/// second is the executable, the rest are its arguments. `dir`, where given
/// and not empty, is its directory. Fewer than two arguments is an error.
pub fn command_for_add(op_args: Vec<String>, dir: Option<String>, envs: Vec<(String, String)>) -> (r:
    Result<Command, CxdError>)
    ensures
        op_args.len() < 2 ==> (r matches Err(CxdError::WrongArgumentCount { name, requires: needed, found })
            && name@ == "add"@ && needed == 2 && found == op_args.len()),
        op_args.len() >= 2 ==> (r matches Ok(c) && {
            &&& c.id == 0
            &&& c.name@ == op_args@[0]@
            &&& c.command@ == op_args@[1]@
            &&& c.args@ == op_args@.subrange(2, op_args@.len() as int)
            &&& c.envs@ == envs@
            &&& crate::command::dir_view(c.dir) == match dir {
                Some(d) => crate::command::dir_of_text(d@),
                None => None,
            }
            &&& c.wf()
        }),
{
    let n = op_args.len();
    if n < 2 {
        proof {
            reveal_strlit("add");
        }
        return Err(CxdError::WrongArgumentCount { name: "add".to_owned(), requires: 2, found: n });
    }
    let mut op_args = op_args;
    let args = op_args.split_off(2);
    let command = op_args.remove(1);
    let name = op_args.remove(0);
    let dir = match dir {
        Some(d) => if d.as_str().unicode_len() == 0 {
            None
        } else {
            Some(d)
        },
        None => None,
    };
    Ok(Command { id: 0, name, command, dir, args, envs })
}

/// Splits the full argument list into what the option parser reads (the
/// program's own name left out) and what add takes whole.
fn split_add_args(raw: Vec<String>) -> (r: (Vec<String>, Vec<String>))
    ensures
        texts(r.0@) == head_args(texts(raw@)),
        texts(r.1@) == add_tail(texts(raw@)),
{
    let ghost all = texts(raw@);
    let mut raw = raw;
    let mut tail: Vec<String> = Vec::new();
    proof {
        lemma_add_args_start_range(all);
    }
    assert(all.len() == raw@.len());
    if let Some(i) = find_add_args(&raw) {
        proof {
            lemma_add_args_start_range(texts(raw@));
        }
        let n = raw.len();
        assert(i + 1 < n);
        tail = raw.split_off(i + 1);
    }
    assert(texts(tail@) =~= add_tail(all));
    if raw.len() > 0 {
        raw.remove(0);
    }
    assert(texts(raw@) =~= head_args(all));
    (raw, tail)
}

/// Reads the help and version flags.
fn read_help(pargs: &mut pico_args::Arguments) -> (r: (Option<HelpType>, bool))
    ensures
        r.0 == help_of(unread(*old(pargs))),
        r.1 == unread(*old(pargs)).contains("--version"@),
        within(unread(*final(pargs)), unread(*old(pargs))),
        unread(*final(pargs)) == drop_flag(
            drop_flag(drop_flag(unread(*old(pargs)), "-h"@), "--help"@),
            "--version"@,
        ),
{
    let ghost head = unread(*pargs);
    proof {
        reveal_strlit("-h");
        reveal_strlit("--help");
        reveal_strlit("--version");
        assert("-h"@.len() == 2 && "--help"@.len() == 6 && "--version"@.len() == 9);
        assert("-h"@ != "--help"@ && "-h"@ != "--version"@ && "--help"@ != "--version"@);
        lemma_first_index(head, "-h"@);
        if let Some(i) = first_index(head, "-h"@) {
            lemma_remove_other(head, i, "--help"@);
            lemma_remove_other(head, i, "--version"@);
        }
    }
    let mut help: Option<HelpType> = None;
    if take_flag(pargs, "-h") {
        help = Some(HelpType::Short);
    }
    let ghost h1 = unread(*pargs);
    proof {
        lemma_first_index(h1, "--help"@);
        if let Some(i) = first_index(h1, "--help"@) {
            lemma_remove_other(h1, i, "--version"@);
        }
        lemma_key_index(head, "-h"@, "-h"@);
    }
    if take_flag(pargs, "--help") {
        help = Some(HelpType::Long);
    }
    let ghost h2 = unread(*pargs);
    proof {
        lemma_first_index(h2, "--version"@);
        lemma_key_index(h1, "--help"@, "--help"@);
        lemma_key_index(h2, "--version"@, "--version"@);
    }
    let version = take_flag(pargs, "--version");
    (help, version)
}

/// Reads the operation flags; two of them are an error.
fn read_op(pargs: &mut pico_args::Arguments) -> (r: Result<Option<Op>, CxdError>)
    ensures
        match ops_spec(unread(*old(pargs))) {
            Ok(op) => r == Ok::<Option<Op>, CxdError>(op) && unread(*final(pargs)) == ops_rest(
                unread(*old(pargs)),
            ),
            Err((x, y)) => r matches Err(CxdError::IncompatibleOperations(a, b)) && a == x && b == y,
        },
        r matches Ok(Some(op)) ==> asks_for(unread(*old(pargs)), op),
{
    let ghost u0 = unread(*pargs);
    proof {
        reveal_strlit("-a");
        reveal_strlit("--add");
        reveal_strlit("-r");
        reveal_strlit("--remove");
        reveal_strlit("-l");
        reveal_strlit("--list");
        reveal_strlit("--clear");
    }
    let mut op: Option<Op> = None;
    proof {
        lemma_key_index(unread(*pargs), "-a"@, "--add"@);
    }
    if take_either_flag(pargs, "-a", "--add") {
        op = Some(Op::Add);
    }
    let ghost u1 = unread(*pargs);
    assert(within(u1, u0));
    proof {
        lemma_key_index(u1, "-r"@, "--remove"@);
    }
    if take_either_flag(pargs, "-r", "--remove") {
        if let Some(old) = op {
            return Err(CxdError::IncompatibleOperations(Op::Remove, old));
        }
        op = Some(Op::Remove);
    }
    let ghost u2 = unread(*pargs);
    assert(within(u2, u0));
    proof {
        lemma_key_index(u2, "-l"@, "--list"@);
    }
    if take_either_flag(pargs, "-l", "--list") {
        if let Some(old) = op {
            return Err(CxdError::IncompatibleOperations(Op::List, old));
        }
        op = Some(Op::List);
    }
    let ghost u3 = unread(*pargs);
    assert(within(u3, u0));
    proof {
        lemma_key_index(u3, "--clear"@, "--clear"@);
    }
    if take_flag(pargs, "--clear") {
        if let Some(old) = op {
            return Err(CxdError::IncompatibleOperations(Op::Clear, old));
        }
        op = Some(Op::Clear);
    }
    Ok(op)
}

/// Reads every environment pair, `KEY=VALUE`; they belong to add alone.
fn read_env(pargs: &mut pico_args::Arguments, is_add: bool) -> (r: Result<Vec<(String, String)>, CxdError>)
    ensures
        match env_spec(unread(*old(pargs)), is_add) {
            Ok(pairs) => r matches Ok(env) && crate::command::envs_view(env@) == pairs && unread(
                *final(pargs),
            ) == env_rest(unread(*old(pargs))),
            Err(f) => r matches Err(e) && fault_of(e) == Some(f),
        },
        r matches Ok(env) ==> (env@.len() > 0 ==> is_add) && forall|k: int|
            0 <= k < env@.len() ==> !(#[trigger] env@[k]).0@.contains('='),
{
    let ghost s0 = unread(*pargs);
    let mut env: Vec<(String, String)> = Vec::new();
    assert(crate::command::envs_view(env@) =~= Seq::empty());
    assert(prepend(Seq::empty(), env_spec(s0, is_add)) =~= env_spec(s0, is_add)) by {
        if let Ok(x) = env_spec(s0, is_add) {
            assert(Seq::<(Seq<char>, Seq<char>)>::empty() + x =~= x);
        }
    }
    loop
        invariant
            env_spec(s0, is_add) == prepend(crate::command::envs_view(env@), env_spec(unread(*pargs), is_add)),
            env_rest(s0) == env_rest(unread(*pargs)),
            s0 == unread(*old(pargs)),
            env@.len() > 0 ==> is_add,
            forall|k: int| 0 <= k < env@.len() ==> !(#[trigger] env@[k]).0@.contains('='),
        decreases unread(*pargs).len(),
    {
        let ghost cur = unread(*pargs);
        let ghost pv = crate::command::envs_view(env@);
        proof {
            reveal_strlit("-e");
            reveal_strlit("--env");
            lemma_first_index(cur, "-e"@);
            lemma_first_index(cur, "--env"@);
            lemma_key_index(cur, "-e"@, "--env"@);
        }
        match take_value(pargs, "-e", "--env") {
            Ok(Some(pair)) => {
                assert(key_index(cur, "-e"@, "--env"@) is Some);
                if !is_add {
                    assert(env_spec(cur, is_add) == Err::<Seq<(Seq<char>, Seq<char>)>, CliFault>(CliFault::NeedsOp));
                    return Err(requires_op("-e, --env", "-a, --add"));
                }
                match crate::text::split_once(pair.as_str(), '=') {
                    Some((k, v)) => {
                        env.push((k, v));
                        proof {
                            let ghost p = (k@, v@);
                            assert(crate::command::envs_view(env@) =~= pv.push(p));
                            if let Ok(rest) = env_spec(unread(*pargs), is_add) {
                                assert(pv + (seq![p] + rest) =~= pv.push(p) + rest);
                            }
                        }
                    },
                    None => {
                        return Err(CxdError::ArgumentParse { arg: pair, reason: "<KEY>=<VALUE>".to_owned() });
                    },
                }
            },
            Ok(None) => {
                assert(key_index(cur, "-e"@, "--env"@) is None);
                assert(env_spec(cur, is_add) == Ok::<Seq<(Seq<char>, Seq<char>)>, CliFault>(Seq::empty()));
                assert(pv + Seq::empty() =~= pv);
                return Ok(env);
            },
            Err(e) => return Err(CxdError::CliParse(e)),
        }
    }
}

/// Parses the full argument list `raw`, whose first element is the program's
/// own name, into loosely checked options; exactly as `parse_spec` says.
/// Flags that conflict, and options given without their operation, are
/// errors; add takes every argument from its name on as they stand.
pub fn parse_args(raw: Vec<String>) -> (r: Result<CxdArgs, CxdError>)
    ensures
        match parse_spec(texts(raw@)) {
            Ok(v) => r matches Ok(a) && a@ == v,
            Err(f) => r matches Err(e) && fault_of(e) == Some(f),
        },
        r matches Ok(a) ==> {
            &&& (a.cwd || a.dir is Some || a.env@.len() > 0) ==> a.op == Some(Op::Add)
            &&& a.id ==> a.op == Some(Op::Remove)
            &&& !(a.cwd && a.dir is Some)
            &&& forall|k: int| 0 <= k < a.env@.len() ==> !(#[trigger] a.env@[k]).0@.contains('=')
            &&& a.op matches Some(op) ==> asks_for(head_args(texts(raw@)), op)
        },
        r matches Err(e) ==> is_cli_error(e),
{
    let ghost all = texts(raw@);
    let (head, tail) = split_add_args(raw);
    let mut pargs = parser_for(head);
    let mut args = CxdArgs::default();
    let (help, version) = read_help(&mut pargs);
    args.help = help;
    args.version = version;
    proof {
        reveal_strlit("-f");
        reveal_strlit("--file");
        reveal_strlit("-c");
        reveal_strlit("--cwd");
        reveal_strlit("-d");
        reveal_strlit("--dir");
        reveal_strlit("-i");
        reveal_strlit("--id");
    }
    let ghost u = unread(pargs);
    proof {
        lemma_key_index(u, "-f"@, "--file"@);
    }
    match take_value(&mut pargs, "-f", "--file") {
        Ok(Some(path)) => args.file = Some(path),
        Ok(None) => {},
        Err(e) => return Err(CxdError::CliParse(e)),
    }
    assert(within(unread(pargs), u));
    args.op = read_op(&mut pargs)?;
    let is_add = match args.op {
        Some(Op::Add) => true,
        _ => false,
    };
    let is_remove = match args.op {
        Some(Op::Remove) => true,
        _ => false,
    };
    proof {
        lemma_key_index(unread(pargs), "-c"@, "--cwd"@);
    }
    if take_either_flag(&mut pargs, "-c", "--cwd") {
        if !is_add {
            return Err(requires_op("-c, --cwd", "-a, --add"));
        }
        args.cwd = true;
    }
    proof {
        lemma_key_index(unread(pargs), "-d"@, "--dir"@);
    }
    match take_value(&mut pargs, "-d", "--dir") {
        Ok(Some(path)) => {
            if args.cwd {
                return Err(CxdError::OptionsIncompatible("-d, --dir".to_owned(), "-c, --cwd".to_owned()));
            } else if !is_add {
                return Err(requires_op("-d, --dir", "-a, --add"));
            }
            args.dir = Some(path);
        },
        Ok(None) => {},
        Err(e) => return Err(CxdError::CliParse(e)),
    }
    args.env = read_env(&mut pargs, is_add)?;
    proof {
        lemma_key_index(unread(pargs), "-i"@, "--id"@);
    }
    if take_either_flag(&mut pargs, "-i", "--id") {
        if !is_remove {
            return Err(requires_op("-i, --id", "-r, --remove"));
        }
        args.id = true;
    }
    args.op_args = leftover(pargs);
    if is_add {
        if args.op_args.len() > 0 {
            let words = crate::text::join_words(&args.op_args);
            return Err(CxdError::ArgumentParse { arg: words, reason: "unexpected argument".to_owned() });
        }
        args.op_args = tail;
    }
    Ok(args)
}

} // verus!
