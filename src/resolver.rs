//! Turning a bare name and a scope into one stored command.

use vstd::prelude::*;
use crate::command::{Command, dir_text, dir_view};

verus! {

/// Where to look for a command of a given name.
#[derive(Debug)]
pub enum Scope {
    /// Only a command with no directory.
    Global,
    /// Only a command whose directory is exactly this one: a directory given
    /// explicitly, or the current one used as a strict filter.
    Directory(String),
    /// No strict scope: a command in this, the current, directory wins; else
    /// a command of that name anywhere, if it is the only one.
    Unscoped(String),
}

/// One of several commands that share a name.
#[derive(Debug)]
pub struct Candidate {
    pub id: i64,
    pub dir: Option<String>,
}

/// What resolving a name came to.
#[derive(Debug)]
pub enum Resolution {
    Found(Command),
    NotFound,
    /// More than one command could be meant; each is listed, in store order.
    Ambiguous(Vec<Candidate>),
}

/// What resolving a name came to, with each candidate as its id and directory.
pub enum Outcome {
    Found(Command),
    NotFound,
    Ambiguous(Seq<(i64, Option<Seq<char>>)>),
}

/// The strict directory that a scope asks for, if it asks for one.
pub open spec fn strict_dir(scope: Scope) -> Option<Seq<char>> {
    match scope {
        Scope::Global => Some(Seq::empty()),
        Scope::Directory(d) => Some(d@),
        Scope::Unscoped(_) => None,
    }
}

/// The current directory that an unscoped lookup prefers.
pub open spec fn current_dir(scope: Scope) -> Seq<char> {
    match scope {
        Scope::Unscoped(cwd) => cwd@,
        _ => Seq::empty(),
    }
}

/// The commands of `cmds` named `name`, in order.
pub open spec fn named(cmds: Seq<Command>, name: Seq<char>) -> Seq<Command>
    decreases cmds.len(),
{
    if cmds.len() == 0 {
        Seq::empty()
    } else {
        let rest = named(cmds.drop_last(), name);
        if cmds.last().name@ == name {
            rest.push(cmds.last())
        } else {
            rest
        }
    }
}

/// The commands of `cmds` named `name` whose stored directory is `dir`, in order.
pub open spec fn named_in(cmds: Seq<Command>, name: Seq<char>, dir: Seq<char>) -> Seq<Command>
    decreases cmds.len(),
{
    if cmds.len() == 0 {
        Seq::empty()
    } else {
        let rest = named_in(cmds.drop_last(), name, dir);
        if cmds.last().name@ == name && dir_text(cmds.last().dir) == dir {
            rest.push(cmds.last())
        } else {
            rest
        }
    }
}

pub open spec fn candidate_of(c: Command) -> (i64, Option<Seq<char>>) {
    (c.id, dir_view(c.dir))
}

/// The policy: a strict scope takes the first command of that name in that
/// directory, or nothing. Without one, a command in the current directory
/// wins; else the only command of that name; else none, or all of them as
/// candidates.
pub open spec fn resolve_spec(
    cmds: Seq<Command>,
    name: Seq<char>,
    strict: Option<Seq<char>>,
    cwd: Seq<char>,
) -> Outcome {
    match strict {
        Some(dir) => {
            let m = named_in(cmds, name, dir);
            if m.len() == 0 { Outcome::NotFound } else { Outcome::Found(m[0]) }
        },
        None => {
            let here = named_in(cmds, name, cwd);
            let all = named(cmds, name);
            if here.len() > 0 {
                Outcome::Found(here[0])
            } else if all.len() == 0 {
                Outcome::NotFound
            } else if all.len() == 1 {
                Outcome::Found(all[0])
            } else {
                Outcome::Ambiguous(all.map_values(|c: Command| candidate_of(c)))
            }
        },
    }
}

/// Each candidate as its id and directory.
pub open spec fn candidate_views(cs: Seq<Candidate>) -> Seq<(i64, Option<Seq<char>>)> {
    cs.map_values(|k: Candidate| (k.id, dir_view(k.dir)))
}

impl Resolution {
    pub open spec fn view(self) -> Outcome {
        match self {
            Resolution::Found(c) => Outcome::Found(c),
            Resolution::NotFound => Outcome::NotFound,
            Resolution::Ambiguous(cs) => Outcome::Ambiguous(candidate_views(cs@)),
        }
    }
}

proof fn lemma_named_step(cmds: Seq<Command>, name: Seq<char>, dir: Seq<char>, i: int)
    requires
        0 <= i < cmds.len(),
    ensures
        named(cmds.take(i + 1), name) == (if cmds[i].name@ == name {
            named(cmds.take(i), name).push(cmds[i])
        } else {
            named(cmds.take(i), name)
        }),
        named_in(cmds.take(i + 1), name, dir) == (if cmds[i].name@ == name && dir_text(
            cmds[i].dir,
        ) == dir {
            named_in(cmds.take(i), name, dir).push(cmds[i])
        } else {
            named_in(cmds.take(i), name, dir)
        }),
{
    assert(cmds.take(i + 1).drop_last() =~= cmds.take(i));
}

/// Finds, in one pass, the first command named `name` in `dir`, the first
/// command named `name` anywhere, and every command named `name`.
fn scan(cmds: &Vec<Command>, name: &str, dir: &str) -> (r: (
    Option<usize>,
    Option<usize>,
    Vec<Candidate>,
))
    ensures
        match r.0 {
            Some(j) => j < cmds.len() && named_in(cmds@, name@, dir@).len() > 0
                && named_in(cmds@, name@, dir@)[0] == cmds@[j as int],
            None => named_in(cmds@, name@, dir@).len() == 0,
        },
        match r.1 {
            Some(j) => j < cmds.len() && named(cmds@, name@).len() > 0
                && named(cmds@, name@)[0] == cmds@[j as int],
            None => named(cmds@, name@).len() == 0,
        },
        candidate_views(r.2@) == named(cmds@, name@).map_values(
            |c: Command| candidate_of(c),
        ),
{
    let mut here: Option<usize> = None;
    let mut first: Option<usize> = None;
    let mut cands: Vec<Candidate> = Vec::new();
    let mut i: usize = 0;
    while i < cmds.len()
        invariant
            i <= cmds.len(),
            match here {
                Some(j) => j < i && named_in(cmds@.take(i as int), name@, dir@).len() > 0
                    && named_in(cmds@.take(i as int), name@, dir@)[0] == cmds@[j as int],
                None => named_in(cmds@.take(i as int), name@, dir@).len() == 0,
            },
            match first {
                Some(j) => j < i && named(cmds@.take(i as int), name@).len() > 0
                    && named(cmds@.take(i as int), name@)[0] == cmds@[j as int],
                None => named(cmds@.take(i as int), name@).len() == 0,
            },
            candidate_views(cands@) == named(cmds@.take(i as int), name@).map_values(
                |c: Command| candidate_of(c),
            ),
        decreases cmds.len() - i,
    {
        let c = &cmds[i];
        proof {
            lemma_named_step(cmds@, name@, dir@, i as int);
        }
        if crate::text::same(c.name.as_str(), name) {
            let in_dir = match &c.dir {
                Some(d) => crate::text::same(d.as_str(), dir),
                None => dir.unicode_len() == 0,
            };
            assert(in_dir == (dir_text(c.dir) == dir@)) by {
                if c.dir is None && dir@.len() == 0 {
                    assert(dir@ =~= Seq::<char>::empty());
                }
            }
            if in_dir && here.is_none() {
                here = Some(i);
            }
            if first.is_none() {
                first = Some(i);
            }
            let d = match &c.dir {
                Some(d) => Some(d.clone()),
                None => None,
            };
            let ghost before = cands@;
            let ghost prev = named(cmds@.take(i as int), name@);
            cands.push(Candidate { id: c.id, dir: d });
            assert(candidate_views(cands@) =~= candidate_views(before).push(candidate_of(*c)));
            assert(prev.push(*c).map_values(|c: Command| candidate_of(c)) =~= prev.map_values(
                |c: Command| candidate_of(c),
            ).push(candidate_of(*c)));
        }
        i += 1;
    }
    assert(cmds@.take(i as int) =~= cmds@);
    (here, first, cands)
}

/// Resolves `name` among `cmds` under `scope`.
pub fn resolve(cmds: Vec<Command>, name: &str, scope: &Scope) -> (r: Resolution)
    ensures
        r@ == resolve_spec(cmds@, name@, strict_dir(*scope), current_dir(*scope)),
{
    let mut cmds = cmds;
    let empty = String::new();
    let (dir, strict) = match scope {
        Scope::Global => (empty.as_str(), true),
        Scope::Directory(d) => (d.as_str(), true),
        Scope::Unscoped(cwd) => (cwd.as_str(), false),
    };
    proof {
        if strict {
            assert(strict_dir(*scope) == Some(dir@));
        } else {
            assert(current_dir(*scope) == dir@);
        }
    }
    let (here, first, cands) = scan(&cmds, name, dir);
    let ghost all = named(cmds@, name@);
    assert(cands@.len() == all.len()) by {
        assert(candidate_views(cands@).len() == all.map_values(|c: Command| candidate_of(c)).len());
    }
    match here {
        Some(j) => Resolution::Found(cmds.remove(j)),
        None => {
            if strict {
                Resolution::NotFound
            } else if cands.len() == 0 {
                Resolution::NotFound
            } else if cands.len() == 1 {
                match first {
                    Some(j) => Resolution::Found(cmds.remove(j)),
                    None => Resolution::NotFound,
                }
            } else {
                Resolution::Ambiguous(cands)
            }
        },
    }
}

proof fn lemma_named_in_within_named(cmds: Seq<Command>, name: Seq<char>, dir: Seq<char>)
    ensures
        named_in(cmds, name, dir).len() <= named(cmds, name).len(),
        forall|k: int|
            0 <= k < named_in(cmds, name, dir).len() ==> named(cmds, name).contains(
                #[trigger] named_in(cmds, name, dir)[k],
            ),
    decreases cmds.len(),
{
    if cmds.len() > 0 {
        lemma_named_in_within_named(cmds.drop_last(), name, dir);
        let rest = named(cmds.drop_last(), name);
        if cmds.last().name@ == name {
            assert forall|x: Command| rest.contains(x) implies rest.push(cmds.last()).contains(x) by {
                let k = choose|k: int| 0 <= k < rest.len() && rest[k] == x;
                assert(rest.push(cmds.last())[k] == x);
            }
            assert(rest.push(cmds.last())[rest.len() as int] == cmds.last());
        }
    }
}

/// Resolving a name that no command carries finds nothing, whatever the
/// scope: the outcome is "not found", never an error.
pub proof fn lemma_unknown_name_not_found(
    cmds: Seq<Command>,
    name: Seq<char>,
    strict: Option<Seq<char>>,
    cwd: Seq<char>,
)
    requires
        named(cmds, name).len() == 0,
    ensures
        resolve_spec(cmds, name, strict, cwd) == Outcome::NotFound,
{
    lemma_named_in_within_named(cmds, name, cwd);
    if let Some(d) = strict {
        lemma_named_in_within_named(cmds, name, d);
    }
}

/// Without a strict scope, a name that exactly one command carries resolves
/// to that command, from any current directory.
pub proof fn lemma_sole_match_found(cmds: Seq<Command>, name: Seq<char>, cwd: Seq<char>)
    requires
        named(cmds, name).len() == 1,
    ensures
        resolve_spec(cmds, name, None, cwd) == Outcome::Found(named(cmds, name)[0]),
{
    lemma_named_in_within_named(cmds, name, cwd);
    let here = named_in(cmds, name, cwd);
    if here.len() > 0 {
        assert(named(cmds, name).contains(here[0]));
    }
}

/// Two commands of one name filed under two different directories: from the
/// first directory, without a strict scope, the first one is found; from a
/// third directory the outcome is ambiguous, with exactly those two as
/// candidates, in order.
pub proof fn lemma_directory_shadowing(
    a: Command,
    b: Command,
    dir_a: Seq<char>,
    dir_b: Seq<char>,
    other: Seq<char>,
)
    requires
        a.name@ == b.name@,
        dir_view(a.dir) == Some(dir_a),
        dir_view(b.dir) == Some(dir_b),
        dir_a != dir_b,
        other != dir_a,
        other != dir_b,
    ensures
        resolve_spec(seq![a, b], a.name@, None, dir_a) == Outcome::Found(a),
        resolve_spec(seq![a, b], a.name@, None, other) == Outcome::Ambiguous(
            seq![(a.id, Some(dir_a)), (b.id, Some(dir_b))],
        ),
{
    let cmds = seq![a, b];
    let name = a.name@;
    assert(cmds.drop_last() =~= seq![a]);
    assert(seq![a].drop_last() =~= Seq::<Command>::empty());
    reveal_with_fuel(named, 3);
    reveal_with_fuel(named_in, 3);
    assert(named(cmds, name) =~= seq![a, b]);
    assert(named_in(cmds, name, dir_a) =~= seq![a]);
    assert(named_in(cmds, name, other) =~= Seq::<Command>::empty());
    assert(seq![a, b].map_values(|c: Command| candidate_of(c)) =~= seq![
        (a.id, Some(dir_a)),
        (b.id, Some(dir_b)),
    ]);
}

} // verus!
