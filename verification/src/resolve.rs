//! The command resolver: decides whether a stage's command name is one of
//! the fixed builtins, and otherwise which entry of the search path holds
//! the external executable.  The resolver itself never touches the file
//! system: the caller probes each candidate path and hands the outcomes
//! back as plain booleans.

use vstd::prelude::*;
use vstd::string::StrSliceExecFns;
use vstd::string::StringExecFns;

use crate::strutil::push_char;
use crate::strutil::str_eq;
use crate::strutil::views;

verus! {

/// One of the shell's fixed internal commands.
#[derive(Clone, Copy, Debug, PartialEq, Eq, Structural)]
pub enum BuiltinKind {
    /// `exit [code]`.
    Exit,
    /// `echo <args...>`.
    Echo,
    /// `cd [path]`.
    Cd,
    /// `pwd`.
    Pwd,
    /// `type <name>`.
    Type,
}

/// The builtin a command name denotes, if any.
pub open spec fn spec_builtin_of(s: Seq<char>) -> Option<BuiltinKind> {
    if s == seq!['e', 'x', 'i', 't'] {
        Option::Some(BuiltinKind::Exit)
    } else if s == seq!['e', 'c', 'h', 'o'] {
        Option::Some(BuiltinKind::Echo)
    } else if s == seq!['c', 'd'] {
        Option::Some(BuiltinKind::Cd)
    } else if s == seq!['p', 'w', 'd'] {
        Option::Some(BuiltinKind::Pwd)
    } else if s == seq!['t', 'y', 'p', 'e'] {
        Option::Some(BuiltinKind::Type)
    } else {
        Option::None
    }
}

/// Whether a command name denotes a builtin.
pub open spec fn spec_is_builtin(s: Seq<char>) -> bool {
    spec_builtin_of(s) is Some
}

/// Classifies a command name as one of the fixed builtins, or none.
pub fn builtin_of(cmd: &str) -> (r: Option<BuiltinKind>)
    ensures
        r == spec_builtin_of(cmd@),
{
    proof {
        reveal_strlit("exit");
        reveal_strlit("echo");
        reveal_strlit("cd");
        reveal_strlit("pwd");
        reveal_strlit("type");
        assert("exit"@ =~= seq!['e', 'x', 'i', 't']);
        assert("echo"@ =~= seq!['e', 'c', 'h', 'o']);
        assert("cd"@ =~= seq!['c', 'd']);
        assert("pwd"@ =~= seq!['p', 'w', 'd']);
        assert("type"@ =~= seq!['t', 'y', 'p', 'e']);
    }
    if str_eq(cmd, "exit") {
        Option::Some(BuiltinKind::Exit)
    } else if str_eq(cmd, "echo") {
        Option::Some(BuiltinKind::Echo)
    } else if str_eq(cmd, "cd") {
        Option::Some(BuiltinKind::Cd)
    } else if str_eq(cmd, "pwd") {
        Option::Some(BuiltinKind::Pwd)
    } else if str_eq(cmd, "type") {
        Option::Some(BuiltinKind::Type)
    } else {
        Option::None
    }
}

/// Whether the command name is one of the shell's builtins.
pub fn is_builtin(cmd: &str) -> (r: bool)
    ensures
        r == spec_is_builtin(cmd@),
{
    let k = builtin_of(cmd);
    matches!(k, Option::Some(_))
}

/// A directory entry's candidate path for a command name: the directory,
/// a slash, the name.
pub open spec fn spec_join_path(dir: Seq<char>, name: Seq<char>) -> Seq<char> {
    dir + seq!['/'] + name
}

/// Builds the candidate path `<dir>/<name>`.
pub fn join_path(dir: &str, name: &str) -> (r: String)
    ensures
        r@ == spec_join_path(dir@, name@),
{
    let mut r = String::from_str(dir);
    push_char(&mut r, '/');
    r.append(name);
    proof {
        assert(dir@.push('/') =~= dir@ + seq!['/']);
    }
    r
}

/// Whether a file mode carries at least one executable permission bit.
pub open spec fn spec_has_exec_permission(mode: u32) -> bool {
    mode & 0o111 != 0
}

/// Whether the probed file exists, is a regular file, and is executable:
/// the search path accepts it as an external command.
pub open spec fn spec_is_executable_file(exists: bool, is_file: bool, mode: u32) -> bool {
    exists && is_file && spec_has_exec_permission(mode)
}

/// Decides from one probe's outcome whether the candidate is an
/// executable regular file.
pub fn is_executable_file(exists: bool, is_file: bool, mode: u32) -> (r: bool)
    ensures
        r == spec_is_executable_file(exists, is_file, mode),
{
    exists && is_file && (mode & 0o111) != 0
}

/// The index of the first `true` in the probe outcomes, or their length
/// when every probe failed.
pub open spec fn spec_first_hit(hits: Seq<bool>) -> int
    decreases hits.len(),
{
    if hits.len() == 0 {
        0
    } else if hits[0] {
        0
    } else {
        1 + spec_first_hit(hits.drop_first())
    }
}

/// The first hit is never past the end, everything before it missed, and
/// when it is within bounds it is a hit.
proof fn lemma_first_hit(hits: Seq<bool>)
    ensures
        0 <= spec_first_hit(hits) <= hits.len(),
        forall|k: int| 0 <= k < spec_first_hit(hits) ==> !hits[k],
        spec_first_hit(hits) < hits.len() ==> hits[spec_first_hit(hits)],
    decreases hits.len(),
{
    if hits.len() == 0 {
    } else if hits[0] {
    } else {
        lemma_first_hit(hits.drop_first());
        assert forall|k: int| 0 <= k < spec_first_hit(hits) implies !hits[k] by {
            if k > 0 {
                assert(!hits.drop_first()[k - 1]);
            }
        }
    }
}

/// A prefix of misses followed by a hit pins the first hit down; a run of
/// misses covering everything pins it to the length.
proof fn lemma_first_hit_from_scan(hits: Seq<bool>, i: int)
    requires
        0 <= i <= hits.len(),
        forall|k: int| 0 <= k < i ==> !hits[k],
        i < hits.len() ==> hits[i],
    ensures
        i < hits.len() ==> spec_first_hit(hits) == i,
        i == hits.len() ==> spec_first_hit(hits) == hits.len(),
    decreases i,
{
    if i == 0 {
        if hits.len() > 0 && !hits[0] {
            lemma_first_hit(hits.drop_first());
        }
    } else {
        assert(!hits[0]);
        lemma_first_hit_from_scan(hits.drop_first(), i - 1);
    }
}

/// How a stage's command name resolves.
#[derive(Debug)]
pub enum ResolvedCommand {
    /// The name is one of the fixed internal commands.
    Builtin(BuiltinKind),
    /// The name resolved to this executable on the search path.
    External(String),
    /// The name is neither a builtin nor found on the search path.
    NotFound,
}

/// Resolves a command name against the builtin set and the probed search
/// path.  `dirs` are the search-path directories in order, and `hits[k]`
/// tells whether `<dirs[k]>/<name>` was probed to be an executable regular
/// file; the first hit wins.
pub fn resolve_command(name: &str, dirs: &Vec<String>, hits: &Vec<bool>) -> (r: ResolvedCommand)
    requires
        dirs@.len() == hits@.len(),
    ensures
        spec_is_builtin(name@) ==> r == ResolvedCommand::Builtin(spec_builtin_of(name@)->0),
        !spec_is_builtin(name@) && spec_first_hit(hits@) < hits@.len() ==> ({
            &&& r is External
            &&& r->External_0@ == spec_join_path(views(dirs@)[spec_first_hit(hits@)], name@)
        }),
        !spec_is_builtin(name@) && spec_first_hit(hits@) == hits@.len() ==> r
            is NotFound,
{
    let b = builtin_of(name);
    match b {
        Option::Some(kind) => ResolvedCommand::Builtin(kind),
        Option::None => {
            let mut i: usize = 0;
            while i < hits.len()
                invariant
                    spec_builtin_of(name@) is None,
                    dirs@.len() == hits@.len(),
                    i <= hits@.len(),
                    forall|k: int| 0 <= k < i ==> !hits@[k],
                decreases hits@.len() - i,
            {
                if hits[i] {
                    proof {
                        lemma_first_hit_from_scan(hits@, i as int);
                    }
                    let p = join_path(dirs[i].as_str(), name);
                    return ResolvedCommand::External(p);
                }
                i = i + 1;
            }
            proof {
                lemma_first_hit_from_scan(hits@, hits@.len() as int);
            }
            ResolvedCommand::NotFound
        },
    }
}

} // verus!
