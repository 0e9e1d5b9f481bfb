//! The builtin executor's decisions: what each internal command prints or
//! asks the shell to do, computed from plain values.  Writing to the
//! console or a redirection target, changing the process's directory and
//! exiting are carried out by the caller.

use vstd::prelude::*;
use vstd::string::StrSliceExecFns;
use vstd::string::StringExecFns;

use crate::resolve::ResolvedCommand;
use crate::strutil::join_spaces;
use crate::strutil::lemma_join_spaces_push;
use crate::strutil::push_char;
use crate::strutil::str_eq;
use crate::strutil::views;

verus! {

/// The line `echo` writes: its arguments joined by single spaces (the
/// trailing newline is the caller's).
pub fn echo_line(args: &Vec<String>) -> (r: String)
    ensures
        r@ == join_spaces(views(args@)),
{
    let mut r = String::new();
    let mut i: usize = 0;
    proof {
        assert(views(args@).subrange(0, 0) =~= Seq::<Seq<char>>::empty());
    }
    while i < args.len()
        invariant
            i <= args@.len(),
            r@ == join_spaces(views(args@).subrange(0, i as int)),
        decreases args@.len() - i,
    {
        if i > 0 {
            push_char(&mut r, ' ');
        }
        r.append(args[i].as_str());
        i = i + 1;
        proof {
            let vs = views(args@);
            let prev = vs.subrange(0, i - 1);
            lemma_join_spaces_push(prev, vs[i - 1]);
            assert(prev.push(vs[i - 1]) =~= vs.subrange(0, i as int));
            assert(vs[i - 1] == args@[i - 1]@);
            if i - 1 > 0 {
                assert(join_spaces(prev).push(' ') + vs[i - 1] =~= join_spaces(prev) + seq![' ']
                    + vs[i - 1]);
            } else {
                assert(Seq::<char>::empty() + vs[i - 1] =~= vs[i - 1]);
            }
        }
    }
    proof {
        assert(views(args@).subrange(0, args@.len() as int) =~= views(args@));
    }
    r
}

/// The line `type` reports for a name, given how the name resolved:
/// a builtin, the resolved executable path, or not found.
pub fn type_line(name: &str, res: &ResolvedCommand) -> (r: String)
    ensures
        res is Builtin ==> r@ == name@ + " is a shell builtin"@,
        res is External ==> r@ == name@ + " is "@ + res->External_0@,
        res is NotFound ==> r@ == name@ + ": not found"@,
{
    let mut r = String::from_str(name);
    match res {
        ResolvedCommand::Builtin(_) => {
            r.append(" is a shell builtin");
        },
        ResolvedCommand::External(p) => {
            r.append(" is ");
            r.append(p.as_str());
        },
        ResolvedCommand::NotFound => {
            r.append(": not found");
        },
    }
    r
}

/// The driver's report for a name that resolved to nothing.
pub fn command_not_found_line(name: &str) -> (r: String)
    ensures
        r@ == name@ + ": command not found"@,
{
    let mut r = String::from_str(name);
    r.append(": command not found");
    r
}

/// The directory `cd` should move to: its argument, with `~` replaced by
/// the home directory.
pub fn cd_target(arg: &str, home: &str) -> (r: String)
    ensures
        arg@ == "~"@ ==> r@ == home@,
        arg@ != "~"@ ==> r@ == arg@,
{
    if str_eq(arg, "~") {
        String::from_str(home)
    } else {
        String::from_str(arg)
    }
}

/// The error `cd` reports when the target directory cannot be entered.
pub fn cd_error_line(path: &str) -> (r: String)
    ensures
        r@ == "cd: "@ + path@ + ": No such file or directory"@,
{
    let mut r = String::from_str("cd: ");
    r.append(path);
    r.append(": No such file or directory");
    r
}

/// Whether every character of the sequence is a decimal digit.
pub open spec fn spec_all_digits(s: Seq<char>) -> bool {
    forall|j: int| 0 <= j < s.len() ==> '0' <= #[trigger] s[j] <= '9'
}

/// The number the digit sequence denotes in decimal.
pub open spec fn spec_dec_val(s: Seq<char>) -> int
    decreases s.len(),
{
    if s.len() == 0 {
        0
    } else {
        spec_dec_val(s.drop_last()) * 10 + (s.last() as int - '0' as int)
    }
}

/// Reading further digits never shrinks the denoted value (granted the
/// value so far is not negative).
proof fn lemma_dec_val_grows(s: Seq<char>, i: int, j: int)
    requires
        0 <= i <= j <= s.len(),
        spec_dec_val(s.subrange(0, i)) >= 0,
        forall|k: int| i <= k < j ==> '0' <= #[trigger] s[k] <= '9',
    ensures
        spec_dec_val(s.subrange(0, j)) >= spec_dec_val(s.subrange(0, i)),
    decreases j - i,
{
    if i < j {
        let p = s.subrange(0, i);
        let q = s.subrange(0, i + 1);
        assert(q.drop_last() =~= p);
        assert(q.last() == s[i]);
        assert(spec_dec_val(q) == spec_dec_val(p) * 10 + (s[i] as int - '0' as int));
        assert(spec_dec_val(q) >= spec_dec_val(p));
        lemma_dec_val_grows(s, i + 1, j);
    }
}

/// The exit code `exit` asks for: the decimal value of its first
/// argument; with no argument, or one that is not a decimal number
/// within range, zero.
pub fn exit_code(args: &Vec<String>) -> (code: i32)
    ensures
        args@.len() == 0 ==> code == 0,
        args@.len() > 0 ==> ({
            let a = views(args@)[0];
            if a.len() > 0 && spec_all_digits(a) && spec_dec_val(a) <= i32::MAX {
                code == spec_dec_val(a)
            } else {
                code == 0
            }
        }),
{
    if args.len() == 0 {
        return 0;
    }
    let s = args[0].as_str();
    let n = s.unicode_len();
    if n == 0 {
        return 0;
    }
    let mut acc: u64 = 0;
    let mut i: usize = 0;
    proof {
        assert(s@.subrange(0, 0) =~= Seq::<char>::empty());
    }
    while i < n
        invariant
            args@.len() > 0,
            s@ == views(args@)[0],
            n == s@.len(),
            0 < n,
            i <= n,
            forall|k: int| 0 <= k < i ==> '0' <= #[trigger] s@[k] <= '9',
            acc == spec_dec_val(s@.subrange(0, i as int)),
            acc <= i32::MAX as u64,
        decreases n - i,
    {
        let c = s.get_char(i);
        let v = c as u32;
        if v < 48 || v > 57 {
            proof {
                assert(!('0' <= s@[i as int] <= '9'));
            }
            return 0;
        }
        let d = (v - 48) as u64;
        acc = acc * 10 + d;
        i = i + 1;
        proof {
            let p = s@.subrange(0, i as int);
            assert(p.drop_last() =~= s@.subrange(0, i - 1));
            assert(p.last() == s@[i - 1]);
        }
        if acc > (i32::MAX as u64) {
            proof {
                if spec_all_digits(s@) {
                    lemma_dec_val_grows(s@, i as int, n as int);
                    assert(s@.subrange(0, n as int) =~= s@);
                }
            }
            return 0;
        }
    }
    proof {
        assert(s@.subrange(0, n as int) =~= s@);
    }
    acc as i32
}

} // verus!
