//! The redirection resolver: scans a stage's token list for the six
//! redirection operator tokens (`>`, `1>`, `>>`, `1>>`, `2>`, `2>>`),
//! removes each operator and its filename operand, and reports the chosen
//! stdout and stderr targets.  A later operator of the same kind overrides
//! an earlier one.  A trailing operator with no filename is malformed: it
//! stays in the argument list, parsing stops, and the caller reports the
//! error.  Opening the target files is left to the caller, which hands the
//! outcome back as plain values.

use vstd::prelude::*;
use vstd::string::StrSliceExecFns;

use crate::strutil::lemma_views_push;
use crate::strutil::views;

verus! {

/// Which stream a redirection operator token routes, and how.
#[derive(Clone, Copy, Debug, PartialEq, Eq, Structural)]
pub enum RedirOp {
    /// `>` or `1>`: stdout, truncating.
    OutTrunc,
    /// `>>` or `1>>`: stdout, appending.
    OutAppend,
    /// `2>`: stderr, truncating.
    ErrTrunc,
    /// `2>>`: stderr, appending.
    ErrAppend,
}

/// One resolved redirection target: the file's path and whether to append
/// rather than truncate.
#[derive(Debug)]
pub struct RedirTarget {
    /// Path of the target file.
    pub path: String,
    /// Append to the file instead of truncating it.
    pub append: bool,
}

/// The view of a target: its path's characters and the append flag.
pub open spec fn target_view(t: Option<RedirTarget>) -> Option<(Seq<char>, bool)> {
    match t {
        Option::None => Option::None,
        Option::Some(r) => Option::Some((r.path@, r.append)),
    }
}

/// The redirection operator a token denotes, if any.
pub open spec fn spec_redir_op(t: Seq<char>) -> Option<RedirOp> {
    if t == seq!['>'] || t == seq!['1', '>'] {
        Option::Some(RedirOp::OutTrunc)
    } else if t == seq!['>', '>'] || t == seq!['1', '>', '>'] {
        Option::Some(RedirOp::OutAppend)
    } else if t == seq!['2', '>'] {
        Option::Some(RedirOp::ErrTrunc)
    } else if t == seq!['2', '>', '>'] {
        Option::Some(RedirOp::ErrAppend)
    } else {
        Option::None
    }
}

/// Classifies one token as a redirection operator or an ordinary word.
pub fn redir_op_of(t: &String) -> (r: Option<RedirOp>)
    ensures
        r == spec_redir_op(t@),
{
    let s = t.as_str();
    let n = s.unicode_len();
    if n == 1 {
        if s.get_char(0) == '>' {
            proof {
                assert(t@ =~= seq!['>']);
            }
            return Option::Some(RedirOp::OutTrunc);
        }
    } else if n == 2 {
        let c0 = s.get_char(0);
        let c1 = s.get_char(1);
        if c0 == '>' && c1 == '>' {
            proof {
                assert(t@ =~= seq!['>', '>']);
            }
            return Option::Some(RedirOp::OutAppend);
        }
        if c0 == '1' && c1 == '>' {
            proof {
                assert(t@ =~= seq!['1', '>']);
            }
            return Option::Some(RedirOp::OutTrunc);
        }
        if c0 == '2' && c1 == '>' {
            proof {
                assert(t@ =~= seq!['2', '>']);
            }
            return Option::Some(RedirOp::ErrTrunc);
        }
    } else if n == 3 {
        let c0 = s.get_char(0);
        let c1 = s.get_char(1);
        let c2 = s.get_char(2);
        if c0 == '1' && c1 == '>' && c2 == '>' {
            proof {
                assert(t@ =~= seq!['1', '>', '>']);
            }
            return Option::Some(RedirOp::OutAppend);
        }
        if c0 == '2' && c1 == '>' && c2 == '>' {
            proof {
                assert(t@ =~= seq!['2', '>', '>']);
            }
            return Option::Some(RedirOp::ErrAppend);
        }
    }
    proof {
        lemma_not_redir_op(t@);
    }
    Option::None
}

/// A token whose characters match none of the six operator spellings
/// denotes no operator.
proof fn lemma_not_redir_op(t: Seq<char>)
    requires
        !(t.len() == 1 && t[0] == '>'),
        !(t.len() == 2 && t[0] == '>' && t[1] == '>'),
        !(t.len() == 2 && t[0] == '1' && t[1] == '>'),
        !(t.len() == 2 && t[0] == '2' && t[1] == '>'),
        !(t.len() == 3 && t[0] == '1' && t[1] == '>' && t[2] == '>'),
        !(t.len() == 3 && t[0] == '2' && t[1] == '>' && t[2] == '>'),
    ensures
        spec_redir_op(t) is None,
{
    assert(t != seq!['>']);
    assert(t != seq!['>', '>']);
    assert(t != seq!['1', '>']);
    assert(t != seq!['2', '>']);
    assert(t != seq!['1', '>', '>']);
    assert(t != seq!['2', '>', '>']);
}

/// The redirection scan over a token list from position `i`: ordinary
/// tokens are kept as arguments, each operator and its operand are
/// consumed and recorded (a later one of the same stream overriding an
/// earlier one), and a trailing operator with no operand stays in the
/// arguments and marks the stage malformed.  The result is the cleaned
/// argument list, the stdout target, the stderr target, and the malformed
/// flag.
pub open spec fn redir_from(
    toks: Seq<Seq<char>>,
    i: int,
    args: Seq<Seq<char>>,
    out: Option<(Seq<char>, bool)>,
    err: Option<(Seq<char>, bool)>,
) -> (Seq<Seq<char>>, Option<(Seq<char>, bool)>, Option<(Seq<char>, bool)>, bool)
    decreases toks.len() - i,
{
    if i < 0 || i >= toks.len() {
        (args, out, err, false)
    } else {
        match spec_redir_op(toks[i]) {
            Option::None => redir_from(toks, i + 1, args.push(toks[i]), out, err),
            Option::Some(op) => {
                if i + 1 < toks.len() {
                    match op {
                        RedirOp::OutTrunc => redir_from(
                            toks,
                            i + 2,
                            args,
                            Option::Some((toks[i + 1], false)),
                            err,
                        ),
                        RedirOp::OutAppend => redir_from(
                            toks,
                            i + 2,
                            args,
                            Option::Some((toks[i + 1], true)),
                            err,
                        ),
                        RedirOp::ErrTrunc => redir_from(
                            toks,
                            i + 2,
                            args,
                            out,
                            Option::Some((toks[i + 1], false)),
                        ),
                        RedirOp::ErrAppend => redir_from(
                            toks,
                            i + 2,
                            args,
                            out,
                            Option::Some((toks[i + 1], true)),
                        ),
                    }
                } else {
                    (args.push(toks[i]), out, err, true)
                }
            },
        }
    }
}

/// The outcome of redirection parsing for the whole token list.
pub open spec fn spec_parse_redirections(toks: Seq<Seq<char>>) -> (
    Seq<Seq<char>>,
    Option<(Seq<char>, bool)>,
    Option<(Seq<char>, bool)>,
    bool,
) {
    redir_from(toks, 0, Seq::empty(), Option::None, Option::None)
}

/// A stage's tokens with the redirections extracted.
pub struct RedirPlan {
    /// The stage's arguments with operators and operands removed.
    pub args: Vec<String>,
    /// Where stdout goes, if redirected.
    pub stdout_to: Option<RedirTarget>,
    /// Where stderr goes, if redirected.
    pub stderr_to: Option<RedirTarget>,
    /// A trailing operator had no filename operand.
    pub malformed: bool,
}

/// Scans a stage's tokens for redirection operators and extracts the
/// stdout and stderr targets, leaving the cleaned argument list.
pub fn parse_redirections(toks: &Vec<String>) -> (plan: RedirPlan)
    ensures
        ({
            let m = spec_parse_redirections(views(toks@));
            &&& views(plan.args@) == m.0
            &&& target_view(plan.stdout_to) == m.1
            &&& target_view(plan.stderr_to) == m.2
            &&& plan.malformed == m.3
        }),
{
    let mut args: Vec<String> = Vec::new();
    let mut out: Option<RedirTarget> = Option::None;
    let mut err: Option<RedirTarget> = Option::None;
    let mut i: usize = 0;
    proof {
        assert(views(args@) =~= Seq::<Seq<char>>::empty());
    }
    while i < toks.len()
        invariant
            i <= toks@.len(),
            spec_parse_redirections(views(toks@)) == redir_from(
                views(toks@),
                i as int,
                views(args@),
                target_view(out),
                target_view(err),
            ),
        decreases toks@.len() - i,
    {
        proof {
            assert(views(toks@)[i as int] == toks@[i as int]@);
        }
        match redir_op_of(&toks[i]) {
            Option::None => {
                proof {
                    lemma_views_push(args@, toks@[i as int]);
                }
                args.push(toks[i].clone());
                i = i + 1;
            },
            Option::Some(op) => {
                if i + 1 < toks.len() {
                    let target = RedirTarget {
                        path: toks[i + 1].clone(),
                        append: matches!(op, RedirOp::OutAppend | RedirOp::ErrAppend),
                    };
                    match op {
                        RedirOp::OutTrunc | RedirOp::OutAppend => {
                            out = Option::Some(target);
                        },
                        RedirOp::ErrTrunc | RedirOp::ErrAppend => {
                            err = Option::Some(target);
                        },
                    }
                    i = i + 2;
                } else {
                    proof {
                        lemma_views_push(args@, toks@[i as int]);
                    }
                    args.push(toks[i].clone());
                    return RedirPlan { args, stdout_to: out, stderr_to: err, malformed: true };
                }
            },
        }
    }
    RedirPlan { args, stdout_to: out, stderr_to: err, malformed: false }
}

/// The scan of the legacy stderr-only pass from position `i`: every `2>`
/// or `2>>` with an operand is removed from the kept tokens, the last one
/// winning; everything else is kept.  The result is the kept tokens and
/// the chosen stderr target.
pub open spec fn stderr_redir_from(
    toks: Seq<Seq<char>>,
    i: int,
    kept: Seq<Seq<char>>,
    found: Option<(Seq<char>, bool)>,
) -> (Seq<Seq<char>>, Option<(Seq<char>, bool)>)
    decreases toks.len() - i,
{
    if i < 0 || i >= toks.len() {
        (kept, found)
    } else if (toks[i] == seq!['2', '>'] || toks[i] == seq!['2', '>', '>']) && i + 1 < toks.len() {
        stderr_redir_from(
            toks,
            i + 2,
            kept,
            Option::Some((toks[i + 1], toks[i] == seq!['2', '>', '>'])),
        )
    } else {
        stderr_redir_from(toks, i + 1, kept.push(toks[i]), found)
    }
}

/// The outcome of the stderr-only pass for the whole token list.
pub open spec fn spec_parse_stderr_redirection(toks: Seq<Seq<char>>) -> (
    Seq<Seq<char>>,
    Option<(Seq<char>, bool)>,
) {
    stderr_redir_from(toks, 0, Seq::empty(), Option::None)
}

/// Tells whether the token is `2>` (truncate) or `2>>` (append).
fn stderr_op_of(t: &String) -> (r: Option<bool>)
    ensures
        r is Some ==> (t@ == seq!['2', '>'] || t@ == seq!['2', '>', '>']),
        r == Option::<bool>::Some(true) ==> t@ == seq!['2', '>', '>'],
        r == Option::<bool>::Some(false) ==> t@ == seq!['2', '>'],
        r is None ==> (t@ != seq!['2', '>'] && t@ != seq!['2', '>', '>']),
{
    let s = t.as_str();
    let n = s.unicode_len();
    if n == 2 {
        if s.get_char(0) == '2' && s.get_char(1) == '>' {
            proof {
                assert(t@ =~= seq!['2', '>']);
            }
            return Option::Some(false);
        }
    } else if n == 3 {
        if s.get_char(0) == '2' && s.get_char(1) == '>' && s.get_char(2) == '>' {
            proof {
                assert(t@ =~= seq!['2', '>', '>']);
            }
            return Option::Some(true);
        }
    }
    proof {
        if t@ == seq!['2', '>'] {
            assert(t@.len() == 2 && t@[0] == '2' && t@[1] == '>');
        }
        if t@ == seq!['2', '>', '>'] {
            assert(t@.len() == 3 && t@[0] == '2' && t@[1] == '>' && t@[2] == '>');
        }
    }
    Option::None
}

/// Removes every `2>` or `2>>` operator and its filename operand from the
/// token list and returns the last stderr target seen: its path and
/// whether to append.
pub fn parse_stderr_redirection(tokens: &mut Vec<String>) -> (r: (Option<String>, bool))
    ensures
        ({
            let m = spec_parse_stderr_redirection(views(old(tokens)@));
            &&& views(final(tokens)@) == m.0
            &&& match r.0 {
                Option::None => m.1 is None && r.1 == false,
                Option::Some(p) => m.1 == Option::Some((p@, r.1)),
            }
        }),
{
    let ghost orig = views(tokens@);
    let mut kept: Vec<String> = Vec::new();
    let mut path: Option<String> = Option::None;
    let mut append: bool = false;
    let mut i: usize = 0;
    proof {
        assert(views(kept@) =~= Seq::<Seq<char>>::empty());
    }
    while i < tokens.len()
        invariant
            i <= tokens@.len(),
            views(tokens@) == orig,
            spec_parse_stderr_redirection(orig) == stderr_redir_from(
                orig,
                i as int,
                views(kept@),
                match path {
                    Option::None => Option::<(Seq<char>, bool)>::None,
                    Option::Some(p) => Option::Some((p@, append)),
                },
            ),
            path is None ==> append == false,
        decreases tokens@.len() - i,
    {
        proof {
            assert(orig[i as int] == tokens@[i as int]@);
        }
        let stderr_op = stderr_op_of(&tokens[i]);
        match stderr_op {
            Option::Some(ap) if i + 1 < tokens.len() => {
                proof {
                    assert(orig[i as int + 1] == tokens@[i as int + 1]@);
                }
                path = Option::Some(tokens[i + 1].clone());
                append = ap;
                i = i + 2;
            },
            _ => {
                proof {
                    lemma_views_push(kept@, tokens@[i as int]);
                }
                kept.push(tokens[i].clone());
                i = i + 1;
            },
        }
    }
    *tokens = kept;
    (path, append)
}

} // verus!
