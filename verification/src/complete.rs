//! The pure part of tab completion: which builtin names match the typed
//! prefix, and where the word being completed starts.  Listing the search
//! path's directories and presenting the candidates stay with the caller.

use vstd::prelude::*;
use vstd::string::StrSliceExecFns;
use vstd::string::StringExecFns;

use crate::strutil::lemma_views_push;
use crate::strutil::spec_starts_with;
use crate::strutil::str_starts_with;
use crate::strutil::views;

verus! {

/// The builtin names that start with the typed prefix, in the fixed
/// order the completer offers them.
pub open spec fn spec_builtin_completions(p: Seq<char>) -> Seq<Seq<char>> {
    let s0 = Seq::<Seq<char>>::empty();
    let s1 = if spec_starts_with(seq!['e', 'x', 'i', 't'], p) {
        s0.push(seq!['e', 'x', 'i', 't'])
    } else {
        s0
    };
    let s2 = if spec_starts_with(seq!['e', 'c', 'h', 'o'], p) {
        s1.push(seq!['e', 'c', 'h', 'o'])
    } else {
        s1
    };
    let s3 = if spec_starts_with(seq!['c', 'd'], p) {
        s2.push(seq!['c', 'd'])
    } else {
        s2
    };
    let s4 = if spec_starts_with(seq!['p', 'w', 'd'], p) {
        s3.push(seq!['p', 'w', 'd'])
    } else {
        s3
    };
    if spec_starts_with(seq!['t', 'y', 'p', 'e'], p) {
        s4.push(seq!['t', 'y', 'p', 'e'])
    } else {
        s4
    }
}

/// The builtin names that start with the typed prefix.
pub fn builtin_completions(prefix: &str) -> (r: Vec<String>)
    ensures
        views(r@) == spec_builtin_completions(prefix@),
{
    proof {
        reveal_strlit("exit");
        reveal_strlit("echo");
        reveal_strlit("cd");
        reveal_strlit("pwd");
        reveal_strlit("type");
        assert("exit"@ =~= seq!['e', 'x', 'i', 't']);
        assert("echo"@ =~= seq!['e', 'c', 'h', 'o']);
        assert("cd"@ =~= seq!['c', 'd']);
        assert("pwd"@ =~= seq!['p', 'w', 'd']);
        assert("type"@ =~= seq!['t', 'y', 'p', 'e']);
    }
    let mut r: Vec<String> = Vec::new();
    proof {
        assert(views(r@) =~= Seq::<Seq<char>>::empty());
    }
    if str_starts_with("exit", prefix) {
        let w = String::from_str("exit");
        proof {
            lemma_views_push(r@, w);
        }
        r.push(w);
    }
    if str_starts_with("echo", prefix) {
        let w = String::from_str("echo");
        proof {
            lemma_views_push(r@, w);
        }
        r.push(w);
    }
    if str_starts_with("cd", prefix) {
        let w = String::from_str("cd");
        proof {
            lemma_views_push(r@, w);
        }
        r.push(w);
    }
    if str_starts_with("pwd", prefix) {
        let w = String::from_str("pwd");
        proof {
            lemma_views_push(r@, w);
        }
        r.push(w);
    }
    if str_starts_with("type", prefix) {
        let w = String::from_str("type");
        proof {
            lemma_views_push(r@, w);
        }
        r.push(w);
    }
    r
}

/// The position where the word under completion starts: right after the
/// last space or tab of the typed prefix, or the start of the line.
pub open spec fn spec_word_start(s: Seq<char>) -> int
    decreases s.len(),
{
    if s.len() == 0 {
        0
    } else if s.last() == ' ' || s.last() == '\t' {
        s.len() as int
    } else {
        spec_word_start(s.drop_last())
    }
}

/// Finds where the word under completion starts in the typed prefix.
pub fn word_start(prefix: &str) -> (r: usize)
    ensures
        r == spec_word_start(prefix@),
{
    let n = prefix.unicode_len();
    proof {
        assert(prefix@.subrange(0, n as int) =~= prefix@);
    }
    let mut j: usize = n;
    while j > 0
        invariant
            n == prefix@.len(),
            j <= n,
            spec_word_start(prefix@) == spec_word_start(prefix@.subrange(0, j as int)),
        decreases j,
    {
        let c = prefix.get_char(j - 1);
        if c == ' ' || c == '\t' {
            proof {
                let p = prefix@.subrange(0, j as int);
                assert(p.last() == prefix@[j - 1]);
            }
            return j;
        }
        proof {
            let p = prefix@.subrange(0, j as int);
            assert(p.last() == prefix@[j - 1]);
            assert(p.drop_last() =~= prefix@.subrange(0, j - 1));
        }
        j = j - 1;
    }
    proof {
        assert(prefix@.subrange(0, 0) =~= Seq::<char>::empty());
    }
    0
}

} // verus!
