//! The tokenizer: splits one line of input into argument tokens, honoring
//! single-quote, double-quote and backslash-escape rules.
//!
//! - Inside single quotes every character, backslash included, is literal;
//!   the quotes themselves are removed.
//! - Inside double quotes a backslash escapes only `\`, `"`, `$` and
//!   newline; an escaped newline is deleted (line continuation); any other
//!   backslash sequence is kept literally, backslash included.
//! - Outside quotes a backslash escapes the following character, and
//!   spaces and tabs end the current token; runs of whitespace produce no
//!   empty tokens.
//! - An unterminated quote at the end of input is tolerated: the partially
//!   built token is still emitted.

use vstd::prelude::*;
use vstd::string::StrSliceExecFns;

use crate::QuoteState;
use crate::strutil::join_spaces;
use crate::strutil::lemma_views_push;
use crate::strutil::push_char;
use crate::strutil::views;

verus! {

/// The finished tokens after the end of input: a non-empty token under
/// construction is still emitted, an empty one is not.
pub open spec fn flush(cur: Seq<char>, acc: Seq<Seq<char>>) -> Seq<Seq<char>> {
    if cur.len() > 0 {
        acc.push(cur)
    } else {
        acc
    }
}

/// One run of the tokenizer's state machine: reading `s` from position
/// `i` in quoting mode `q`, with the token `cur` under construction and
/// the tokens `acc` already emitted.
pub open spec fn tokenize_from(
    s: Seq<char>,
    i: int,
    q: QuoteState,
    cur: Seq<char>,
    acc: Seq<Seq<char>>,
) -> Seq<Seq<char>>
    decreases s.len() - i,
{
    if i < 0 || i >= s.len() {
        flush(cur, acc)
    } else {
        let c = s[i];
        match q {
            QuoteState::Single => {
                if c == '\'' {
                    tokenize_from(s, i + 1, QuoteState::Unquoted, cur, acc)
                } else {
                    tokenize_from(s, i + 1, QuoteState::Single, cur.push(c), acc)
                }
            },
            QuoteState::Double => {
                if c == '"' {
                    tokenize_from(s, i + 1, QuoteState::Unquoted, cur, acc)
                } else if c == '\\' {
                    if i + 1 >= s.len() {
                        tokenize_from(s, i + 1, QuoteState::Double, cur.push('\\'), acc)
                    } else {
                        let d = s[i + 1];
                        if d == '\\' || d == '"' || d == '$' {
                            tokenize_from(s, i + 2, QuoteState::Double, cur.push(d), acc)
                        } else if d == '\n' {
                            tokenize_from(s, i + 2, QuoteState::Double, cur, acc)
                        } else {
                            tokenize_from(s, i + 2, QuoteState::Double, cur.push('\\').push(d), acc)
                        }
                    }
                } else {
                    tokenize_from(s, i + 1, QuoteState::Double, cur.push(c), acc)
                }
            },
            QuoteState::Unquoted => {
                if c == '\'' {
                    tokenize_from(s, i + 1, QuoteState::Single, cur, acc)
                } else if c == '"' {
                    tokenize_from(s, i + 1, QuoteState::Double, cur, acc)
                } else if c == '\\' {
                    if i + 1 >= s.len() {
                        tokenize_from(s, i + 1, QuoteState::Unquoted, cur.push('\\'), acc)
                    } else {
                        tokenize_from(s, i + 2, QuoteState::Unquoted, cur.push(s[i + 1]), acc)
                    }
                } else if c == ' ' || c == '\t' {
                    tokenize_from(s, i + 1, QuoteState::Unquoted, Seq::empty(), flush(cur, acc))
                } else {
                    tokenize_from(s, i + 1, QuoteState::Unquoted, cur.push(c), acc)
                }
            },
        }
    }
}

/// The tokens of one line of input.
pub open spec fn spec_tokenize(s: Seq<char>) -> Seq<Seq<char>> {
    tokenize_from(s, 0, QuoteState::Unquoted, Seq::empty(), Seq::empty())
}

/// Every token of the sequence is non-empty.
pub open spec fn all_nonempty(ts: Seq<Seq<char>>) -> bool {
    forall|k: int| 0 <= k < ts.len() ==> (#[trigger] ts[k]).len() > 0
}

/// Flushing keeps every emitted token non-empty.
proof fn lemma_flush_nonempty(cur: Seq<char>, acc: Seq<Seq<char>>)
    requires
        all_nonempty(acc),
    ensures
        all_nonempty(flush(cur, acc)),
{
    if cur.len() > 0 {
        let r = flush(cur, acc);
        assert forall|k: int| 0 <= k < r.len() implies r[k].len() > 0 by {
            if k < acc.len() {
                assert(r[k] == acc[k]);
            } else {
                assert(r[k] == cur);
            }
        }
    }
}

/// The state machine never emits an empty token, whatever state it is in,
/// as long as the tokens already emitted are themselves non-empty.
proof fn lemma_tokenize_from_nonempty(
    s: Seq<char>,
    i: int,
    q: QuoteState,
    cur: Seq<char>,
    acc: Seq<Seq<char>>,
)
    requires
        all_nonempty(acc),
    ensures
        all_nonempty(tokenize_from(s, i, q, cur, acc)),
    decreases s.len() - i,
{
    if i < 0 || i >= s.len() {
        lemma_flush_nonempty(cur, acc);
    } else {
        let c = s[i];
        match q {
            QuoteState::Single => {
                if c == '\'' {
                    lemma_tokenize_from_nonempty(s, i + 1, QuoteState::Unquoted, cur, acc);
                } else {
                    lemma_tokenize_from_nonempty(s, i + 1, QuoteState::Single, cur.push(c), acc);
                }
            },
            QuoteState::Double => {
                if c == '"' {
                    lemma_tokenize_from_nonempty(s, i + 1, QuoteState::Unquoted, cur, acc);
                } else if c == '\\' {
                    if i + 1 >= s.len() {
                        lemma_tokenize_from_nonempty(
                            s,
                            i + 1,
                            QuoteState::Double,
                            cur.push('\\'),
                            acc,
                        );
                    } else {
                        let d = s[i + 1];
                        if d == '\\' || d == '"' || d == '$' {
                            lemma_tokenize_from_nonempty(
                                s,
                                i + 2,
                                QuoteState::Double,
                                cur.push(d),
                                acc,
                            );
                        } else if d == '\n' {
                            lemma_tokenize_from_nonempty(s, i + 2, QuoteState::Double, cur, acc);
                        } else {
                            lemma_tokenize_from_nonempty(
                                s,
                                i + 2,
                                QuoteState::Double,
                                cur.push('\\').push(d),
                                acc,
                            );
                        }
                    }
                } else {
                    lemma_tokenize_from_nonempty(s, i + 1, QuoteState::Double, cur.push(c), acc);
                }
            },
            QuoteState::Unquoted => {
                if c == '\'' {
                    lemma_tokenize_from_nonempty(s, i + 1, QuoteState::Single, cur, acc);
                } else if c == '"' {
                    lemma_tokenize_from_nonempty(s, i + 1, QuoteState::Double, cur, acc);
                } else if c == '\\' {
                    if i + 1 >= s.len() {
                        lemma_tokenize_from_nonempty(
                            s,
                            i + 1,
                            QuoteState::Unquoted,
                            cur.push('\\'),
                            acc,
                        );
                    } else {
                        lemma_tokenize_from_nonempty(
                            s,
                            i + 2,
                            QuoteState::Unquoted,
                            cur.push(s[i + 1]),
                            acc,
                        );
                    }
                } else if c == ' ' || c == '\t' {
                    lemma_flush_nonempty(cur, acc);
                    lemma_tokenize_from_nonempty(
                        s,
                        i + 1,
                        QuoteState::Unquoted,
                        Seq::empty(),
                        flush(cur, acc),
                    );
                } else {
                    lemma_tokenize_from_nonempty(s, i + 1, QuoteState::Unquoted, cur.push(c), acc);
                }
            },
        }
    }
}

/// Law: no token of a tokenized line is ever empty.
pub proof fn lemma_tokens_nonempty(s: Seq<char>)
    ensures
        all_nonempty(spec_tokenize(s)),
{
    assert(all_nonempty(Seq::<Seq<char>>::empty()));
    lemma_tokenize_from_nonempty(s, 0, QuoteState::Unquoted, Seq::empty(), Seq::empty());
}

/// Splits a line into argument tokens under the shell's quoting rules.
pub fn tokenize(input: &str) -> (tokens: Vec<String>)
    ensures
        views(tokens@) == spec_tokenize(input@),
{
    let n = input.unicode_len();
    let mut tokens: Vec<String> = Vec::new();
    let mut cur = String::new();
    let mut q = QuoteState::Unquoted;
    let mut i: usize = 0;
    proof {
        assert(views(tokens@) =~= Seq::<Seq<char>>::empty());
    }
    while i < n
        invariant
            n == input@.len(),
            i <= n,
            spec_tokenize(input@) == tokenize_from(input@, i as int, q, cur@, views(tokens@)),
        decreases n - i,
    {
        let c = input.get_char(i);
        match q {
            QuoteState::Single => {
                if c == '\'' {
                    q = QuoteState::Unquoted;
                } else {
                    push_char(&mut cur, c);
                }
                i = i + 1;
            },
            QuoteState::Double => {
                if c == '"' {
                    q = QuoteState::Unquoted;
                    i = i + 1;
                } else if c == '\\' {
                    if i + 1 >= n {
                        push_char(&mut cur, '\\');
                        i = i + 1;
                    } else {
                        let d = input.get_char(i + 1);
                        if d == '\\' || d == '"' || d == '$' {
                            push_char(&mut cur, d);
                        } else if d == '\n' {
                            // an escaped newline is deleted
                        } else {
                            push_char(&mut cur, '\\');
                            push_char(&mut cur, d);
                        }
                        i = i + 2;
                    }
                } else {
                    push_char(&mut cur, c);
                    i = i + 1;
                }
            },
            QuoteState::Unquoted => {
                if c == '\'' {
                    q = QuoteState::Single;
                    i = i + 1;
                } else if c == '"' {
                    q = QuoteState::Double;
                    i = i + 1;
                } else if c == '\\' {
                    if i + 1 >= n {
                        push_char(&mut cur, '\\');
                        i = i + 1;
                    } else {
                        let d = input.get_char(i + 1);
                        push_char(&mut cur, d);
                        i = i + 2;
                    }
                } else if c == ' ' || c == '\t' {
                    if !cur.as_str().is_empty() {
                        proof {
                            lemma_views_push(tokens@, cur);
                        }
                        tokens.push(cur);
                        cur = String::new();
                    } else {
                        proof {
                            assert(cur@ =~= Seq::<char>::empty());
                        }
                    }
                    i = i + 1;
                } else {
                    push_char(&mut cur, c);
                    i = i + 1;
                }
            },
        }
    }
    if !cur.as_str().is_empty() {
        proof {
            lemma_views_push(tokens@, cur);
        }
        tokens.push(cur);
    }
    tokens
}

/// A character that the tokenizer treats as an ordinary word character:
/// neither whitespace, nor a quote, nor a backslash.
pub open spec fn is_plain_char(c: char) -> bool {
    c != ' ' && c != '\t' && c != '\'' && c != '"' && c != '\\'
}

/// A word made only of ordinary characters.
pub open spec fn is_plain_chars(w: Seq<char>) -> bool {
    forall|j: int| 0 <= j < w.len() ==> is_plain_char(#[trigger] w[j])
}

/// A non-empty word made only of ordinary characters.
pub open spec fn is_plain_word(w: Seq<char>) -> bool {
    w.len() > 0 && is_plain_chars(w)
}

/// Reading a run of ordinary characters in the unquoted state just
/// appends them to the token under construction.
proof fn lemma_consume_plain(s: Seq<char>, i: int, j: int, cur: Seq<char>, acc: Seq<Seq<char>>)
    requires
        0 <= i <= j <= s.len(),
        forall|k: int| i <= k < j ==> is_plain_char(#[trigger] s[k]),
    ensures
        tokenize_from(s, i, QuoteState::Unquoted, cur, acc) == tokenize_from(
            s,
            j,
            QuoteState::Unquoted,
            cur + s.subrange(i, j),
            acc,
        ),
    decreases j - i,
{
    if i == j {
        assert(cur + s.subrange(i, j) =~= cur);
    } else {
        assert(is_plain_char(s[i]));
        lemma_consume_plain(s, i + 1, j, cur.push(s[i]), acc);
        assert(cur.push(s[i]) + s.subrange(i + 1, j) =~= cur + s.subrange(i, j));
    }
}

/// Tokenizing the joined words from position `i` onward emits exactly
/// those words after the tokens already emitted.
proof fn lemma_tokenize_join_from(
    words: Seq<Seq<char>>,
    s: Seq<char>,
    i: int,
    acc: Seq<Seq<char>>,
)
    requires
        0 <= i <= s.len(),
        words.len() > 0,
        forall|k: int| 0 <= k < words.len() ==> is_plain_word(#[trigger] words[k]),
        s.subrange(i, s.len() as int) == join_spaces(words),
    ensures
        tokenize_from(s, i, QuoteState::Unquoted, Seq::empty(), acc) == acc + words,
    decreases words.len(),
{
    let w = words[0];
    let wl = w.len() as int;
    assert(is_plain_word(w));
    if words.len() == 1 {
        assert(s.subrange(i, s.len() as int) == w);
        assert(s.len() - i == wl);
        assert forall|k: int| i <= k < i + wl implies is_plain_char(#[trigger] s[k]) by {
            assert(s[k] == s.subrange(i, s.len() as int)[k - i]);
        }
        lemma_consume_plain(s, i, i + wl, Seq::empty(), acc);
        assert(Seq::<char>::empty() + s.subrange(i, i + wl) =~= w);
        assert(tokenize_from(s, i + wl, QuoteState::Unquoted, w, acc) == flush(w, acc));
        assert(acc.push(w) =~= acc + words);
    } else {
        let rest = words.drop_first();
        let jr = join_spaces(rest);
        assert(join_spaces(words) == w + seq![' '] + jr);
        assert(s.len() - i == wl + 1 + jr.len());
        assert forall|k: int| i <= k < i + wl implies is_plain_char(#[trigger] s[k]) by {
            assert(s[k] == s.subrange(i, s.len() as int)[k - i]);
            assert((w + seq![' '] + jr)[k - i] == w[k - i]);
        }
        lemma_consume_plain(s, i, i + wl, Seq::empty(), acc);
        assert(Seq::<char>::empty() + s.subrange(i, i + wl) =~= w) by {
            assert forall|k: int| 0 <= k < wl implies s.subrange(i, i + wl)[k] == w[k] by {
                assert(s[i + k] == s.subrange(i, s.len() as int)[k]);
                assert((w + seq![' '] + jr)[k] == w[k]);
            }
        }
        assert(s[i + wl] == ' ') by {
            assert(s[i + wl] == s.subrange(i, s.len() as int)[wl]);
            assert((w + seq![' '] + jr)[wl] == ' ');
        }
        assert(tokenize_from(s, i + wl, QuoteState::Unquoted, w, acc) == tokenize_from(
            s,
            i + wl + 1,
            QuoteState::Unquoted,
            Seq::empty(),
            flush(w, acc),
        ));
        assert(flush(w, acc) == acc.push(w));
        assert(s.subrange(i + wl + 1, s.len() as int) =~= jr) by {
            assert forall|k: int| 0 <= k < jr.len() implies s.subrange(
                i + wl + 1,
                s.len() as int,
            )[k] == jr[k] by {
                assert(s[i + wl + 1 + k] == s.subrange(i, s.len() as int)[wl + 1 + k]);
                assert((w + seq![' '] + jr)[wl + 1 + k] == jr[k]);
            }
        }
        lemma_tokenize_join_from(rest, s, i + wl + 1, acc.push(w));
        assert(acc.push(w) + rest =~= acc + words);
    }
}

/// Law: a line built by joining non-empty unquoted words with single
/// spaces tokenizes back to exactly those words.
pub proof fn lemma_tokenize_join_spaces(words: Seq<Seq<char>>)
    requires
        forall|k: int| 0 <= k < words.len() ==> is_plain_word(#[trigger] words[k]),
    ensures
        spec_tokenize(join_spaces(words)) == words,
{
    let s = join_spaces(words);
    if words.len() == 0 {
        assert(spec_tokenize(s) =~= words);
    } else {
        assert(s.subrange(0, s.len() as int) =~= s);
        lemma_tokenize_join_from(words, s, 0, Seq::empty());
        assert(Seq::<Seq<char>>::empty() + words =~= words);
    }
}

/// Law: tokenizing is idempotent on its own output.  Joining a line's
/// tokens with single spaces and tokenizing again reproduces the tokens,
/// as long as they hold only ordinary characters.
pub proof fn lemma_retokenize_idempotent(s: Seq<char>)
    requires
        forall|k: int|
            0 <= k < spec_tokenize(s).len() ==> is_plain_chars(#[trigger] spec_tokenize(s)[k]),
    ensures
        spec_tokenize(join_spaces(spec_tokenize(s))) == spec_tokenize(s),
{
    lemma_tokens_nonempty(s);
    lemma_tokenize_join_spaces(spec_tokenize(s));
}

} // verus!
