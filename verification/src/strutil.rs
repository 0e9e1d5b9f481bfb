//! Small verified helpers over strings and character sequences that the
//! rest of the engine builds on: building strings character by character,
//! equality and prefix tests, splitting on a separator character, and
//! joining words with spaces.

use vstd::prelude::*;
use vstd::string::StrSliceExecFns;

verus! {

/// The character-sequence views of a sequence of strings.
pub open spec fn views(ts: Seq<String>) -> Seq<Seq<char>> {
    ts.map_values(|t: String| t@)
}

/// Pushing a string onto a vector appends its view to the vector's views.
pub proof fn lemma_views_push(ts: Seq<String>, t: String)
    ensures
        views(ts.push(t)) == views(ts).push(t@),
{
    assert(views(ts.push(t)) =~= views(ts).push(t@));
}

/// Relies on String::push: appends the given character to the end of the
/// string and changes nothing else.
#[verifier::external_body]
pub fn push_char(s: &mut String, c: char)
    ensures
        final(s)@ == old(s)@.push(c),
{
    s.push(c);
}

/// A string holding exactly the given characters, in order.
pub fn string_of(chars: &Vec<char>) -> (s: String)
    ensures
        s@ == chars@,
{
    let mut s = String::new();
    let mut i: usize = 0;
    while i < chars.len()
        invariant
            i <= chars@.len(),
            s@ == chars@.subrange(0, i as int),
        decreases chars@.len() - i,
    {
        push_char(&mut s, chars[i]);
        i = i + 1;
        proof {
            assert(s@ =~= chars@.subrange(0, i as int));
        }
    }
    proof {
        assert(s@ =~= chars@);
    }
    s
}

/// Character-for-character equality of two string slices.
pub fn str_eq(a: &str, b: &str) -> (r: bool)
    ensures
        r == (a@ == b@),
{
    let na = a.unicode_len();
    let nb = b.unicode_len();
    if na != nb {
        return false;
    }
    let mut i: usize = 0;
    while i < na
        invariant
            na == a@.len(),
            na == b@.len(),
            i <= na,
            forall|j: int| 0 <= j < i ==> a@[j] == b@[j],
        decreases na - i,
    {
        if a.get_char(i) != b.get_char(i) {
            return false;
        }
        i = i + 1;
    }
    proof {
        assert(a@ =~= b@);
    }
    true
}

/// Whether `p` is a prefix of `s`.
pub open spec fn spec_starts_with(s: Seq<char>, p: Seq<char>) -> bool {
    p.len() <= s.len() && s.subrange(0, p.len() as int) == p
}

/// Whether the string `s` starts with the prefix `p`.
pub fn str_starts_with(s: &str, p: &str) -> (r: bool)
    ensures
        r == spec_starts_with(s@, p@),
{
    let ns = s.unicode_len();
    let np = p.unicode_len();
    if np > ns {
        proof {
            assert(!spec_starts_with(s@, p@));
        }
        return false;
    }
    let mut i: usize = 0;
    while i < np
        invariant
            ns == s@.len(),
            np == p@.len(),
            np <= ns,
            i <= np,
            forall|j: int| 0 <= j < i ==> s@[j] == p@[j],
        decreases np - i,
    {
        if s.get_char(i) != p.get_char(i) {
            proof {
                assert(s@.subrange(0, p@.len() as int)[i as int] != p@[i as int]);
            }
            return false;
        }
        i = i + 1;
    }
    proof {
        assert(s@.subrange(0, p@.len() as int) =~= p@);
    }
    true
}

/// Splitting a character sequence on a separator, scanning from position
/// `i` with a piece `cur` under construction and the pieces `acc` already
/// finished.  Every separator ends a piece, so empty pieces are kept, and
/// the final piece is emitted even when it is empty.
pub open spec fn split_from(
    s: Seq<char>,
    i: int,
    cur: Seq<char>,
    acc: Seq<Seq<char>>,
    sep: char,
) -> Seq<Seq<char>>
    decreases s.len() - i,
{
    if i < 0 || i >= s.len() {
        acc.push(cur)
    } else if s[i] == sep {
        split_from(s, i + 1, Seq::empty(), acc.push(cur), sep)
    } else {
        split_from(s, i + 1, cur.push(s[i]), acc, sep)
    }
}

/// The pieces of `s` between occurrences of `sep`, in order.
pub open spec fn spec_split(s: Seq<char>, sep: char) -> Seq<Seq<char>> {
    split_from(s, 0, Seq::empty(), Seq::empty(), sep)
}

/// Splits a string on a separator character, keeping empty pieces.
pub fn split_char(s: &str, sep: char) -> (r: Vec<String>)
    ensures
        views(r@) == spec_split(s@, sep),
{
    let n = s.unicode_len();
    let mut pieces: Vec<String> = Vec::new();
    let mut cur = String::new();
    let mut i: usize = 0;
    proof {
        assert(views(pieces@) =~= Seq::<Seq<char>>::empty());
    }
    while i < n
        invariant
            n == s@.len(),
            i <= n,
            spec_split(s@, sep) == split_from(s@, i as int, cur@, views(pieces@), sep),
        decreases n - i,
    {
        let c = s.get_char(i);
        if c == sep {
            proof {
                lemma_views_push(pieces@, cur);
            }
            pieces.push(cur);
            cur = String::new();
        } else {
            push_char(&mut cur, c);
        }
        i = i + 1;
    }
    proof {
        lemma_views_push(pieces@, cur);
    }
    pieces.push(cur);
    pieces
}

/// The words joined by single spaces, with no leading or trailing space.
pub open spec fn join_spaces(words: Seq<Seq<char>>) -> Seq<char>
    decreases words.len(),
{
    if words.len() == 0 {
        Seq::empty()
    } else if words.len() == 1 {
        words[0]
    } else {
        words[0] + seq![' '] + join_spaces(words.drop_first())
    }
}

/// Joining one more word appends a space and the word (or just the word,
/// when there was nothing yet).
pub proof fn lemma_join_spaces_push(words: Seq<Seq<char>>, w: Seq<char>)
    ensures
        words.len() == 0 ==> join_spaces(words.push(w)) == w,
        words.len() > 0 ==> join_spaces(words.push(w)) == join_spaces(words) + seq![' '] + w,
    decreases words.len(),
{
    if words.len() == 0 {
        assert(words.push(w)[0] =~= w);
    } else if words.len() == 1 {
        let wp = words.push(w);
        assert(wp.drop_first() =~= seq![w]);
        assert(join_spaces(seq![w]) == seq![w][0]);
        assert(seq![w][0] =~= w);
        assert(join_spaces(wp) == wp[0] + seq![' '] + join_spaces(wp.drop_first()));
        assert(join_spaces(words) == words[0]);
    } else {
        lemma_join_spaces_push(words.drop_first(), w);
        assert(words.push(w).drop_first() =~= words.drop_first().push(w));
        assert(
            words[0] + seq![' '] + (join_spaces(words.drop_first()) + seq![' '] + w)
            =~= (words[0] + seq![' '] + join_spaces(words.drop_first())) + seq![' '] + w
        );
    }
}

/// Whether `s` contains the character `c`.
pub fn contains_char(s: &str, c: char) -> (r: bool)
    ensures
        r == s@.contains(c),
{
    let n = s.unicode_len();
    let mut i: usize = 0;
    while i < n
        invariant
            n == s@.len(),
            i <= n,
            forall|j: int| 0 <= j < i ==> s@[j] != c,
        decreases n - i,
    {
        if s.get_char(i) == c {
            return true;
        }
        i = i + 1;
    }
    false
}

} // verus!
