//! Line handling for text held in the store: the first line of a piece
//! of text, split as Rust's line iteration splits, at a line feed or at a
//! carriage return followed by a line feed.

use vstd::prelude::*;

verus! {

/// `n` is where the first line of `s` ends: the position of the first
/// line feed, or the length of `s` when it has none. Exactly one `n`
/// satisfies this for a given `s`.
pub open spec fn is_line_end(s: Seq<char>, n: int) -> bool {
    &&& 0 <= n <= s.len()
    &&& (forall|j: int| 0 <= j < n ==> s[j] != '\n')
    &&& (n < s.len() ==> s[n] == '\n')
}

/// The first line of `s`, given where it ends: everything before the
/// first line feed, with a carriage return directly before that line
/// feed stripped.
pub open spec fn line_prefix(s: Seq<char>, n: int) -> Seq<char> {
    if 0 < n < s.len() && s[n - 1] == '\r' {
        s.subrange(0, n - 1)
    } else {
        s.subrange(0, n)
    }
}

/// At most one position ends the first line.
pub proof fn lemma_line_end_unique(s: Seq<char>, n1: int, n2: int)
    requires
        is_line_end(s, n1),
        is_line_end(s, n2),
    ensures
        n1 == n2,
{
}

/// The first line of a non-empty piece of text: the characters before
/// the first line feed (with a terminating carriage return stripped), or
/// the whole text when it has no line feed.
pub fn first_line(string: &str) -> (r: &str)
    requires
        string@.len() > 0,
    ensures
        exists|n: int| is_line_end(string@, n) && r@ == line_prefix(string@, n),
{
    let len = string.unicode_len();
    let mut i: usize = 0;
    loop
        invariant
            i <= len,
            len == string@.len(),
            forall|j: int| 0 <= j < i ==> string@[j] != '\n',
        ensures
            i <= len,
            is_line_end(string@, i as int),
        decreases len - i,
    {
        if i == len {
            break ;
        }
        if string.get_char(i) == '\n' {
            break ;
        }
        i = i + 1;
    }
    let end = if i > 0 && i < len && string.get_char(i - 1) == '\r' {
        i - 1
    } else {
        i
    };
    let r = string.substring_char(0, end);
    proof {
        assert(is_line_end(string@, i as int) && r@ == line_prefix(string@, i as int));
    }
    r
}

} // verus!
