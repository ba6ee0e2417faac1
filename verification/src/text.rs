//! Text as a sequence of characters: appending single characters, and finding
//! the first occurrence of a delimiter.

use vstd::prelude::*;

verus! {

/// Trusted: `String::push` of the standard library. It appends the given
/// character to the end of the string and changes nothing else.
pub assume_specification[ String::push ](s: &mut String, c: char)
    ensures
        final(s)@ == old(s)@.push(c),
;

/// The position of the first `c` in `text`, or the length of `text` where it
/// holds none.
pub open spec fn first_index(text: Seq<char>, c: char) -> int
    decreases text.len(),
{
    if text.len() == 0 || text[0] == c {
        0
    } else {
        1 + first_index(text.skip(1), c)
    }
}

/// Whether `c` occurs nowhere in `text`.
pub open spec fn free_of(text: Seq<char>, c: char) -> bool {
    forall|i: int| 0 <= i < text.len() ==> text[i] != c
}

/// `first_index` lies within the text, nothing before it is `c`, and it is at a
/// `c` unless it is the end of the text.
pub proof fn lemma_first_index(text: Seq<char>, c: char)
    ensures
        0 <= first_index(text, c) <= text.len(),
        free_of(text.take(first_index(text, c)), c),
        first_index(text, c) < text.len() ==> text[first_index(text, c)] == c,
    decreases text.len(),
{
    if text.len() == 0 || text[0] == c {
    } else {
        let rest = text.skip(1);
        lemma_first_index(rest, c);
        let k = first_index(rest, c);
        let head = text.take(k + 1);
        assert forall|i: int| 0 <= i < head.len() implies head[i] != c by {
            if i > 0 {
                assert(rest.take(k)[i - 1] == text[i]);
            }
        }
    }
}

/// A position with no `c` before it, which is at a `c` or at the end of the
/// text, is the first index of `c`.
pub proof fn lemma_first_index_is(text: Seq<char>, c: char, k: int)
    requires
        0 <= k <= text.len(),
        forall|i: int| 0 <= i < k ==> text[i] != c,
        k < text.len() ==> text[k] == c,
    ensures
        first_index(text, c) == k,
    decreases text.len(),
{
    if text.len() == 0 || text[0] == c {
    } else {
        lemma_first_index_is(text.skip(1), c, k - 1);
    }
}

} // verus!
