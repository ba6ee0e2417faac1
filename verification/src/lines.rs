//! Cutting a text into lines. A line ends at a line feed, or at the end of the
//! text; the line feed is not part of the line, nor is a carriage return that
//! stands directly before it. A text that ends in a line feed has no further,
//! empty line after it.

use crate::text::{first_index, free_of, lemma_first_index, lemma_first_index_is};
use vstd::prelude::*;
use vstd::std_specs::iter::IteratorSpec;

verus! {

/// `line` without the carriage return at its end, if it has one there.
pub open spec fn strip_cr(line: Seq<char>) -> Seq<char> {
    if line.len() > 0 && line.last() == '\r' {
        line.drop_last()
    } else {
        line
    }
}

/// The lines of `text`, in order.
pub open spec fn lines_of(text: Seq<char>) -> Seq<Seq<char>>
    decreases text.len(),
{
    let k = first_index(text, '\n');
    if text.len() == 0 {
        Seq::empty()
    } else if 0 <= k < text.len() {
        seq![strip_cr(text.take(k))] + lines_of(text.skip(k + 1))
    } else {
        seq![text]
    }
}

/// No line of a text holds a line feed.
pub proof fn lemma_lines_hold_no_line_feed(text: Seq<char>)
    ensures
        forall|i: int|
            0 <= i < lines_of(text).len() ==> free_of(#[trigger] lines_of(text)[i], '\n'),
    decreases text.len(),
{
    let k = first_index(text, '\n');
    lemma_first_index(text, '\n');
    if text.len() == 0 {
    } else if 0 <= k < text.len() {
        let rest = text.skip(k + 1);
        lemma_lines_hold_no_line_feed(rest);
        let first = strip_cr(text.take(k));
        assert(free_of(first, '\n'));
        assert forall|i: int| 0 <= i < lines_of(text).len() implies free_of(
            #[trigger] lines_of(text)[i],
            '\n',
        ) by {
            if i > 0 {
                assert(lines_of(text)[i] == lines_of(rest)[i - 1]);
            }
        }
    } else {
        assert(text.take(k) == text);
    }
}

/// A text that is made of whole lines: it is empty or ends in a line feed.
pub open spec fn ends_lines(text: Seq<char>) -> bool {
    text.len() == 0 || text.last() == '\n'
}

/// A line as it can stand in a text and be read back unchanged: it holds no
/// line feed and does not end in a carriage return.
pub open spec fn plain_line(line: Seq<char>) -> bool {
    free_of(line, '\n') && (line.len() == 0 || line.last() != '\r')
}

/// A plain line written after whole lines, with a line feed behind it, is read
/// back as one more line.
pub proof fn lemma_lines_of_appended_line(text: Seq<char>, line: Seq<char>)
    requires
        ends_lines(text),
        plain_line(line),
    ensures
        lines_of(text + line + seq!['\n']) == lines_of(text).push(line),
        ends_lines(text + line + seq!['\n']),
    decreases text.len(),
{
    let whole = text + line + seq!['\n'];
    if text.len() == 0 {
        assert(forall|i: int| 0 <= i < line.len() ==> whole[i] != '\n');
        lemma_first_index_is(whole, '\n', line.len() as int);
        assert(whole.take(line.len() as int) == line);
        assert(whole.skip(line.len() as int + 1) == Seq::<char>::empty());
        assert(lines_of(whole) == seq![line] + lines_of(Seq::<char>::empty()));
    } else {
        let k = first_index(text, '\n');
        lemma_first_index(text, '\n');
        if k == text.len() {
            assert(text.take(k)[k - 1] == text.last());
        }
        assert forall|i: int| 0 <= i < k implies whole[i] != '\n' by {
            assert(whole[i] == text.take(k)[i]);
        }
        lemma_first_index_is(whole, '\n', k);
        let rest = text.skip(k + 1);
        assert(whole.take(k) == text.take(k));
        assert(whole.skip(k + 1) == rest + line + seq!['\n']);
        lemma_lines_of_appended_line(rest, line);
    }
}

/// Cuts `text` into its lines.
pub fn split_lines(text: &str) -> (lines: Vec<String>)
    ensures
        lines.deep_view() == lines_of(text@),
{
    let mut lines: Vec<String> = Vec::new();
    let mut cur = String::new();
    let mut pending_cr = false;
    let mut it = text.chars();
    let ghost mut start: int = 0;
    let ghost mut done: int = 0;
    assert(text@.skip(0) == text@);
    loop
        invariant_except_break
            0 <= start <= done <= text@.len(),
            it.remaining() == text@.skip(done),
            text@.subrange(start, done) == cur@ + (if pending_cr {
                seq!['\r']
            } else {
                Seq::<char>::empty()
            }),
            !pending_cr ==> cur@.len() == 0 || cur@.last() != '\r',
            forall|j: int| start <= j < done ==> text@[j] != '\n',
            lines.deep_view() + lines_of(text@.skip(start)) == lines_of(text@),
        ensures
            lines.deep_view() == lines_of(text@),
        decreases text@.len() - done,
    {
        let ghost rest = text@.skip(start);
        let ghost seen = text@.subrange(start, done);
        match it.next() {
            Some(c) => {
                if c == '\n' {
                    proof {
                        lemma_first_index_is(rest, '\n', done - start);
                        assert(rest.take(done - start) == seen);
                        assert(rest.skip(done - start + 1) == text@.skip(done + 1));
                        assert(strip_cr(seen) == cur@);
                    }
                    lines.push(cur);
                    cur = String::new();
                    pending_cr = false;
                    proof {
                        done = done + 1;
                        start = done;
                    }
                } else {
                    if pending_cr {
                        cur.push('\r');
                    }
                    if c == '\r' {
                        pending_cr = true;
                    } else {
                        cur.push(c);
                        pending_cr = false;
                    }
                    proof {
                        done = done + 1;
                    }
                }
            },
            None => {
                if pending_cr {
                    cur.push('\r');
                }
                proof {
                    assert(cur@ == rest);
                    lemma_first_index_is(rest, '\n', rest.len() as int);
                }
                if !cur.as_str().is_empty() {
                    lines.push(cur);
                }
                break ;
            },
        }
    }
    lines
}

} // verus!
