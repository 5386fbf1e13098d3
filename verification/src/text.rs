//! Character-level helpers for string slices, and the split of a text into
//! lines.

use vstd::prelude::*;
use vstd::std_specs::iter::IteratorSpec;

verus! {

/// `String::push` appends one character to the end of the string.
pub assume_specification[ String::push ](text: &mut String, ch: char)
    ensures
        final(text)@ == old(text)@.push(ch),
;

/// Collects the characters of `s` into a vector, so that they can be indexed
/// in constant time.
pub fn chars_of(s: &str) -> (chars: Vec<char>)
    ensures
        chars@ == s@,
{
    let mut chars: Vec<char> = Vec::new();
    let mut it = s.chars();
    loop
        invariant
            it.obeys_prophetic_iter_laws(),
            it.decrease() is Some,
            chars@ + it.remaining() == s@,
        ensures
            chars@ == s@,
        decreases it.decrease()->0,
    {
        match it.next() {
            Some(c) => {
                chars.push(c);
            },
            None => {
                break;
            },
        }
    }
    chars
}

/// Whether `text` holds no line feed.
pub open spec fn no_line_feed(text: Seq<char>) -> bool {
    forall|i: int| 0 <= i < text.len() ==> #[trigger] text[i] != '\n'
}

/// Index of the first line feed in `text`; its length where it holds none.
pub open spec fn first_line_feed(text: Seq<char>) -> nat
    decreases text.len(),
{
    if text.len() == 0 || text[0] == '\n' {
        0
    } else {
        1 + first_line_feed(text.drop_first())
    }
}

/// `line` without the carriage return at its end, if it has one.
pub open spec fn without_carriage_return(line: Seq<char>) -> Seq<char> {
    if line.len() > 0 && line.last() == '\r' {
        line.drop_last()
    } else {
        line
    }
}

/// The lines of `text`. A line ends at a line feed, or at a carriage return
/// directly followed by one; the ending is not part of the line. What comes
/// after the last line feed is a line of its own unless it is empty, and it
/// keeps a carriage return at its end.
pub open spec fn lines_of(text: Seq<char>) -> Seq<Seq<char>>
    decreases text.len(),
{
    if text.len() == 0 {
        seq![]
    } else {
        let end = first_line_feed(text);
        if end >= text.len() {
            seq![text]
        } else {
            seq![without_carriage_return(text.take(end as int))] + lines_of(
                text.skip(end as int + 1),
            )
        }
    }
}

/// The texts of a sequence of strings, in the same order.
pub open spec fn strings_view(strings: Seq<String>) -> Seq<Seq<char>> {
    strings.map_values(|s: String| s@)
}

/// Where a text without a line feed is followed by more text, the first
/// line feed of the whole is the first line feed of what follows.
pub proof fn lemma_first_line_feed_after(head: Seq<char>, tail: Seq<char>)
    requires
        no_line_feed(head),
    ensures
        first_line_feed(head + tail) == head.len() + first_line_feed(tail),
    decreases head.len(),
{
    if head.len() > 0 {
        assert((head + tail).drop_first() =~= head.drop_first() + tail);
        lemma_first_line_feed_after(head.drop_first(), tail);
    }
}

/// A line that is closed by a line feed comes first, and the lines of the
/// rest follow.
pub proof fn lemma_lines_of_closed_line(head: Seq<char>, tail: Seq<char>)
    requires
        no_line_feed(head),
    ensures
        lines_of(head + seq!['\n'] + tail) == seq![without_carriage_return(head)] + lines_of(tail),
{
    let text = head + seq!['\n'] + tail;
    let after = seq!['\n'] + tail;
    assert(text =~= head + after);
    lemma_first_line_feed_after(head, after);
    assert(text.take(head.len() as int) =~= head);
    assert(text.skip(head.len() as int + 1) =~= tail);
}

/// A text without a line feed is one line, or none where it is empty.
pub proof fn lemma_lines_of_open_line(text: Seq<char>)
    requires
        no_line_feed(text),
    ensures
        lines_of(text) == if text.len() == 0 {
            Seq::<Seq<char>>::empty()
        } else {
            seq![text]
        },
{
    lemma_first_line_feed_after(text, Seq::<char>::empty());
}

/// Splits `content` into its lines.
pub fn split_lines(content: &str) -> (lines: Vec<String>)
    ensures
        strings_view(lines@) == lines_of(content@),
{
    let mut lines: Vec<String> = Vec::new();
    let mut current = String::new();
    // A carriage return that was read but not yet written to `current`: it
    // belongs to the line only if something other than a line feed follows.
    let mut pending_cr = false;
    let mut it = content.chars();
    let ghost mut open: Seq<char> = Seq::empty();
    loop
        invariant_except_break
            no_line_feed(open),
            open == if pending_cr {
                current@.push('\r')
            } else {
                current@
            },
            !pending_cr ==> current@.len() == 0 || current@.last() != '\r',
            lines_of(content@) == strings_view(lines@) + lines_of(open + it.remaining()),
        invariant
            it.obeys_prophetic_iter_laws(),
            it.decrease() is Some,
        ensures
            strings_view(lines@) == lines_of(content@),
        decreases it.decrease()->0,
    {
        let ghost rest = it.remaining();
        match it.next() {
            Some(c) => {
                if c == '\n' {
                    proof {
                        lemma_lines_of_closed_line(open, rest.drop_first());
                        assert(open + rest =~= open + seq!['\n'] + rest.drop_first());
                        assert(without_carriage_return(open) == current@);
                        open = Seq::empty();
                    }
                    lines.push(current);
                    current = String::new();
                    pending_cr = false;
                } else {
                    if pending_cr {
                        current.push('\r');
                        pending_cr = false;
                    }
                    if c == '\r' {
                        pending_cr = true;
                    } else {
                        current.push(c);
                    }
                    proof {
                        let grown = open.push(c);
                        assert(grown + it.remaining() =~= open + rest);
                        open = grown;
                    }
                }
            },
            None => {
                proof {
                    lemma_lines_of_open_line(open);
                }
                if pending_cr {
                    current.push('\r');
                }
                if !current.as_str().is_empty() {
                    lines.push(current);
                }
                break;
            },
        }
    }
    lines
}

} // verus!
