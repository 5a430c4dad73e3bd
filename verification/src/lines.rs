//! Splitting a text into lines and trimming a line of surrounding whitespace.

use vstd::prelude::*;
use crate::text::is_white_space;
use crate::text::is_whitespace;
use crate::text::views_of;

verus! {

/// The number of whitespace characters at the start of a text.
pub open spec fn leading_white(text: Seq<char>) -> nat
    decreases text.len(),
{
    if text.len() > 0 && is_white_space(text[0]) {
        1 + leading_white(text.drop_first())
    } else {
        0
    }
}

/// The number of whitespace characters at the end of a text.
pub open spec fn trailing_white(text: Seq<char>) -> nat
    decreases text.len(),
{
    if text.len() > 0 && is_white_space(text.last()) {
        1 + trailing_white(text.drop_last())
    } else {
        0
    }
}

/// A text without the whitespace at its start and at its end.
pub open spec fn trimmed(text: Seq<char>) -> Seq<char> {
    let rest = text.skip(leading_white(text) as int);
    rest.take(rest.len() - trailing_white(rest))
}

/// The whitespace at either end of a text is part of the text.
pub proof fn lemma_white_bounds(text: Seq<char>)
    ensures
        leading_white(text) <= text.len(),
        trailing_white(text) <= text.len(),
    decreases text.len(),
{
    if text.len() > 0 {
        lemma_white_bounds(text.drop_first());
        lemma_white_bounds(text.drop_last());
    }
}

/// A trimmed text neither starts nor ends with whitespace, and trimming it
/// again changes nothing.
pub proof fn lemma_trimmed_is_tight(text: Seq<char>)
    ensures
        trimmed(text).len() > 0 ==> !is_white_space(trimmed(text)[0]) && !is_white_space(
            trimmed(text).last(),
        ),
        trimmed(trimmed(text)) == trimmed(text),
{
    lemma_white_bounds(text);
    let rest = text.skip(leading_white(text) as int);
    lemma_leading_stops(text);
    lemma_white_bounds(rest);
    lemma_trailing_stops(rest);
    let core = trimmed(text);
    if core.len() > 0 {
        assert(core[0] == rest[0]);
        assert(core.last() == rest[rest.len() - trailing_white(rest) - 1]);
        assert(leading_white(core) == 0);
        assert(trailing_white(core) == 0);
        assert(core.skip(0) == core);
        assert(core.take(core.len() as int) == core);
    } else {
        assert(leading_white(core) == 0);
        assert(trailing_white(core) == 0);
        assert(core.skip(0) == core);
        assert(core.take(core.len() as int) == core);
    }
}

/// The character after the leading whitespace, if there is one, is no whitespace.
proof fn lemma_leading_stops(text: Seq<char>)
    ensures
        leading_white(text) < text.len() ==> !is_white_space(text[leading_white(text) as int]),
    decreases text.len(),
{
    if text.len() > 0 && is_white_space(text[0]) {
        lemma_leading_stops(text.drop_first());
    }
}

/// The character before the trailing whitespace, if there is one, is no whitespace.
proof fn lemma_trailing_stops(text: Seq<char>)
    ensures
        trailing_white(text) < text.len() ==> !is_white_space(
            text[text.len() - trailing_white(text) - 1],
        ),
    decreases text.len(),
{
    if text.len() > 0 && is_white_space(text.last()) {
        lemma_trailing_stops(text.drop_last());
    }
}

/// Removes the whitespace at the start and at the end of a text.
pub fn trim(text: &[char]) -> (core: Vec<char>)
    ensures
        core@ == trimmed(text@),
{
    let mut start: usize = 0;
    proof {
        assert(text@.skip(0) == text@);
    }
    while start < text.len() && is_whitespace(text[start])
        invariant
            start <= text.len(),
            leading_white(text@) == start + leading_white(text@.skip(start as int)),
        decreases text.len() - start,
    {
        proof {
            assert(text@.skip(start as int).drop_first() == text@.skip(start + 1));
        }
        start += 1;
    }
    let ghost rest = text@.skip(start as int);
    let mut end: usize = text.len();
    proof {
        assert(rest.take(rest.len() as int) == rest);
    }
    while end > start && is_whitespace(text[end - 1])
        invariant
            start <= end <= text.len(),
            rest == text@.skip(start as int),
            trailing_white(rest) == (text.len() - end) + trailing_white(rest.take(end - start)),
        decreases end - start,
    {
        proof {
            assert(rest.take(end - start).drop_last() == rest.take(end - start - 1));
        }
        end -= 1;
    }
    let mut core: Vec<char> = Vec::new();
    let mut i: usize = start;
    while i < end
        invariant
            start <= i <= end <= text.len(),
            core@ == text@.subrange(start as int, i as int),
        decreases end - i,
    {
        core.push(text[i]);
        proof {
            assert(text@.subrange(start as int, i + 1) == text@.subrange(
                start as int,
                i as int,
            ).push(text@[i as int]));
        }
        i += 1;
    }
    proof {
        assert(rest.take(rest.len() as int) == rest);
        assert(leading_white(text@) == start);
        assert(trailing_white(rest) == text.len() - end);
        assert(rest.take(end - start) == text@.subrange(start as int, end as int));
    }
    core
}

/// The position of the first line feed of a text, or its length where it holds none.
pub open spec fn line_end(text: Seq<char>) -> nat
    decreases text.len(),
{
    if text.len() == 0 || text[0] == '\n' {
        0
    } else {
        1 + line_end(text.drop_first())
    }
}

/// A line without the carriage return that stood before its line feed.
pub open spec fn without_carriage_return(line: Seq<char>) -> Seq<char> {
    if line.len() > 0 && line.last() == '\r' {
        line.drop_last()
    } else {
        line
    }
}

/// The lines of a text. A line ends at a line feed or at a carriage return
/// followed by a line feed, neither of which belongs to the line; the last
/// line needs no line ending, and a text that ends with one has no empty
/// line after it.
pub open spec fn lines_of(text: Seq<char>) -> Seq<Seq<char>>
    decreases text.len(),
{
    if text.len() == 0 {
        Seq::empty()
    } else {
        let end = line_end(text) as int;
        if end >= text.len() {
            seq![text]
        } else {
            seq![without_carriage_return(text.take(end))] + lines_of(text.skip(end + 1))
        }
    }
}

/// A position with no line feed before it that holds one, or is the end of
/// the text, is the end of the first line.
proof fn lemma_line_end_found(text: Seq<char>, at: int)
    requires
        0 <= at <= text.len(),
        forall|k: int| 0 <= k < at ==> text[k] != '\n',
        at < text.len() ==> text[at] == '\n',
    ensures
        line_end(text) == at,
    decreases text.len(),
{
    if at > 0 {
        let rest = text.drop_first();
        assert forall|k: int| 0 <= k < at - 1 implies rest[k] != '\n' by {
            assert(rest[k] == text[k + 1]);
        }
        lemma_line_end_found(rest, at - 1);
    }
}

/// Splits a text into its lines.
pub fn split_lines(text: &[char]) -> (lines: Vec<Vec<char>>)
    ensures
        views_of(lines@) == lines_of(text@),
{
    let mut lines: Vec<Vec<char>> = Vec::new();
    let mut start: usize = 0;
    proof {
        assert(text@.skip(0) == text@);
        assert(views_of(lines@) == Seq::<Seq<char>>::empty());
        assert(Seq::<Seq<char>>::empty() + lines_of(text@) == lines_of(text@));
    }
    while start < text.len()
        invariant
            start <= text.len(),
            lines_of(text@) == views_of(lines@) + lines_of(text@.skip(start as int)),
        decreases text.len() - start,
    {
        let ghost rest = text@.skip(start as int);
        let ghost before = views_of(lines@);
        let mut line: Vec<char> = Vec::new();
        let mut at: usize = start;
        while at < text.len() && text[at] != '\n'
            invariant
                start <= at <= text.len(),
                line@ == text@.subrange(start as int, at as int),
                forall|k: int| start <= k < at ==> text@[k] != '\n',
            decreases text.len() - at,
        {
            line.push(text[at]);
            proof {
                assert(text@.subrange(start as int, at + 1) == text@.subrange(
                    start as int,
                    at as int,
                ).push(text@[at as int]));
            }
            at += 1;
        }
        proof {
            assert forall|k: int| 0 <= k < at - start implies rest[k] != '\n' by {
                assert(rest[k] == text@[start + k]);
            }
            lemma_line_end_found(rest, at - start);
            assert(rest.take(at - start) == text@.subrange(start as int, at as int));
        }
        if at < text.len() {
            let n = line.len();
            if n > 0 && line[n - 1] == '\r' {
                line.pop();
            }
            proof {
                assert(line@ == without_carriage_return(rest.take(at - start)));
                assert(rest.skip(at - start + 1) == text@.skip(at + 1));
            }
            start = at + 1;
        } else {
            proof {
                assert(rest.take(rest.len() as int) == rest);
                assert(line@ == rest);
                assert(text@.skip(text.len() as int) == Seq::<char>::empty());
                assert(lines_of(rest) == seq![rest]);
                assert(lines_of(Seq::<char>::empty()) == Seq::<Seq<char>>::empty());
            }
            start = at;
        }
        let ghost kept = line@;
        lines.push(line);
        proof {
            assert(views_of(lines@) == before.push(kept));
            assert(before.push(kept) + lines_of(text@.skip(start as int)) == before + (seq![kept]
                + lines_of(text@.skip(start as int))));
        }
    }
    proof {
        assert(text@.skip(start as int).len() == 0);
        assert(views_of(lines@) + Seq::<Seq<char>>::empty() == views_of(lines@));
    }
    lines
}

} // verus!
