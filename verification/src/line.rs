use vstd::prelude::*;
use vstd::slice::*;
use crate::model::{lemma_views_push, views};
use crate::text::{find_char, find_from, lemma_find_from};

verus! {

/// The line that starts at `start`: it runs to the next line feed or to the
/// end of the text, without the carriage return that stands before a line
/// feed.
pub open spec fn line_at(text: Seq<char>, start: int) -> Seq<char> {
    let end = find_from(text, '\n', start);
    if start < end && end < text.len() && text[end - 1] == '\r' {
        text.subrange(start, end - 1)
    } else {
        text.subrange(start, end)
    }
}

/// The lines of `text` from `start` on.
pub open spec fn lines_from(text: Seq<char>, start: int) -> Seq<Seq<char>>
    decreases text.len() - start,
{
    if start < 0 || start >= text.len() {
        Seq::empty()
    } else {
        let end = find_from(text, '\n', start);
        proof {
            lemma_find_from(text, '\n', start);
        }
        if end < text.len() {
            seq![line_at(text, start)] + lines_from(text, end + 1)
        } else {
            seq![line_at(text, start)]
        }
    }
}

/// The lines of `text`.  Lines end with a line feed, or with a carriage
/// return and a line feed; the last line needs no ending.
pub open spec fn lines_of(text: Seq<char>) -> Seq<Seq<char>> {
    lines_from(text, 0)
}

/// Splits a text into its lines.
pub fn split_lines<'a>(text: &'a [char]) -> (lines: Vec<&'a [char]>)
    ensures
        views(lines@) == lines_of(text@),
{
    let n = text.len();
    let mut lines: Vec<&'a [char]> = Vec::new();
    let mut start: usize = 0;
    assert(views(lines@) + lines_from(text@, 0) =~= lines_from(text@, 0));
    while start < n
        invariant
            start <= n,
            n == text@.len(),
            lines_of(text@) == views(lines@) + lines_from(text@, start as int),
        decreases n - start,
    {
        let end = find_char(text, '\n', start);
        let stop = if start < end && end < n && text[end - 1] == '\r' {
            end - 1
        } else {
            end
        };
        let line = slice_subrange(text, start, stop);
        proof {
            lemma_views_push(lines@, line);
            let rest = if end < n {
                lines_from(text@, end + 1)
            } else {
                lines_from(text@, n as int)
            };
            assert(views(lines@) + (seq![line@] + rest) =~= views(lines@).push(line@) + rest);
            assert(seq![line@] + Seq::<Seq<char>>::empty() =~= seq![line@]);
        }
        lines.push(line);
        if end >= n {
            start = n;
        } else {
            start = end + 1;
        }
    }
    assert(views(lines@) + lines_from(text@, n as int) =~= views(lines@));
    lines
}

/// What a line is, before its payload is read.
pub enum Line<'a> {
    /// A tag: its name and its payload.
    Directive(&'a [char], &'a [char]),
    /// The location of a resource.
    Uri(&'a [char]),
    /// A line that says nothing.
    Ignorable,
}

/// The mathematical view of `Line`: texts and lists as sequences.
pub enum LineView {
    Directive(Seq<char>, Seq<char>),
    Uri(Seq<char>),
    Ignorable,
}

impl<'a> View for Line<'a> {
    type V = LineView;

    open spec fn view(&self) -> LineView {
        match self {
            Line::Directive(name, payload) => LineView::Directive(name@, payload@),
            Line::Uri(text) => LineView::Uri(text@),
            Line::Ignorable => LineView::Ignorable,
        }
    }
}

/// The name of the tag on a line that starts with `#`: what stands between
/// the `#` and the first colon.
pub open spec fn tag_name(line: Seq<char>) -> Seq<char> {
    line.subrange(1, find_from(line, ':', 1))
}

/// The payload of the tag on a line that starts with `#`: what follows the
/// first colon, and nothing when there is no colon.
pub open spec fn tag_payload(line: Seq<char>) -> Seq<char> {
    let colon = find_from(line, ':', 1);
    if colon < line.len() {
        line.subrange(colon + 1, line.len() as int)
    } else {
        Seq::empty()
    }
}

/// Whether a line is a location: it is not empty and does not start with
/// `#`.
pub open spec fn is_uri_line(line: Seq<char>) -> bool {
    line.len() > 0 && line[0] != '#'
}

/// What a line is.  An empty line says nothing; any other line that does not
/// start with `#` is a location, whole and as it was written; a line that
/// starts with `#` is a tag when it has a name, and says nothing when it has
/// none.
pub open spec fn line_kind(line: Seq<char>) -> LineView {
    if line.len() == 0 {
        LineView::Ignorable
    } else if line[0] != '#' {
        LineView::Uri(line)
    } else if tag_name(line).len() == 0 {
        LineView::Ignorable
    } else {
        LineView::Directive(tag_name(line), tag_payload(line))
    }
}

/// Tells what a line is.
pub fn classify_line<'a>(line: &'a [char]) -> (kind: Line<'a>)
    ensures
        kind@ == line_kind(line@),
        is_uri_line(line@) <==> kind@ == LineView::Uri(line@),
{
    let n = line.len();
    if n == 0 {
        return Line::Ignorable;
    }
    if line[0] != '#' {
        return Line::Uri(line);
    }
    let colon = find_char(line, ':', 1);
    if colon == 1 {
        return Line::Ignorable;
    }
    let name = slice_subrange(line, 1, colon);
    let payload = if colon < n {
        slice_subrange(line, colon + 1, n)
    } else {
        slice_subrange(line, n, n)
    };
    assert(payload@ =~= tag_payload(line@));
    Line::Directive(name, payload)
}

} // verus!
