//! Character-level helpers on strings: conversion to characters, line
//! splitting, and the searches the message parser is built from.

use vstd::prelude::*;

verus! {

/// The characters of `s`, in order.
pub fn to_chars(s: &str) -> (out: Vec<char>)
    ensures
        out@ == s@,
{
    let mut out: Vec<char> = Vec::new();
    for c in it: s.chars()
        invariant
            it.seq() == s@,
            out@ == it.seq().take(it.index()),
    {
        out.push(c);
    }
    out
}

/// The texts of `names`.
pub open spec fn texts_of(names: Seq<String>) -> Seq<Seq<char>> {
    Seq::new(names.len(), |i: int| names[i]@)
}

/// Whether two texts hold the same characters.
pub fn same_text(a: &str, b: &str) -> (out: bool)
    ensures
        out == (a@ == b@),
{
    let a = String::from_str(a);
    let b = String::from_str(b);
    a == b
}

/// Position of the first line feed in `s`, or `s.len()` where there is none.
pub open spec fn first_newline(s: Seq<char>) -> int
    decreases s.len(),
{
    if s.len() == 0 {
        0
    } else if s[0] == '\n' {
        0
    } else {
        1 + first_newline(s.drop_first())
    }
}

/// `first_newline` is the least position that holds a line feed.
pub proof fn lemma_first_newline(s: Seq<char>)
    ensures
        0 <= first_newline(s) <= s.len(),
        forall|j: int| 0 <= j < first_newline(s) ==> s[j] != '\n',
        first_newline(s) < s.len() ==> s[first_newline(s)] == '\n',
    decreases s.len(),
{
    if s.len() > 0 && s[0] != '\n' {
        let t = s.drop_first();
        lemma_first_newline(t);
        assert forall|j: int| 0 <= j < first_newline(s) implies s[j] != '\n' by {
            if j > 0 {
                assert(s[j] == t[j - 1]);
            }
        }
    }
}

/// A position that holds the first line feed of `s`, or its length where it
/// holds none, is `first_newline(s)`.
pub proof fn lemma_first_newline_is(s: Seq<char>, n: int)
    requires
        0 <= n <= s.len(),
        forall|j: int| 0 <= j < n ==> s[j] != '\n',
        n < s.len() ==> s[n] == '\n',
    ensures
        first_newline(s) == n,
{
    lemma_first_newline(s);
}

/// A line without the carriage return that stood before its line feed.
pub open spec fn strip_cr(line: Seq<char>) -> Seq<char> {
    if line.len() > 0 && line.last() == '\r' {
        line.drop_last()
    } else {
        line
    }
}

/// The lines of `s`. A line ends at a line feed; a carriage return directly
/// before that line feed belongs to the line ending. The last line needs no
/// line feed, and a text that ends in one has no empty line after it.
pub open spec fn lines(s: Seq<char>) -> Seq<Seq<char>>
    decreases s.len(),
{
    if s.len() == 0 {
        Seq::empty()
    } else {
        let n = first_newline(s);
        if 0 <= n < s.len() {
            seq![strip_cr(s.take(n))] + lines(s.skip(n + 1))
        } else {
            seq![s]
        }
    }
}

/// One line of a text, as the half-open range of positions it covers.
#[derive(Clone, Copy, Debug)]
pub struct Span {
    pub start: usize,
    pub end: usize,
}

impl Span {
    /// The characters of `s` that the span covers.
    pub open spec fn of(self, s: Seq<char>) -> Seq<char> {
        s.subrange(self.start as int, self.end as int)
    }

    pub open spec fn within(self, s: Seq<char>) -> bool {
        self.start <= self.end <= s.len()
    }
}

/// The first position at or after `from` that holds a line feed, or the
/// length of the text.
pub fn find_newline(chars: &Vec<char>, from: usize) -> (at: usize)
    requires
        from <= chars.len(),
    ensures
        at == from + first_newline(chars@.skip(from as int)),
        from <= at <= chars.len(),
{
    let mut at: usize = from;
    while at < chars.len() && chars[at] != '\n'
        invariant
            from <= at <= chars.len(),
            forall|j: int| from <= j < at ==> chars@[j] != '\n',
        decreases chars.len() - at,
    {
        at = at + 1;
    }
    proof {
        lemma_first_newline_is(chars@.skip(from as int), at - from);
    }
    at
}

/// The lines of a text, each as a span of it.
pub fn split_lines(chars: &Vec<char>) -> (out: Vec<Span>)
    ensures
        out@.len() == lines(chars@).len(),
        forall|i: int| 0 <= i < out@.len() ==> (#[trigger] out@[i]).within(chars@),
        forall|i: int| 0 <= i < out@.len() ==> (#[trigger] out@[i]).of(chars@) == lines(chars@)[i],
{
    let mut out: Vec<Span> = Vec::new();
    let mut pos: usize = 0;
    let ghost mut done: Seq<Seq<char>> = Seq::empty();
    proof {
        assert(chars@.skip(0) =~= chars@);
    }
    while pos < chars.len()
        invariant
            pos <= chars.len(),
            out@.len() == done.len(),
            lines(chars@) == done + lines(chars@.skip(pos as int)),
            forall|i: int| 0 <= i < out@.len() ==> (#[trigger] out@[i]).within(chars@),
            forall|i: int| 0 <= i < out@.len() ==> (#[trigger] out@[i]).of(chars@) == done[i],
        decreases chars.len() - pos,
    {
        let ghost rest = chars@.skip(pos as int);
        let nl = find_newline(chars, pos);
        let mut end: usize = nl;
        if nl < chars.len() && pos < nl && chars[nl - 1] == '\r' {
            end = nl - 1;
        }
        let span = Span { start: pos, end };
        let next: usize = if nl < chars.len() { nl + 1 } else { nl };
        proof {
            let n = first_newline(rest);
            let line = if nl < chars.len() { strip_cr(rest.take(n)) } else { rest };
            if nl < chars.len() {
                assert(rest.skip(n + 1) =~= chars@.skip(next as int));
            }
            assert(done + (seq![line] + lines(chars@.skip(next as int))) =~= done.push(line)
                + lines(chars@.skip(next as int)));
            done = done.push(line);
        }
        out.push(span);
        pos = next;
    }
    out
}

/// Whether the two-character delimiter, a colon and a space, stands at
/// position `i` of `s`.
pub open spec fn delimiter_at(s: Seq<char>, i: int) -> bool {
    0 <= i && i + 1 < s.len() && s[i] == ':' && s[i + 1] == ' '
}

/// Whether `s` holds the delimiter anywhere.
pub open spec fn has_delimiter(s: Seq<char>) -> bool {
    exists|i: int| delimiter_at(s, i)
}

/// Position of the first delimiter in `s`, or `s.len()` where there is none.
pub open spec fn first_delimiter(s: Seq<char>) -> int
    decreases s.len(),
{
    if s.len() < 2 {
        s.len() as int
    } else if s[0] == ':' && s[1] == ' ' {
        0
    } else {
        1 + first_delimiter(s.drop_first())
    }
}

/// `first_delimiter` is the least position at which the delimiter stands.
pub proof fn lemma_first_delimiter(s: Seq<char>)
    ensures
        0 <= first_delimiter(s) <= s.len(),
        forall|j: int| 0 <= j < first_delimiter(s) ==> !delimiter_at(s, j),
        first_delimiter(s) < s.len() ==> delimiter_at(s, first_delimiter(s)),
        first_delimiter(s) < s.len() <==> has_delimiter(s),
    decreases s.len(),
{
    if s.len() >= 2 && !(s[0] == ':' && s[1] == ' ') {
        let t = s.drop_first();
        lemma_first_delimiter(t);
        let d = first_delimiter(t);
        assert forall|j: int| 0 <= j < first_delimiter(s) implies !delimiter_at(s, j) by {
            if j > 0 {
                assert(!delimiter_at(t, j - 1));
            }
        }
        if d < t.len() {
            assert(delimiter_at(t, d));
            assert(s[d + 2] == t[d + 1]);
        }
    }
    if first_delimiter(s) < s.len() {
        assert(delimiter_at(s, first_delimiter(s)));
    } else if has_delimiter(s) {
        let i = choose|i: int| delimiter_at(s, i);
        assert(!delimiter_at(s, i));
    }
}

/// A position at which the first delimiter of `s` stands, or its length where
/// it holds none, is `first_delimiter(s)`.
pub proof fn lemma_first_delimiter_is(s: Seq<char>, n: int)
    requires
        0 <= n <= s.len(),
        forall|j: int| 0 <= j < n ==> !delimiter_at(s, j),
        n < s.len() ==> delimiter_at(s, n),
    ensures
        first_delimiter(s) == n,
{
    lemma_first_delimiter(s);
}

/// `s` without the double quotes it begins with.
pub open spec fn trim_leading_quotes(s: Seq<char>) -> Seq<char>
    decreases s.len(),
{
    if s.len() > 0 && s[0] == '"' {
        trim_leading_quotes(s.drop_first())
    } else {
        s
    }
}

/// `s` without the double quotes it ends with.
pub open spec fn trim_trailing_quotes(s: Seq<char>) -> Seq<char>
    decreases s.len(),
{
    if s.len() > 0 && s.last() == '"' {
        trim_trailing_quotes(s.drop_last())
    } else {
        s
    }
}

/// `s` without the double quotes around it, however many there are.
pub open spec fn trim_quotes(s: Seq<char>) -> Seq<char> {
    trim_trailing_quotes(trim_leading_quotes(s))
}

/// The first position in `span` at which the delimiter stands wholly inside
/// the span, or the span's end.
pub fn find_delimiter(chars: &Vec<char>, span: Span) -> (at: usize)
    requires
        span.within(chars@),
    ensures
        at == span.start + first_delimiter(span.of(chars@)),
        span.start <= at <= span.end,
{
    let ghost s = span.of(chars@);
    let mut at: usize = span.start;
    while at < span.end
        invariant
            span.within(chars@),
            s == span.of(chars@),
            span.start <= at <= span.end,
            forall|j: int| 0 <= j < at - span.start ==> !delimiter_at(s, j),
        decreases span.end - at,
    {
        if at + 1 < span.end && chars[at] == ':' && chars[at + 1] == ' ' {
            proof {
                lemma_first_delimiter_is(s, at - span.start);
            }
            return at;
        }
        at = at + 1;
    }
    proof {
        lemma_first_delimiter_is(s, s.len() as int);
    }
    at
}

/// The span without the double quotes around it.
pub fn trim_quotes_span(chars: &Vec<char>, span: Span) -> (out: Span)
    requires
        span.within(chars@),
    ensures
        out.within(chars@),
        out.of(chars@) == trim_quotes(span.of(chars@)),
{
    let mut start: usize = span.start;
    let end0: usize = span.end;
    while start < end0 && chars[start] == '"'
        invariant
            span.within(chars@),
            end0 == span.end,
            span.start <= start <= end0,
            trim_leading_quotes(span.of(chars@)) == trim_leading_quotes(
                chars@.subrange(start as int, end0 as int),
            ),
        decreases end0 - start,
    {
        proof {
            assert(chars@.subrange(start as int, end0 as int).drop_first() =~= chars@.subrange(
                start + 1,
                end0 as int,
            ));
        }
        start = start + 1;
    }
    let mut end: usize = end0;
    let ghost lead = chars@.subrange(start as int, end0 as int);
    while start < end && chars[end - 1] == '"'
        invariant
            span.within(chars@),
            start <= end <= end0,
            end0 == span.end,
            trim_trailing_quotes(lead) == trim_trailing_quotes(
                chars@.subrange(start as int, end as int),
            ),
        decreases end - start,
    {
        proof {
            assert(chars@.subrange(start as int, end as int).drop_last() =~= chars@.subrange(
                start as int,
                end - 1,
            ));
        }
        end = end - 1;
    }
    Span { start, end }
}

} // verus!
