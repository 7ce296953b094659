use std::rc::Rc;
use vstd::prelude::*;
use vstd::string::StrSliceExecFns;
use vstd::view::View as _;

verus! {

/// An immutable window `[start, end)` over a shared, read-only source text.
/// Positions count characters.
#[derive(Debug)]
pub struct View {
    pub source: Rc<String>,
    pub start: usize,
    pub end: usize,
}

impl View {
    /// The whole source text.
    pub open spec fn text(&self) -> Seq<char> {
        (*self.source)@
    }

    /// Bounds lie within the source.
    pub open spec fn wf(&self) -> bool {
        self.start <= self.end <= self.text().len()
    }

    /// The source text up to the window's end: what a parse of this window can see.
    pub open spec fn upto(&self) -> Seq<char> {
        self.text().take(self.end as int)
    }

    /// The characters this window covers.
    pub open spec fn spec_str(&self) -> Seq<char> {
        self.text().subrange(self.start as int, self.end as int)
    }

    /// The window from `from` to `to`, counted from this window's start.
    pub open spec fn slice(&self, from: int, to: int) -> View {
        View { source: self.source, start: (self.start + from) as usize, end: (self.start + to) as usize }
    }

    /// The window without its first `n` characters.
    pub open spec fn skip(&self, n: int) -> View {
        self.slice(n, self.len())
    }

    /// The window's first `n` characters.
    pub open spec fn take(&self, n: int) -> View {
        self.slice(0, n)
    }

    /// The number of characters the window covers.
    pub open spec fn len(&self) -> int {
        self.end - self.start
    }

    /// A window over the whole of `source`.
    pub fn new(source: &str) -> (r: View)
        ensures
            r.wf(),
            r.text() == source@,
            r.start == 0,
            r.end == source@.len(),
    {
        let len = source.unicode_len();
        View { source: Rc::new(source.to_owned()), start: 0, end: len }
    }

    /// Narrows the window to `range`, given relative to the current start.
    pub fn sub_view(&self, range: std::ops::Range<usize>) -> (r: View)
        requires
            self.wf(),
            range.start <= range.end <= self.end - self.start,
        ensures
            r.wf(),
            r == self.slice(range.start as int, range.end as int),
    {
        View { source: Rc::clone(&self.source), start: self.start + range.start, end: self.start + range.end }
    }

    /// The text the window covers.
    pub fn as_str(&self) -> (r: &str)
        requires
            self.wf(),
        ensures
            r@ == self.spec_str(),
    {
        self.source.as_str().substring_char(self.start, self.end)
    }

    /// A second handle on the same window.
    pub fn clone_view(&self) -> (r: View)
        ensures
            r == *self,
    {
        View { source: Rc::clone(&self.source), start: self.start, end: self.end }
    }

    /// The number of characters the window covers.
    pub fn char_len(&self) -> (r: usize)
        requires
            self.wf(),
        ensures
            r == self.len(),
    {
        self.end - self.start
    }

    /// The character at `i`, counted from the window's start.
    pub fn char_at(&self, i: usize) -> (c: char)
        requires
            self.wf(),
            i < self.len(),
        ensures
            c == self.spec_str()[i as int],
    {
        self.source.as_str().get_char(self.start + i)
    }
}

} // verus!

verus! {

/// How many line breaks come before position `i` of `t`.
pub open spec fn breaks_before(t: Seq<char>, i: int) -> int
    decreases i,
{
    if i <= 0 {
        0
    } else {
        breaks_before(t, i - 1) + if t[i - 1] == '\n' { 1int } else { 0int }
    }
}

/// Where the line holding position `i` of `t` starts.
pub open spec fn line_start(t: Seq<char>, i: int) -> int
    decreases i,
{
    if i <= 0 || t[i - 1] == '\n' {
        i
    } else {
        line_start(t, i - 1)
    }
}

/// Where the line holding position `i` of `t` ends: its line break, or the end.
pub open spec fn line_end(t: Seq<char>, i: int) -> int
    decreases t.len() - i,
{
    if i >= t.len() || t[i] == '\n' {
        i
    } else {
        line_end(t, i + 1)
    }
}

/// Around column `col`, the caret marker's indent and width: a window of up
/// to five columns, narrower at the start of a line.
pub open spec fn caret_spec(col: int) -> (int, int) {
    let pad = if col <= 2 { 0 } else { col - 3 };
    (pad, if pad <= 2 { 3 + pad } else { 5 })
}

pub fn caret_window(col: usize) -> (r: (usize, usize))
    ensures
        r.0 == caret_spec(col as int).0,
        r.1 == caret_spec(col as int).1,
{
    let pad = if col <= 2 { 0 } else { col - 3 };
    (pad, if pad <= 2 { 3 + pad } else { 5 })
}

impl View {
    /// The window's start as a line index and a column, both counted from 0.
    pub fn row_col(&self) -> (r: (usize, usize))
        requires
            self.wf(),
        ensures
            r.0 == breaks_before(self.text(), self.start as int),
            r.1 == self.start - line_start(self.text(), self.start as int),
    {
        let text = self.source.as_str();
        let mut i: usize = 0;
        let mut row: usize = 0;
        let mut from: usize = 0;
        while i < self.start
            invariant
                self.wf(),
                text@ == self.text(),
                i <= self.start,
                row == breaks_before(self.text(), i as int),
                from == line_start(self.text(), i as int),
                row <= i,
                from <= i,
            decreases self.start - i,
        {
            if text.get_char(i) == '\n' {
                row = row + 1;
                from = i + 1;
            }
            i += 1;
        }
        (row, self.start - from)
    }

    /// The whole source line that holds the window's start.
    pub fn source_line(&self) -> (r: &str)
        requires
            self.wf(),
        ensures
            r@ == self.text().subrange(
                line_start(self.text(), self.start as int),
                line_end(self.text(), self.start as int),
            ),
    {
        let text = self.source.as_str();
        let n = text.unicode_len();
        let mut from = self.start;
        while from > 0 && text.get_char(from - 1) != '\n'
            invariant
                text@ == self.text(),
                n == text@.len(),
                from <= self.start <= n,
                line_start(self.text(), from as int) == line_start(self.text(), self.start as int),
            decreases from,
        {
            from -= 1;
        }
        let mut to = self.start;
        while to < n && text.get_char(to) != '\n'
            invariant
                text@ == self.text(),
                n == text@.len(),
                self.start <= to <= n,
                line_end(self.text(), to as int) == line_end(self.text(), self.start as int),
            decreases n - to,
        {
            to += 1;
        }
        text.substring_char(from, to)
    }
}

} // verus!
