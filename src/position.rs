use vstd::prelude::*;

verus! {

/// A zero-based location in a source file: a line and a column within it.
#[derive(Clone, Copy, Debug, PartialEq, Eq, Structural, Hash)]
pub struct Position {
    pub line: usize,
    pub column: usize,
}

/// `a` comes strictly before `b`, comparing lines first, then columns.
pub open spec fn pos_lt(a: Position, b: Position) -> bool {
    a.line < b.line || (a.line == b.line && a.column < b.column)
}

/// `a` comes before `b` or is `b`.
pub open spec fn pos_le(a: Position, b: Position) -> bool {
    pos_lt(a, b) || a == b
}

/// The earlier of two positions.
pub open spec fn pos_min(a: Position, b: Position) -> Position {
    if pos_le(a, b) { a } else { b }
}

/// The later of two positions.
pub open spec fn pos_max(a: Position, b: Position) -> Position {
    if pos_le(a, b) { b } else { a }
}

impl Position {
    pub fn new(line: usize, column: usize) -> (r: Position)
        ensures
            r.line == line,
            r.column == column,
    {
        Position { line, column }
    }

    /// Whether `self` comes before `other` or is `other`.
    pub fn le(&self, other: &Position) -> (r: bool)
        ensures
            r == pos_le(*self, *other),
    {
        self.line < other.line || (self.line == other.line && self.column <= other.column)
    }
}

/// A region of source text from `start` up to `end`.
#[derive(Clone, Copy, Debug, PartialEq, Eq, Structural, Hash)]
pub struct Span {
    pub start: Position,
    pub end: Position,
}

/// The span that stands for "no location": both ends at the origin.
pub open spec fn empty_span() -> Span {
    Span { start: Position { line: 0, column: 0 }, end: Position { line: 0, column: 0 } }
}

/// `inner` lies wholly within `outer`.
pub open spec fn span_contains(outer: Span, inner: Span) -> bool {
    pos_le(outer.start, inner.start) && pos_le(inner.end, outer.end)
}

/// The least span that covers both `a` and `b`.
pub open spec fn span_join(a: Span, b: Span) -> Span {
    Span { start: pos_min(a.start, b.start), end: pos_max(a.end, b.end) }
}

impl Span {
    pub fn new(start: Position, end: Position) -> (r: Span)
        ensures
            r.start == start,
            r.end == end,
    {
        Span { start, end }
    }

    /// The span of diagnostics that have no place in the source.
    pub fn empty() -> (r: Span)
        ensures
            r == empty_span(),
    {
        Span { start: Position { line: 0, column: 0 }, end: Position { line: 0, column: 0 } }
    }

    /// Whether `other` lies wholly within `self`.
    pub fn contains(&self, other: &Span) -> (r: bool)
        ensures
            r == span_contains(*self, *other),
    {
        self.start.le(&other.start) && other.end.le(&self.end)
    }

    /// The least span that covers both `self` and `other`.
    pub fn join(&self, other: &Span) -> (r: Span)
        ensures
            r == span_join(*self, *other),
    {
        let start = if self.start.le(&other.start) { self.start } else { other.start };
        let end = if self.end.le(&other.end) { other.end } else { self.end };
        Span { start, end }
    }
}

/// A half-open interval `[start, end)` of indices into a token stream.
#[derive(Clone, Copy, Debug, PartialEq, Eq, Structural, Hash)]
pub struct Range {
    pub start: usize,
    pub end: usize,
}

impl Range {
    /// Whether `index` lies in `[start, end)`.
    pub fn contains(&self, index: usize) -> (r: bool)
        ensures
            r == (self.start <= index < self.end),
    {
        self.start <= index && index < self.end
    }
}

} // verus!
