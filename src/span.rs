//! Positions and spans in source text as the analysis layers use them.
use vstd::prelude::*;

verus! {

/// A zero-based line and column.
#[derive(Debug, Clone, Copy, PartialEq, Eq, PartialOrd, Ord, Structural)]
pub struct Position {
    pub line: usize,
    pub column: usize,
}

/// Positions ordered by line, then by column.
pub open spec fn position_le(a: Position, b: Position) -> bool {
    a.line < b.line || (a.line == b.line && a.column <= b.column)
}

impl Position {
    pub fn new(line: usize, column: usize) -> (r: Position)
        ensures
            r == (Position { line, column }),
    {
        Position { line, column }
    }
}

/// The positions from `start` to `end`, both included.
#[derive(Debug, Clone, Copy, PartialEq, Eq, Structural)]
pub struct TextRange {
    pub start: Position,
    pub end: Position,
}

impl TextRange {
    pub fn new(start: Position, end: Position) -> (r: TextRange)
        ensures
            r == (TextRange { start, end }),
    {
        TextRange { start, end }
    }

    /// Whether `position` lies between the start and the end, both included.
    pub fn contains(&self, position: &Position) -> (r: bool)
        ensures
            r == (position_le(self.start, *position) && position_le(*position, self.end)),
    {
        let after_start = position.line > self.start.line || (position.line == self.start.line
            && position.column >= self.start.column);
        let before_end = position.line < self.end.line || (position.line == self.end.line
            && position.column <= self.end.column);
        after_start && before_end
    }
}

/// A byte range `[start, end)`.
#[derive(Debug, Clone, Copy, PartialEq, Eq, Structural)]
pub struct Span {
    pub start: usize,
    pub end: usize,
}

impl Span {
    pub fn new(start: usize, end: usize) -> (r: Span)
        ensures
            r == (Span { start, end }),
    {
        Span { start, end }
    }

    /// The number of bytes; the span must not end before it starts.
    pub fn len(&self) -> (r: usize)
        requires
            self.start <= self.end,
        ensures
            r == self.end - self.start,
    {
        self.end - self.start
    }

    pub fn is_empty(&self) -> (r: bool)
        ensures
            r == (self.start == self.end),
    {
        self.start == self.end
    }
}

} // verus!
