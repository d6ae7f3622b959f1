use vstd::prelude::*;

verus! {

/// A half-open region `start..end` of character offsets in a source file.
#[derive(Debug, Clone, Copy, PartialEq, Eq)]
pub struct Span {
    pub start: usize,
    pub end: usize,
}

impl Span {
    pub fn new(start: usize, end: usize) -> (s: Self)
        ensures
            s.start == start,
            s.end == end,
    {
        Self { start, end }
    }

    /// An empty span at `offset`.
    pub fn short(offset: usize) -> (s: Self)
        ensures
            s.start == offset,
            s.end == offset,
    {
        Self { start: offset, end: offset }
    }

    /// Extends this span so that it ends where `second` ends.
    pub fn merge(&mut self, second: Span)
        ensures
            final(self).start == old(self).start,
            final(self).end == second.end,
    {
        self.end = second.end;
    }
}

} // verus!

verus! {

/// A value together with the region of source it came from.
#[derive(Debug, Clone)]
pub struct Spanned<T> {
    pub node: T,
    pub span: Span,
}

impl<T> Spanned<T> {
    pub fn new(node: T, span: Span) -> (s: Self)
        ensures
            s.node == node,
            s.span == span,
    {
        Self { node, span }
    }
}

} // verus!
