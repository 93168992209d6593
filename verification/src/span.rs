use vstd::prelude::*;

verus! {

/// A region of the source text, given by the offsets of its first character and of the
/// character after its last one.
#[derive(Clone, Copy, Debug, PartialEq, Eq, Structural)]
pub struct Span {
    pub start: usize,
    pub end: usize,
}

/// The smallest span that covers both `a` and `b`.
pub open spec fn span_join(a: Span, b: Span) -> Span {
    Span {
        start: if a.start <= b.start { a.start } else { b.start },
        end: if a.end >= b.end { a.end } else { b.end },
    }
}

impl Span {
    pub fn new(start: usize, end: usize) -> (s: Span)
        ensures
            s == (Span { start, end }),
    {
        Span { start, end }
    }

    /// The empty span at offset 0, which stands for "no position".
    pub fn empty() -> (s: Span)
        ensures
            s == (Span { start: 0, end: 0 }),
    {
        Span { start: 0, end: 0 }
    }

    /// Joins two spans: the result covers both.
    pub fn join(self, other: Span) -> (s: Span)
        ensures
            s == span_join(self, other),
    {
        Span {
            start: if self.start <= other.start { self.start } else { other.start },
            end: if self.end >= other.end { self.end } else { other.end },
        }
    }

    /// The empty span at the start of this span.
    pub fn start(&self) -> (s: Span)
        ensures
            s == (Span { start: self.start, end: self.start }),
    {
        Span { start: self.start, end: self.start }
    }
}

/// Joining spans is commutative, associative and idempotent, and the joined span
/// covers both of its parts.
pub proof fn lemma_span_join_laws(a: Span, b: Span, c: Span)
    ensures
        span_join(a, b) == span_join(b, a),
        span_join(span_join(a, b), c) == span_join(a, span_join(b, c)),
        span_join(a, a) == a,
        span_join(a, b).start <= a.start,
        span_join(a, b).start <= b.start,
        span_join(a, b).end >= a.end,
        span_join(a, b).end >= b.end,
{
}

} // verus!
