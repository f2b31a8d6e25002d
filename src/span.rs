use vstd::prelude::*;

verus! {

/// Cardinality of a dimension or of a space.
///
/// `Null` is the span of a space with no dimensions and is the identity of
/// `times`; `Infinite` stands for any axis that is not countable in bins.
#[derive(Clone, Copy, Debug, PartialEq, Eq, Structural)]
pub enum Span {
    Null,
    Infinite,
    Finite(usize),
}

impl Span {
    /// The product of two spans, with `Null` as identity and `Infinite`
    /// absorbing every other span.
    pub open spec fn spec_times(self, other: Span) -> Span {
        match (self, other) {
            (Span::Null, o) => o,
            (s, Span::Null) => s,
            (Span::Finite(a), Span::Finite(b)) => Span::Finite((a * b) as usize),
            _ => Span::Infinite,
        }
    }

    /// The product of two spans is representable.
    pub open spec fn times_fits(self, other: Span) -> bool {
        match (self, other) {
            (Span::Finite(a), Span::Finite(b)) => a * b <= usize::MAX,
            _ => true,
        }
    }

    pub fn times(self, other: Span) -> (r: Span)
        requires
            self.times_fits(other),
        ensures
            r == self.spec_times(other),
    {
        match (self, other) {
            (Span::Null, o) => o,
            (s, Span::Null) => s,
            (Span::Finite(a), Span::Finite(b)) => Span::Finite(a * b),
            _ => Span::Infinite,
        }
    }

    /// The number of elements, when the span is finite.
    pub fn finite(self) -> (r: Option<usize>)
        ensures
            r == (match self {
                Span::Finite(n) => Some(n),
                _ => None,
            }),
    {
        match self {
            Span::Finite(n) => Some(n),
            _ => None,
        }
    }
}

} // verus!
