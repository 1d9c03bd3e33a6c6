use std::ops::Range;
use vstd::prelude::*;

verus! {

/// A contiguous section of source code, or no section at all.
///
/// `spec_range` is the mathematical content of a span: `Some((start, end))` when the span
/// tracks a section (start inclusive, end exclusive), `None` when it does not.
pub trait Span: Sized {
    /// What the span tracks.
    spec fn spec_range(&self) -> Option<(usize, usize)>;

    /// Constructs a span given a range. A span that tracks anything tracks exactly this range.
    fn from_range(range: Range<usize>) -> (r: Self)
        ensures
            r.spec_range() is Some ==> r.spec_range() == Some((range.start, range.end)),
    ;

    /// Constructs a span given a start (inclusive) and end (exclusive) index.
    fn from_start_end(start: usize, end: usize) -> (r: Self)
        ensures
            r.spec_range() is Some ==> r.spec_range() == Some((start, end)),
    {
        Self::from_range(Range { start, end })
    }

    /// Constructs the empty span.
    fn empty() -> (r: Self)
        ensures
            r.spec_range() is None,
    ;

    /// Joins two spans into one span encompassing both.
    fn join(span_1: &Self, span_2: &Self) -> (r: Self)
        ensures
            r.spec_range() is Some ==> {
                &&& span_1.spec_range() is Some
                &&& span_2.spec_range() is Some
                &&& r.spec_range() == Some((
                    min_usize(range_start(span_1.spec_range()), range_start(span_2.spec_range())),
                    max_usize(range_end(span_1.spec_range()), range_end(span_2.spec_range())),
                ))
            },
    ;

    /// Returns the range associated with the span, if it is tracked.
    fn range(&self) -> (r: Option<Range<usize>>)
        ensures
            r is Some <==> self.spec_range() is Some,
            r matches Some(rg) ==> self.spec_range() == Some((rg.start, rg.end)),
    ;

    /// Returns the (inclusive) start index of the span, if it is tracked.
    fn start(&self) -> (r: Option<usize>)
        ensures
            r is Some <==> self.spec_range() is Some,
            r matches Some(s) ==> s == range_start(self.spec_range()),
    {
        match self.range() {
            Some(rg) => Some(rg.start),
            None => None,
        }
    }

    /// Returns the (exclusive) end index of the span, if it is tracked.
    fn end(&self) -> (r: Option<usize>)
        ensures
            r is Some <==> self.spec_range() is Some,
            r matches Some(e) ==> e == range_end(self.spec_range()),
    {
        match self.range() {
            Some(rg) => Some(rg.end),
            None => None,
        }
    }

    /// Returns a copy of the span.
    fn duplicate(&self) -> (r: Self)
        ensures
            r == *self,
    ;
}

/// The start of a tracked range.
pub open spec fn range_start(r: Option<(usize, usize)>) -> usize {
    r.unwrap().0
}

/// The end of a tracked range.
pub open spec fn range_end(r: Option<(usize, usize)>) -> usize {
    r.unwrap().1
}

/// The smaller of two indices.
pub open spec fn min_usize(a: usize, b: usize) -> usize {
    if a <= b { a } else { b }
}

/// The range covered by joining two spans: the smallest range containing both, if both are
/// tracked.
pub open spec fn joined_range(a: Option<(usize, usize)>, b: Option<(usize, usize)>) -> Option<(usize, usize)> {
    match (a, b) {
        (Some((s1, e1)), Some((s2, e2))) => Some((min_usize(s1, s2), max_usize(e1, e2))),
        _ => None,
    }
}

/// Joining spans does not depend on their order.
pub proof fn law_join_commutative(a: Option<(usize, usize)>, b: Option<(usize, usize)>)
    ensures
        joined_range(a, b) == joined_range(b, a),
{
}

/// Joining three spans does not depend on how they are grouped.
pub proof fn law_join_associative(
    a: Option<(usize, usize)>,
    b: Option<(usize, usize)>,
    c: Option<(usize, usize)>,
)
    ensures
        joined_range(joined_range(a, b), c) == joined_range(a, joined_range(b, c)),
{
}

/// The joined range contains both ranges.
pub proof fn law_join_covers(a: Option<(usize, usize)>, b: Option<(usize, usize)>)
    ensures
        joined_range(a, b) matches Some((s, e)) ==> s <= range_start(a) && s <= range_start(b) && e >= range_end(a)
            && e >= range_end(b),
{
}

/// The larger of two indices.
pub open spec fn max_usize(a: usize, b: usize) -> usize {
    if a >= b { a } else { b }
}

impl Span for () {
    open spec fn spec_range(&self) -> Option<(usize, usize)> {
        None
    }

    fn from_range(range: Range<usize>) -> (r: Self) {
        ()
    }

    fn empty() -> (r: Self) {
        ()
    }

    fn join(span_1: &Self, span_2: &Self) -> (r: Self) {
        ()
    }

    fn range(&self) -> (r: Option<Range<usize>>) {
        None
    }

    fn duplicate(&self) -> (r: Self) {
        ()
    }
}

/// Either a contiguous section in the source code or the empty span.
#[derive(Copy, Clone, PartialEq, Eq, Debug)]
pub struct FullSpan {
    inner: FullSpanInner,
}

#[derive(Copy, Clone, PartialEq, Eq, Debug)]
enum FullSpanInner {
    Empty,
    Full { start: usize, end: usize },
}

impl FullSpan {
    /// Returns the range stored by the span. The span must not be empty.
    pub fn into_range(self) -> (r: Range<usize>)
        requires
            self.spec_range() is Some,
        ensures
            self.spec_range() == Some((r.start, r.end)),
    {
        match self.inner {
            FullSpanInner::Empty => Range { start: 0, end: 0 },
            FullSpanInner::Full { start, end } => Range { start, end },
        }
    }
}

impl Span for FullSpan {
    closed spec fn spec_range(&self) -> Option<(usize, usize)> {
        match self.inner {
            FullSpanInner::Empty => None,
            FullSpanInner::Full { start, end } => Some((start, end)),
        }
    }

    fn from_range(range: Range<usize>) -> (r: Self)
        ensures
            r.spec_range() == Some((range.start, range.end)),
    {
        FullSpan { inner: FullSpanInner::Full { start: range.start, end: range.end } }
    }

    fn from_start_end(start: usize, end: usize) -> (r: Self)
        ensures
            r.spec_range() == Some((start, end)),
    {
        FullSpan { inner: FullSpanInner::Full { start, end } }
    }

    fn empty() -> (r: Self) {
        FullSpan { inner: FullSpanInner::Empty }
    }

    fn join(span_1: &Self, span_2: &Self) -> (r: Self)
        ensures
            r.spec_range() == joined_range(span_1.spec_range(), span_2.spec_range()),
    {
        match (&span_1.inner, &span_2.inner) {
            (
                FullSpanInner::Full { start: start_1, end: end_1 },
                FullSpanInner::Full { start: start_2, end: end_2 },
            ) => {
                let start = if *start_1 <= *start_2 { *start_1 } else { *start_2 };
                let end = if *end_1 >= *end_2 { *end_1 } else { *end_2 };
                FullSpan { inner: FullSpanInner::Full { start, end } }
            },
            _ => FullSpan { inner: FullSpanInner::Empty },
        }
    }

    fn range(&self) -> (r: Option<Range<usize>>) {
        match self.inner {
            FullSpanInner::Empty => None,
            FullSpanInner::Full { start, end } => Some(Range { start, end }),
        }
    }

    fn duplicate(&self) -> (r: Self) {
        *self
    }
}

} // verus!
