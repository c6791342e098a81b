use vstd::prelude::*;

verus! {

/// A numeric range over bounded signed integers, kept in the canonical
/// half-open form `[start, end)`. An interval is empty when `start >= end`.
#[derive(Clone, Copy, Debug, PartialEq, Eq, Structural)]
pub struct Interval {
    pub start: i32,
    pub end: i32,
}

/// The tightest interval lying inside both arguments: the lower bound is the
/// larger of the two starts, the upper bound the smaller of the two ends, and
/// a degenerate result (start >= end) collapses to `None`.
pub open spec fn intersect_spec(a: Interval, b: Interval) -> Option<Interval> {
    let s = if a.start >= b.start { a.start } else { b.start };
    let e = if a.end <= b.end { a.end } else { b.end };
    if s < e {
        Some(Interval { start: s, end: e })
    } else {
        None
    }
}

impl Interval {
    /// The set of values the interval denotes.
    pub open spec fn contains_spec(self, v: int) -> bool {
        self.start <= v < self.end
    }

    pub open spec fn is_empty_spec(self) -> bool {
        self.start >= self.end
    }

    /// Half-open construction: the range `[start, end)`.
    pub fn new(start: i32, end: i32) -> (r: Interval)
        ensures
            r == (Interval { start, end }),
    {
        Interval { start, end }
    }

    /// The single normalization point for endpoint styles: each endpoint may
    /// independently be inclusive or exclusive, and the result is the same
    /// range in canonical half-open form.
    pub fn from_bounds(start: i32, start_inclusive: bool, end: i32, end_inclusive: bool) -> (r:
        Interval)
        requires
            start_inclusive || start < i32::MAX,
            end_inclusive ==> end < i32::MAX,
        ensures
            forall|v: int|
                r.contains_spec(v) <==> {
                    &&& if start_inclusive {
                        start <= v
                    } else {
                        start < v
                    }
                    &&& if end_inclusive {
                        v <= end
                    } else {
                        v < end
                    }
                },
    {
        let s: i32 = if start_inclusive {
            start
        } else {
            start + 1
        };
        let e: i32 = if end_inclusive {
            end + 1
        } else {
            end
        };
        Interval { start: s, end: e }
    }

    pub fn contains(self, v: i32) -> (r: bool)
        ensures
            r == self.contains_spec(v as int),
    {
        self.start <= v && v < self.end
    }

    pub fn is_empty(self) -> (r: bool)
        ensures
            r == self.is_empty_spec(),
    {
        self.start >= self.end
    }

    /// The tightest interval satisfying both `self` and `other`; `None` when
    /// the two are disjoint (the narrowed range would be empty).
    pub fn intersect(self, other: Interval) -> (r: Option<Interval>)
        ensures
            r == intersect_spec(self, other),
    {
        let s: i32 = if self.start >= other.start {
            self.start
        } else {
            other.start
        };
        let e: i32 = if self.end <= other.end {
            self.end
        } else {
            other.end
        };
        if s < e {
            Some(Interval { start: s, end: e })
        } else {
            None
        }
    }
}

/// Intersection does not depend on the order of its arguments.
pub proof fn lemma_intersect_commutes(a: Interval, b: Interval)
    ensures
        intersect_spec(a, b) == intersect_spec(b, a),
{
}

/// A non-empty intersection holds exactly the values lying in both
/// arguments, and disjoint intervals intersect to `None`.
pub proof fn lemma_intersect_characterizes(a: Interval, b: Interval)
    ensures
        intersect_spec(a, b) matches Some(c) ==> !c.is_empty_spec() && forall|v: int|
            c.contains_spec(v) <==> a.contains_spec(v) && b.contains_spec(v),
        intersect_spec(a, b) is None ==> forall|v: int|
            !(a.contains_spec(v) && b.contains_spec(v)),
{
}

} // verus!
