//! Piecewise-linear envelopes over normalized time.
//!
//! A curve is a non-empty list of control points, each the bit pattern of a
//! single-precision number. Between neighbouring points the curve is linear;
//! a curve of one point is constant. This module owns the list and decides
//! which points an evaluation reads; the interpolation itself is floating
//! point and is the caller's.

use vstd::prelude::*;

verus! {

/// What an evaluation at a given point index reads.
#[derive(Clone, Copy, Debug, PartialEq, Eq)]
pub enum Segment {
    /// The index is the last one: the value is this point itself.
    Knot(u32),
    /// The value lies between this point and the next one.
    Span(u32, u32),
}

/// The segment of `points` that starts at index `k`.
pub open spec fn segment_of(points: Seq<u32>, k: int) -> Segment {
    if k == points.len() - 1 {
        Segment::Knot(points[k])
    } else {
        Segment::Span(points[k], points[k + 1])
    }
}

/// A non-empty sequence of control points: the first one, and those after it.
#[derive(Clone, Debug, PartialEq, Eq)]
pub struct Curve {
    first: u32,
    rest: Vec<u32>,
}

impl View for Curve {
    type V = Seq<u32>;

    closed spec fn view(&self) -> Seq<u32> {
        seq![self.first] + self.rest@
    }
}

impl Curve {
    /// Every curve has at least one point.
    pub proof fn lemma_nonempty(&self)
        ensures
            self@.len() >= 1,
    {
    }

    /// The curve that holds `value` at every time.
    pub fn constant(value: u32) -> (curve: Curve)
        ensures
            curve@ == seq![value],
    {
        Curve { first: value, rest: Vec::new() }
    }

    /// The curve through `points`, unless there are none.
    pub fn new(points: &[u32]) -> (curve: Option<Curve>)
        ensures
            points@.len() == 0 <==> curve is None,
            curve matches Some(c) ==> c@ == points@,
    {
        let n: usize = points.len();
        if n == 0 {
            return None;
        }
        let mut rest: Vec<u32> = Vec::new();
        let mut i: usize = 1;
        while i < n
            invariant
                n == points@.len(),
                1 <= i <= n,
                rest@ == points@.subrange(1, i as int),
            decreases n - i,
        {
            rest.push(points[i]);
            i += 1;
        }
        Some(Curve { first: points[0], rest })
    }

    /// The control points, in order.
    pub fn to_points(&self) -> (points: Vec<u32>)
        ensures
            points@ == self@,
    {
        let mut points: Vec<u32> = Vec::new();
        points.push(self.first);
        let n: usize = self.rest.len();
        let mut i: usize = 0;
        while i < n
            invariant
                n == self.rest@.len(),
                i <= n,
                points@ == seq![self.first] + self.rest@.take(i as int),
            decreases n - i,
        {
            points.push(self.rest[i]);
            i += 1;
        }
        points
    }

    /// The index of the last control point: one less than the number of
    /// points.
    pub fn last_index(&self) -> (k: usize)
        ensures
            k == self@.len() - 1,
    {
        self.rest.len()
    }

    /// The control point at `index`.
    pub fn point(&self, index: usize) -> (value: u32)
        requires
            index < self@.len(),
        ensures
            value == self@[index as int],
    {
        if index == 0 {
            self.first
        } else {
            self.rest[index - 1]
        }
    }

    /// Replaces the control point at `index`.
    pub fn set_point(&mut self, index: usize, value: u32)
        requires
            index < old(self)@.len(),
        ensures
            final(self)@ == old(self)@.update(index as int, value),
    {
        if index == 0 {
            self.first = value;
        } else {
            self.rest[index - 1] = value;
        }
    }

    /// Appends a copy of the last point: the curve gets one point longer and
    /// still ends at the value it ended at.
    pub fn extend(&mut self)
        ensures
            final(self)@ == old(self)@.push(old(self)@.last()),
    {
        let tail: usize = self.rest.len();
        let last: u32 = if tail == 0 {
            self.first
        } else {
            self.rest[tail - 1]
        };
        self.rest.push(last);
    }

    /// Removes the last point. A curve of one point is left as it is.
    pub fn shorten(&mut self)
        ensures
            old(self)@.len() > 1 ==> final(self)@ == old(self)@.drop_last(),
            old(self)@.len() == 1 ==> final(self)@ == old(self)@,
    {
        if self.rest.len() > 0 {
            self.rest.pop();
        }
    }

    /// What an evaluation whose virtual index has integer part `k` reads: the
    /// last point alone at the last index, else the points at `k` and `k + 1`.
    pub fn segment(&self, k: usize) -> (seg: Segment)
        requires
            k < self@.len(),
        ensures
            seg == segment_of(self@, k as int),
    {
        let here: u32 = self.point(k);
        if k == self.rest.len() {
            Segment::Knot(here)
        } else {
            Segment::Span(here, self.rest[k])
        }
    }
}

/// Boundary closure: at the last index an evaluation reads the last point and
/// nothing else.
pub proof fn lemma_last_index_reads_last_point(points: Seq<u32>)
    requires
        points.len() >= 1,
    ensures
        segment_of(points, points.len() - 1) == Segment::Knot(points.last()),
{
}

/// A curve of one point is constant: every index it admits reads that point.
pub proof fn lemma_single_point_is_constant(points: Seq<u32>, k: int)
    requires
        points.len() == 1,
        0 <= k < points.len(),
    ensures
        segment_of(points, k) == Segment::Knot(points[0]),
{
}

/// Before the last index an evaluation reads two neighbouring points.
pub proof fn lemma_inner_index_reads_neighbours(points: Seq<u32>, k: int)
    requires
        0 <= k < points.len() - 1,
    ensures
        segment_of(points, k) == Segment::Span(points[k], points[k + 1]),
{
}

/// Extending and then shortening a curve gives the curve back.
pub proof fn lemma_extend_then_shorten(points: Seq<u32>)
    requires
        points.len() >= 1,
    ensures
        points.push(points.last()).drop_last() == points,
        points.push(points.last()).len() == points.len() + 1,
{
}

} // verus!
