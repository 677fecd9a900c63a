//! Path commands and what it means for a path to lie in a box.

use vstd::prelude::*;
use crate::geom::{Point, Region};

verus! {

/// One command of a path.
#[derive(Clone, Copy, Debug, PartialEq, Eq, Structural)]
pub enum PathEl {
    /// Start a new sub-path at the point.
    MoveTo(Point),
    /// Draw a straight line to the point.
    LineTo(Point),
    /// Draw a cubic curve through two control points to the last point.
    CurveTo(Point, Point, Point),
    /// Close the current sub-path.
    ClosePath,
}

impl PathEl {
    /// Whether every point of the command lies in `region`.
    pub open spec fn within(self, region: Region) -> bool {
        match self {
            PathEl::MoveTo(p) => region.contains(p),
            PathEl::LineTo(p) => region.contains(p),
            PathEl::CurveTo(c1, c2, p) => region.contains(c1) && region.contains(c2)
                && region.contains(p),
            PathEl::ClosePath => true,
        }
    }

    /// Whether the command draws a segment: a line or a curve.
    pub open spec fn is_segment(self) -> bool {
        self is LineTo || self is CurveTo
    }

    /// Whether every point of the command is `p`.
    pub open spec fn collapsed_to(self, p: Point) -> bool {
        match self {
            PathEl::MoveTo(q) => q == p,
            PathEl::LineTo(q) => q == p,
            PathEl::CurveTo(c1, c2, q) => c1 == p && c2 == p && q == p,
            PathEl::ClosePath => true,
        }
    }
}

/// Whether every point of every command of `path` lies in `region`.
pub open spec fn path_within(path: Seq<PathEl>, region: Region) -> bool {
    forall|i: int| 0 <= i < path.len() ==> (#[trigger] path[i]).within(region)
}

/// Number of segments, lines and curves, that `path` draws.
pub open spec fn segment_count(path: Seq<PathEl>) -> nat
    decreases path.len(),
{
    if path.len() == 0 {
        0
    } else {
        segment_count(path.drop_last()) + if path.last().is_segment() {
            1nat
        } else {
            0nat
        }
    }
}

/// A path that lies in a box lies in every box around that box.
pub proof fn lemma_path_within_wider(path: Seq<PathEl>, inner: Region, outer: Region)
    requires
        path_within(path, inner),
        inner.within(outer),
    ensures
        path_within(path, outer),
{
    assert forall|i: int| 0 <= i < path.len() implies (#[trigger] path[i]).within(outer) by {
        assert(path[i].within(inner));
    }
}

/// Two paths that lie in a box, one after the other, lie in the box.
pub proof fn lemma_path_within_concat(first: Seq<PathEl>, second: Seq<PathEl>, region: Region)
    requires
        path_within(first, region),
        path_within(second, region),
    ensures
        path_within(first + second, region),
{
    let joined = first + second;
    assert forall|i: int| 0 <= i < joined.len() implies (#[trigger] joined[i]).within(region) by {
        if i < first.len() {
            assert(joined[i] == first[i]);
        } else {
            assert(joined[i] == second[i - first.len()]);
        }
    }
}

/// The segments of two paths, one after the other, add up.
pub proof fn lemma_segment_count_concat(first: Seq<PathEl>, second: Seq<PathEl>)
    ensures
        segment_count(first + second) == segment_count(first) + segment_count(second),
    decreases second.len(),
{
    if second.len() == 0 {
        assert(first + second =~= first);
    } else {
        lemma_segment_count_concat(first, second.drop_last());
        assert((first + second).drop_last() =~= first + second.drop_last());
        assert((first + second).last() == second.last());
    }
}

/// Appends the commands of `tail` to `path`.
pub fn extend_path(path: &mut Vec<PathEl>, tail: &Vec<PathEl>)
    ensures
        final(path)@ == old(path)@ + tail@,
{
    let mut i: usize = 0;
    while i < tail.len()
        invariant
            i <= tail.len(),
            path@ == old(path)@ + tail@.subrange(0, i as int),
        decreases tail.len() - i,
    {
        path.push(tail[i]);
        assert(tail@.subrange(0, i + 1) =~= tail@.subrange(0, i as int).push(tail@[i as int]));
        i = i + 1;
    }
    assert(tail@.subrange(0, tail@.len() as int) =~= tail@);
}

} // verus!
