//! Axis-aligned inclusive rectangles of cells, and their derivation from
//! the two corners of a block-visual selection.

use crate::coords::CellPos;
use vstd::prelude::*;

verus! {

/// Axis-aligned inclusive rectangle of cells: a start corner and a size
/// of at least one cell on each axis.
#[derive(Clone, Copy, PartialEq, Eq, Structural, Debug)]
pub struct CellRange {
    pub start: CellPos,
    pub width: usize,
    pub height: usize,
}

impl CellRange {
    /// A range spans at least one cell on each axis, and its far corner
    /// is a representable coordinate.
    pub open spec fn wf(self) -> bool {
        &&& 1 <= self.width
        &&& 1 <= self.height
        &&& self.start.x + self.width <= usize::MAX + 1
        &&& self.start.y + self.height <= usize::MAX + 1
    }

    /// Does the range cover `p`? Both corners are inclusive.
    pub open spec fn contains(self, p: CellPos) -> bool {
        &&& self.start.x <= p.x < self.start.x + self.width
        &&& self.start.y <= p.y < self.start.y + self.height
    }
}

/// The normalized rectangle with corners `a` and `b`: per-axis minimum as
/// the start, absolute difference plus one as the size. Both corners lie
/// inside, whichever way round they are given.
pub fn range_between(a: CellPos, b: CellPos) -> (r: CellRange)
    requires
        a.x - b.x < usize::MAX,
        b.x - a.x < usize::MAX,
        a.y - b.y < usize::MAX,
        b.y - a.y < usize::MAX,
    ensures
        r.start.x == vstd::math::min(a.x as int, b.x as int),
        r.start.y == vstd::math::min(a.y as int, b.y as int),
        r.start.x + r.width == vstd::math::max(a.x as int, b.x as int) + 1,
        r.start.y + r.height == vstd::math::max(a.y as int, b.y as int) + 1,
        r.wf(),
        r.contains(a),
        r.contains(b),
{
    let sx: usize = if a.x <= b.x {
        a.x
    } else {
        b.x
    };
    let sy: usize = if a.y <= b.y {
        a.y
    } else {
        b.y
    };
    let w: usize = if a.x <= b.x {
        b.x - a.x
    } else {
        a.x - b.x
    };
    let h: usize = if a.y <= b.y {
        b.y - a.y
    } else {
        a.y - b.y
    };
    CellRange { start: CellPos { x: sx, y: sy }, width: w + 1, height: h + 1 }
}

} // verus!
