use vstd::prelude::*;
use crate::rat::{Rat, px_ok, q_le, rat_le, CMP_MAX, num_within, den_within};

verus! {

/// A point, in screen space or in data space.
#[derive(Clone, Copy, Debug, PartialEq, Eq, Structural)]
pub struct Pos {
    pub x: Rat,
    pub y: Rat,
}

/// Pixel-space point handed in by the caller: coordinates within machine bounds.
pub open spec fn pos_ok(p: Pos) -> bool {
    px_ok(p.x) && px_ok(p.y)
}

/// An axis-aligned rectangle given by two corners.
#[derive(Clone, Copy, Debug, PartialEq, Eq, Structural)]
pub struct Rect {
    pub min: Pos,
    pub max: Pos,
}

/// Pixel-space rectangle within machine bounds; `min` need not lie below `max`.
pub open spec fn rect_ok(r: Rect) -> bool {
    pos_ok(r.min) && pos_ok(r.max)
}

/// Whether `p` lies inside `r`, boundary included.
pub open spec fn spec_contains(r: Rect, p: Pos) -> bool {
    q_le(r.min.x@, p.x@) && q_le(p.x@, r.max.x@) && q_le(r.min.y@, p.y@) && q_le(
        p.y@,
        r.max.y@,
    )
}

/// Bounds loose enough for every comparison made here.
pub open spec fn cmp_ok(r: Rat) -> bool {
    num_within(r, CMP_MAX as int) && den_within(r, CMP_MAX as int)
}

/// Tests whether the point lies inside the rectangle, boundary included.
pub fn contains(r: &Rect, p: &Pos) -> (res: bool)
    requires
        cmp_ok(r.min.x),
        cmp_ok(r.min.y),
        cmp_ok(r.max.x),
        cmp_ok(r.max.y),
        cmp_ok(p.x),
        cmp_ok(p.y),
    ensures
        res == spec_contains(*r, *p),
{
    rat_le(&r.min.x, &p.x) && rat_le(&p.x, &r.max.x) && rat_le(&r.min.y, &p.y) && rat_le(
        &p.y,
        &r.max.y,
    )
}

} // verus!
