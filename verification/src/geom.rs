//! Integer plane geometry: positions, axis-aligned box overlap
//! classification, and velocity reflection.
use vstd::prelude::*;

verus! {

/// Largest coordinate magnitude the simulation tracks.  Positions saturate
/// here; the playfield itself is smaller by many orders of magnitude.
pub const POS_LIMIT: i64 = 1_000_000_000_000;

/// Largest velocity magnitude, in subunits per tick.
pub const VEL_LIMIT: i64 = 1_000_000;

/// Largest entity extent on either axis.  Particle growth saturates here.
pub const SCALE_LIMIT: i64 = 1_000_000;

/// A point, extent or velocity on the integer subunit grid.
#[derive(Clone, Copy, PartialEq, Eq, Structural, Debug)]
pub struct Vec2i {
    pub x: i64,
    pub y: i64,
}

/// Which side of a collider's box the ball struck.  `Inside` is the
/// degenerate classification: the boxes overlap but the ball's box crosses
/// no single edge of the other box on either axis.
#[derive(Clone, Copy, PartialEq, Eq, Structural, Debug)]
pub enum Side {
    Left,
    Right,
    Top,
    Bottom,
    Inside,
}

pub open spec fn in_pos_range(v: Vec2i) -> bool {
    &&& -POS_LIMIT <= v.x <= POS_LIMIT
    &&& -POS_LIMIT <= v.y <= POS_LIMIT
}

pub open spec fn in_scale_range(v: Vec2i) -> bool {
    &&& 0 <= v.x <= SCALE_LIMIT
    &&& 0 <= v.y <= SCALE_LIMIT
}

pub open spec fn in_vel_range(v: Vec2i) -> bool {
    &&& -VEL_LIMIT <= v.x <= VEL_LIMIT
    &&& -VEL_LIMIT <= v.y <= VEL_LIMIT
}

pub open spec fn clamp_spec(v: int, lo: int, hi: int) -> int {
    if v < lo {
        lo
    } else if v > hi {
        hi
    } else {
        v
    }
}

/// Clamp `v` into `[lo, hi]`.
pub fn clamp_i64(v: i64, lo: i64, hi: i64) -> (r: i64)
    requires
        lo <= hi,
    ensures
        r == clamp_spec(v as int, lo as int, hi as int),
{
    if v < lo {
        lo
    } else if v > hi {
        hi
    } else {
        v
    }
}

/// Side classification of two overlapping boxes, given in doubled
/// coordinates (`x0`/`x1` are twice the left/right edge, so halving a box
/// extent never loses precision).  On each axis the moving box either
/// crosses the stationary box's low edge, crosses its high edge, or crosses
/// neither; a crossed edge records its penetration depth, and the axis with
/// the shallower penetration names the struck side, horizontal winning
/// ties.  If neither axis crosses a single edge the overlap is `Inside`.
pub open spec fn classify_spec(
    ax0: int,
    ax1: int,
    ay0: int,
    ay1: int,
    bx0: int,
    bx1: int,
    by0: int,
    by1: int,
) -> Side {
    let xs = if ax0 < bx0 && ax1 > bx0 && ax1 < bx1 {
        Side::Left
    } else if ax0 > bx0 && ax0 < bx1 && ax1 > bx1 {
        Side::Right
    } else {
        Side::Inside
    };
    let ys = if ay0 < by0 && ay1 > by0 && ay1 < by1 {
        Side::Bottom
    } else if ay0 > by0 && ay0 < by1 && ay1 > by1 {
        Side::Top
    } else {
        Side::Inside
    };
    if xs == Side::Inside && ys == Side::Inside {
        Side::Inside
    } else if xs == Side::Inside {
        ys
    } else if ys == Side::Inside {
        xs
    } else {
        let xd = if xs == Side::Left {
            ax1 - bx0
        } else {
            bx1 - ax0
        };
        let yd = if ys == Side::Bottom {
            ay1 - by0
        } else {
            by1 - ay0
        };
        if yd < xd {
            ys
        } else {
            xs
        }
    }
}

/// Box overlap test and side classification for box `a` (position and
/// extents) against box `b`.  `None` when the open boxes do not intersect.
pub open spec fn collide_spec(apos: Vec2i, asize: Vec2i, bpos: Vec2i, bsize: Vec2i) -> Option<
    Side,
> {
    let ax0 = 2 * apos.x - asize.x;
    let ax1 = 2 * apos.x + asize.x;
    let ay0 = 2 * apos.y - asize.y;
    let ay1 = 2 * apos.y + asize.y;
    let bx0 = 2 * bpos.x - bsize.x;
    let bx1 = 2 * bpos.x + bsize.x;
    let by0 = 2 * bpos.y - bsize.y;
    let by1 = 2 * bpos.y + bsize.y;
    if ax0 < bx1 && ax1 > bx0 && ay0 < by1 && ay1 > by0 {
        Some(classify_spec(ax0, ax1, ay0, ay1, bx0, bx1, by0, by1))
    } else {
        None
    }
}

/// Overlap test and side classification between the ball's box and a
/// collider's box.
pub fn collide(apos: Vec2i, asize: Vec2i, bpos: Vec2i, bsize: Vec2i) -> (r: Option<Side>)
    requires
        in_pos_range(apos),
        in_pos_range(bpos),
        in_scale_range(asize),
        in_scale_range(bsize),
    ensures
        r == collide_spec(apos, asize, bpos, bsize),
{
    let ax0 = 2 * apos.x - asize.x;
    let ax1 = 2 * apos.x + asize.x;
    let ay0 = 2 * apos.y - asize.y;
    let ay1 = 2 * apos.y + asize.y;
    let bx0 = 2 * bpos.x - bsize.x;
    let bx1 = 2 * bpos.x + bsize.x;
    let by0 = 2 * bpos.y - bsize.y;
    let by1 = 2 * bpos.y + bsize.y;
    if !(ax0 < bx1 && ax1 > bx0 && ay0 < by1 && ay1 > by0) {
        return None;
    }
    let mut xs = Side::Inside;
    let mut xd: i64 = 0;
    if ax0 < bx0 && ax1 > bx0 && ax1 < bx1 {
        xs = Side::Left;
        xd = ax1 - bx0;
    } else if ax0 > bx0 && ax0 < bx1 && ax1 > bx1 {
        xs = Side::Right;
        xd = bx1 - ax0;
    }
    let mut ys = Side::Inside;
    let mut yd: i64 = 0;
    if ay0 < by0 && ay1 > by0 && ay1 < by1 {
        ys = Side::Bottom;
        yd = ay1 - by0;
    } else if ay0 > by0 && ay0 < by1 && ay1 > by1 {
        ys = Side::Top;
        yd = by1 - ay0;
    }
    if xs == Side::Inside && ys == Side::Inside {
        Some(Side::Inside)
    } else if xs == Side::Inside {
        Some(ys)
    } else if ys == Side::Inside {
        Some(xs)
    } else if yd < xd {
        Some(ys)
    } else {
        Some(xs)
    }
}

/// Conditional reflection: a side flips the matching velocity component
/// only when the ball is moving toward that side, so a graze while already
/// leaving the surface changes nothing.  `Inside` never reflects.
pub open spec fn reflect_spec(v: Vec2i, side: Side) -> Vec2i {
    match side {
        Side::Left => if v.x > 0 {
            Vec2i { x: (-v.x) as i64, y: v.y }
        } else {
            v
        },
        Side::Right => if v.x < 0 {
            Vec2i { x: (-v.x) as i64, y: v.y }
        } else {
            v
        },
        Side::Top => if v.y < 0 {
            Vec2i { x: v.x, y: (-v.y) as i64 }
        } else {
            v
        },
        Side::Bottom => if v.y > 0 {
            Vec2i { x: v.x, y: (-v.y) as i64 }
        } else {
            v
        },
        Side::Inside => v,
    }
}

/// Apply the conditional reflection rule to a ball velocity.
pub fn reflect(v: Vec2i, side: Side) -> (r: Vec2i)
    requires
        in_vel_range(v),
    ensures
        r == reflect_spec(v, side),
        in_vel_range(r),
{
    match side {
        Side::Left => if v.x > 0 {
            Vec2i { x: (-v.x) as i64, y: v.y }
        } else {
            v
        },
        Side::Right => if v.x < 0 {
            Vec2i { x: (-v.x) as i64, y: v.y }
        } else {
            v
        },
        Side::Top => if v.y < 0 {
            Vec2i { x: v.x, y: (-v.y) as i64 }
        } else {
            v
        },
        Side::Bottom => if v.y > 0 {
            Vec2i { x: v.x, y: (-v.y) as i64 }
        } else {
            v
        },
        Side::Inside => v,
    }
}

/// Reflection sign rule: for every velocity and classified side, the
/// post-collision velocity flips the matching component exactly when the
/// ball moves toward the struck side, leaves it unchanged otherwise, and
/// never changes a component's magnitude; `Inside` changes nothing.
pub proof fn lemma_reflection_sign_rule(v: Vec2i, side: Side)
    requires
        in_vel_range(v),
    ensures
        side == Side::Left && v.x > 0 ==> reflect_spec(v, side) == (Vec2i { x: (-v.x) as i64, y: v.y }),
        side == Side::Left && v.x <= 0 ==> reflect_spec(v, side) == v,
        side == Side::Right && v.x < 0 ==> reflect_spec(v, side) == (Vec2i { x: (-v.x) as i64, y: v.y }),
        side == Side::Right && v.x >= 0 ==> reflect_spec(v, side) == v,
        side == Side::Top && v.y < 0 ==> reflect_spec(v, side) == (Vec2i { x: v.x, y: (-v.y) as i64 }),
        side == Side::Top && v.y >= 0 ==> reflect_spec(v, side) == v,
        side == Side::Bottom && v.y > 0 ==> reflect_spec(v, side) == (Vec2i { x: v.x, y: (-v.y) as i64 }),
        side == Side::Bottom && v.y <= 0 ==> reflect_spec(v, side) == v,
        side == Side::Inside ==> reflect_spec(v, side) == v,
        reflect_spec(v, side).x == v.x || reflect_spec(v, side).x == -v.x,
        reflect_spec(v, side).y == v.y || reflect_spec(v, side).y == -v.y,
{
}

} // verus!
