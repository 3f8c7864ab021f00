//! Integer geometry of the world: points, velocities and axis-aligned boxes.
use vstd::prelude::*;

verus! {

/// Number of world units in one pixel.
pub const SUBPIXELS_PER_PIXEL: i64 = 1000;

/// Edge length of a map tile, in pixels.
pub const TILE_SIZE: i64 = 48;

/// Edge length of a player sprite, in pixels.
pub const SPRITE_SIZE: i64 = 48;

/// Microseconds in one second.
pub const MICROS_PER_SECOND: u64 = 1_000_000;

/// A position in world units.
#[derive(Clone, Copy, Debug, PartialEq, Eq, Structural)]
pub struct Point {
    pub x: i64,
    pub y: i64,
}

/// A velocity in world units per second.
#[derive(Clone, Copy, Debug, PartialEq, Eq, Structural)]
pub struct Velocity {
    pub x: i64,
    pub y: i64,
}

/// A half-open axis-aligned box `[min, max)` over mathematical integers.
pub struct Box2 {
    pub min_x: int,
    pub min_y: int,
    pub max_x: int,
    pub max_y: int,
}

/// The box spanned by a corner and a size, as a rectangle converts to a box.
pub open spec fn rect_box(x: int, y: int, w: int, h: int) -> Box2 {
    Box2 { min_x: x, min_y: y, max_x: x + w, max_y: y + h }
}

/// Two boxes overlap with a non-empty interior.
pub open spec fn intersects(a: Box2, b: Box2) -> bool {
    a.min_x < b.max_x && a.max_x > b.min_x && a.min_y < b.max_y && a.max_y > b.min_y
}

/// `inner` is empty, or lies within `outer`.
pub open spec fn contains_box(outer: Box2, inner: Box2) -> bool {
    (inner.min_x >= inner.max_x || inner.min_y >= inner.max_y) || (outer.min_x <= inner.min_x
        && inner.max_x <= outer.max_x && outer.min_y <= inner.min_y && inner.max_y
        <= outer.max_y)
}

/// The collision footprint of a sprite whose top-left corner is at `(x, y)`:
/// the lower half of the sprite's box.
pub open spec fn footprint(x: int, y: int) -> Box2 {
    let size = SPRITE_SIZE * SUBPIXELS_PER_PIXEL;
    rect_box(x, y + size / 2, size, size / 2)
}

/// Distance covered along one axis at speed `v` (units per second) during
/// `dt` microseconds, rounded toward zero.
pub open spec fn axis_offset(v: int, dt: int) -> int {
    if v >= 0 {
        (v * dt) / (MICROS_PER_SECOND as int)
    } else {
        -(((-v) * dt) / (MICROS_PER_SECOND as int))
    }
}

/// Executable [`axis_offset`], exact over 128-bit integers.
pub fn axis_offset_exec(v: i64, dt: u64) -> (r: i128)
    ensures
        r == axis_offset(v as int, dt as int),
        -0x0001_0000_0000_0000_0000_0000_0000_0000i128 <= r <= 0x0001_0000_0000_0000_0000_0000_0000_0000i128,
{
    let mag: u128 = if v >= 0 {
        v as u128
    } else {
        (-(v as i128)) as u128
    };
    assert(mag <= 0x8000_0000_0000_0000u128);
    assert(mag * (dt as u128) <= 0x8000_0000_0000_0000u128 * 0xffff_ffff_ffff_ffffu128)
        by (nonlinear_arith)
        requires
            mag <= 0x8000_0000_0000_0000u128,
            dt <= 0xffff_ffff_ffff_ffffu64,
    ;
    let prod: u128 = mag * (dt as u128);
    let q: u128 = prod / (MICROS_PER_SECOND as u128);
    assert(q <= prod);
    assert(q <= 0x0001_0000_0000_0000_0000_0000_0000_0000u128) by (nonlinear_arith)
        requires
            prod <= 0x8000_0000_0000_0000u128 * 0xffff_ffff_ffff_ffffu128,
            q == prod / 1_000_000u128,
    ;
    if v >= 0 {
        q as i128
    } else {
        -(q as i128)
    }
}

/// Executable [`intersects`] for boxes given by corner and size.
pub fn rects_intersect(
    ax: i128,
    ay: i128,
    aw: i128,
    ah: i128,
    bx: i128,
    by: i128,
    bw: i128,
    bh: i128,
) -> (r: bool)
    requires
        -0x1000_0000_0000_0000_0000_0000_0000_0000i128 <= ax <= 0x1000_0000_0000_0000_0000_0000_0000_0000i128,
        -0x1000_0000_0000_0000_0000_0000_0000_0000i128 <= ay <= 0x1000_0000_0000_0000_0000_0000_0000_0000i128,
        -0x1000_0000_0000_0000_0000_0000_0000_0000i128 <= aw <= 0x1000_0000_0000_0000_0000_0000_0000_0000i128,
        -0x1000_0000_0000_0000_0000_0000_0000_0000i128 <= ah <= 0x1000_0000_0000_0000_0000_0000_0000_0000i128,
        -0x1000_0000_0000_0000_0000_0000_0000_0000i128 <= bx <= 0x1000_0000_0000_0000_0000_0000_0000_0000i128,
        -0x1000_0000_0000_0000_0000_0000_0000_0000i128 <= by <= 0x1000_0000_0000_0000_0000_0000_0000_0000i128,
        -0x1000_0000_0000_0000_0000_0000_0000_0000i128 <= bw <= 0x1000_0000_0000_0000_0000_0000_0000_0000i128,
        -0x1000_0000_0000_0000_0000_0000_0000_0000i128 <= bh <= 0x1000_0000_0000_0000_0000_0000_0000_0000i128,
    ensures
        r == intersects(
            rect_box(ax as int, ay as int, aw as int, ah as int),
            rect_box(bx as int, by as int, bw as int, bh as int),
        ),
{
    ax < bx + bw && ax + aw > bx && ay < by + bh && ay + ah > by
}

} // verus!
