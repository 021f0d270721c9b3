//! The camera transform between screen pixels and fixed-point physics
//! coordinates: `physics = (screen - offset) / scale`.

use vstd::prelude::*;
use vstd::arithmetic::div_mod::lemma_fundamental_div_mod_converse_div;
use crate::fixed::{clamp_spec, clamp_to, div_ceil, div_floor, COORD_LIMIT};
use crate::types::{Position, Vec2};

verus! {

/// `scale_milli` for a scale of exactly 1.
pub const SCALE_ONE: u32 = 1000;

/// Largest accepted `scale_milli` (a scale of 1000).
pub const SCALE_MAX: u32 = 1_000_000;

/// Fixed-point steps per screen pixel at scale 1, times `SCALE_ONE`.
pub const UNIT_FACTOR: i64 = 1_000_000;

/// Offset plus uniform scale. The scale is `scale_milli / 1000`.
#[derive(Clone, Copy, Debug, PartialEq, Eq, Structural)]
pub struct Viewport {
    pub offset: Position,
    pub scale_milli: u32,
}

/// A screen coordinate mapped to physics space.
pub open spec fn to_physics_coord(c: int, off: int, s: int) -> int {
    (c - off) * UNIT_FACTOR as int / s
}

/// A physics coordinate mapped to screen space (rounded up, kept in `i32` range).
pub open spec fn to_screen_coord(q: int, off: int, s: int) -> int {
    clamp_spec(-((-(q * s)) / UNIT_FACTOR as int) + off, i32::MIN as int, i32::MAX as int)
}

/// Screen coordinates survive a trip through physics space unchanged.
pub proof fn lemma_coord_round_trip(c: int, off: int, s: int)
    requires
        i32::MIN <= c <= i32::MAX,
        i32::MIN <= off <= i32::MAX,
        1 <= s <= SCALE_MAX,
    ensures
        to_screen_coord(to_physics_coord(c, off, s), off, s) == c,
{
    let d = c - off;
    let q = to_physics_coord(c, off, s);
    let u = UNIT_FACTOR as int;
    vstd::arithmetic::div_mod::lemma_fundamental_div_mod(d * u, s);
    let r = (d * u) % s;
    assert(d * u == q * s + r) by (nonlinear_arith)
        requires
            d * u == s * ((d * u) / s) + (d * u) % s,
            q == (d * u) / s,
            r == (d * u) % s,
    ;
    assert(-(q * s) == (-d) * u + r) by (nonlinear_arith)
        requires
            d * u == q * s + r,
    ;
    lemma_fundamental_div_mod_converse_div(-(q * s), u, -d, r);
}

impl Viewport {
    /// The well-formed viewports: a positive scale no larger than 1000.
    pub open spec fn wf(&self) -> bool {
        1 <= self.scale_milli <= SCALE_MAX
    }

    pub open spec fn screen_to_physics_spec(&self, p: Position) -> Vec2 {
        Vec2 {
            x: to_physics_coord(p.x as int, self.offset.x as int, self.scale_milli as int) as i64,
            y: to_physics_coord(p.y as int, self.offset.y as int, self.scale_milli as int) as i64,
        }
    }

    pub open spec fn physics_to_screen_spec(&self, q: Vec2) -> Position {
        Position {
            x: to_screen_coord(q.x as int, self.offset.x as int, self.scale_milli as int) as i32,
            y: to_screen_coord(q.y as int, self.offset.y as int, self.scale_milli as int) as i32,
        }
    }

    /// Zero offset and a scale of 1.
    pub fn new() -> (r: Viewport)
        ensures
            r.wf(),
            r.offset == (Position { x: 0, y: 0 }),
            r.scale_milli == SCALE_ONE,
    {
        Viewport { offset: Position { x: 0, y: 0 }, scale_milli: SCALE_ONE }
    }

    /// A viewport with the given offset and scale (in thousandths).
    pub fn with_scale(offset: Position, scale_milli: u32) -> (r: Viewport)
        requires
            1 <= scale_milli <= SCALE_MAX,
        ensures
            r.wf(),
            r.offset == offset,
            r.scale_milli == scale_milli,
    {
        Viewport { offset, scale_milli }
    }

    /// `(p - offset) / scale`, rounded down to a fixed-point step.
    pub fn screen_to_physics(&self, p: &Position) -> (r: Vec2)
        requires
            self.wf(),
        ensures
            r == self.screen_to_physics_spec(*p),
            -COORD_LIMIT <= r.x <= COORD_LIMIT,
            -COORD_LIMIT <= r.y <= COORD_LIMIT,
    {
        let s = self.scale_milli as i128;
        proof {
            assert(-0x1_0000_0000int * 1_000_000 <= (p.x as int - self.offset.x as int) * 1_000_000 <= 0x1_0000_0000int * 1_000_000) by (nonlinear_arith)
                requires
                    -0x1_0000_0000int <= p.x as int - self.offset.x as int <= 0x1_0000_0000int,
            ;
            assert(-0x1_0000_0000int * 1_000_000 <= (p.y as int - self.offset.y as int) * 1_000_000 <= 0x1_0000_0000int * 1_000_000) by (nonlinear_arith)
                requires
                    -0x1_0000_0000int <= p.y as int - self.offset.y as int <= 0x1_0000_0000int,
            ;
        }
        let dx = (p.x as i128 - self.offset.x as i128) * UNIT_FACTOR as i128;
        let dy = (p.y as i128 - self.offset.y as i128) * UNIT_FACTOR as i128;
        let qx = div_floor(dx, s);
        let qy = div_floor(dy, s);
        proof {
            lemma_physics_coord_bound(p.x as int, self.offset.x as int, s as int);
            lemma_physics_coord_bound(p.y as int, self.offset.y as int, s as int);
        }
        Vec2 { x: qx as i64, y: qy as i64 }
    }

    /// `q * scale + offset`, rounded up to a pixel and kept in `i32` range.
    pub fn physics_to_screen(&self, q: &Vec2) -> (r: Position)
        requires
            self.wf(),
            -COORD_LIMIT <= q.x <= COORD_LIMIT,
            -COORD_LIMIT <= q.y <= COORD_LIMIT,
        ensures
            r == self.physics_to_screen_spec(*q),
    {
        let s = self.scale_milli as i128;
        proof {
            assert(-(COORD_LIMIT as int) * SCALE_MAX as int <= q.x as int * s as int <= COORD_LIMIT as int * SCALE_MAX as int) by (nonlinear_arith)
                requires
                    -COORD_LIMIT <= q.x <= COORD_LIMIT,
                    1 <= s <= SCALE_MAX,
            ;
            assert(-(COORD_LIMIT as int) * SCALE_MAX as int <= q.y as int * s as int <= COORD_LIMIT as int * SCALE_MAX as int) by (nonlinear_arith)
                requires
                    -COORD_LIMIT <= q.y <= COORD_LIMIT,
                    1 <= s <= SCALE_MAX,
            ;
        }
        let cx = div_ceil(q.x as i128 * s, UNIT_FACTOR as i128);
        let cy = div_ceil(q.y as i128 * s, UNIT_FACTOR as i128);
        proof {
            assert(-(COORD_LIMIT as int) <= cx <= COORD_LIMIT) by (nonlinear_arith)
                requires
                    cx == -((-(q.x as int * s as int)) / UNIT_FACTOR as int),
                    -(COORD_LIMIT as int) * SCALE_MAX as int <= q.x as int * s as int <= COORD_LIMIT as int * SCALE_MAX as int,
            ;
            assert(-(COORD_LIMIT as int) <= cy <= COORD_LIMIT) by (nonlinear_arith)
                requires
                    cy == -((-(q.y as int * s as int)) / UNIT_FACTOR as int),
                    -(COORD_LIMIT as int) * SCALE_MAX as int <= q.y as int * s as int <= COORD_LIMIT as int * SCALE_MAX as int,
            ;
        }
        let x = clamp_to(cx + self.offset.x as i128, i32::MIN as i64, i32::MAX as i64);
        let y = clamp_to(cy + self.offset.y as i128, i32::MIN as i64, i32::MAX as i64);
        Position { x: x as i32, y: y as i32 }
    }
}

/// Mapping a screen point to physics space and back gives the point again,
/// for every well-formed viewport.
pub proof fn lemma_viewport_round_trip(vp: Viewport, p: Position)
    requires
        vp.wf(),
    ensures
        vp.physics_to_screen_spec(vp.screen_to_physics_spec(p)) == p,
{
    lemma_physics_coord_bound(p.x as int, vp.offset.x as int, vp.scale_milli as int);
    lemma_physics_coord_bound(p.y as int, vp.offset.y as int, vp.scale_milli as int);
    lemma_coord_round_trip(p.x as int, vp.offset.x as int, vp.scale_milli as int);
    lemma_coord_round_trip(p.y as int, vp.offset.y as int, vp.scale_milli as int);
}

/// A screen coordinate maps inside the physics coordinate range.
pub proof fn lemma_physics_coord_bound(c: int, off: int, s: int)
    requires
        i32::MIN <= c <= i32::MAX,
        i32::MIN <= off <= i32::MAX,
        1 <= s <= SCALE_MAX,
    ensures
        -COORD_LIMIT <= to_physics_coord(c, off, s) <= COORD_LIMIT,
{
    let d = c - off;
    assert(-0x1_0000_0000int <= d <= 0x1_0000_0000int);
    let n = d * UNIT_FACTOR as int;
    assert(-0x1_0000_0000int * 1_000_000 <= n <= 0x1_0000_0000int * 1_000_000) by (nonlinear_arith)
        requires
            -0x1_0000_0000int <= d <= 0x1_0000_0000int,
            n == d * 1_000_000,
    ;
    assert(-0x1_0000_0000int * 1_000_000 <= n / s <= 0x1_0000_0000int * 1_000_000) by (nonlinear_arith)
        requires
            -0x1_0000_0000int * 1_000_000 <= n <= 0x1_0000_0000int * 1_000_000,
            1 <= s,
    ;
}

} // verus!
