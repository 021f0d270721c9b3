//! The force fields: tunable settings, the simulated bodies, and the impulse
//! that each field gives one body. Impulses are velocity changes over one tick
//! of `1 / STEPS_PER_SECOND` seconds, in fixed-point steps per second.

use vstd::prelude::*;
use crate::fixed::{
    int_sqrt, is_isqrt, isqrt, lemma_isqrt_is_int_sqrt, tdiv, tdiv_exec, COORD_LIMIT, FIXED, VEL_LIMIT,
};
use crate::types::{NodeId, Vec2};

verus! {

/// Simulation ticks per second; one tick lasts `1 / STEPS_PER_SECOND` s.
pub const STEPS_PER_SECOND: i64 = 12;

/// Largest accepted value of a numeric setting (in thousandths).
pub const SETTING_MAX: i64 = 1_000_000_000_000;

/// Largest radius of a body, in fixed-point steps.
pub const RADIUS_MAX: i64 = 2_147_483_648_000;

/// Closer than this (50 units), author attraction is not applied.
pub const AUTHOR_MIN_DISTANCE: i64 = 50_000;

/// Added to the distance (100 units) in the author attraction's denominator.
pub const AUTHOR_DISTANCE_OFFSET: i64 = 100_000;

/// Added to the distance (50 units) in category attraction's denominator.
pub const CATEGORY_DISTANCE_OFFSET: i64 = 50_000;

/// Bound on the magnitude of one impulse term.
pub const TERM_LIMIT: i128 = 0x10_0000_0000_0000_0000_0000_0000;

/// The tunable parameters of every force field. Numeric fields are in
/// thousandths: a strength of 50 is stored as 50_000, a distance of 20 units
/// as 20_000 (one fixed-point step is a thousandth of a unit).
#[derive(Clone, Copy, Debug, PartialEq, Eq, Structural)]
pub struct ForceSettings {
    pub repulsion_strength: i64,
    pub repulsion_min_distance: i64,
    pub center_strength: i64,
    pub center_damping: i64,
    pub link_strength: i64,
    pub direct_link_strength: i64,
    pub direct_link_damping: i64,
    pub author_attraction_strength: i64,
    pub author_attraction_damping: i64,
    pub category_attraction_strength: i64,
    pub category_attraction_range: i64,
    pub enable_category_clustering: bool,
    pub author_fixed_position: bool,
    pub debug_mode: bool,
    pub show_connection_lines: bool,
}

pub open spec fn setting_ok(v: i64) -> bool {
    0 <= v <= SETTING_MAX
}

impl ForceSettings {
    /// Every numeric setting lies in `[0, SETTING_MAX]`.
    pub open spec fn wf(&self) -> bool {
        &&& setting_ok(self.repulsion_strength)
        &&& setting_ok(self.repulsion_min_distance)
        &&& setting_ok(self.center_strength)
        &&& setting_ok(self.center_damping)
        &&& setting_ok(self.link_strength)
        &&& setting_ok(self.direct_link_strength)
        &&& setting_ok(self.direct_link_damping)
        &&& setting_ok(self.author_attraction_strength)
        &&& setting_ok(self.author_attraction_damping)
        &&& setting_ok(self.category_attraction_strength)
        &&& setting_ok(self.category_attraction_range)
    }

    /// The settings the layout starts with.
    pub open spec fn default_spec() -> ForceSettings {
        ForceSettings {
            repulsion_strength: 50_000_000,
            repulsion_min_distance: 20_000,
            center_strength: 50_000,
            center_damping: 5_000,
            link_strength: 5_000_000,
            direct_link_strength: 5_000_000,
            direct_link_damping: 50_000,
            author_attraction_strength: 1_000_000,
            author_attraction_damping: 5_000,
            category_attraction_strength: 500_000,
            category_attraction_range: 300_000,
            enable_category_clustering: false,
            author_fixed_position: false,
            debug_mode: false,
            show_connection_lines: true,
        }
    }
}

impl Default for ForceSettings {
    fn default() -> (r: ForceSettings)
        ensures
            r == ForceSettings::default_spec(),
            r.wf(),
    {
        ForceSettings {
            repulsion_strength: 50_000_000,
            repulsion_min_distance: 20_000,
            center_strength: 50_000,
            center_damping: 5_000,
            link_strength: 5_000_000,
            direct_link_strength: 5_000_000,
            direct_link_damping: 50_000,
            author_attraction_strength: 1_000_000,
            author_attraction_damping: 5_000,
            category_attraction_strength: 500_000,
            category_attraction_range: 300_000,
            enable_category_clustering: false,
            author_fixed_position: false,
            debug_mode: false,
            show_connection_lines: true,
        }
    }
}

/// Simulated or externally driven.
#[derive(Clone, Copy, Debug, PartialEq, Eq, Structural)]
pub enum BodyKind {
    Dynamic,
    Kinematic,
}

/// The simulated state of one node.
#[derive(Clone, Copy, Debug, PartialEq, Eq, Structural)]
pub struct Body {
    pub id: NodeId,
    pub pos: Vec2,
    pub vel: Vec2,
    pub kind: BodyKind,
    /// Collision radius in fixed-point steps.
    pub radius: i64,
    pub is_author: bool,
    /// Linear damping, in thousandths per second.
    pub damping: i64,
}

pub open spec fn coord_ok(v: i64) -> bool {
    -COORD_LIMIT <= v <= COORD_LIMIT
}

pub open spec fn vel_ok(v: i64) -> bool {
    -VEL_LIMIT <= v <= VEL_LIMIT
}

impl Body {
    pub open spec fn wf(&self) -> bool {
        &&& coord_ok(self.pos.x)
        &&& coord_ok(self.pos.y)
        &&& vel_ok(self.vel.x)
        &&& vel_ok(self.vel.y)
        &&& 0 <= self.radius <= RADIUS_MAX
        &&& setting_ok(self.damping)
    }
}

/// The Euclidean length of `(dx, dy)`, rounded down.
pub open spec fn dist(dx: int, dy: int) -> int {
    int_sqrt(dx * dx + dy * dy)
}

/// The Euclidean length of `(dx, dy)`, rounded down.
pub fn distance(dx: i128, dy: i128) -> (r: i128)
    requires
        -2 * COORD_LIMIT <= dx <= 2 * COORD_LIMIT,
        -2 * COORD_LIMIT <= dy <= 2 * COORD_LIMIT,
    ensures
        r == dist(dx as int, dy as int),
        0 <= r <= 6 * COORD_LIMIT,
        dx >= 0 ==> dx <= r,
        dx < 0 ==> -dx <= r,
        dy >= 0 ==> dy <= r,
        dy < 0 ==> -dy <= r,
{
    proof {
        assert(0 <= dx * dx <= 4 * COORD_LIMIT * COORD_LIMIT * 4) by (nonlinear_arith)
            requires
                -2 * COORD_LIMIT <= dx <= 2 * COORD_LIMIT,
        ;
        assert(0 <= dy * dy <= 4 * COORD_LIMIT * COORD_LIMIT * 4) by (nonlinear_arith)
            requires
                -2 * COORD_LIMIT <= dy <= 2 * COORD_LIMIT,
        ;
    }
    let n = (dx * dx + dy * dy) as u128;
    let r = isqrt(n);
    proof {
        lemma_isqrt_is_int_sqrt(dx * dx + dy * dy, r as int);
        let ax = if dx >= 0 { dx as int } else { -dx as int };
        let ay = if dy >= 0 { dy as int } else { -dy as int };
        assert(ax * ax == dx * dx) by (nonlinear_arith)
            requires
                ax == dx || ax == -dx,
        ;
        assert(ay * ay == dy * dy) by (nonlinear_arith)
            requires
                ay == dy || ay == -dy,
        ;
        assert(ax <= r) by (nonlinear_arith)
            requires
                ax >= 0,
                ax * ax <= n,
                n < (r + 1) * (r + 1),
                r >= 0,
        ;
        assert(ay <= r) by (nonlinear_arith)
            requires
                ay >= 0,
                ay * ay <= n,
                n < (r + 1) * (r + 1),
                r >= 0,
        ;
        if r > 6 * COORD_LIMIT {
            assert(r * r > 36 * COORD_LIMIT * COORD_LIMIT) by (nonlinear_arith)
                requires
                    r > 6 * COORD_LIMIT,
            ;
        }
    }
    r as i128
}

/// A quotient rounded towards zero is no larger than any `m` with
/// `|n| <= d * m`.
pub proof fn lemma_tdiv_bound(n: int, d: int, m: int)
    requires
        d > 0,
        m >= 0,
        -(d * m) <= n <= d * m,
    ensures
        -m <= tdiv(n, d) <= m,
{
    if n >= 0 {
        assert(n / d <= m) by (nonlinear_arith)
            requires
                d > 0,
                0 <= n <= d * m,
        ;
        assert(n / d >= 0) by (nonlinear_arith)
            requires
                d > 0,
                0 <= n,
        ;
    } else {
        assert((-n) / d <= m) by (nonlinear_arith)
            requires
                d > 0,
                0 <= -n <= d * m,
        ;
        assert((-n) / d >= 0) by (nonlinear_arith)
            requires
                d > 0,
                0 <= -n,
        ;
    }
}

/// `tdiv(dx * mag, d * k)` for a component `dx` no longer than `d`: it is
/// at most `mag` in magnitude.
pub fn scaled_component(dx: i128, mag: i128, d: i128, k: i128) -> (r: i128)
    requires
        d > 0,
        1 <= k <= 12,
        0 <= mag <= SETTING_MAX,
        -d <= dx <= d,
        d <= 6 * COORD_LIMIT,
    ensures
        r == tdiv(dx * mag, d * k),
        -mag <= r <= mag,
{
    proof {
        assert(-((d * k) * mag) <= dx * mag <= (d * k) * mag) by (nonlinear_arith)
            requires
                -d <= dx <= d,
                mag >= 0,
                1 <= k,
        ;
        assert(0 < d * k <= 72 * COORD_LIMIT) by (nonlinear_arith)
            requires
                0 < d <= 6 * COORD_LIMIT,
                1 <= k <= 12,
        ;
        assert(-(6 * COORD_LIMIT * SETTING_MAX) <= dx * mag <= 6 * COORD_LIMIT * SETTING_MAX) by (nonlinear_arith)
            requires
                -d <= dx <= d,
                d <= 6 * COORD_LIMIT,
                0 <= mag <= SETTING_MAX,
        ;
        lemma_tdiv_bound(dx * mag, d * k, mag as int);
    }
    tdiv_exec(dx * mag, d * k)
}

/// The repulsion impulse on `a` from `b`: along the axis from `b` to `a`,
/// `strength * (min_d - d) / min_d` per second, when the distance `d` is at
/// least one unit and below `min_d = r_a + r_b + repulsion_min_distance`.
pub open spec fn repulsion_pair(s: ForceSettings, a: Body, b: Body) -> (int, int) {
    let dx = b.pos.x - a.pos.x;
    let dy = b.pos.y - a.pos.y;
    let d = dist(dx, dy);
    let min_d = a.radius + b.radius + s.repulsion_min_distance;
    if d < FIXED || d >= min_d {
        (0, 0)
    } else {
        let mag = s.repulsion_strength * (min_d - d) / (min_d * STEPS_PER_SECOND);
        (-tdiv(dx * mag, d), -tdiv(dy * mag, d))
    }
}

/// Computes `repulsion_pair`.
pub fn repulsion_pair_exec(s: &ForceSettings, a: &Body, b: &Body) -> (r: (i128, i128))
    requires
        s.wf(),
        a.wf(),
        b.wf(),
    ensures
        r.0 == repulsion_pair(*s, *a, *b).0,
        r.1 == repulsion_pair(*s, *a, *b).1,
        -SETTING_MAX <= r.0 <= SETTING_MAX,
        -SETTING_MAX <= r.1 <= SETTING_MAX,
{
    let dx = b.pos.x as i128 - a.pos.x as i128;
    let dy = b.pos.y as i128 - a.pos.y as i128;
    let d = distance(dx, dy);
    let min_d = a.radius as i128 + b.radius as i128 + s.repulsion_min_distance as i128;
    if d < FIXED as i128 || d >= min_d {
        return (0, 0);
    }
    proof {
        assert(0 <= s.repulsion_strength * (min_d - d) <= s.repulsion_strength * min_d) by (nonlinear_arith)
            requires
                0 <= min_d - d <= min_d,
                0 <= s.repulsion_strength,
        ;
        assert(s.repulsion_strength * min_d <= SETTING_MAX * (2 * RADIUS_MAX + SETTING_MAX)) by (nonlinear_arith)
            requires
                0 <= min_d <= 2 * RADIUS_MAX + SETTING_MAX,
                0 <= s.repulsion_strength <= SETTING_MAX,
        ;
    }
    let num = s.repulsion_strength as i128 * (min_d - d);
    let mag = num / (min_d * STEPS_PER_SECOND as i128);
    proof {
        assert(mag <= s.repulsion_strength) by (nonlinear_arith)
            requires
                0 <= num <= s.repulsion_strength * min_d,
                min_d > 0,
                mag as int == num as int / (min_d as int * 12),
        ;
        assert(mag >= 0) by (nonlinear_arith)
            requires
                0 <= num,
                min_d > 0,
                mag as int == num as int / (min_d as int * 12),
        ;
    }
    let x = scaled_component(dx, mag, d, 1);
    let y = scaled_component(dy, mag, d, 1);
    (-x, -y)
}

/// The attraction impulse on `a` towards `b` of strength `strength`, applied
/// while `0 < d < range`: `strength / (d + 50 units)` per second.
pub open spec fn attraction_pair(strength: int, range: int, a: Body, b: Body) -> (int, int) {
    let dx = b.pos.x - a.pos.x;
    let dy = b.pos.y - a.pos.y;
    let d = dist(dx, dy);
    if d <= 0 || d >= range {
        (0, 0)
    } else {
        let mag = strength * FIXED / (d + CATEGORY_DISTANCE_OFFSET);
        (tdiv(dx * mag, d * STEPS_PER_SECOND), tdiv(dy * mag, d * STEPS_PER_SECOND))
    }
}

/// Computes `attraction_pair`.
pub fn attraction_pair_exec(strength: i64, range: i64, a: &Body, b: &Body) -> (r: (i128, i128))
    requires
        setting_ok(strength),
        a.wf(),
        b.wf(),
    ensures
        r.0 == attraction_pair(strength as int, range as int, *a, *b).0,
        r.1 == attraction_pair(strength as int, range as int, *a, *b).1,
        -SETTING_MAX <= r.0 <= SETTING_MAX,
        -SETTING_MAX <= r.1 <= SETTING_MAX,
{
    let dx = b.pos.x as i128 - a.pos.x as i128;
    let dy = b.pos.y as i128 - a.pos.y as i128;
    let d = distance(dx, dy);
    if d <= 0 || d >= range as i128 {
        return (0, 0);
    }
    let mag = (strength as i128 * FIXED as i128) / (d + CATEGORY_DISTANCE_OFFSET as i128);
    proof {
        assert(0 <= mag <= strength) by (nonlinear_arith)
            requires
                0 <= strength,
                d > 0,
                mag == (strength * 1000) / (d + 50_000),
        ;
    }
    let x = scaled_component(dx, mag, d, STEPS_PER_SECOND as i128);
    let y = scaled_component(dy, mag, d, STEPS_PER_SECOND as i128);
    (x, y)
}

/// The author attraction impulse on `a` towards the author body `au`: beyond
/// 50 units, `strength / (d + 100 units)` along the axis, minus
/// `damping * velocity`.
pub open spec fn author_pair(s: ForceSettings, a: Body, au: Body) -> (int, int) {
    let dx = au.pos.x - a.pos.x;
    let dy = au.pos.y - a.pos.y;
    let d = dist(dx, dy);
    if d < AUTHOR_MIN_DISTANCE {
        (0, 0)
    } else {
        let mag = s.author_attraction_strength * FIXED / (d + AUTHOR_DISTANCE_OFFSET);
        (
            tdiv(tdiv(dx * mag, d) * FIXED - s.author_attraction_damping * a.vel.x, FIXED * STEPS_PER_SECOND),
            tdiv(tdiv(dy * mag, d) * FIXED - s.author_attraction_damping * a.vel.y, FIXED * STEPS_PER_SECOND),
        )
    }
}

/// `tdiv(c * 1000 - damping * v, 12_000)`, the damped impulse of a force
/// component `c`.
fn damped_impulse(c: i128, damping: i64, v: i64) -> (r: i128)
    requires
        -SETTING_MAX <= c <= SETTING_MAX,
        setting_ok(damping),
        vel_ok(v),
    ensures
        r == tdiv(c * FIXED - damping * v, FIXED * STEPS_PER_SECOND),
        -TERM_LIMIT <= r <= TERM_LIMIT,
{
    proof {
        assert(-(SETTING_MAX * VEL_LIMIT) <= damping * v <= SETTING_MAX * VEL_LIMIT) by (nonlinear_arith)
            requires
                0 <= damping <= SETTING_MAX,
                -VEL_LIMIT <= v <= VEL_LIMIT,
        ;
    }
    let n = c * FIXED as i128 - damping as i128 * v as i128;
    let r = tdiv_exec(n, FIXED as i128 * STEPS_PER_SECOND as i128);
    r
}

/// Computes `author_pair`.
pub fn author_pair_exec(s: &ForceSettings, a: &Body, au: &Body) -> (r: (i128, i128))
    requires
        s.wf(),
        a.wf(),
        au.wf(),
    ensures
        r.0 == author_pair(*s, *a, *au).0,
        r.1 == author_pair(*s, *a, *au).1,
        -TERM_LIMIT <= r.0 <= TERM_LIMIT,
        -TERM_LIMIT <= r.1 <= TERM_LIMIT,
{
    let dx = au.pos.x as i128 - a.pos.x as i128;
    let dy = au.pos.y as i128 - a.pos.y as i128;
    let d = distance(dx, dy);
    if d < AUTHOR_MIN_DISTANCE as i128 {
        return (0, 0);
    }
    let mag = (s.author_attraction_strength as i128 * FIXED as i128) / (d + AUTHOR_DISTANCE_OFFSET as i128);
    proof {
        assert(0 <= mag <= s.author_attraction_strength) by (nonlinear_arith)
            requires
                0 <= s.author_attraction_strength,
                d > 0,
                mag == (s.author_attraction_strength * 1000) / (d + 100_000),
        ;
    }
    let cx = scaled_component(dx, mag, d, 1);
    let cy = scaled_component(dy, mag, d, 1);
    assert(d * 1 == d);
    (damped_impulse(cx, s.author_attraction_damping, a.vel.x), damped_impulse(cy, s.author_attraction_damping, a.vel.y))
}

/// The centering impulse on `a` towards the physics point `c`:
/// `center_strength * (c - pos) - center_damping * velocity` per second.
pub open spec fn center_pair(s: ForceSettings, a: Body, c: Vec2) -> (int, int) {
    (
        tdiv(s.center_strength * (c.x - a.pos.x) - s.center_damping * a.vel.x, FIXED * STEPS_PER_SECOND),
        tdiv(s.center_strength * (c.y - a.pos.y) - s.center_damping * a.vel.y, FIXED * STEPS_PER_SECOND),
    )
}

/// One axis of `center_pair`.
fn center_component(strength: i64, damping: i64, c: i64, p: i64, v: i64) -> (r: i128)
    requires
        setting_ok(strength),
        setting_ok(damping),
        coord_ok(c),
        coord_ok(p),
        vel_ok(v),
    ensures
        r == tdiv(strength * (c - p) - damping * v, FIXED * STEPS_PER_SECOND),
        -TERM_LIMIT <= r <= TERM_LIMIT,
{
    proof {
        assert(-(SETTING_MAX * 2 * COORD_LIMIT) <= strength * (c - p) <= SETTING_MAX * 2 * COORD_LIMIT) by (nonlinear_arith)
            requires
                0 <= strength <= SETTING_MAX,
                -2 * COORD_LIMIT <= c - p <= 2 * COORD_LIMIT,
        ;
        assert(-(SETTING_MAX * VEL_LIMIT) <= damping * v <= SETTING_MAX * VEL_LIMIT) by (nonlinear_arith)
            requires
                0 <= damping <= SETTING_MAX,
                -VEL_LIMIT <= v <= VEL_LIMIT,
        ;
    }
    let n = strength as i128 * (c as i128 - p as i128) - damping as i128 * v as i128;
    tdiv_exec(n, FIXED as i128 * STEPS_PER_SECOND as i128)
}

/// Computes `center_pair`.
pub fn center_pair_exec(s: &ForceSettings, a: &Body, c: &Vec2) -> (r: (i128, i128))
    requires
        s.wf(),
        a.wf(),
        coord_ok(c.x),
        coord_ok(c.y),
    ensures
        r.0 == center_pair(*s, *a, *c).0,
        r.1 == center_pair(*s, *a, *c).1,
        -TERM_LIMIT <= r.0 <= TERM_LIMIT,
        -TERM_LIMIT <= r.1 <= TERM_LIMIT,
{
    (
        center_component(s.center_strength, s.center_damping, c.x, a.pos.x, a.vel.x),
        center_component(s.center_strength, s.center_damping, c.y, a.pos.y, a.vel.y),
    )
}

/// A spring with rest length zero between the bodies at indices `a` and `b`.
#[derive(Clone, Copy, Debug, PartialEq, Eq, Structural)]
pub struct Joint {
    pub a: usize,
    pub b: usize,
    /// Stiffness, in thousandths.
    pub stiffness: i64,
    /// Damping, in thousandths.
    pub damping: i64,
}

impl Joint {
    pub open spec fn wf(&self) -> bool {
        &&& setting_ok(self.stiffness)
        &&& 0 <= self.damping <= 10 * SETTING_MAX
    }
}

/// The spring impulse on `pa` from a joint to `pb`:
/// `stiffness * (pb - pa) + damping * (vb - va)` per second.
pub open spec fn spring_pair(j: Joint, pa: Body, pb: Body) -> (int, int) {
    (
        tdiv(j.stiffness * (pb.pos.x - pa.pos.x) + j.damping * (pb.vel.x - pa.vel.x), FIXED * STEPS_PER_SECOND),
        tdiv(j.stiffness * (pb.pos.y - pa.pos.y) + j.damping * (pb.vel.y - pa.vel.y), FIXED * STEPS_PER_SECOND),
    )
}

/// One axis of `spring_pair`.
fn spring_component(k: i64, c: i64, pa: i64, pb: i64, va: i64, vb: i64) -> (r: i128)
    requires
        setting_ok(k),
        0 <= c <= 10 * SETTING_MAX,
        coord_ok(pa),
        coord_ok(pb),
        vel_ok(va),
        vel_ok(vb),
    ensures
        r == tdiv(k * (pb - pa) + c * (vb - va), FIXED * STEPS_PER_SECOND),
        -TERM_LIMIT <= r <= TERM_LIMIT,
{
    proof {
        assert(-(SETTING_MAX * 2 * COORD_LIMIT) <= k * (pb - pa) <= SETTING_MAX * 2 * COORD_LIMIT) by (nonlinear_arith)
            requires
                0 <= k <= SETTING_MAX,
                -2 * COORD_LIMIT <= pb - pa <= 2 * COORD_LIMIT,
        ;
        assert(-(10 * SETTING_MAX * 2 * VEL_LIMIT) <= c * (vb - va) <= 10 * SETTING_MAX * 2 * VEL_LIMIT) by (nonlinear_arith)
            requires
                0 <= c <= 10 * SETTING_MAX,
                -2 * VEL_LIMIT <= vb - va <= 2 * VEL_LIMIT,
        ;
    }
    let n = k as i128 * (pb as i128 - pa as i128) + c as i128 * (vb as i128 - va as i128);
    tdiv_exec(n, FIXED as i128 * STEPS_PER_SECOND as i128)
}

/// Computes `spring_pair`.
pub fn spring_pair_exec(j: &Joint, pa: &Body, pb: &Body) -> (r: (i128, i128))
    requires
        j.wf(),
        pa.wf(),
        pb.wf(),
    ensures
        r.0 == spring_pair(*j, *pa, *pb).0,
        r.1 == spring_pair(*j, *pa, *pb).1,
        -TERM_LIMIT <= r.0 <= TERM_LIMIT,
        -TERM_LIMIT <= r.1 <= TERM_LIMIT,
{
    (
        spring_component(j.stiffness, j.damping, pa.pos.x, pb.pos.x, pa.vel.x, pb.vel.x),
        spring_component(j.stiffness, j.damping, pa.pos.y, pb.pos.y, pa.vel.y, pb.vel.y),
    )
}

} // verus!
