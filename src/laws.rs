//! Properties of the layout engine that span several operations or every
//! input, stated over the same spec functions as the operations' contracts.

use vstd::prelude::*;
use crate::fixed::{clamp_spec, lemma_isqrt_is_int_sqrt, tdiv, VEL_LIMIT};
use crate::forces::{dist, repulsion_pair, Body, BodyKind, ForceSettings};
use crate::types::{NodeId, Position, Vec2};
use crate::viewport::{lemma_viewport_round_trip, Viewport};
use crate::world::{bodies_changed, integrate, repulsion_sum, PhysicsWorld};

verus! {

/// `tdiv` is odd: negating the dividend negates the quotient.
proof fn lemma_tdiv_neg(n: int, d: int)
    requires
        d > 0,
    ensures
        tdiv(-n, d) == -tdiv(n, d),
{
}

/// A quotient rounded towards zero keeps the dividend's sign.
proof fn lemma_tdiv_sign(n: int, d: int)
    requires
        d > 0,
    ensures
        n >= 0 ==> tdiv(n, d) >= 0,
        n <= 0 ==> tdiv(n, d) <= 0,
{
    if n >= 0 {
        assert(n / d >= 0) by (nonlinear_arith)
            requires
                n >= 0,
                d > 0,
        ;
    } else {
        assert((-n) / d >= 0) by (nonlinear_arith)
            requires
                -n >= 0,
                d > 0,
        ;
    }
}

/// The repulsion impulse on `a` has no component towards `b`.
proof fn lemma_component_away(dx: int, mag: int, d: int)
    requires
        mag >= 0,
        d > 0,
    ensures
        -tdiv(dx * mag, d) * dx <= 0,
{
    if dx >= 0 {
        assert(dx * mag >= 0) by (nonlinear_arith)
            requires
                dx >= 0,
                mag >= 0,
        ;
        lemma_tdiv_sign(dx * mag, d);
        assert(tdiv(dx * mag, d) * dx >= 0) by (nonlinear_arith)
            requires
                tdiv(dx * mag, d) >= 0,
                dx >= 0,
        ;
    } else {
        assert(dx * mag <= 0) by (nonlinear_arith)
            requires
                dx < 0,
                mag >= 0,
        ;
        lemma_tdiv_sign(dx * mag, d);
        assert(tdiv(dx * mag, d) * dx >= 0) by (nonlinear_arith)
            requires
                tdiv(dx * mag, d) <= 0,
                dx < 0,
        ;
    }
    let t = tdiv(dx * mag, d);
    assert(-t * dx == -(t * dx)) by (nonlinear_arith);
}

/// Repulsion between two nodes is equal and opposite, and pushes them apart:
/// in each axis the impulse on `a` points away from `b`, so the pair's
/// separation can only grow from it.
pub proof fn lemma_repulsion_pushes_apart(s: ForceSettings, a: Body, b: Body)
    requires
        s.wf(),
        a.wf(),
        b.wf(),
    ensures
        repulsion_pair(s, b, a) == (-repulsion_pair(s, a, b).0, -repulsion_pair(s, a, b).1),
        repulsion_pair(s, a, b).0 * (b.pos.x - a.pos.x) <= 0,
        repulsion_pair(s, a, b).1 * (b.pos.y - a.pos.y) <= 0,
{
    let dx = b.pos.x - a.pos.x;
    let dy = b.pos.y - a.pos.y;
    assert((-dx) * (-dx) + (-dy) * (-dy) == dx * dx + dy * dy) by (nonlinear_arith);
    assert(dist(-dx, -dy) == dist(dx, dy));
    let d = dist(dx, dy);
    let min_d = a.radius + b.radius + s.repulsion_min_distance;
    if !(d < 1000 || d >= min_d) {
        let mag = s.repulsion_strength * (min_d - d) / (min_d * 12);
        assert(mag >= 0) by (nonlinear_arith)
            requires
                s.repulsion_strength >= 0,
                min_d - d > 0,
                min_d > 0,
                mag == s.repulsion_strength * (min_d - d) / (min_d * 12),
        ;
        assert((-dx) * mag == -(dx * mag)) by (nonlinear_arith);
        assert((-dy) * mag == -(dy * mag)) by (nonlinear_arith);
        lemma_tdiv_neg(dx * mag, d);
        lemma_tdiv_neg(dy * mag, d);
        lemma_component_away(dx, mag, d);
        lemma_component_away(dy, mag, d);
        assert(repulsion_pair(s, a, b) == (-tdiv(dx * mag, d), -tdiv(dy * mag, d)));
    } else {
        assert(repulsion_pair(s, a, b) == (0int, 0int));
    }
}

/// A body whose velocity and impulse agree in sign along an axis keeps that
/// sign of velocity and moves that way (or not at all).
proof fn lemma_integrate_follows_impulse(b: Body, imp: (int, int))
    requires
        b.wf(),
    ensures
        b.vel.x >= 0 && imp.0 >= 0 ==> integrate(b, imp).pos.x >= b.pos.x && integrate(b, imp).vel.x >= 0,
        b.vel.x <= 0 && imp.0 <= 0 ==> integrate(b, imp).pos.x <= b.pos.x && integrate(b, imp).vel.x <= 0,
        b.vel.y >= 0 && imp.1 >= 0 ==> integrate(b, imp).pos.y >= b.pos.y && integrate(b, imp).vel.y >= 0,
        b.vel.y <= 0 && imp.1 <= 0 ==> integrate(b, imp).pos.y <= b.pos.y && integrate(b, imp).vel.y <= 0,
{
    let vx = clamp_spec(b.vel.x + imp.0, -VEL_LIMIT as int, VEL_LIMIT as int);
    let vy = clamp_spec(b.vel.y + imp.1, -VEL_LIMIT as int, VEL_LIMIT as int);
    let den = 12_000 + b.damping;
    assert(vx >= 0 ==> vx * 12_000 >= 0) by (nonlinear_arith);
    assert(vx <= 0 ==> vx * 12_000 <= 0) by (nonlinear_arith);
    assert(vy >= 0 ==> vy * 12_000 >= 0) by (nonlinear_arith);
    assert(vy <= 0 ==> vy * 12_000 <= 0) by (nonlinear_arith);
    lemma_tdiv_sign(vx * 12_000, den);
    lemma_tdiv_sign(vy * 12_000, den);
    let ax: int = if vx >= 0 { vx } else { -vx };
    let ay: int = if vy >= 0 { vy } else { -vy };
    assert(-(den * ax) <= vx * 12_000 <= den * ax) by (nonlinear_arith)
        requires
            ax == vx || ax == -vx,
            ax >= 0,
            den >= 12_000,
    ;
    assert(-(den * ay) <= vy * 12_000 <= den * ay) by (nonlinear_arith)
        requires
            ay == vy || ay == -vy,
            ay >= 0,
            den >= 12_000,
    ;
    crate::forces::lemma_tdiv_bound(vx * 12_000, den, ax);
    crate::forces::lemma_tdiv_bound(vy * 12_000, den, ay);
    lemma_tdiv_sign(tdiv(vx * 12_000, den), 12);
    lemma_tdiv_sign(tdiv(vy * 12_000, den), 12);
}

/// Along each axis the two bodies of a pair move apart or not at all: the
/// second body's velocity points away from the first and the first's away
/// from the second (both are zero when they are level in that axis).
pub open spec fn separating(w: PhysicsWorld) -> bool {
    let a = w.bodies@[0];
    let b = w.bodies@[1];
    &&& b.pos.x >= a.pos.x ==> a.vel.x <= 0 && b.vel.x >= 0
    &&& b.pos.x <= a.pos.x ==> a.vel.x >= 0 && b.vel.x <= 0
    &&& b.pos.y >= a.pos.y ==> a.vel.y <= 0 && b.vel.y >= 0
    &&& b.pos.y <= a.pos.y ==> a.vel.y >= 0 && b.vel.y <= 0
}

/// Two free nodes alone, with only repulsion in play.
pub open spec fn lone_repelling_pair(w: PhysicsWorld) -> bool {
    &&& w.wf()
    &&& w.bodies@.len() == 2
    &&& w.movable(0)
    &&& w.movable(1)
    &&& w.force_settings.center_strength == 0
    &&& w.force_settings.center_damping == 0
    &&& w.author is None
    &&& !w.force_settings.enable_category_clustering
    &&& w.joints@.len() == 0
}

/// One step of a lone repelling pair that is separating: it stays separating
/// and the gap in each axis does not shrink.
proof fn lemma_lone_pair_step(w: PhysicsWorld, vp: Viewport, next: PhysicsWorld)
    requires
        lone_repelling_pair(w),
        separating(w),
        w.stepped(vp, next),
    ensures
        lone_repelling_pair(next),
        separating(next),
        ({
            let a = w.bodies@[0].pos;
            let b = w.bodies@[1].pos;
            let a2 = next.bodies@[0].pos;
            let b2 = next.bodies@[1].pos;
            &&& b.x >= a.x ==> b2.x - a2.x >= b.x - a.x
            &&& b.x <= a.x ==> b2.x - a2.x <= b.x - a.x
            &&& b.y >= a.y ==> b2.y - a2.y >= b.y - a.y
            &&& b.y <= a.y ==> b2.y - a2.y <= b.y - a.y
        }),
{
    let s = w.force_settings;
    let b0 = w.bodies@[0];
    let b1 = w.bodies@[1];
    lemma_isqrt_is_int_sqrt(0, 0);
    assert(dist(0, 0) == 0);
    assert(repulsion_pair(s, b0, b0) == (0int, 0int));
    assert(repulsion_pair(s, b1, b1) == (0int, 0int));
    assert(w.repulsion_force(0) == repulsion_pair(s, b0, b1)) by {
        reveal_with_fuel(repulsion_sum, 3);
    }
    assert(w.repulsion_force(1) == repulsion_pair(s, b1, b0)) by {
        reveal_with_fuel(repulsion_sum, 3);
    }
    assert(w.center_force(vp, 0) == (0int, 0int));
    assert(w.center_force(vp, 1) == (0int, 0int));
    assert(w.total_impulse(vp, 0) == repulsion_pair(s, b0, b1));
    assert(w.total_impulse(vp, 1) == repulsion_pair(s, b1, b0));
    lemma_repulsion_pushes_apart(s, b0, b1);
    let r = repulsion_pair(s, b0, b1);
    let dx = b1.pos.x - b0.pos.x;
    let dy = b1.pos.y - b0.pos.y;
    assert(dx > 0 ==> r.0 <= 0) by (nonlinear_arith)
        requires
            r.0 * dx <= 0,
    ;
    assert(dx < 0 ==> r.0 >= 0) by (nonlinear_arith)
        requires
            r.0 * dx <= 0,
    ;
    assert(dy > 0 ==> r.1 <= 0) by (nonlinear_arith)
        requires
            r.1 * dy <= 0,
    ;
    assert(dy < 0 ==> r.1 >= 0) by (nonlinear_arith)
        requires
            r.1 * dy <= 0,
    ;
    if dx == 0 {
        assert(r.0 == 0);
    }
    if dy == 0 {
        assert(r.1 == 0);
    }
    lemma_integrate_follows_impulse(b0, r);
    lemma_integrate_follows_impulse(b1, (-r.0, -r.1));
    assert(next.bodies@[0] == integrate(b0, r));
    assert(next.bodies@[1] == integrate(b1, (-r.0, -r.1)));
}

/// Two nodes alone, closer than their minimum distance or not, with only
/// repulsion in play and starting at rest (or already moving apart): however
/// many steps run, the gap between them never shrinks in either axis.
pub proof fn lemma_lone_pair_never_closes(states: Seq<PhysicsWorld>, vp: Viewport)
    requires
        states.len() >= 1,
        lone_repelling_pair(states[0]),
        separating(states[0]),
        forall|q: int| 0 <= q < states.len() - 1 ==> #[trigger] states[q].stepped(vp, states[q + 1]),
    ensures
        forall|t: int| 0 <= t < states.len() ==> {
            let a = states[0].bodies@[0].pos;
            let b = states[0].bodies@[1].pos;
            let a2 = (#[trigger] states[t]).bodies@[0].pos;
            let b2 = states[t].bodies@[1].pos;
            &&& b.x >= a.x ==> b2.x - a2.x >= b.x - a.x
            &&& b.x <= a.x ==> b2.x - a2.x <= b.x - a.x
            &&& b.y >= a.y ==> b2.y - a2.y >= b.y - a.y
            &&& b.y <= a.y ==> b2.y - a2.y <= b.y - a.y
        },
{
    assert forall|t: int| 0 <= t < states.len() implies {
        let a = states[0].bodies@[0].pos;
        let b = states[0].bodies@[1].pos;
        let a2 = (#[trigger] states[t]).bodies@[0].pos;
        let b2 = states[t].bodies@[1].pos;
        &&& b.x >= a.x ==> b2.x - a2.x >= b.x - a.x
        &&& b.x <= a.x ==> b2.x - a2.x <= b.x - a.x
        &&& b.y >= a.y ==> b2.y - a2.y >= b.y - a.y
        &&& b.y <= a.y ==> b2.y - a2.y <= b.y - a.y
    } by {
        lemma_lone_pair_upto(states, vp, t);
    }
}

proof fn lemma_lone_pair_upto(states: Seq<PhysicsWorld>, vp: Viewport, t: int)
    requires
        0 <= t < states.len(),
        lone_repelling_pair(states[0]),
        separating(states[0]),
        forall|q: int| 0 <= q < states.len() - 1 ==> #[trigger] states[q].stepped(vp, states[q + 1]),
    ensures
        lone_repelling_pair(states[t]),
        separating(states[t]),
        ({
            let a = states[0].bodies@[0].pos;
            let b = states[0].bodies@[1].pos;
            let a2 = states[t].bodies@[0].pos;
            let b2 = states[t].bodies@[1].pos;
            &&& b.x >= a.x ==> b2.x - a2.x >= b.x - a.x
            &&& b.x <= a.x ==> b2.x - a2.x <= b.x - a.x
            &&& b.y >= a.y ==> b2.y - a2.y >= b.y - a.y
            &&& b.y <= a.y ==> b2.y - a2.y <= b.y - a.y
        }),
    decreases t,
{
    if t > 0 {
        lemma_lone_pair_upto(states, vp, t - 1);
        assert(states[t - 1].stepped(vp, states[(t - 1) + 1]));
        assert((t - 1) + 1 == t);
        lemma_lone_pair_step(states[t - 1], vp, states[t]);
    }
}

/// A node made kinematic and then placed at screen point `p` shows exactly
/// at `p` in the registry after the next step, whatever the settings: the
/// step leaves its body where it was put.
pub proof fn lemma_kinematic_node_shown_where_placed(
    w0: PhysicsWorld,
    w1: PhysicsWorld,
    w2: PhysicsWorld,
    w3: PhysicsWorld,
    id: NodeId,
    p: Position,
    vp: Viewport,
)
    requires
        w0.wf(),
        vp.wf(),
        bodies_changed(w0.bodies@, w1.bodies@, id, |b: Body| Body { kind: BodyKind::Kinematic, ..b }),
        bodies_changed(w1.bodies@, w2.bodies@, id, |b: Body| Body {
            pos: vp.screen_to_physics_spec(p),
            vel: Vec2 { x: 0, y: 0 },
            ..b
        }),
        w2.stepped(vp, w3),
    ensures
        forall|i: int| 0 <= i < w0.bodies@.len() && w0.bodies@[i].id == id ==> {
            &&& #[trigger] w3.registry.nodes@[i].pos == p
            &&& w3.bodies@[i] == w2.bodies@[i]
        },
{
    assert forall|i: int| 0 <= i < w0.bodies@.len() && w0.bodies@[i].id == id implies {
        &&& #[trigger] w3.registry.nodes@[i].pos == p
        &&& w3.bodies@[i] == w2.bodies@[i]
    } by {
        assert(w1.bodies@[i].id == id);
        assert(w2.bodies@[i].kind == BodyKind::Kinematic);
        assert(!w2.movable(i));
        lemma_viewport_round_trip(vp, p);
    }
}

/// Releasing a dragged node changes only its kind: it keeps the position and
/// velocity it had while dragged, so no step can pull it back to where it was
/// before the drag other than through the forces.
pub proof fn lemma_release_keeps_position(w0: PhysicsWorld, w1: PhysicsWorld, id: NodeId)
    requires
        bodies_changed(w0.bodies@, w1.bodies@, id, |b: Body| Body { kind: BodyKind::Dynamic, ..b }),
    ensures
        forall|i: int| 0 <= i < w0.bodies@.len() && w0.bodies@[i].id == id ==> {
            &&& #[trigger] w1.bodies@[i].pos == w0.bodies@[i].pos
            &&& w1.bodies@[i].vel == w0.bodies@[i].vel
            &&& w1.bodies@[i].kind == BodyKind::Dynamic
        },
{
}

/// With category clustering off, clustering gives no body any impulse, in
/// this step and in the next (a step keeps the settings).
pub proof fn lemma_clustering_off_adds_nothing(w0: PhysicsWorld, w1: PhysicsWorld, vp: Viewport, i: int)
    requires
        w0.wf(),
        !w0.force_settings.enable_category_clustering,
        w0.stepped(vp, w1),
    ensures
        w0.category_force(i) == (0int, 0int),
        w1.category_force(i) == (0int, 0int),
        !w1.force_settings.enable_category_clustering,
{
}

/// The author's body and registry position after `t` steps of a run.
proof fn lemma_pinned_author_upto(states: Seq<PhysicsWorld>, vp: Viewport, k: usize, t: int)
    requires
        0 <= t < states.len(),
        vp.wf(),
        states[0].wf(),
        states[0].force_settings.author_fixed_position,
        states[0].author == Some(k),
        states[0].bodies@[k as int].pos == vp.screen_to_physics_spec(states[0].registry.nodes@[k as int].pos),
        forall|q: int| 0 <= q < states.len() - 1 ==> #[trigger] states[q].stepped(vp, states[q + 1]),
    ensures
        states[t].wf(),
        states[t].author == Some(k),
        states[t].force_settings == states[0].force_settings,
        states[t].bodies@[k as int] == states[0].bodies@[k as int],
        states[t].registry.nodes@[k as int].pos == states[0].registry.nodes@[k as int].pos,
    decreases t,
{
    if t > 0 {
        lemma_pinned_author_upto(states, vp, k, t - 1);
        let w = states[t - 1];
        assert(states[t - 1].stepped(vp, states[(t - 1) + 1]));
        assert((t - 1) + 1 == t);
        assert(w.bodies@[k as int].is_author);
        assert(!w.movable(k as int));
        lemma_viewport_round_trip(vp, states[0].registry.nodes@[k as int].pos);
    }
}

/// With the author pinned, no number of steps moves the author node: its body
/// stays as it was, and its registry position, the screen image of that body
/// (as `new` sets it up under the same viewport), never changes.
pub proof fn lemma_pinned_author_never_moves(states: Seq<PhysicsWorld>, vp: Viewport)
    requires
        states.len() >= 1,
        vp.wf(),
        states[0].wf(),
        states[0].force_settings.author_fixed_position,
        states[0].author is Some,
        states[0].bodies@[states[0].author->0 as int].pos == vp.screen_to_physics_spec(
            states[0].registry.nodes@[states[0].author->0 as int].pos,
        ),
        forall|q: int| 0 <= q < states.len() - 1 ==> #[trigger] states[q].stepped(vp, states[q + 1]),
    ensures
        forall|t: int| 0 <= t < states.len() ==> {
            let k = states[0].author->0 as int;
            &&& (#[trigger] states[t]).bodies@[k] == states[0].bodies@[k]
            &&& states[t].registry.nodes@[k].pos == states[0].registry.nodes@[k].pos
        },
{
    let k = states[0].author->0;
    assert forall|t: int| 0 <= t < states.len() implies {
        &&& (#[trigger] states[t]).bodies@[k as int] == states[0].bodies@[k as int]
        &&& states[t].registry.nodes@[k as int].pos == states[0].registry.nodes@[k as int].pos
    } by {
        lemma_pinned_author_upto(states, vp, k, t);
    }
}

} // verus!
