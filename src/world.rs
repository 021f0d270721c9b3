//! The simulation stepper: one body per registered node and one spring per
//! resolvable edge. Each `step` computes every force field from the state at
//! the start of the tick, integrates the movable bodies and writes the new
//! positions back into the registry through the viewport.

use vstd::prelude::*;
use crate::fixed::{clamp_spec, clamp_to, tdiv, tdiv_exec, COORD_LIMIT, FIXED, VEL_LIMIT};
use crate::forces::{
    attraction_pair, attraction_pair_exec, author_pair, author_pair_exec, center_pair, center_pair_exec,
    repulsion_pair, repulsion_pair_exec, spring_pair, spring_pair_exec, Body, BodyKind, ForceSettings, Joint,
    SETTING_MAX, STEPS_PER_SECOND, TERM_LIMIT,
};
use crate::registry::{contains_id, first_author_index, Node, NodeRegistry};
use crate::types::{ContainerBound, NodeId, Position, Vec2};
use crate::viewport::Viewport;

verus! {

/// Most nodes a simulation holds.
pub const MAX_NODES: usize = 1_000_000;

/// Most springs a simulation holds.
pub const MAX_JOINTS: usize = 1_000_000;

/// Bound on what one force field adds to one body's impulse in a tick.
pub const FIELD_LIMIT: i128 = 0x2000000000000000000000000000000;

/// The simulation session: it owns the registry, the bodies (body `i`
/// belongs to registry node `i`), the springs and the settings.
#[derive(Debug)]
pub struct PhysicsWorld {
    pub registry: NodeRegistry,
    pub bodies: Vec<Body>,
    pub joints: Vec<Joint>,
    /// Index of the author body, if there is one.
    pub author: Option<usize>,
    pub force_settings: ForceSettings,
    pub container_bound: ContainerBound,
}

pub open spec fn add2(p: (int, int), q: (int, int)) -> (int, int) {
    (p.0 + q.0, p.1 + q.1)
}

pub open spec fn view2(p: (i128, i128)) -> (int, int) {
    (p.0 as int, p.1 as int)
}

pub open spec fn bounded2(p: (i128, i128), lim: int) -> bool {
    -lim <= p.0 <= lim && -lim <= p.1 <= lim
}

/// Repulsion on body `i` from the first `n` bodies.
pub open spec fn repulsion_sum(s: ForceSettings, b: Seq<Body>, i: int, n: int) -> (int, int)
    decreases n,
{
    if n <= 0 {
        (0, 0)
    } else {
        add2(repulsion_sum(s, b, i, n - 1), repulsion_pair(s, b[i], b[n - 1]))
    }
}

/// Both nodes carry the same category.
pub open spec fn same_category(x: Node, y: Node) -> bool {
    x.category is Some && y.category is Some && x.category->0@ == y.category->0@
}

/// Category attraction on body `i` from body `j`: only between two
/// non-author nodes of the same category.
pub open spec fn category_pair(s: ForceSettings, nodes: Seq<Node>, b: Seq<Body>, i: int, j: int) -> (int, int) {
    if same_category(nodes[i], nodes[j]) && !b[i].is_author && !b[j].is_author {
        attraction_pair(s.category_attraction_strength as int, s.category_attraction_range as int, b[i], b[j])
    } else {
        (0, 0)
    }
}

/// Category attraction on body `i` from the first `n` bodies.
pub open spec fn category_sum(s: ForceSettings, nodes: Seq<Node>, b: Seq<Body>, i: int, n: int) -> (int, int)
    decreases n,
{
    if n <= 0 {
        (0, 0)
    } else {
        add2(category_sum(s, nodes, b, i, n - 1), category_pair(s, nodes, b, i, n - 1))
    }
}

/// What spring `j` does to body `i` (nothing unless `i` is an endpoint).
pub open spec fn spring_on(j: Joint, b: Seq<Body>, i: int) -> (int, int) {
    let fa = if j.a == i {
        spring_pair(j, b[j.a as int], b[j.b as int])
    } else {
        (0, 0)
    };
    let fb = if j.b == i {
        spring_pair(j, b[j.b as int], b[j.a as int])
    } else {
        (0, 0)
    };
    add2(fa, fb)
}

/// What the first `m` springs do to body `i`.
pub open spec fn spring_sum(joints: Seq<Joint>, b: Seq<Body>, i: int, m: int) -> (int, int)
    decreases m,
{
    if m <= 0 {
        (0, 0)
    } else {
        add2(spring_sum(joints, b, i, m - 1), spring_on(joints[m - 1], b, i))
    }
}

/// One tick of motion for a body that received impulse `imp`: the velocity
/// takes the impulse (kept within `VEL_LIMIT`), is damped by
/// `1 / (1 + dt * damping)`, and moves the body by `velocity * dt` (kept
/// within `COORD_LIMIT`).
pub open spec fn integrate(b: Body, imp: (int, int)) -> Body {
    let vx = clamp_spec(b.vel.x + imp.0, -VEL_LIMIT as int, VEL_LIMIT as int);
    let vy = clamp_spec(b.vel.y + imp.1, -VEL_LIMIT as int, VEL_LIMIT as int);
    let dvx = tdiv(vx * (FIXED * STEPS_PER_SECOND), FIXED * STEPS_PER_SECOND + b.damping);
    let dvy = tdiv(vy * (FIXED * STEPS_PER_SECOND), FIXED * STEPS_PER_SECOND + b.damping);
    let px = clamp_spec(b.pos.x + tdiv(dvx, STEPS_PER_SECOND as int), -COORD_LIMIT as int, COORD_LIMIT as int);
    let py = clamp_spec(b.pos.y + tdiv(dvy, STEPS_PER_SECOND as int), -COORD_LIMIT as int, COORD_LIMIT as int);
    Body { pos: Vec2 { x: px as i64, y: py as i64 }, vel: Vec2 { x: dvx as i64, y: dvy as i64 }, ..b }
}

impl PhysicsWorld {
    pub open spec fn wf(&self) -> bool {
        let n = self.bodies@.len();
        &&& self.registry.wf()
        &&& self.force_settings.wf()
        &&& n == self.registry.nodes@.len()
        &&& n <= MAX_NODES
        &&& self.joints@.len() <= MAX_JOINTS
        &&& self.registry.edges@.len() <= MAX_JOINTS
        &&& forall|i: int| 0 <= i < n ==> (#[trigger] self.bodies@[i]).wf()
        &&& forall|i: int| 0 <= i < n ==> (#[trigger] self.bodies@[i]).id == self.registry.nodes@[i].id
        &&& forall|i: int| 0 <= i < n ==> (#[trigger] self.bodies@[i]).is_author == (self.author == Some(i as usize))
        &&& match self.author {
            Some(k) => k < n && first_author_index(self.registry.nodes@, n as int) == Some(k as int),
            None => first_author_index(self.registry.nodes@, n as int) is None,
        }
        &&& forall|k: int| 0 <= k < self.joints@.len() ==> {
            let j = #[trigger] self.joints@[k];
            j.wf() && j.a < n && j.b < n
        }
    }

    /// Whether body `i` moves in a step: it is dynamic, and it is not the
    /// author while the author is pinned.
    pub open spec fn movable(&self, i: int) -> bool {
        self.bodies@[i].kind == BodyKind::Dynamic && !(self.bodies@[i].is_author && self.force_settings.author_fixed_position)
    }

    /// The center of the container, in physics space.
    pub open spec fn center_point(&self, vp: Viewport) -> Vec2 {
        vp.screen_to_physics_spec(self.container_bound.center_spec())
    }

    pub open spec fn center_force(&self, vp: Viewport, i: int) -> (int, int) {
        center_pair(self.force_settings, self.bodies@[i], self.center_point(vp))
    }

    pub open spec fn repulsion_force(&self, i: int) -> (int, int) {
        repulsion_sum(self.force_settings, self.bodies@, i, self.bodies@.len() as int)
    }

    pub open spec fn author_force(&self, i: int) -> (int, int) {
        match self.author {
            Some(k) => if k != i {
                author_pair(self.force_settings, self.bodies@[i], self.bodies@[k as int])
            } else {
                (0, 0)
            },
            None => (0, 0),
        }
    }

    pub open spec fn category_force(&self, i: int) -> (int, int) {
        if self.force_settings.enable_category_clustering {
            category_sum(self.force_settings, self.registry.nodes@, self.bodies@, i, self.bodies@.len() as int)
        } else {
            (0, 0)
        }
    }

    pub open spec fn spring_force(&self, i: int) -> (int, int) {
        spring_sum(self.joints@, self.bodies@, i, self.joints@.len() as int)
    }

    /// `next` is this world one step later under viewport `vp`: movable
    /// bodies are integrated under their total impulse, the others stay, and
    /// the registry shows every body's new position.
    pub open spec fn stepped(&self, vp: Viewport, next: PhysicsWorld) -> bool {
        &&& next.wf()
        &&& next.joints == self.joints
        &&& next.author == self.author
        &&& next.force_settings == self.force_settings
        &&& next.container_bound == self.container_bound
        &&& next.registry.edges == self.registry.edges
        &&& next.registry.show_connection_lines == self.registry.show_connection_lines
        &&& next.bodies@.len() == self.bodies@.len()
        &&& forall|i: int| 0 <= i < self.bodies@.len() ==> #[trigger] next.bodies@[i] == if self.movable(i) {
            integrate(self.bodies@[i], self.total_impulse(vp, i))
        } else {
            self.bodies@[i]
        }
        &&& forall|i: int| 0 <= i < self.bodies@.len() ==> #[trigger] next.registry.nodes@[i] == (Node {
            pos: vp.physics_to_screen_spec(next.bodies@[i].pos),
            ..self.registry.nodes@[i]
        })
    }

    /// The impulse body `i` receives in one tick, from every field.
    pub open spec fn total_impulse(&self, vp: Viewport, i: int) -> (int, int) {
        add2(
            add2(add2(add2(self.center_force(vp, i), self.repulsion_force(i)), self.author_force(i)), self.category_force(i)),
            self.spring_force(i),
        )
    }
}

/// The accumulator has one entry per body, each within `lim`.
pub open spec fn acc_ok(acc: Seq<(i128, i128)>, n: int, lim: int) -> bool {
    acc.len() == n && forall|i: int| 0 <= i < n ==> bounded2(#[trigger] acc[i], lim)
}

/// An impulse within `FIELD_LIMIT`.
pub open spec fn field_ok(p: (int, int)) -> bool {
    -FIELD_LIMIT <= p.0 <= FIELD_LIMIT && -FIELD_LIMIT <= p.1 <= FIELD_LIMIT
}

/// The force fields that act on bodies in a tick.
#[derive(Clone, Copy, Debug, PartialEq, Eq, Structural)]
pub enum ForceField {
    Center,
    Repulsion,
    AuthorAttraction,
    CategoryClustering,
    Springs,
}

impl PhysicsWorld {
    /// The impulse field `f` gives body `i`.
    pub open spec fn field_force(&self, vp: Viewport, f: ForceField, i: int) -> (int, int) {
        match f {
            ForceField::Center => self.center_force(vp, i),
            ForceField::Repulsion => self.repulsion_force(i),
            ForceField::AuthorAttraction => self.author_force(i),
            ForceField::CategoryClustering => self.category_force(i),
            ForceField::Springs => self.spring_force(i),
        }
    }

    /// Repulsion on body `i` from every body.
    fn repulsion_on(&self, i: usize) -> (r: (i128, i128))
        requires
            self.wf(),
            i < self.bodies@.len(),
        ensures
            view2(r) == self.repulsion_force(i as int),
            bounded2(r, MAX_NODES * SETTING_MAX),
    {
        let n = self.bodies.len();
        let mut sx: i128 = 0;
        let mut sy: i128 = 0;
        let mut j: usize = 0;
        while j < n
            invariant
                self.wf(),
                n == self.bodies@.len(),
                i < n,
                j <= n,
                (sx as int, sy as int) == repulsion_sum(self.force_settings, self.bodies@, i as int, j as int),
                -(j * SETTING_MAX) <= sx <= j * SETTING_MAX,
                -(j * SETTING_MAX) <= sy <= j * SETTING_MAX,
            decreases n - j,
        {
            let f = repulsion_pair_exec(&self.force_settings, &self.bodies[i], &self.bodies[j]);
            sx = sx + f.0;
            sy = sy + f.1;
            j = j + 1;
        }
        (sx, sy)
    }

    /// Category attraction on body `i` from body `j`.
    fn category_pair_exec(&self, i: usize, j: usize) -> (r: (i128, i128))
        requires
            self.wf(),
            i < self.bodies@.len(),
            j < self.bodies@.len(),
        ensures
            view2(r) == category_pair(self.force_settings, self.registry.nodes@, self.bodies@, i as int, j as int),
            bounded2(r, SETTING_MAX as int),
    {
        let same = match (&self.registry.nodes[i].category, &self.registry.nodes[j].category) {
            (Some(x), Some(y)) => *x == *y,
            _ => false,
        };
        if same && !self.bodies[i].is_author && !self.bodies[j].is_author {
            attraction_pair_exec(
                self.force_settings.category_attraction_strength,
                self.force_settings.category_attraction_range,
                &self.bodies[i],
                &self.bodies[j],
            )
        } else {
            (0, 0)
        }
    }

    /// Category attraction on body `i` from every body.
    fn category_on(&self, i: usize) -> (r: (i128, i128))
        requires
            self.wf(),
            i < self.bodies@.len(),
        ensures
            view2(r) == self.category_force(i as int),
            bounded2(r, MAX_NODES * SETTING_MAX),
    {
        if !self.force_settings.enable_category_clustering {
            return (0, 0);
        }
        let n = self.bodies.len();
        let mut sx: i128 = 0;
        let mut sy: i128 = 0;
        let mut j: usize = 0;
        while j < n
            invariant
                self.wf(),
                n == self.bodies@.len(),
                i < n,
                j <= n,
                (sx as int, sy as int) == category_sum(self.force_settings, self.registry.nodes@, self.bodies@, i as int, j as int),
                -(j * SETTING_MAX) <= sx <= j * SETTING_MAX,
                -(j * SETTING_MAX) <= sy <= j * SETTING_MAX,
            decreases n - j,
        {
            let f = self.category_pair_exec(i, j);
            sx = sx + f.0;
            sy = sy + f.1;
            j = j + 1;
        }
        (sx, sy)
    }

    /// Author attraction on body `i`.
    fn author_on(&self, i: usize) -> (r: (i128, i128))
        requires
            self.wf(),
            i < self.bodies@.len(),
        ensures
            view2(r) == self.author_force(i as int),
            bounded2(r, TERM_LIMIT as int),
    {
        match self.author {
            Some(k) => if k != i {
                author_pair_exec(&self.force_settings, &self.bodies[i], &self.bodies[k])
            } else {
                (0, 0)
            },
            None => (0, 0),
        }
    }

    /// What every spring does to body `i`.
    fn springs_on(&self, i: usize) -> (r: (i128, i128))
        requires
            self.wf(),
            i < self.bodies@.len(),
        ensures
            view2(r) == self.spring_force(i as int),
            bounded2(r, 2 * MAX_JOINTS * TERM_LIMIT),
    {
        let m = self.joints.len();
        let mut sx: i128 = 0;
        let mut sy: i128 = 0;
        let mut k: usize = 0;
        while k < m
            invariant
                self.wf(),
                m == self.joints@.len(),
                i < self.bodies@.len(),
                k <= m,
                (sx as int, sy as int) == spring_sum(self.joints@, self.bodies@, i as int, k as int),
                -(2 * k * TERM_LIMIT) <= sx <= 2 * k * TERM_LIMIT,
                -(2 * k * TERM_LIMIT) <= sy <= 2 * k * TERM_LIMIT,
            decreases m - k,
        {
            let j = self.joints[k];
            assert(j.wf() && j.a < self.bodies@.len() && j.b < self.bodies@.len()) by {
                assert(j == self.joints@[k as int]);
            }
            if j.a == i {
                let f = spring_pair_exec(&j, &self.bodies[j.a], &self.bodies[j.b]);
                sx = sx + f.0;
                sy = sy + f.1;
            }
            if j.b == i {
                let f = spring_pair_exec(&j, &self.bodies[j.b], &self.bodies[j.a]);
                sx = sx + f.0;
                sy = sy + f.1;
            }
            k = k + 1;
        }
        (sx, sy)
    }

    /// The impulse field `f` gives body `i`; `c` is the container center in
    /// physics space.
    fn field_on(&self, vp: &Viewport, c: &Vec2, f: ForceField, i: usize) -> (r: (i128, i128))
        requires
            self.wf(),
            vp.wf(),
            *c == self.center_point(*vp),
            crate::forces::coord_ok(c.x) && crate::forces::coord_ok(c.y),
            i < self.bodies@.len(),
        ensures
            view2(r) == self.field_force(*vp, f, i as int),
            field_ok(view2(r)),
    {
        match f {
            ForceField::Center => center_pair_exec(&self.force_settings, &self.bodies[i], c),
            ForceField::Repulsion => self.repulsion_on(i),
            ForceField::AuthorAttraction => self.author_on(i),
            ForceField::CategoryClustering => self.category_on(i),
            ForceField::Springs => self.springs_on(i),
        }
    }

    /// Adds to `acc` the impulse that field `f` gives each body, computed
    /// from the current state.
    fn add_field(&self, vp: &Viewport, f: ForceField, acc: &mut Vec<(i128, i128)>)
        requires
            self.wf(),
            vp.wf(),
            acc_ok(old(acc)@, self.bodies@.len() as int, 4 * FIELD_LIMIT),
        ensures
            final(acc)@.len() == old(acc)@.len(),
            forall|i: int| 0 <= i < old(acc)@.len() ==> view2(#[trigger] final(acc)@[i]) == add2(view2(old(acc)@[i]), self.field_force(*vp, f, i)),
            forall|i: int| 0 <= i < old(acc)@.len() ==> field_ok(#[trigger] self.field_force(*vp, f, i)),
    {
        let ghost acc0 = acc@;
        let c = vp.screen_to_physics(&self.container_bound.center());
        let n = self.bodies.len();
        let mut i: usize = 0;
        while i < n
            invariant
                self.wf(),
                vp.wf(),
                n == self.bodies@.len(),
                c == self.center_point(*vp),
                crate::forces::coord_ok(c.x) && crate::forces::coord_ok(c.y),
                acc_ok(acc0, n as int, 4 * FIELD_LIMIT),
                acc@.len() == n,
                forall|k: int| 0 <= k < i ==> view2(#[trigger] acc@[k]) == add2(view2(acc0[k]), self.field_force(*vp, f, k)),
                forall|k: int| 0 <= k < i ==> field_ok(#[trigger] self.field_force(*vp, f, k)),
                forall|k: int| i <= k < n ==> #[trigger] acc@[k] == acc0[k],
            decreases n - i,
        {
            let d = self.field_on(vp, &c, f, i);
            let cur = acc[i];
            assert(bounded2(acc0[i as int], 4 * FIELD_LIMIT));
            acc.set(i, (cur.0 + d.0, cur.1 + d.1));
            i = i + 1;
        }
    }
}

/// Impulse within five fields' worth.
pub open spec fn impulse_ok(p: (i128, i128)) -> bool {
    bounded2(p, 5 * FIELD_LIMIT)
}

/// One tick of motion for body `b` under impulse `imp`.
pub fn integrate_exec(b: &Body, imp: (i128, i128)) -> (r: Body)
    requires
        b.wf(),
        impulse_ok(imp),
    ensures
        r == integrate(*b, view2(imp)),
        r.wf(),
{
    let vx = clamp_to(b.vel.x as i128 + imp.0, -VEL_LIMIT, VEL_LIMIT);
    let vy = clamp_to(b.vel.y as i128 + imp.1, -VEL_LIMIT, VEL_LIMIT);
    let den = FIXED as i128 * STEPS_PER_SECOND as i128 + b.damping as i128;
    proof {
        let ax: int = if vx >= 0 { vx as int } else { -vx };
        let ay: int = if vy >= 0 { vy as int } else { -vy };
        assert(-(den * ax) <= vx * 12_000 <= den * ax) by (nonlinear_arith)
            requires
                ax == vx || ax == -vx,
                ax >= 0,
                den >= 12_000,
        ;
        assert(-(den * ay) <= vy * 12_000 <= den * ay) by (nonlinear_arith)
            requires
                ay == vy || ay == -vy,
                ay >= 0,
                den >= 12_000,
        ;
        assert(-(VEL_LIMIT * 12_000) <= vx * 12_000 <= VEL_LIMIT * 12_000) by (nonlinear_arith)
            requires
                -VEL_LIMIT <= vx <= VEL_LIMIT,
        ;
        assert(-(VEL_LIMIT * 12_000) <= vy * 12_000 <= VEL_LIMIT * 12_000) by (nonlinear_arith)
            requires
                -VEL_LIMIT <= vy <= VEL_LIMIT,
        ;
        crate::forces::lemma_tdiv_bound(vx * 12_000, den as int, ax);
        crate::forces::lemma_tdiv_bound(vy * 12_000, den as int, ay);
    }
    let dvx = tdiv_exec(vx as i128 * (FIXED as i128 * STEPS_PER_SECOND as i128), den);
    let dvy = tdiv_exec(vy as i128 * (FIXED as i128 * STEPS_PER_SECOND as i128), den);
    let sx = tdiv_exec(dvx, STEPS_PER_SECOND as i128);
    let sy = tdiv_exec(dvy, STEPS_PER_SECOND as i128);
    let px = clamp_to(b.pos.x as i128 + sx, -COORD_LIMIT, COORD_LIMIT);
    let py = clamp_to(b.pos.y as i128 + sy, -COORD_LIMIT, COORD_LIMIT);
    Body { pos: Vec2 { x: px, y: py }, vel: Vec2 { x: dvx as i64, y: dvy as i64 }, ..*b }
}

impl PhysicsWorld {
    /// Moves every movable body by one tick under its impulse in `acc`.
    fn integrate_bodies(&mut self, acc: &Vec<(i128, i128)>)
        requires
            old(self).wf(),
            acc@.len() == old(self).bodies@.len(),
            forall|i: int| 0 <= i < acc@.len() ==> impulse_ok(#[trigger] acc@[i]),
        ensures
            final(self).wf(),
            final(self).registry == old(self).registry,
            final(self).joints == old(self).joints,
            final(self).author == old(self).author,
            final(self).force_settings == old(self).force_settings,
            final(self).container_bound == old(self).container_bound,
            final(self).bodies@.len() == old(self).bodies@.len(),
            forall|i: int| 0 <= i < old(self).bodies@.len() ==> #[trigger] final(self).bodies@[i] == if old(self).movable(i) {
                integrate(old(self).bodies@[i], view2(acc@[i]))
            } else {
                old(self).bodies@[i]
            },
    {
        let ghost b0 = self.bodies@;
        let n = self.bodies.len();
        let mut i: usize = 0;
        while i < n
            invariant
                n == self.bodies@.len(),
                n == b0.len(),
                acc@.len() == n,
                forall|k: int| 0 <= k < n ==> impulse_ok(#[trigger] acc@[k]),
                self.registry == old(self).registry,
                self.joints == old(self).joints,
                self.author == old(self).author,
                self.force_settings == old(self).force_settings,
                self.container_bound == old(self).container_bound,
                b0 == old(self).bodies@,
                old(self).wf(),
                forall|k: int| 0 <= k < i ==> #[trigger] self.bodies@[k] == if old(self).movable(k) {
                    integrate(b0[k], view2(acc@[k]))
                } else {
                    b0[k]
                },
                forall|k: int| i <= k < n ==> #[trigger] self.bodies@[k] == b0[k],
                forall|k: int| 0 <= k < n ==> (#[trigger] self.bodies@[k]).wf(),
            decreases n - i,
        {
            let b = self.bodies[i];
            let movable = b.kind == BodyKind::Dynamic && !(b.is_author && self.force_settings.author_fixed_position);
            if movable {
                let nb = integrate_exec(&b, acc[i]);
                self.bodies.set(i, nb);
            }
            i = i + 1;
        }
    }

    /// Writes each body's position, mapped to the screen, into the registry.
    fn write_positions(&mut self, vp: &Viewport)
        requires
            old(self).wf(),
            vp.wf(),
        ensures
            final(self).wf(),
            final(self).bodies == old(self).bodies,
            final(self).joints == old(self).joints,
            final(self).author == old(self).author,
            final(self).force_settings == old(self).force_settings,
            final(self).container_bound == old(self).container_bound,
            final(self).registry.edges == old(self).registry.edges,
            final(self).registry.show_connection_lines == old(self).registry.show_connection_lines,
            final(self).registry.nodes@.len() == old(self).registry.nodes@.len(),
            forall|i: int| 0 <= i < old(self).registry.nodes@.len() ==> #[trigger] final(self).registry.nodes@[i] == (Node {
                pos: vp.physics_to_screen_spec(old(self).bodies@[i].pos),
                ..old(self).registry.nodes@[i]
            }),
    {
        let ghost nodes0 = self.registry.nodes@;
        let n = self.bodies.len();
        let mut i: usize = 0;
        while i < n
            invariant
                n == self.bodies@.len(),
                n == self.registry.nodes@.len(),
                nodes0 == old(self).registry.nodes@,
                old(self).wf(),
                vp.wf(),
                self.bodies == old(self).bodies,
                self.joints == old(self).joints,
                self.author == old(self).author,
                self.force_settings == old(self).force_settings,
                self.container_bound == old(self).container_bound,
                self.registry.edges == old(self).registry.edges,
                self.registry.show_connection_lines == old(self).registry.show_connection_lines,
                forall|k: int| 0 <= k < i ==> #[trigger] self.registry.nodes@[k] == (Node {
                    pos: vp.physics_to_screen_spec(self.bodies@[k].pos),
                    ..nodes0[k]
                }),
                forall|k: int| i <= k < n ==> #[trigger] self.registry.nodes@[k] == nodes0[k],
            decreases n - i,
        {
            let p = vp.physics_to_screen(&self.bodies[i].pos);
            self.registry.nodes[i].pos = p;
            i = i + 1;
        }
        proof {
            crate::registry::lemma_first_author_same_flags(nodes0, self.registry.nodes@, n as int);
            assert forall|a: int, b: int|
                0 <= a < n && 0 <= b < n && a != b implies #[trigger] self.registry.nodes@[a].id != #[trigger] self.registry.nodes@[b].id by {
                assert(nodes0[a].id != nodes0[b].id);
            }
        }
    }
}

impl PhysicsWorld {
    /// Advances the simulation by one tick: centering, repulsion, author
    /// attraction, category clustering and springs are computed from the state
    /// at the start of the tick, every movable body is integrated, and every
    /// body's position is written back to the registry through `viewport`.
    pub fn step(&mut self, viewport: &Viewport)
        requires
            old(self).wf(),
            viewport.wf(),
        ensures
            old(self).stepped(*viewport, *final(self)),
    {
        let n = self.bodies.len();
        let mut acc: Vec<(i128, i128)> = Vec::new();
        let mut i: usize = 0;
        while i < n
            invariant
                i <= n,
                acc@.len() == i,
                forall|k: int| 0 <= k < i ==> #[trigger] acc@[k] == (0i128, 0i128),
            decreases n - i,
        {
            acc.push((0, 0));
            i = i + 1;
        }
        let ghost acc0 = acc@;
        self.add_field(viewport, ForceField::Center, &mut acc);
        let ghost acc1 = acc@;
        self.add_field(viewport, ForceField::Repulsion, &mut acc);
        let ghost acc2 = acc@;
        self.add_field(viewport, ForceField::AuthorAttraction, &mut acc);
        let ghost acc3 = acc@;
        self.add_field(viewport, ForceField::CategoryClustering, &mut acc);
        let ghost acc4 = acc@;
        self.add_field(viewport, ForceField::Springs, &mut acc);
        let ghost w0 = *self;
        proof {
            assert forall|k: int| 0 <= k < n implies view2(#[trigger] acc@[k]) == w0.total_impulse(*viewport, k) && impulse_ok(acc@[k]) by {
                assert(view2(acc1[k]) == add2(view2(acc0[k]), w0.field_force(*viewport, ForceField::Center, k)));
                assert(view2(acc2[k]) == add2(view2(acc1[k]), w0.field_force(*viewport, ForceField::Repulsion, k)));
                assert(view2(acc3[k]) == add2(view2(acc2[k]), w0.field_force(*viewport, ForceField::AuthorAttraction, k)));
                assert(view2(acc4[k]) == add2(view2(acc3[k]), w0.field_force(*viewport, ForceField::CategoryClustering, k)));
                assert(view2(acc@[k]) == add2(view2(acc4[k]), w0.field_force(*viewport, ForceField::Springs, k)));
                assert(field_ok(w0.field_force(*viewport, ForceField::Center, k)));
                assert(field_ok(w0.field_force(*viewport, ForceField::Repulsion, k)));
                assert(field_ok(w0.field_force(*viewport, ForceField::AuthorAttraction, k)));
                assert(field_ok(w0.field_force(*viewport, ForceField::CategoryClustering, k)));
                assert(field_ok(w0.field_force(*viewport, ForceField::Springs, k)));
            }
        }
        self.integrate_bodies(&acc);
        self.write_positions(viewport);
    }
}

/// Linear damping of every body but the author's (3 per second).
pub const BODY_DAMPING: i64 = 3000;

/// A radius in pixels as a body radius in fixed-point steps (negative radii
/// count as zero).
pub open spec fn radius_fixed(r: int) -> int {
    if r < 0 {
        0
    } else {
        r * FIXED
    }
}

/// The body a node starts with: at rest at its registry position, kinematic
/// only when it is the author and the author is pinned.
pub open spec fn initial_body(s: ForceSettings, vp: Viewport, e: Node, is_author: bool) -> Body {
    Body {
        id: e.id,
        pos: vp.screen_to_physics_spec(e.pos),
        vel: Vec2 { x: 0, y: 0 },
        kind: if is_author && s.author_fixed_position {
            BodyKind::Kinematic
        } else {
            BodyKind::Dynamic
        },
        radius: radius_fixed(e.radius as int) as i64,
        is_author,
        damping: if is_author {
            s.author_attraction_damping
        } else {
            BODY_DAMPING
        },
    }
}

/// The index of the node with id `id`.
pub open spec fn index_of(nodes: Seq<Node>, id: NodeId) -> int {
    choose|i: int| 0 <= i < nodes.len() && nodes[i].id == id
}

/// The spring between bodies `a` and `b`: softer when the author is an
/// endpoint.
pub open spec fn joint_for(s: ForceSettings, author: Option<usize>, a: int, b: int) -> Joint {
    let with_author = author == Some(a as usize) || author == Some(b as usize);
    Joint {
        a: a as usize,
        b: b as usize,
        stiffness: if with_author {
            (s.author_attraction_strength / 2) as i64
        } else {
            s.direct_link_strength
        },
        damping: if with_author {
            (s.author_attraction_damping * 10) as i64
        } else {
            s.direct_link_damping
        },
    }
}

/// One spring per edge whose two endpoints are registered, in edge order;
/// other edges are dropped.
pub open spec fn edge_joints(s: ForceSettings, nodes: Seq<Node>, author: Option<usize>, edges: Seq<(NodeId, NodeId)>) -> Seq<Joint>
    decreases edges.len(),
{
    if edges.len() == 0 {
        Seq::empty()
    } else {
        let rest = edge_joints(s, nodes, author, edges.drop_last());
        let e = edges.last();
        if contains_id(nodes, e.0) && contains_id(nodes, e.1) {
            rest.push(joint_for(s, author, index_of(nodes, e.0), index_of(nodes, e.1)))
        } else {
            rest
        }
    }
}

/// The author index as the registry defines it.
pub open spec fn author_of(nodes: Seq<Node>) -> Option<usize> {
    match first_author_index(nodes, nodes.len() as int) {
        Some(k) => Some(k as usize),
        None => None,
    }
}

proof fn lemma_edge_joints_len(s: ForceSettings, nodes: Seq<Node>, author: Option<usize>, edges: Seq<(NodeId, NodeId)>)
    ensures
        edge_joints(s, nodes, author, edges).len() <= edges.len(),
    decreases edges.len(),
{
    if edges.len() > 0 {
        lemma_edge_joints_len(s, nodes, author, edges.drop_last());
    }
}

/// The springs for the registry's edges under settings `s`.
fn build_joints(registry: &NodeRegistry, s: &ForceSettings, author: Option<usize>) -> (r: Vec<Joint>)
    requires
        registry.wf(),
        s.wf(),
        match author {
            Some(k) => k < registry.nodes@.len(),
            None => true,
        },
    ensures
        r@ == edge_joints(*s, registry.nodes@, author, registry.edges@),
        forall|k: int| 0 <= k < r@.len() ==> {
            let j = #[trigger] r@[k];
            j.wf() && j.a < registry.nodes@.len() && j.b < registry.nodes@.len()
        },
{
    let mut r: Vec<Joint> = Vec::new();
    let mut k: usize = 0;
    while k < registry.edges.len()
        invariant
            registry.wf(),
            s.wf(),
            k <= registry.edges@.len(),
            r@ == edge_joints(*s, registry.nodes@, author, registry.edges@.subrange(0, k as int)),
            forall|q: int| 0 <= q < r@.len() ==> {
                let j = #[trigger] r@[q];
                j.wf() && j.a < registry.nodes@.len() && j.b < registry.nodes@.len()
            },
        decreases registry.edges@.len() - k,
    {
        proof {
            assert(registry.edges@.subrange(0, k as int + 1).drop_last() =~= registry.edges@.subrange(0, k as int));
        }
        let (from, to) = registry.edges[k];
        let ia = registry.find_index(from);
        let ib = registry.find_index(to);
        if let (Some(a), Some(b)) = (ia, ib) {
            let with_author = match author {
                Some(x) => x == a || x == b,
                None => false,
            };
            let stiffness = if with_author { s.author_attraction_strength / 2 } else { s.direct_link_strength };
            let damping = if with_author { s.author_attraction_damping * 10 } else { s.direct_link_damping };
            proof {
                assert(index_of(registry.nodes@, from) == a as int);
                assert(index_of(registry.nodes@, to) == b as int);
            }
            r.push(Joint { a, b, stiffness, damping });
        }
        k = k + 1;
    }
    assert(registry.edges@.subrange(0, k as int) =~= registry.edges@);
    r
}

impl PhysicsWorld {
    /// Builds the simulation for a registry: one body per node, in registry
    /// order, and one spring per edge whose endpoints are both registered.
    pub fn new(registry: NodeRegistry, viewport: &Viewport, force_settings: ForceSettings, container_bound: ContainerBound) -> (r: PhysicsWorld)
        requires
            registry.wf(),
            registry.nodes@.len() <= MAX_NODES,
            registry.edges@.len() <= MAX_JOINTS,
            viewport.wf(),
            force_settings.wf(),
        ensures
            r.wf(),
            r.registry == registry,
            r.force_settings == force_settings,
            r.container_bound == container_bound,
            r.author == author_of(registry.nodes@),
            r.bodies@.len() == registry.nodes@.len(),
            forall|i: int| 0 <= i < registry.nodes@.len() ==> #[trigger] r.bodies@[i] == initial_body(
                force_settings,
                *viewport,
                registry.nodes@[i],
                r.author == Some(i as usize),
            ),
            r.joints@ == edge_joints(force_settings, registry.nodes@, r.author, registry.edges@),
    {
        let author = registry.author_index();
        let n = registry.nodes.len();
        let mut bodies: Vec<Body> = Vec::new();
        let mut i: usize = 0;
        while i < n
            invariant
                registry.wf(),
                viewport.wf(),
                force_settings.wf(),
                n == registry.nodes@.len(),
                i <= n,
                bodies@.len() == i,
                forall|k: int| 0 <= k < i ==> #[trigger] bodies@[k] == initial_body(
                    force_settings,
                    *viewport,
                    registry.nodes@[k],
                    author == Some(k as usize),
                ),
                forall|k: int| 0 <= k < i ==> (#[trigger] bodies@[k]).wf(),
            decreases n - i,
        {
            let e = &registry.nodes[i];
            let is_author = match author {
                Some(k) => k == i,
                None => false,
            };
            let kind = if is_author && force_settings.author_fixed_position { BodyKind::Kinematic } else { BodyKind::Dynamic };
            let radius: i64 = if e.radius < 0 { 0 } else { e.radius as i64 * FIXED };
            let damping = if is_author { force_settings.author_attraction_damping } else { BODY_DAMPING };
            let body = Body {
                id: e.id,
                pos: viewport.screen_to_physics(&e.pos),
                vel: Vec2 { x: 0, y: 0 },
                kind,
                radius,
                is_author,
                damping,
            };
            bodies.push(body);
            i = i + 1;
        }
        let joints = build_joints(&registry, &force_settings, author);
        proof {
            lemma_edge_joints_len(force_settings, registry.nodes@, author, registry.edges@);
        }
        PhysicsWorld { registry, bodies, joints, author, force_settings, container_bound }
    }
}

/// Every body with id `id` is changed by `f`; the others stay as they were.
pub open spec fn bodies_changed(old_b: Seq<Body>, new_b: Seq<Body>, id: NodeId, f: spec_fn(Body) -> Body) -> bool {
    new_b.len() == old_b.len() && forall|i: int|
        0 <= i < old_b.len() ==> #[trigger] new_b[i] == if old_b[i].id == id {
            f(old_b[i])
        } else {
            old_b[i]
        }
}

impl PhysicsWorld {
    /// Replaces body `i` by one with the same identity.
    fn replace_body(&mut self, i: usize, nb: Body)
        requires
            old(self).wf(),
            i < old(self).bodies@.len(),
            nb.wf(),
            nb.id == old(self).bodies@[i as int].id,
            nb.is_author == old(self).bodies@[i as int].is_author,
        ensures
            final(self).wf(),
            final(self).bodies@ == old(self).bodies@.update(i as int, nb),
            final(self).registry == old(self).registry,
            final(self).joints == old(self).joints,
            final(self).author == old(self).author,
            final(self).force_settings == old(self).force_settings,
            final(self).container_bound == old(self).container_bound,
    {
        self.bodies.set(i, nb);
    }

    /// Moves the body of node `id` to the physics image of `pos` and stops
    /// it; a missing id changes nothing.
    pub fn set_node_position(&mut self, id: NodeId, pos: &Position, viewport: &Viewport)
        requires
            old(self).wf(),
            viewport.wf(),
        ensures
            final(self).wf(),
            final(self).registry == old(self).registry,
            final(self).joints == old(self).joints,
            final(self).author == old(self).author,
            final(self).force_settings == old(self).force_settings,
            final(self).container_bound == old(self).container_bound,
            bodies_changed(old(self).bodies@, final(self).bodies@, id, |b: Body| Body {
                pos: viewport.screen_to_physics_spec(*pos),
                vel: Vec2 { x: 0, y: 0 },
                ..b
            }),
    {
        if let Some(i) = self.registry.find_index(id) {
            let b = self.bodies[i];
            let nb = Body { pos: viewport.screen_to_physics(pos), vel: Vec2 { x: 0, y: 0 }, ..b };
            self.replace_body(i, nb);
            proof {
                assert forall|k: int| 0 <= k < self.bodies@.len() && k != i implies #[trigger] old(self).bodies@[k].id != id by {
                    assert(old(self).registry.nodes@[k].id != old(self).registry.nodes@[i as int].id);
                }
            }
        } else {
            proof {
                assert forall|k: int| 0 <= k < self.bodies@.len() implies #[trigger] old(self).bodies@[k].id != id by {
                    assert(old(self).registry.nodes@[k].id == old(self).bodies@[k].id);
                }
            }
        }
    }

    /// Sets the kind of the body of node `id`; a missing id changes nothing.
    fn set_node_kind(&mut self, id: NodeId, kind: BodyKind)
        requires
            old(self).wf(),
        ensures
            final(self).wf(),
            final(self).registry == old(self).registry,
            final(self).joints == old(self).joints,
            final(self).author == old(self).author,
            final(self).force_settings == old(self).force_settings,
            final(self).container_bound == old(self).container_bound,
            bodies_changed(old(self).bodies@, final(self).bodies@, id, |b: Body| Body { kind: kind, ..b }),
    {
        if let Some(i) = self.registry.find_index(id) {
            let b = self.bodies[i];
            self.replace_body(i, Body { kind, ..b });
            proof {
                assert forall|k: int| 0 <= k < self.bodies@.len() && k != i implies #[trigger] old(self).bodies@[k].id != id by {
                    assert(old(self).registry.nodes@[k].id != old(self).registry.nodes@[i as int].id);
                }
            }
        } else {
            proof {
                assert forall|k: int| 0 <= k < self.bodies@.len() implies #[trigger] old(self).bodies@[k].id != id by {
                    assert(old(self).registry.nodes@[k].id == old(self).bodies@[k].id);
                }
            }
        }
    }

    /// Hands node `id` to external control: forces and integration no
    /// longer move it. Position and velocity are kept.
    pub fn set_node_kinematic(&mut self, id: NodeId)
        requires
            old(self).wf(),
        ensures
            final(self).wf(),
            final(self).registry == old(self).registry,
            final(self).joints == old(self).joints,
            final(self).author == old(self).author,
            final(self).force_settings == old(self).force_settings,
            final(self).container_bound == old(self).container_bound,
            bodies_changed(old(self).bodies@, final(self).bodies@, id, |b: Body| Body { kind: BodyKind::Kinematic, ..b }),
    {
        self.set_node_kind(id, BodyKind::Kinematic);
    }

    /// Returns node `id` to the simulation. Position and velocity are kept:
    /// nothing pulls it back to where it was before a drag.
    pub fn set_node_dynamic(&mut self, id: NodeId)
        requires
            old(self).wf(),
        ensures
            final(self).wf(),
            final(self).registry == old(self).registry,
            final(self).joints == old(self).joints,
            final(self).author == old(self).author,
            final(self).force_settings == old(self).force_settings,
            final(self).container_bound == old(self).container_bound,
            bodies_changed(old(self).bodies@, final(self).bodies@, id, |b: Body| Body { kind: BodyKind::Dynamic, ..b }),
    {
        self.set_node_kind(id, BodyKind::Dynamic);
    }

    /// Places the author node, body and registry entry, at the center of the
    /// container and stops it. Without an author nothing changes.
    pub fn center_author_node(&mut self, viewport: &Viewport)
        requires
            old(self).wf(),
            viewport.wf(),
        ensures
            final(self).wf(),
            final(self).joints == old(self).joints,
            final(self).author == old(self).author,
            final(self).force_settings == old(self).force_settings,
            final(self).container_bound == old(self).container_bound,
            final(self).registry.edges == old(self).registry.edges,
            final(self).registry.show_connection_lines == old(self).registry.show_connection_lines,
            match old(self).author {
                Some(k) => {
                    let c = old(self).container_bound.center_spec();
                    &&& final(self).bodies@ == old(self).bodies@.update(k as int, Body {
                        pos: viewport.screen_to_physics_spec(c),
                        vel: Vec2 { x: 0, y: 0 },
                        ..old(self).bodies@[k as int]
                    })
                    &&& final(self).registry.nodes@ == old(self).registry.nodes@.update(k as int, Node {
                        pos: c,
                        ..old(self).registry.nodes@[k as int]
                    })
                },
                None => final(self).bodies == old(self).bodies && final(self).registry == old(self).registry,
            },
    {
        if let Some(k) = self.author {
            let c = self.container_bound.center();
            let b = self.bodies[k];
            let nb = Body { pos: viewport.screen_to_physics(&c), vel: Vec2 { x: 0, y: 0 }, ..b };
            self.replace_body(k, nb);
            let ghost nodes0 = self.registry.nodes@;
            self.registry.nodes[k].pos = c;
            proof {
                assert(self.registry.nodes@ =~= nodes0.update(k as int, Node { pos: c, ..nodes0[k as int] }));
                crate::registry::lemma_first_author_same_flags(nodes0, self.registry.nodes@, nodes0.len() as int);
                assert forall|a: int, b: int|
                    0 <= a < nodes0.len() && 0 <= b < nodes0.len() && a != b implies #[trigger] self.registry.nodes@[a].id != #[trigger] self.registry.nodes@[b].id by {
                    assert(nodes0[a].id != nodes0[b].id);
                }
            }
        }
    }

    /// Pins (or releases) the author node and records the choice in the
    /// settings. Without an author nothing changes.
    pub fn set_author_node_fixed(&mut self, fixed: bool)
        requires
            old(self).wf(),
        ensures
            final(self).wf(),
            final(self).registry == old(self).registry,
            final(self).joints == old(self).joints,
            final(self).author == old(self).author,
            final(self).container_bound == old(self).container_bound,
            match old(self).author {
                Some(k) => {
                    &&& final(self).bodies@ == old(self).bodies@.update(k as int, Body {
                        kind: if fixed { BodyKind::Kinematic } else { BodyKind::Dynamic },
                        ..old(self).bodies@[k as int]
                    })
                    &&& final(self).force_settings == (ForceSettings { author_fixed_position: fixed, ..old(self).force_settings })
                },
                None => final(self).bodies == old(self).bodies && final(self).force_settings == old(self).force_settings,
            },
    {
        if let Some(k) = self.author {
            let b = self.bodies[k];
            let kind = if fixed { BodyKind::Kinematic } else { BodyKind::Dynamic };
            self.replace_body(k, Body { kind, ..b });
            self.force_settings.author_fixed_position = fixed;
        }
    }

    /// Rebuilds every spring from the registry's edges under the current
    /// settings.
    pub fn update_joint_strengths(&mut self)
        requires
            old(self).wf(),
        ensures
            final(self).wf(),
            final(self).registry == old(self).registry,
            final(self).bodies == old(self).bodies,
            final(self).author == old(self).author,
            final(self).force_settings == old(self).force_settings,
            final(self).container_bound == old(self).container_bound,
            final(self).joints@ == edge_joints(old(self).force_settings, old(self).registry.nodes@, old(self).author, old(self).registry.edges@),
    {
        let joints = build_joints(&self.registry, &self.force_settings, self.author);
        proof {
            lemma_edge_joints_len(self.force_settings, self.registry.nodes@, self.author, self.registry.edges@);
        }
        self.joints = joints;
    }
}

/// The base radius, in pixels, that article nodes are sized from.
pub const BASE_RADIUS: i32 = 30;

/// The first entry of `data` about node `id`, if any.
pub open spec fn size_entry(data: Seq<(NodeId, Option<u8>, usize)>, id: NodeId, n: int) -> Option<int>
    decreases n,
{
    if n <= 0 {
        None
    } else {
        match size_entry(data, id, n - 1) {
            Some(k) => Some(k),
            None => if data[n - 1].0 == id {
                Some(n - 1)
            } else {
                None
            },
        }
    }
}

proof fn lemma_size_entry_stable(data: Seq<(NodeId, Option<u8>, usize)>, id: NodeId, n: int, m: int)
    requires
        0 <= n <= m,
        size_entry(data, id, n) is Some,
    ensures
        size_entry(data, id, m) == size_entry(data, id, n),
    decreases m - n,
{
    if m > n {
        lemma_size_entry_stable(data, id, n, m - 1);
    }
}

proof fn lemma_size_entry_range(data: Seq<(NodeId, Option<u8>, usize)>, id: NodeId, n: int)
    ensures
        match size_entry(data, id, n) {
            Some(k) => 0 <= k < n && data[k].0 == id,
            None => true,
        },
    decreases n,
{
    if n > 0 {
        lemma_size_entry_range(data, id, n - 1);
    }
}

/// The radius `data` gives node `id`, if it mentions it.
pub open spec fn resized(data: Seq<(NodeId, Option<u8>, usize)>, id: NodeId) -> Option<i32> {
    match size_entry(data, id, data.len() as int) {
        Some(k) => Some(crate::registry::dynamic_radius(BASE_RADIUS as int, data[k].1, data[k].2 as int) as i32),
        None => None,
    }
}

/// A registry entry after resizing by `data`.
pub open spec fn resized_entry(data: Seq<(NodeId, Option<u8>, usize)>, e: Node) -> Node {
    match resized(data, e.id) {
        Some(r) => Node { radius: r, ..e },
        None => e,
    }
}

/// A body after resizing by `data`.
pub open spec fn resized_body(data: Seq<(NodeId, Option<u8>, usize)>, b: Body) -> Body {
    match resized(data, b.id) {
        Some(r) => Body { radius: radius_fixed(r as int) as i64, ..b },
        None => b,
    }
}

/// Finds the first entry of `data` about node `id`.
fn find_size_entry(data: &Vec<(NodeId, Option<u8>, usize)>, id: NodeId) -> (r: Option<usize>)
    ensures
        match r {
            Some(k) => size_entry(data@, id, data@.len() as int) == Some(k as int) && k < data@.len(),
            None => size_entry(data@, id, data@.len() as int) is None,
        },
{
    let mut k: usize = 0;
    while k < data.len()
        invariant
            k <= data@.len(),
            size_entry(data@, id, k as int) is None,
        decreases data@.len() - k,
    {
        if data[k].0 == id {
            proof {
                lemma_size_entry_stable(data@, id, k as int + 1, data@.len() as int);
            }
            return Some(k);
        }
        k = k + 1;
    }
    None
}

impl PhysicsWorld {
    /// Replaces the settings; the next step uses them. Springs keep their
    /// strengths until `update_joint_strengths`.
    pub fn update_force_settings(&mut self, new_settings: ForceSettings)
        requires
            old(self).wf(),
            new_settings.wf(),
        ensures
            final(self).wf(),
            *final(self) == (PhysicsWorld { force_settings: new_settings, ..*old(self) }),
    {
        self.force_settings = new_settings;
    }

    /// Replaces the container rectangle; the next step centers on it.
    pub fn update_container_bound(&mut self, new_bound: ContainerBound)
        requires
            old(self).wf(),
        ensures
            final(self).wf(),
            *final(self) == (PhysicsWorld { container_bound: new_bound, ..*old(self) }),
    {
        self.container_bound = new_bound;
    }

    /// Turns debug mode on or off; connection lines show while both debug
    /// mode and the line setting are on.
    pub fn set_debug_mode(&mut self, debug_mode: bool)
        requires
            old(self).wf(),
        ensures
            final(self).wf(),
            final(self).force_settings == (ForceSettings { debug_mode: debug_mode, ..old(self).force_settings }),
            final(self).registry.show_connection_lines == (debug_mode && old(self).force_settings.show_connection_lines),
            final(self).registry.nodes == old(self).registry.nodes,
            final(self).registry.edges == old(self).registry.edges,
            final(self).bodies == old(self).bodies,
            final(self).joints == old(self).joints,
            final(self).author == old(self).author,
            final(self).container_bound == old(self).container_bound,
    {
        self.force_settings.debug_mode = debug_mode;
        let visible = debug_mode && self.force_settings.show_connection_lines;
        self.registry.set_connection_line_visibility(visible);
    }

    /// Turns the connection-line setting on or off; lines show while both it
    /// and debug mode are on.
    pub fn set_connection_lines_visible(&mut self, visible: bool)
        requires
            old(self).wf(),
        ensures
            final(self).wf(),
            final(self).force_settings == (ForceSettings { show_connection_lines: visible, ..old(self).force_settings }),
            final(self).registry.show_connection_lines == (visible && old(self).force_settings.debug_mode),
            final(self).registry.nodes == old(self).registry.nodes,
            final(self).registry.edges == old(self).registry.edges,
            final(self).bodies == old(self).bodies,
            final(self).joints == old(self).joints,
            final(self).author == old(self).author,
            final(self).container_bound == old(self).container_bound,
    {
        self.force_settings.show_connection_lines = visible;
        let shown = visible && self.force_settings.debug_mode;
        self.registry.set_connection_line_visibility(shown);
    }

    /// Turns category clustering on or off from the next step.
    pub fn set_category_clustering_enabled(&mut self, enabled: bool)
        requires
            old(self).wf(),
        ensures
            final(self).wf(),
            *final(self) == (PhysicsWorld {
                force_settings: ForceSettings { enable_category_clustering: enabled, ..old(self).force_settings },
                ..*old(self)
            }),
    {
        self.force_settings.enable_category_clustering = enabled;
    }

    /// Gives node `id` a new radius, in the registry and as its body's
    /// collision radius; a missing id changes nothing.
    pub fn update_node_size(&mut self, node_id: NodeId, new_radius: i32)
        requires
            old(self).wf(),
        ensures
            final(self).wf(),
            final(self).joints == old(self).joints,
            final(self).author == old(self).author,
            final(self).force_settings == old(self).force_settings,
            final(self).container_bound == old(self).container_bound,
            final(self).registry.edges == old(self).registry.edges,
            final(self).registry.show_connection_lines == old(self).registry.show_connection_lines,
            crate::registry::only_changed(old(self).registry.nodes@, final(self).registry.nodes@, node_id, |e: Node| Node { radius: new_radius, ..e }),
            bodies_changed(old(self).bodies@, final(self).bodies@, node_id, |b: Body| Body { radius: radius_fixed(new_radius as int) as i64, ..b }),
    {
        let ghost nodes0 = self.registry.nodes@;
        let found = self.registry.find_index(node_id);
        self.registry.update_node_radius(node_id, new_radius);
        proof {
            crate::registry::lemma_first_author_same_flags(nodes0, self.registry.nodes@, nodes0.len() as int);
        }
        if let Some(i) = found {
            let b = self.bodies[i];
            let radius: i64 = if new_radius < 0 { 0 } else { new_radius as i64 * FIXED };
            self.replace_body(i, Body { radius, ..b });
            proof {
                assert forall|k: int| 0 <= k < self.bodies@.len() && k != i implies #[trigger] old(self).bodies@[k].id != node_id by {
                    assert(old(self).registry.nodes@[k].id != old(self).registry.nodes@[i as int].id);
                }
            }
        } else {
            proof {
                assert forall|k: int| 0 <= k < self.bodies@.len() implies #[trigger] old(self).bodies@[k].id != node_id by {
                    assert(old(self).registry.nodes@[k].id == old(self).bodies@[k].id);
                }
            }
        }
    }

    /// Resizes every node that `data` (id, importance, inbound-link count)
    /// mentions to `calculate_dynamic_radius(BASE_RADIUS, ..)`, using the
    /// first entry about it; other nodes keep their size.
    pub fn update_all_node_sizes(&mut self, data: &Vec<(NodeId, Option<u8>, usize)>)
        requires
            old(self).wf(),
        ensures
            final(self).wf(),
            final(self).joints == old(self).joints,
            final(self).author == old(self).author,
            final(self).force_settings == old(self).force_settings,
            final(self).container_bound == old(self).container_bound,
            final(self).registry.edges == old(self).registry.edges,
            final(self).registry.nodes@.len() == old(self).registry.nodes@.len(),
            final(self).bodies@.len() == old(self).bodies@.len(),
            forall|i: int| 0 <= i < old(self).registry.nodes@.len() ==> #[trigger] final(self).registry.nodes@[i] == resized_entry(data@, old(self).registry.nodes@[i]),
            forall|i: int| 0 <= i < old(self).bodies@.len() ==> #[trigger] final(self).bodies@[i] == resized_body(data@, old(self).bodies@[i]),
    {
        let n = self.bodies.len();
        let ghost w0 = *self;
        let mut i: usize = 0;
        while i < n
            invariant
                self.wf(),
                w0.wf(),
                n == self.bodies@.len(),
                n == w0.bodies@.len(),
                i <= n,
                self.joints == w0.joints,
                self.author == w0.author,
                self.force_settings == w0.force_settings,
                self.container_bound == w0.container_bound,
                self.registry.edges == w0.registry.edges,
                forall|k: int| 0 <= k < n ==> (#[trigger] self.registry.nodes@[k]).id == w0.registry.nodes@[k].id,
                forall|k: int| 0 <= k < i ==> #[trigger] self.registry.nodes@[k] == resized_entry(data@, w0.registry.nodes@[k]),
                forall|k: int| 0 <= k < i ==> #[trigger] self.bodies@[k] == resized_body(data@, w0.bodies@[k]),
                forall|k: int| i <= k < n ==> #[trigger] self.registry.nodes@[k] == w0.registry.nodes@[k],
                forall|k: int| i <= k < n ==> #[trigger] self.bodies@[k] == w0.bodies@[k],
            decreases n - i,
        {
            let id = self.bodies[i].id;
            proof {
                assert(self.bodies@[i as int].id == self.registry.nodes@[i as int].id);
            }
            if let Some(k) = find_size_entry(data, id) {
                let (_, importance, inbound_count) = data[k];
                let radius = crate::registry::calculate_dynamic_radius(BASE_RADIUS, importance, inbound_count);
                let ghost before = *self;
                self.update_node_size(id, radius);
                proof {
                    assert forall|q: int| 0 <= q < n && q != i implies #[trigger] before.registry.nodes@[q].id != id by {
                        assert(before.registry.nodes@[q].id != before.registry.nodes@[i as int].id);
                    }
                    assert(self.registry.nodes@[i as int] == (Node { radius: radius, ..before.registry.nodes@[i as int] }));
                    assert(self.bodies@[i as int] == (Body { radius: radius_fixed(radius as int) as i64, ..before.bodies@[i as int] }));
                    assert forall|q: int| 0 <= q < n && q != i implies #[trigger] self.registry.nodes@[q] == before.registry.nodes@[q] by {
                        assert(before.registry.nodes@[q].id != id);
                    }
                    assert forall|q: int| 0 <= q < n && q != i implies #[trigger] self.bodies@[q] == before.bodies@[q] by {
                        assert(before.registry.nodes@[q].id != id);
                        assert(before.bodies@[q].id == before.registry.nodes@[q].id);
                    }
                }
            }
            i = i + 1;
        }
    }

    /// The registry, for reading node positions, radii and content.
    pub fn registry(&self) -> (r: &NodeRegistry)
        ensures
            *r == self.registry,
    {
        &self.registry
    }
}

} // verus!
