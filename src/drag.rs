//! The drag controller: turns pointer events into simulation commands, and
//! tells a click (no movement past the threshold) from a drag.

use vstd::prelude::*;
use crate::registry::{Node, NodeRegistry};
use crate::types::{NodeId, Position};
use crate::viewport::Viewport;
use crate::world::{bodies_changed, PhysicsWorld};
use crate::forces::{Body, BodyKind};
use crate::types::Vec2;

verus! {

/// A pointer must move farther than this many pixels to start a drag.
pub const DRAG_THRESHOLD: i64 = 5;

/// Where a pointer interaction stands.
#[derive(Clone, Copy, Debug, PartialEq, Eq, Structural)]
pub enum DragState {
    /// No button held over a node.
    Idle,
    /// Pressed on node `id` at `start`, not yet moved past the threshold.
    Armed { id: NodeId, start: Position },
    /// Node `id` follows the pointer.
    Dragging { id: NodeId },
}

/// What the simulation, or the navigation, is to do after an event.
#[derive(Clone, Copy, Debug, PartialEq, Eq, Structural)]
pub enum DragAction {
    Nothing,
    /// Make node `id` kinematic and put it at `pos`.
    BeginDrag { id: NodeId, pos: Position },
    /// Put the dragged node `id` at `pos`.
    MoveTo { id: NodeId, pos: Position },
    /// Hand node `id` back to the simulation.
    Release { id: NodeId },
    /// Node `id` was clicked.
    Activate { id: NodeId },
}

/// The pointer at `p` is more than the threshold away from `start`.
pub open spec fn past_threshold(start: Position, p: Position) -> bool {
    let dx = p.x - start.x;
    let dy = p.y - start.y;
    dx * dx + dy * dy > DRAG_THRESHOLD * DRAG_THRESHOLD
}

/// The state and action after the pointer moves to `p`.
pub open spec fn after_move(s: DragState, p: Position) -> (DragState, DragAction) {
    match s {
        DragState::Idle => (DragState::Idle, DragAction::Nothing),
        DragState::Armed { id, start } => if past_threshold(start, p) {
            (DragState::Dragging { id }, DragAction::BeginDrag { id, pos: p })
        } else {
            (s, DragAction::Nothing)
        },
        DragState::Dragging { id } => (s, DragAction::MoveTo { id, pos: p }),
    }
}

/// The action when the button is released.
pub open spec fn after_release(s: DragState) -> DragAction {
    match s {
        DragState::Idle => DragAction::Nothing,
        DragState::Armed { id, .. } => DragAction::Activate { id },
        DragState::Dragging { id } => DragAction::Release { id },
    }
}

/// The point `p` lies on the disc of node `e`.
pub open spec fn hits(e: Node, p: Position) -> bool {
    let dx = p.x - e.pos.x;
    let dy = p.y - e.pos.y;
    dx * dx + dy * dy <= e.radius * e.radius
}

/// The first of the first `n` nodes whose disc holds `p`.
pub open spec fn first_hit(nodes: Seq<Node>, p: Position, n: int) -> Option<int>
    decreases n,
{
    if n <= 0 {
        None
    } else {
        match first_hit(nodes, p, n - 1) {
            Some(i) => Some(i),
            None => if hits(nodes[n - 1], p) {
                Some(n - 1)
            } else {
                None
            },
        }
    }
}

proof fn lemma_first_hit_stable(nodes: Seq<Node>, p: Position, n: int, m: int)
    requires
        0 <= n <= m,
        first_hit(nodes, p, n) is Some,
    ensures
        first_hit(nodes, p, m) == first_hit(nodes, p, n),
    decreases m - n,
{
    if m > n {
        lemma_first_hit_stable(nodes, p, n, m - 1);
    }
}

/// The node under screen point `p`: the first in registry order whose disc
/// holds it.
pub fn node_at(registry: &NodeRegistry, p: Position) -> (r: Option<NodeId>)
    ensures
        match first_hit(registry.nodes@, p, registry.nodes@.len() as int) {
            Some(i) => r == Some(registry.nodes@[i].id),
            None => r is None,
        },
{
    let mut i: usize = 0;
    while i < registry.nodes.len()
        invariant
            i <= registry.nodes@.len(),
            first_hit(registry.nodes@, p, i as int) is None,
        decreases registry.nodes@.len() - i,
    {
        let e = &registry.nodes[i];
        let dx = p.x as i128 - e.pos.x as i128;
        let dy = p.y as i128 - e.pos.y as i128;
        let r = e.radius as i128;
        proof {
            assert(0 <= dx * dx <= 0x1_0000_0000_0000_0000int) by (nonlinear_arith)
                requires
                    -0x1_0000_0000int <= dx <= 0x1_0000_0000int,
            ;
            assert(0 <= dy * dy <= 0x1_0000_0000_0000_0000int) by (nonlinear_arith)
                requires
                    -0x1_0000_0000int <= dy <= 0x1_0000_0000int,
            ;
            assert(0 <= r * r <= 0x1_0000_0000_0000_0000int) by (nonlinear_arith)
                requires
                    -0x1_0000_0000int <= r <= 0x1_0000_0000int,
            ;
        }
        if dx * dx + dy * dy <= r * r {
            proof {
                lemma_first_hit_stable(registry.nodes@, p, i as int + 1, registry.nodes@.len() as int);
            }
            return Some(e.id);
        }
        i = i + 1;
    }
    None
}

/// The pointer-interaction state machine.
#[derive(Clone, Copy, Debug, PartialEq, Eq, Structural)]
pub struct DragController {
    pub state: DragState,
}

impl DragController {
    pub fn new() -> (r: DragController)
        ensures
            r.state == DragState::Idle,
    {
        DragController { state: DragState::Idle }
    }

    /// The button goes down over node `id` at `pos`.
    pub fn pointer_down(&mut self, id: NodeId, pos: Position)
        ensures
            final(self).state == (DragState::Armed { id, start: pos }),
    {
        self.state = DragState::Armed { id, start: pos };
    }

    /// The pointer moves to `pos`.
    pub fn pointer_move(&mut self, pos: Position) -> (r: DragAction)
        ensures
            (final(self).state, r) == after_move(old(self).state, pos),
    {
        match self.state {
            DragState::Idle => DragAction::Nothing,
            DragState::Armed { id, start } => {
                let dx = pos.x as i128 - start.x as i128;
                let dy = pos.y as i128 - start.y as i128;
                proof {
                    assert(0 <= dx * dx <= 0x1_0000_0000_0000_0000int) by (nonlinear_arith)
                        requires
                            -0x1_0000_0000int <= dx <= 0x1_0000_0000int,
                    ;
                    assert(0 <= dy * dy <= 0x1_0000_0000_0000_0000int) by (nonlinear_arith)
                        requires
                            -0x1_0000_0000int <= dy <= 0x1_0000_0000int,
                    ;
                }
                if dx * dx + dy * dy > (DRAG_THRESHOLD * DRAG_THRESHOLD) as i128 {
                    self.state = DragState::Dragging { id };
                    DragAction::BeginDrag { id, pos }
                } else {
                    DragAction::Nothing
                }
            },
            DragState::Dragging { id } => DragAction::MoveTo { id, pos },
        }
    }

    /// The button is released; the controller goes back to idle.
    pub fn pointer_up(&mut self) -> (r: DragAction)
        ensures
            final(self).state == DragState::Idle,
            r == after_release(old(self).state),
    {
        let r = match self.state {
            DragState::Idle => DragAction::Nothing,
            DragState::Armed { id, .. } => DragAction::Activate { id },
            DragState::Dragging { id } => DragAction::Release { id },
        };
        self.state = DragState::Idle;
        r
    }
}

/// `next` is `w` after the simulation part of `action`: a drag start makes
/// the node kinematic and puts it at the pointer (at rest), a move puts it at
/// the pointer, a release makes it dynamic again; nothing else changes.
pub open spec fn drag_applied(w: PhysicsWorld, next: PhysicsWorld, action: DragAction, viewport: Viewport) -> bool {
    &&& next.wf()
    &&& next.registry == w.registry
    &&& next.joints == w.joints
    &&& next.author == w.author
    &&& next.force_settings == w.force_settings
    &&& next.container_bound == w.container_bound
    &&& match action {
        DragAction::BeginDrag { id, pos } => bodies_changed(w.bodies@, next.bodies@, id, |b: Body| Body {
            kind: BodyKind::Kinematic,
            pos: viewport.screen_to_physics_spec(pos),
            vel: Vec2 { x: 0, y: 0 },
            ..b
        }),
        DragAction::MoveTo { id, pos } => bodies_changed(w.bodies@, next.bodies@, id, |b: Body| Body {
            pos: viewport.screen_to_physics_spec(pos),
            vel: Vec2 { x: 0, y: 0 },
            ..b
        }),
        DragAction::Release { id } => bodies_changed(w.bodies@, next.bodies@, id, |b: Body| Body {
            kind: BodyKind::Dynamic,
            ..b
        }),
        _ => next.bodies == w.bodies,
    }
}

impl PhysicsWorld {
    /// Carries out the simulation part of a drag action; activation is for
    /// the navigation and changes nothing here.
    pub fn apply_drag_action(&mut self, action: DragAction, viewport: &Viewport)
        requires
            old(self).wf(),
            viewport.wf(),
        ensures
            drag_applied(*old(self), *final(self), action, *viewport),
    {
        match action {
            DragAction::BeginDrag { id, pos } => {
                let ghost b0 = self.bodies@;
                self.set_node_kinematic(id);
                let ghost b1 = self.bodies@;
                self.set_node_position(id, &pos, viewport);
                proof {
                    assert forall|i: int| 0 <= i < b0.len() implies #[trigger] self.bodies@[i] == if b0[i].id == id {
                        Body { kind: BodyKind::Kinematic, pos: viewport.screen_to_physics_spec(pos), vel: Vec2 { x: 0, y: 0 }, ..b0[i] }
                    } else {
                        b0[i]
                    } by {
                        assert(b1[i].id == b0[i].id);
                    }
                }
            },
            DragAction::MoveTo { id, pos } => {
                self.set_node_position(id, &pos, viewport);
            },
            DragAction::Release { id } => {
                self.set_node_dynamic(id);
            },
            _ => {},
        }
    }
}

} // verus!
