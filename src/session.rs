//! The simulation session: one owner for the world, the drag controller, the
//! camera and the id-to-slug table, driven by timer ticks and pointer events.

use vstd::prelude::*;
use crate::drag::{after_move, after_release, drag_applied, first_hit, node_at, DragAction, DragController, DragState};
use crate::types::{NodeId, Position};
use crate::viewport::Viewport;
use crate::world::PhysicsWorld;

verus! {

/// The slug of the first row of `slugs` about node `id`, among the first `n`.
pub open spec fn slug_row(slugs: Seq<(NodeId, String)>, id: NodeId, n: int) -> Option<int>
    decreases n,
{
    if n <= 0 {
        None
    } else {
        match slug_row(slugs, id, n - 1) {
            Some(k) => Some(k),
            None => if slugs[n - 1].0 == id {
                Some(n - 1)
            } else {
                None
            },
        }
    }
}

proof fn lemma_slug_row_stable(slugs: Seq<(NodeId, String)>, id: NodeId, n: int, m: int)
    requires
        0 <= n <= m,
        slug_row(slugs, id, n) is Some,
    ensures
        slug_row(slugs, id, m) == slug_row(slugs, id, n),
    decreases m - n,
{
    if m > n {
        lemma_slug_row_stable(slugs, id, n, m - 1);
    }
}

/// Everything one page of the graph needs.
#[derive(Debug)]
pub struct Session {
    pub world: PhysicsWorld,
    pub drag: DragController,
    pub viewport: Viewport,
    pub slugs: Vec<(NodeId, String)>,
}

impl Session {
    pub open spec fn wf(&self) -> bool {
        self.world.wf() && self.viewport.wf()
    }

    /// A session over `world`, with no pointer interaction going on.
    pub fn new(world: PhysicsWorld, viewport: Viewport, slugs: Vec<(NodeId, String)>) -> (r: Session)
        requires
            world.wf(),
            viewport.wf(),
        ensures
            r.wf(),
            r.world == world,
            r.viewport == viewport,
            r.slugs == slugs,
            r.drag.state == DragState::Idle,
    {
        Session { world, drag: DragController::new(), viewport, slugs }
    }

    /// One timer tick: one simulation step under the current camera.
    pub fn tick(&mut self)
        requires
            old(self).wf(),
        ensures
            final(self).wf(),
            old(self).world.stepped(old(self).viewport, final(self).world),
            final(self).drag == old(self).drag,
            final(self).viewport == old(self).viewport,
            final(self).slugs == old(self).slugs,
    {
        self.world.step(&self.viewport);
    }

    /// Pans or zooms the camera.
    pub fn set_viewport(&mut self, viewport: Viewport)
        requires
            old(self).wf(),
            viewport.wf(),
        ensures
            final(self).wf(),
            final(self).world == old(self).world,
            final(self).drag == old(self).drag,
            final(self).viewport == viewport,
            final(self).slugs == old(self).slugs,
    {
        self.viewport = viewport;
    }

    /// The button goes down at screen point `p`: over a node it arms a drag
    /// of that node; elsewhere nothing changes.
    pub fn pointer_down(&mut self, p: Position)
        requires
            old(self).wf(),
        ensures
            final(self).wf(),
            final(self).world == old(self).world,
            final(self).viewport == old(self).viewport,
            final(self).slugs == old(self).slugs,
            match first_hit(old(self).world.registry.nodes@, p, old(self).world.registry.nodes@.len() as int) {
                Some(i) => final(self).drag.state == (DragState::Armed { id: old(self).world.registry.nodes@[i].id, start: p }),
                None => final(self).drag == old(self).drag,
            },
    {
        if let Some(id) = node_at(&self.world.registry, p) {
            self.drag.pointer_down(id, p);
        }
    }

    /// The pointer moves to `p`; a drag in progress moves its node.
    pub fn pointer_move(&mut self, p: Position)
        requires
            old(self).wf(),
        ensures
            final(self).wf(),
            final(self).drag.state == after_move(old(self).drag.state, p).0,
            drag_applied(old(self).world, final(self).world, after_move(old(self).drag.state, p).1, old(self).viewport),
            final(self).viewport == old(self).viewport,
            final(self).slugs == old(self).slugs,
    {
        let action = self.drag.pointer_move(p);
        self.world.apply_drag_action(action, &self.viewport);
    }

    /// The button is released: a drag ends (the node goes back to the
    /// simulation), and a click returns the clicked node.
    pub fn pointer_up(&mut self) -> (r: Option<NodeId>)
        requires
            old(self).wf(),
        ensures
            final(self).wf(),
            final(self).drag.state == DragState::Idle,
            drag_applied(old(self).world, final(self).world, after_release(old(self).drag.state), old(self).viewport),
            final(self).viewport == old(self).viewport,
            final(self).slugs == old(self).slugs,
            r == match after_release(old(self).drag.state) {
                DragAction::Activate { id } => Some(id),
                _ => None::<NodeId>,
            },
    {
        let action = self.drag.pointer_up();
        self.world.apply_drag_action(action, &self.viewport);
        match action {
            DragAction::Activate { id } => Some(id),
            _ => None,
        }
    }

    /// The slug of node `id`, for navigation.
    pub fn slug_of(&self, id: NodeId) -> (r: Option<String>)
        ensures
            match slug_row(self.slugs@, id, self.slugs@.len() as int) {
                Some(k) => r == Some(self.slugs@[k].1),
                None => r is None,
            },
    {
        let mut k: usize = 0;
        while k < self.slugs.len()
            invariant
                k <= self.slugs@.len(),
                slug_row(self.slugs@, id, k as int) is None,
            decreases self.slugs@.len() - k,
        {
            if self.slugs[k].0 == id {
                proof {
                    lemma_slug_row_stable(self.slugs@, id, k as int + 1, self.slugs@.len() as int);
                }
                return Some(self.slugs[k].1.clone());
            }
            k = k + 1;
        }
        None
    }

    /// Where a click on node `id` leads: its slug, except for the stand-in
    /// author node (slug "author"), whose click stays on the home page.
    pub fn click_target(&self, id: NodeId) -> (r: Option<String>)
        ensures
            match slug_row(self.slugs@, id, self.slugs@.len() as int) {
                Some(k) => if self.slugs@[k].1@ == "author"@ {
                    r is None
                } else {
                    r == Some(self.slugs@[k].1)
                },
                None => r is None,
            },
    {
        match self.slug_of(id) {
            Some(slug) => {
                let home = "author".to_owned();
                if slug == home {
                    None
                } else {
                    Some(slug)
                }
            },
            None => None,
        }
    }
}

} // verus!
