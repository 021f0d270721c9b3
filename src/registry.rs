//! The node registry: the single source of truth for node identity, screen
//! position, radius, content and layout metadata, and for the edge list.

use vstd::prelude::*;
use crate::fixed::{clamp_spec, clamp_to, int_sqrt, isqrt, lemma_isqrt_is_int_sqrt};
use crate::types::{NodeContent, NodeId, Position};

verus! {

/// Everything the registry knows about one node.
#[derive(Debug)]
pub struct Node {
    pub id: NodeId,
    pub pos: Position,
    pub radius: i32,
    pub content: NodeContent,
    pub importance: Option<u8>,
    pub inbound_count: usize,
    pub category: Option<String>,
    pub is_author: bool,
}

/// Why the registry refused an operation.
#[derive(Clone, Copy, Debug, PartialEq, Eq, Structural)]
pub enum RegistryError {
    /// A node with this id is already registered.
    DuplicateId(NodeId),
}

/// Nodes in insertion order, plus undirected edges (duplicates allowed, and
/// endpoints not checked).
#[derive(Debug)]
pub struct NodeRegistry {
    pub nodes: Vec<Node>,
    pub edges: Vec<(NodeId, NodeId)>,
    pub show_connection_lines: bool,
}

/// True when no two entries share an id.
pub open spec fn ids_unique(nodes: Seq<Node>) -> bool {
    forall|i: int, j: int|
        0 <= i < nodes.len() && 0 <= j < nodes.len() && i != j ==> #[trigger] nodes[i].id != #[trigger] nodes[j].id
}

/// True when some entry has the id.
pub open spec fn contains_id(nodes: Seq<Node>, id: NodeId) -> bool {
    exists|i: int| 0 <= i < nodes.len() && #[trigger] nodes[i].id == id
}

/// The ids of the entries whose category is `c`, in registry order.
pub open spec fn category_ids(nodes: Seq<Node>, c: Seq<char>) -> Seq<NodeId>
    decreases nodes.len(),
{
    if nodes.len() == 0 {
        Seq::empty()
    } else {
        let rest = category_ids(nodes.drop_last(), c);
        let last = nodes.last();
        if last.category is Some && last.category->0@ == c {
            rest.push(last.id)
        } else {
            rest
        }
    }
}

/// The index of the first author entry among the first `n` entries, if any.
pub open spec fn first_author_index(nodes: Seq<Node>, n: int) -> Option<int>
    decreases n,
{
    if n <= 0 {
        None
    } else {
        match first_author_index(nodes, n - 1) {
            Some(i) => Some(i),
            None => if nodes[n - 1].is_author {
                Some(n - 1)
            } else {
                None
            },
        }
    }
}

/// The author node: the first entry flagged as author.
pub open spec fn author_id_spec(nodes: Seq<Node>) -> Option<NodeId> {
    match first_author_index(nodes, nodes.len() as int) {
        Some(i) => Some(nodes[i].id),
        None => None,
    }
}

/// `new_nodes` is `old_nodes` with `changed` applied to the entries of node
/// `id` and to no other.
pub open spec fn only_changed(old_nodes: Seq<Node>, new_nodes: Seq<Node>, id: NodeId, changed: spec_fn(Node) -> Node) -> bool {
    new_nodes.len() == old_nodes.len() && forall|i: int|
        0 <= i < old_nodes.len() ==> #[trigger] new_nodes[i] == if old_nodes[i].id == id {
            changed(old_nodes[i])
        } else {
            old_nodes[i]
        }
}

impl NodeRegistry {
    pub open spec fn wf(&self) -> bool {
        ids_unique(self.nodes@)
    }

    pub open spec fn has_node(&self, id: NodeId) -> bool {
        contains_id(self.nodes@, id)
    }

    /// An empty registry.
    pub fn new() -> (r: NodeRegistry)
        ensures
            r.wf(),
            r.nodes@.len() == 0,
            r.edges@.len() == 0,
            !r.show_connection_lines,
    {
        NodeRegistry { nodes: Vec::new(), edges: Vec::new(), show_connection_lines: false }
    }

    /// The number of nodes.
    pub fn len(&self) -> (r: usize)
        ensures
            r == self.nodes@.len(),
    {
        self.nodes.len()
    }

    /// The index of the node with this id, if it is registered.
    pub fn find_index(&self, id: NodeId) -> (r: Option<usize>)
        requires
            self.wf(),
        ensures
            match r {
                Some(i) => i < self.nodes@.len() && self.nodes@[i as int].id == id,
                None => !self.has_node(id),
            },
    {
        let mut i: usize = 0;
        while i < self.nodes.len()
            invariant
                i <= self.nodes@.len(),
                forall|k: int| 0 <= k < i ==> #[trigger] self.nodes@[k].id != id,
            decreases self.nodes@.len() - i,
        {
            if self.nodes[i].id == id {
                return Some(i);
            }
            i = i + 1;
        }
        None
    }

    /// Registers a node with no importance, no inbound links and no category;
    /// it is the author when its content is the author variant. Fails when
    /// the id is taken.
    pub fn add_node(&mut self, id: NodeId, pos: Position, radius: i32, content: NodeContent) -> (r: Result<(), RegistryError>)
        requires
            old(self).wf(),
        ensures
            final(self).wf(),
            final(self).edges == old(self).edges,
            final(self).show_connection_lines == old(self).show_connection_lines,
            old(self).has_node(id) ==> r == Err::<(), RegistryError>(RegistryError::DuplicateId(id)) && final(self).nodes@ == old(self).nodes@,
            !old(self).has_node(id) ==> r is Ok && final(self).nodes@ == old(self).nodes@.push(Node {
                id,
                pos,
                radius,
                content,
                importance: None,
                inbound_count: 0,
                category: None,
                is_author: content is Author,
            }),
    {
        match self.find_index(id) {
            Some(_) => Err(RegistryError::DuplicateId(id)),
            None => {
                let is_author = content.is_author();
                let entry = Node {
                    id,
                    pos,
                    radius,
                    content,
                    importance: None,
                    inbound_count: 0,
                    category: None,
                    is_author,
                };
                self.nodes.push(entry);
                Ok(())
            },
        }
    }

    /// Adds an undirected edge; the endpoints are not checked.
    pub fn add_edge(&mut self, a: NodeId, b: NodeId)
        ensures
            final(self).nodes == old(self).nodes,
            final(self).show_connection_lines == old(self).show_connection_lines,
            final(self).edges@ == old(self).edges@.push((a, b)),
    {
        self.edges.push((a, b));
    }
}

impl NodeRegistry {
    /// Sets the importance rating of node `id`; a missing id changes nothing.
    pub fn set_node_importance(&mut self, id: NodeId, importance: u8)
        requires
            old(self).wf(),
        ensures
            final(self).wf(),
            final(self).edges == old(self).edges,
            final(self).show_connection_lines == old(self).show_connection_lines,
            only_changed(old(self).nodes@, final(self).nodes@, id, |e: Node| Node { importance: Some(importance), ..e }),
    {
        if let Some(i) = self.find_index(id) {
            self.nodes[i].importance = Some(importance);
        }
    }

    /// Sets the inbound-link count of node `id`; a missing id changes nothing.
    pub fn set_node_inbound_count(&mut self, id: NodeId, count: usize)
        requires
            old(self).wf(),
        ensures
            final(self).wf(),
            final(self).edges == old(self).edges,
            final(self).show_connection_lines == old(self).show_connection_lines,
            only_changed(old(self).nodes@, final(self).nodes@, id, |e: Node| Node { inbound_count: count, ..e }),
    {
        if let Some(i) = self.find_index(id) {
            self.nodes[i].inbound_count = count;
        }
    }

    /// Sets the category of node `id`; a missing id changes nothing.
    pub fn set_node_category(&mut self, id: NodeId, category: Option<String>)
        requires
            old(self).wf(),
        ensures
            final(self).wf(),
            final(self).edges == old(self).edges,
            final(self).show_connection_lines == old(self).show_connection_lines,
            only_changed(old(self).nodes@, final(self).nodes@, id, |e: Node| Node { category: category, ..e }),
    {
        if let Some(i) = self.find_index(id) {
            self.nodes[i].category = category;
        }
    }

    /// Sets the radius of node `id`; a missing id changes nothing.
    pub fn update_node_radius(&mut self, id: NodeId, radius: i32)
        requires
            old(self).wf(),
        ensures
            final(self).wf(),
            final(self).edges == old(self).edges,
            final(self).show_connection_lines == old(self).show_connection_lines,
            only_changed(old(self).nodes@, final(self).nodes@, id, |e: Node| Node { radius: radius, ..e }),
    {
        if let Some(i) = self.find_index(id) {
            self.nodes[i].radius = radius;
        }
    }

    /// Moves node `id` to a screen position; a missing id changes nothing.
    pub fn set_node_position(&mut self, id: NodeId, pos: Position)
        requires
            old(self).wf(),
        ensures
            final(self).wf(),
            final(self).edges == old(self).edges,
            final(self).show_connection_lines == old(self).show_connection_lines,
            only_changed(old(self).nodes@, final(self).nodes@, id, |e: Node| Node { pos: pos, ..e }),
    {
        if let Some(i) = self.find_index(id) {
            self.nodes[i].pos = pos;
        }
    }

    /// Flags node `id` as the author; a missing id changes nothing.
    pub fn mark_author(&mut self, id: NodeId)
        requires
            old(self).wf(),
        ensures
            final(self).wf(),
            final(self).edges == old(self).edges,
            final(self).show_connection_lines == old(self).show_connection_lines,
            only_changed(old(self).nodes@, final(self).nodes@, id, |e: Node| Node { is_author: true, ..e }),
    {
        if let Some(i) = self.find_index(id) {
            self.nodes[i].is_author = true;
        }
    }

    /// Whether connection lines are drawn.
    pub fn set_connection_line_visibility(&mut self, visible: bool)
        ensures
            final(self).nodes == old(self).nodes,
            final(self).edges == old(self).edges,
            final(self).show_connection_lines == visible,
    {
        self.show_connection_lines = visible;
    }

    /// The screen position of node `id`, if it is registered.
    pub fn position_of(&self, id: NodeId) -> (r: Option<Position>)
        requires
            self.wf(),
        ensures
            match r {
                Some(p) => exists|i: int| 0 <= i < self.nodes@.len() && #[trigger] self.nodes@[i].id == id && self.nodes@[i].pos == p,
                None => !self.has_node(id),
            },
    {
        match self.find_index(id) {
            Some(i) => Some(self.nodes[i].pos),
            None => None,
        }
    }

    /// The radius of node `id`, if it is registered.
    pub fn radius_of(&self, id: NodeId) -> (r: Option<i32>)
        requires
            self.wf(),
        ensures
            match r {
                Some(rad) => exists|i: int| 0 <= i < self.nodes@.len() && #[trigger] self.nodes@[i].id == id && self.nodes@[i].radius == rad,
                None => !self.has_node(id),
            },
    {
        match self.find_index(id) {
            Some(i) => Some(self.nodes[i].radius),
            None => None,
        }
    }

    /// The index of the author node: the first node flagged as author.
    pub fn author_index(&self) -> (r: Option<usize>)
        ensures
            match r {
                Some(i) => first_author_index(self.nodes@, self.nodes@.len() as int) == Some(i as int) && i < self.nodes@.len(),
                None => first_author_index(self.nodes@, self.nodes@.len() as int) is None,
            },
    {
        let mut i: usize = 0;
        while i < self.nodes.len()
            invariant
                i <= self.nodes@.len(),
                first_author_index(self.nodes@, i as int) is None,
            decreases self.nodes@.len() - i,
        {
            if self.nodes[i].is_author {
                proof {
                    lemma_first_author_stable(self.nodes@, i as int + 1, self.nodes@.len() as int);
                }
                return Some(i);
            }
            i = i + 1;
        }
        None
    }

    /// The id of the author node: the first node flagged as author.
    pub fn get_author_node_id(&self) -> (r: Option<NodeId>)
        ensures
            r == author_id_spec(self.nodes@),
    {
        match self.author_index() {
            Some(i) => Some(self.nodes[i].id),
            None => None,
        }
    }

    /// Whether `id` is the author node.
    pub fn is_author_node(&self, id: NodeId) -> (r: bool)
        ensures
            r == (author_id_spec(self.nodes@) == Some(id)),
    {
        match self.get_author_node_id() {
            Some(a) => a == id,
            None => false,
        }
    }

    /// The ids of the nodes in `category`, in registry order.
    pub fn get_nodes_by_category(&self, category: &String) -> (r: Vec<NodeId>)
        ensures
            r@ == category_ids(self.nodes@, category@),
    {
        let mut r: Vec<NodeId> = Vec::new();
        let mut i: usize = 0;
        while i < self.nodes.len()
            invariant
                i <= self.nodes@.len(),
                r@ == category_ids(self.nodes@.subrange(0, i as int), category@),
            decreases self.nodes@.len() - i,
        {
            proof {
                assert(self.nodes@.subrange(0, i as int + 1).drop_last() =~= self.nodes@.subrange(0, i as int));
            }
            let matches = match &self.nodes[i].category {
                Some(c) => *c == *category,
                None => false,
            };
            if matches {
                r.push(self.nodes[i].id);
            }
            i = i + 1;
        }
        assert(self.nodes@.subrange(0, i as int) =~= self.nodes@);
        r
    }

    /// The ids of all nodes, in registry order.
    pub fn node_ids(&self) -> (r: Vec<NodeId>)
        ensures
            r@.len() == self.nodes@.len(),
            forall|i: int| 0 <= i < r@.len() ==> #[trigger] r@[i] == self.nodes@[i].id,
    {
        let mut r: Vec<NodeId> = Vec::new();
        let mut i: usize = 0;
        while i < self.nodes.len()
            invariant
                i <= self.nodes@.len(),
                r@.len() == i,
                forall|k: int| 0 <= k < i ==> #[trigger] r@[k] == self.nodes@[k].id,
            decreases self.nodes@.len() - i,
        {
            r.push(self.nodes[i].id);
            i = i + 1;
        }
        r
    }
}

/// Smallest and largest radius a node is sized to.
pub const MIN_RADIUS: i32 = 15;
pub const MAX_RADIUS: i32 = 60;

/// How much an importance rating adds to a node's radius.
pub open spec fn importance_bonus(importance: Option<u8>) -> int {
    match importance {
        Some(1) => -5,
        Some(2) => -2,
        Some(4) => 5,
        Some(5) => 10,
        _ => 0,
    }
}

/// The radius of a node from a base size, its importance and its number of
/// inbound links: `base + bonus + 3 * floor(sqrt(inbound))`, kept within
/// `[MIN_RADIUS, MAX_RADIUS]`.
pub open spec fn dynamic_radius(base: int, importance: Option<u8>, inbound_count: int) -> int {
    clamp_spec(base + importance_bonus(importance) + 3 * int_sqrt(inbound_count), MIN_RADIUS as int, MAX_RADIUS as int)
}

/// Sizes a node by importance and popularity.
pub fn calculate_dynamic_radius(base_radius: i32, importance: Option<u8>, inbound_count: usize) -> (r: i32)
    ensures
        r == dynamic_radius(base_radius as int, importance, inbound_count as int),
        MIN_RADIUS <= r <= MAX_RADIUS,
{
    let bonus: i64 = match importance {
        Some(1) => -5,
        Some(2) => -2,
        Some(4) => 5,
        Some(5) => 10,
        _ => 0,
    };
    let root = isqrt(inbound_count as u128);
    proof {
        lemma_isqrt_is_int_sqrt(inbound_count as int, root as int);
        assert(root <= inbound_count) by (nonlinear_arith)
            requires
                root * root <= inbound_count,
                root >= 0,
        ;
    }
    let size = base_radius as i128 + bonus as i128 + 3 * (root as i128);
    clamp_to(size, MIN_RADIUS as i64, MAX_RADIUS as i64) as i32
}

/// The author index depends on the author flags alone.
pub proof fn lemma_first_author_same_flags(a: Seq<Node>, b: Seq<Node>, n: int)
    requires
        0 <= n <= a.len(),
        a.len() == b.len(),
        forall|i: int| 0 <= i < a.len() ==> (#[trigger] a[i]).is_author == b[i].is_author,
    ensures
        first_author_index(a, n) == first_author_index(b, n),
    decreases n,
{
    if n > 0 {
        lemma_first_author_same_flags(a, b, n - 1);
    }
}

/// Once an author index is found among the first `n` entries, it stays the
/// answer for every longer prefix.
pub proof fn lemma_first_author_stable(nodes: Seq<Node>, n: int, m: int)
    requires
        0 <= n <= m,
        first_author_index(nodes, n) is Some,
    ensures
        first_author_index(nodes, m) == first_author_index(nodes, n),
    decreases m - n,
{
    if m > n {
        lemma_first_author_stable(nodes, n, m - 1);
    }
}

} // verus!
