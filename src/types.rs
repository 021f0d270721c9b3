//! Plain data shared by the registry, the simulation and the presentation
//! layer: node identifiers, screen positions, physics vectors, the container
//! rectangle and node content.

use vstd::prelude::*;
use crate::fixed::{clamp_spec, clamp_to};

verus! {

/// Identifier of a node, stable for the node's lifetime.
#[derive(Clone, Copy, Debug, PartialEq, Eq, Hash, Structural)]
pub struct NodeId(pub u32);

/// A point in screen space, in whole pixels.
#[derive(Clone, Copy, Debug, PartialEq, Eq, Structural)]
pub struct Position {
    pub x: i32,
    pub y: i32,
}

/// A node's screen position.
pub type NodePosition = Position;

/// A point or a velocity in physics space, in fixed-point steps.
#[derive(Clone, Copy, Debug, PartialEq, Eq, Structural)]
pub struct Vec2 {
    pub x: i64,
    pub y: i64,
}

/// The layout rectangle that the presentation layer gives the simulation.
#[derive(Clone, Copy, Debug, PartialEq, Eq, Structural)]
pub struct ContainerBound {
    pub x: i32,
    pub y: i32,
    pub width: i32,
    pub height: i32,
    pub top: i32,
    pub left: i32,
    pub bottom: i32,
    pub right: i32,
}

/// What a node shows; the layout engine carries it without reading it.
#[derive(Clone, Debug, PartialEq, Eq)]
pub enum NodeContent {
    Text(String),
    Image(String),
    Link { text: String, url: String },
    Author { name: String, image_url: String, bio: Option<String> },
}

impl Position {
    pub fn new(x: i32, y: i32) -> (r: Position)
        ensures
            r.x == x,
            r.y == y,
    {
        Position { x, y }
    }
}

/// One coordinate of the center of a span that starts at `start` and has
/// length `len` (halved towards negative infinity), kept in `i32` range.
pub open spec fn span_center(start: int, len: int) -> int {
    clamp_spec(start + len / 2, i32::MIN as int, i32::MAX as int)
}

impl ContainerBound {
    /// The empty rectangle at the origin.
    pub fn zero() -> (r: ContainerBound)
        ensures
            r.x == 0 && r.y == 0 && r.width == 0 && r.height == 0,
            r.top == 0 && r.left == 0 && r.bottom == 0 && r.right == 0,
    {
        ContainerBound { x: 0, y: 0, width: 0, height: 0, top: 0, left: 0, bottom: 0, right: 0 }
    }

    pub open spec fn center_spec(&self) -> Position {
        Position {
            x: span_center(self.x as int, self.width as int) as i32,
            y: span_center(self.y as int, self.height as int) as i32,
        }
    }

    /// The geometric center of the rectangle, the point that centering pulls
    /// towards.
    pub fn center(&self) -> (r: Position)
        ensures
            r == self.center_spec(),
    {
        let hx: i64 = if self.width >= 0 { (self.width / 2) as i64 } else { -(((-(self.width as i64)) + 1) / 2) };
        let hy: i64 = if self.height >= 0 { (self.height / 2) as i64 } else { -(((-(self.height as i64)) + 1) / 2) };
        let cx = clamp_to(self.x as i128 + hx as i128, i32::MIN as i64, i32::MAX as i64);
        let cy = clamp_to(self.y as i128 + hy as i128, i32::MIN as i64, i32::MAX as i64);
        Position { x: cx as i32, y: cy as i32 }
    }
}

impl NodeContent {
    /// True for the variant that marks the author of the site.
    pub fn is_author(&self) -> (r: bool)
        ensures
            r == (self is Author),
    {
        match self {
            NodeContent::Author { .. } => true,
            _ => false,
        }
    }
}

} // verus!
