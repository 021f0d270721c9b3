//! Force-directed graph layout: a node registry, a viewport transform, a set of
//! force fields and a fixed-step simulation with drag support, all on
//! fixed-point integer coordinates.

pub mod fixed;
pub mod types;
pub mod viewport;
pub mod registry;
pub mod forces;
pub mod world;
pub mod drag;
pub mod laws;
pub mod articles;
pub mod session;
