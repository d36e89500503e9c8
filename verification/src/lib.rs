//! A grid-resident rigid-body engine: bodies are sets of grid cells, moved
//! cell by cell under a predicted transform and kept apart by impulses that
//! are derived from a per-cell rejection field.

pub mod claims;
pub mod collision;
pub mod contact;
pub mod direction;
pub mod fixed;
pub mod grid;
pub mod init;
pub mod object;
pub mod physics;
pub mod rejection;
pub mod render;
pub mod rotation;
pub mod solver;
pub mod utils;
pub mod vector;
pub mod world;
pub mod zorder;
