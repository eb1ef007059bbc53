//! Layout engine for diagrams of a program's interface: one column per
//! operation, showing its signers, mutable and immutable accounts and its
//! arguments on a fixed-width grid.
//!
//! - `model`: operations, nested resource requirements and their views.
//! - `flatten`: depth-first flattening of nested requirement groups.
//! - `pack`: row counts, grid positions and the three account categories.
//! - `column`: pixel geometry and the boxes of one operation's column.
//! - `canvas`: canvas size and column origins.
//! - `diagram`: the ordered draw primitives of a whole diagram.

pub mod model;
pub mod flatten;
pub mod pack;
pub mod column;
pub mod canvas;
pub mod diagram;
