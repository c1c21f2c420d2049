//! Integer and combinatorial core of a 2D electrostatic particle-in-cell engine.

pub mod colors;
pub mod connections;
pub mod grid;
pub mod interaction;
pub mod solver_kind;
