//! Greedy heuristic solver for packing a 5x5x5 lattice with rigid
//! five-node skew pieces.
//!
//! The lattice keeps, for every cell, two heuristic counters: how many
//! orientations are still placeable with that cell as root, and how many
//! still-valid placements would cover that cell.  Placing a piece marks its
//! cells occupied and retracts every candidate placement that now overlaps
//! an occupied cell.  The greedy step picks the most constrained root and,
//! within it, the orientation touching the most constrained cells.

pub mod direction;
pub mod cube;
pub mod heuristics;
pub mod piece;
pub mod render;
