//! Procedural 2D dungeon generation: a cellular-automaton cave with a traced
//! boundary, plus non-overlapping rooms (single and multi-room compounds)
//! placed and connected by doors, validated against a collision model.
//!
//! All geometry is integer fixed-point: coordinates and lengths are measured
//! in subunits of 1/80 meter (see [`geom::SUBUNITS`]), which keeps every
//! derived quantity (wall midpoints, door spans, overlap midpoints) exact.

pub mod ca_simulator;
pub mod collision;
pub mod compound_assembly;
pub mod compound_room;
pub mod direction;
pub mod drawablept;
pub mod geom;
pub mod level;
pub mod rng;
pub mod rooms;
