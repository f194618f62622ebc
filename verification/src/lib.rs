//! A procedurally generated "house" of connected rooms on an integer grid.
//!
//! The heart of the crate is the map generator: given a catalog of room
//! definitions and a target room count, it places rooms on the grid so that
//! every neighboring pair connects through mutually allowed directions, then
//! derives the final adjacency graph used for navigation between rooms.

pub mod map;
