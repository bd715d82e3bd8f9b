//! Move generation for an 8x8 Reversi board held in two 64-bit occupancy masks.
//!
//! Row 0 is the top of the board and occupies the most significant byte of a
//! mask; within a row, column 0 is the most significant bit of that byte.

pub mod bits;
pub mod candidates;
pub mod captures;
pub mod cli;
pub mod client;
pub mod debugger;
pub mod direction;
pub mod gui;
pub mod region;
pub mod square;
pub mod wire;

pub use crate::candidates::piece_positions;
pub use crate::captures::available_captures;
pub use crate::region::{
    BOTTOM_EDGE, BOTTOM_MESH, GENERAL_EDGE, GENERAL_MESH, LEFT_BOTTOM_MESH, LEFT_EDGE, LEFT_MESH,
    LEFT_TOP_MESH, RIGHT_BOTTOM_MESH, RIGHT_EDGE, RIGHT_MESH, RIGHT_TOP_MESH, TOP_EDGE, TOP_MESH,
};
pub use crate::square::{bitboard_position, bitboard_rowcol};
