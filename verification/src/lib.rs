//! Rendering core of a terminal animation of falling blocks: a fixed-size
//! grid of text cells that repaints itself in place, and the record of a
//! block's timing and motion parameters.

pub mod block;
pub mod board;
pub mod clock;
pub mod coords;
pub mod laws;
pub mod text;

pub use block::{Block, BlockView};
pub use board::{Board, BoardError, BoardView};
pub use clock::Timestamp;
pub use coords::modulus;
