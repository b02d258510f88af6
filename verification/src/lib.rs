//! The rules engine of a falling-block puzzle game, with its behaviour
//! verified: board state, piece movement, rotation, collision, locking,
//! line clearing, and scoring. Rendering, input, and timing belong to the
//! caller, which drives the engine through plain synchronous calls.

pub mod cell;
pub mod engine;
pub mod grid;
pub mod shapes;

pub use cell::Tetromino;
pub use engine::Tetris;
