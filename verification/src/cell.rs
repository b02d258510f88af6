use vstd::prelude::*;

verus! {

/// A cell of the playing field: either `Empty`, or the tag of the shape that
/// produced the block occupying it. The tag carries no behaviour of its own;
/// it exists so a renderer can colour settled blocks.
#[derive(Clone, Copy, PartialEq, Eq, Structural, Debug)]
pub enum Tetromino {
    I,
    O,
    T,
    S,
    Z,
    J,
    L,
    Empty,
}

} // verus!
