//! Why an operation on the world was refused.

use vstd::prelude::*;

verus! {

/// The reason an operation left the world untouched.
#[derive(Clone, Copy, Debug, PartialEq, Eq, Structural)]
pub enum GameError {
    /// The treasure does not cover the price.
    PreconditionViolation,
    /// An inventory index, a tile index, an entity index or a cell that
    /// does not exist, or a flow feature that points off the grid.
    InvalidReference,
    /// The result would not fit in sixty-four bits.
    ArithmeticOverflow,
}

} // verus!
