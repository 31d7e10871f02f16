use vstd::prelude::*;

verus! {

/// Errors surfaced by the grid, the physics engine and the game state.
#[derive(Clone, Copy, Debug, PartialEq, Eq, Structural)]
pub enum Error {
    /// A position could not be mapped to a grid cell.
    Convertion,
    /// A body index does not fit the grid's index type (`u8`).
    IndexTooBig,
    /// A grid cell already holds its maximum number of members.
    CellFull,
    /// No ball is left to play.
    NoBalls,
    /// A neighbour query found more bodies than its buffer holds.
    TooManyNeighbors,
    /// There is no previous state to return to.
    NoLastState,
    /// A timer was started or stopped out of order.
    BenchmarkError,
}

} // verus!
