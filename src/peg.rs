use vstd::prelude::*;

verus! {

/// Radius of a peg.
pub const RADIUS: i32 = 3;

/// The colour of a peg, which decides what hitting it scores.
#[derive(Clone, Copy, Debug, PartialEq, Eq, Structural)]
pub enum Kind {
    Blue,
    Red,
    Yellow,
    Green,
}

} // verus!
