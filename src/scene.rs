use vstd::prelude::*;

verus! {

/// The screens of the game.
#[derive(Clone, Copy, Debug, PartialEq, Eq, Structural)]
pub enum Scene {
    Title,
    Game,
    GameOver,
    Drop,
}

/// The outcome of an on-device test scene.
#[derive(Clone, Copy, Debug, PartialEq, Eq)]
pub enum TestResult {
    /// The scene is still running.
    Running,
    /// The scene completed successfully.
    Passed,
    /// The scene failed, for the given reason.
    Failed(&'static str),
    /// The scene completed but its result must be checked by eye.
    ManualCheck(&'static str),
}

} // verus!
