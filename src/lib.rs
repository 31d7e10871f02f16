/// Timing statistics of the physics, fed with readings of the hardware timers.
pub mod bench;
/// Integer settings of the game.
pub mod config;
/// Balls and the effects they apply to the score.
pub mod effect;
/// Errors of the grid, the engine and the game state.
pub mod error;
/// Fixed-point numbers with 8 fractional bits, and 2D vectors of them.
pub mod fixed;
/// The uniform grid that indexes bodies by cell.
pub mod grid;
/// Decisions taken from the buttons.
pub mod input;
/// Levels and the pegs they hold.
pub mod level;
/// Kinds of peg.
pub mod peg;
/// Timed spawning of pegs.
pub mod peg_generator;
/// The physics engine: the moving ball and the free pegs.
pub mod physics;
/// The engine run with the settings of the game.
pub mod physics_handler;
/// Kinds of ball.
pub mod save;
/// Screens of the game.
pub mod scene;
/// Scores and their accumulation over a level.
pub mod score;
/// Screen shake and flash.
pub mod shake;
/// Phases of a turn.
pub mod state;
