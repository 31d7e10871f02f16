use vstd::prelude::*;

verus! {

/// Integer settings of the game.
pub struct GameConfig;

impl GameConfig {
    pub const TARGET_SCORE: i32 = 1000;

    pub const WALL_LEFT: i32 = 25;

    pub const WALL_RIGHT: i32 = 176;

    pub const PHYSICS_GRAVITY: i32 = 200;

    pub const PHYSICS_REPULSION_STRENGTH: i32 = 3000;

    pub const PHYSICS_UPPER_WALL: i32 = 20;

    pub const PHYSICS_LOWER_WALL_PEGS: i32 = 130;

    pub const PHYSICS_LOWER_WALL_BALL: i32 = 180;

    pub const PHYSICS_OBJECT_RADIUS_BALL: i32 = 1;

    pub const PHYSICS_OBJECT_RADIUS_PEG: i32 = 4;

    pub const BALL_RADIUS: i32 = 4;

    pub const PEG_RADIUS: i32 = 3;

    pub const BUCKET_WIDTH: i32 = 32;

    pub const BUCKET_HEIGHT: i32 = 16;

    pub const BUCKET_WALL_OFFSET_LEFT: i32 = 3;

    pub const BUCKET_WALL_OFFSET_RIGHT: i32 = 28;

    pub const MAX_PEGS_TO_SPAWN: usize = 50;

    pub const PEG_SPAWN_SCREEN_HEIGHT: i32 = 120;

    pub const PEG_SPAWN_MIN_Y: i32 = 30;

    pub const PEG_SPAWN_VELOCITY_RANGE: i32 = 100;

    pub const SHAKE_DURATION: u32 = 10;

    pub const SHAKE_INTENSITY: i32 = 3;

    pub const FLASH_DURATION: u32 = 3;
}

} // verus!
