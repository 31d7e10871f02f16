use vstd::prelude::*;

use crate::config::GameConfig;
use crate::error::Error;
use crate::fixed::{from_int_spec, fx, Fixed, Vec2};
use crate::grid::{clamp_to_grid, consistent, grid_move_spec};
use crate::physics::{collide_outcome, fields_spec, synced, Physics, PhysicsConfig};
use vstd::wrapping::usize_specs;

verus! {

/// The frame time, 1/60 in fixed point.
pub const DELTA_TIME_RAW: i32 = 4;

/// Stagger of the peg repulsion: each peg is recomputed once every this many frames.
pub const PEG_PARTIAL: usize = 15;

/// The physics settings of the pegs.
pub open spec fn peg_config_spec() -> PhysicsConfig {
    PhysicsConfig {
        left_wall: GameConfig::WALL_LEFT,
        up_wall: GameConfig::PHYSICS_UPPER_WALL,
        right_wall: GameConfig::WALL_RIGHT,
        down_wall: GameConfig::PHYSICS_LOWER_WALL_PEGS,
        moving_radius: GameConfig::PEG_RADIUS,
        static_radius: GameConfig::PEG_RADIUS,
        gravity: 0,
        repulsion_strength: GameConfig::PHYSICS_REPULSION_STRENGTH,
        object_radius: GameConfig::PHYSICS_OBJECT_RADIUS_PEG,
    }
}

/// The physics settings of the ball.
pub open spec fn ball_config_spec() -> PhysicsConfig {
    PhysicsConfig {
        left_wall: GameConfig::WALL_LEFT,
        up_wall: 0,
        right_wall: GameConfig::WALL_RIGHT,
        down_wall: GameConfig::PHYSICS_LOWER_WALL_BALL,
        moving_radius: GameConfig::BALL_RADIUS,
        static_radius: GameConfig::PEG_RADIUS,
        gravity: GameConfig::PHYSICS_GRAVITY,
        repulsion_strength: 0,
        object_radius: GameConfig::PHYSICS_OBJECT_RADIUS_BALL,
    }
}

/// A component of the velocity of a spawned peg, from a random number: its
/// remainder by the spawn velocity range, keeping its sign.
pub open spec fn spawn_component(x: i32) -> int {
    if x >= 0 {
        (x as int) % 100
    } else {
        -((-(x as int)) % 100)
    }
}

/// The velocity of a spawned peg from two random numbers.
pub open spec fn spawn_velocity(rx: i32, ry: i32) -> Vec2 {
    Vec2 { x: from_int_spec(spawn_component(rx)), y: from_int_spec(spawn_component(ry)) }
}

/// `k` is the first slot that is not shown.
pub open spec fn first_hidden(showable: Seq<bool>, k: int) -> bool {
    0 <= k < showable.len() && !showable[k] && forall|j: int| 0 <= j < k ==> showable[j]
}

/// Runs the engine with the settings of the game.
pub struct PhysicsHandler;

impl PhysicsHandler {
    pub fn peg_config() -> (r: PhysicsConfig)
        ensures
            r == peg_config_spec(),
    {
        PhysicsConfig {
            left_wall: GameConfig::WALL_LEFT,
            up_wall: GameConfig::PHYSICS_UPPER_WALL,
            right_wall: GameConfig::WALL_RIGHT,
            down_wall: GameConfig::PHYSICS_LOWER_WALL_PEGS,
            moving_radius: GameConfig::PEG_RADIUS,
            static_radius: GameConfig::PEG_RADIUS,
            gravity: 0,
            repulsion_strength: GameConfig::PHYSICS_REPULSION_STRENGTH,
            object_radius: GameConfig::PHYSICS_OBJECT_RADIUS_PEG,
        }
    }

    pub fn ball_config() -> (r: PhysicsConfig)
        ensures
            r == ball_config_spec(),
    {
        PhysicsConfig {
            left_wall: GameConfig::WALL_LEFT,
            up_wall: 0,
            right_wall: GameConfig::WALL_RIGHT,
            down_wall: GameConfig::PHYSICS_LOWER_WALL_BALL,
            moving_radius: GameConfig::BALL_RADIUS,
            static_radius: GameConfig::PEG_RADIUS,
            gravity: GameConfig::PHYSICS_GRAVITY,
            repulsion_strength: 0,
            object_radius: GameConfig::PHYSICS_OBJECT_RADIUS_BALL,
        }
    }

    /// One frame of the pegs, with the peg settings and a stagger of `PEG_PARTIAL`.
    pub fn update_pegs<const MAX_PEGS: usize>(
        physics: &mut Physics<MAX_PEGS>,
        positions: &mut [Vec2; MAX_PEGS],
        velocities: &mut [Vec2; MAX_PEGS],
        collidable: &[bool; MAX_PEGS],
        force_radius_squared: &[Fixed; MAX_PEGS],
    ) -> (r: Result<(), Error>)
        requires
            old(physics).wf(),
        ensures
            final(physics).wf(),
            final(physics).frame() == usize_specs::wrapping_add(old(physics).frame(), 1),
            forall|k: int|
                0 <= k < MAX_PEGS && !#[trigger] collidable@[k] ==> final(positions)@[k] == old(
                    positions,
                )@[k] && final(velocities)@[k] == old(velocities)@[k],
            r is Ok ==> forall|k: int|
                0 <= k < MAX_PEGS && collidable@[k] ==> clamp_to_grid(#[trigger] final(positions)@[k])
                    == final(positions)@[k],
            consistent(old(physics).grid(), old(positions)@) && r is Ok ==> consistent(
                final(physics).grid(),
                final(positions)@,
            ),
            synced(old(physics).grid(), old(positions)@, collidable@) && r is Ok ==> synced(
                final(physics).grid(),
                final(positions)@,
                collidable@,
            ),
            match fields_spec(
                (old(physics).grid(), old(positions)@, old(velocities)@),
                collidable@,
                force_radius_squared@,
                fx(DELTA_TIME_RAW),
                PEG_PARTIAL as int,
                old(physics).frame(),
                peg_config_spec(),
            ) {
                Ok(st) => r is Ok && final(physics).grid() == st.0 && final(positions)@ == st.1
                    && final(velocities)@ == st.2,
                Err(e) => r == Err::<(), Error>(e),
            },
    {
        let config = Self::peg_config();
        physics.move_from_fields::<15>(
            positions,
            velocities,
            collidable,
            force_radius_squared,
            Fixed::from_raw(DELTA_TIME_RAW),
            &config,
        )
    }

    /// One step of the ball against the pegs and the two walls of the bucket,
    /// with the ball settings.
    pub fn move_ball_and_detect_collisions<const MAX_PEGS: usize>(
        physics: &Physics<MAX_PEGS>,
        ball_position: Vec2,
        ball_velocity: Vec2,
        positions: &[Vec2; MAX_PEGS],
        collidable: &[bool; MAX_PEGS],
        bucket_walls: &[(Vec2, Vec2); 2],
    ) -> (r: Result<(Vec2, Vec2, Vec<usize>), Error>)
        requires
            physics.wf(),
        ensures
            match r {
                Ok(t) => collide_outcome(
                    physics.grid(),
                    ball_position,
                    ball_velocity,
                    positions@,
                    collidable@,
                    fx(DELTA_TIME_RAW),
                    bucket_walls@,
                    ball_config_spec(),
                ) == Ok::<(Vec2, Vec2, Seq<usize>), Error>((t.0, t.1, t.2@)),
                Err(e) => collide_outcome(
                    physics.grid(),
                    ball_position,
                    ball_velocity,
                    positions@,
                    collidable@,
                    fx(DELTA_TIME_RAW),
                    bucket_walls@,
                    ball_config_spec(),
                ) == Err::<(Vec2, Vec2, Seq<usize>), Error>(e),
            },
    {
        let config = Self::ball_config();
        physics.move_and_collide(
            ball_position,
            ball_velocity,
            positions,
            collidable,
            Fixed::from_raw(DELTA_TIME_RAW),
            bucket_walls.as_slice(),
            &config,
        )
    }

    fn spawn_axis(x: i32) -> (r: i32)
        ensures
            r == spawn_component(x),
    {
        if x >= 0 {
            x % 100
        } else {
            let m: i64 = (-(x as i64)) % 100;
            -(m as i32)
        }
    }

    /// Puts the first hidden peg at `spawn_position`, shown and collidable,
    /// with a velocity drawn from the random numbers `rx` and `ry`. Tells
    /// whether a hidden peg was found.
    pub fn spawn_single_peg_from_green<const MAX_PEGS: usize>(
        showable: &mut [bool; MAX_PEGS],
        collidable: &mut [bool; MAX_PEGS],
        positions: &mut [Vec2; MAX_PEGS],
        velocities: &mut [Vec2; MAX_PEGS],
        physics: &mut Physics<MAX_PEGS>,
        spawn_position: Vec2,
        rx: i32,
        ry: i32,
    ) -> (r: Result<bool, Error>)
        requires
            old(physics).wf(),
        ensures
            final(physics).wf(),
            final(physics).frame() == old(physics).frame(),
            (forall|j: int| 0 <= j < MAX_PEGS ==> old(showable)@[j]) ==> r == Ok::<bool, Error>(false)
                && final(showable)@ == old(showable)@ && final(collidable)@ == old(collidable)@
                && final(positions)@ == old(positions)@ && final(velocities)@ == old(velocities)@
                && final(physics).grid() == old(physics).grid(),
            forall|k: int|
                #[trigger] first_hidden(old(showable)@, k) ==> final(positions)@ == old(
                    positions,
                )@.update(k, spawn_position) && (r is Ok ==> r == Ok::<bool, Error>(true)
                    && final(showable)@ == old(showable)@.update(k, true) && final(collidable)@
                    == old(collidable)@.update(k, true) && final(velocities)@ == old(
                    velocities,
                )@.update(k, spawn_velocity(rx, ry))),
            forall|k: int|
                #[trigger] first_hidden(old(showable)@, k) ==> match grid_move_spec(
                    old(physics).grid(),
                    k,
                    old(positions)@[k],
                    spawn_position,
                ) {
                    Ok(g) => r == Ok::<bool, Error>(true) && final(physics).grid() == g,
                    Err(e) => r == Err::<bool, Error>(e),
                },
            consistent(old(physics).grid(), old(positions)@) && r is Ok ==> consistent(
                final(physics).grid(),
                final(positions)@,
            ),
    {
        let mut i: usize = 0;
        while i < MAX_PEGS
            invariant
                i <= MAX_PEGS,
                forall|j: int| 0 <= j < i ==> old(showable)@[j],
                showable@ == old(showable)@,
                collidable@ == old(collidable)@,
                positions@ == old(positions)@,
                velocities@ == old(velocities)@,
                physics.wf(),
                physics.grid() == old(physics).grid(),
                physics.frame() == old(physics).frame(),
            decreases MAX_PEGS - i,
        {
            if !showable[i] {
                assert(first_hidden(old(showable)@, i as int));
                assert forall|k: int| #[trigger] first_hidden(old(showable)@, k) implies k == i by {
                    if k < i {
                    } else if k > i {
                        assert(old(showable)@[i as int]);
                    }
                };
                match physics.force_move(i, spawn_position, positions) {
                    Ok(()) => {},
                    Err(e) => {
                        return Err(e);
                    },
                }
                showable[i] = true;
                collidable[i] = true;
                let vx = Self::spawn_axis(rx);
                let vy = Self::spawn_axis(ry);
                velocities[i] = Vec2::new(Fixed::new(vx), Fixed::new(vy));
                return Ok(true);
            }
            i = i + 1;
        }
        assert forall|k: int| !#[trigger] first_hidden(old(showable)@, k) by {};
        Ok(false)
    }

    /// Hides every peg that is no longer collidable.
    pub fn hide_non_collidable_pegs<const MAX_PEGS: usize>(
        collidable: &[bool; MAX_PEGS],
        showable: &mut [bool; MAX_PEGS],
    )
        ensures
            forall|k: int|
                0 <= k < MAX_PEGS ==> #[trigger] final(showable)@[k] == (old(showable)@[k]
                    && collidable@[k]),
    {
        let mut i: usize = 0;
        while i < MAX_PEGS
            invariant
                i <= MAX_PEGS,
                showable@.len() == MAX_PEGS,
                forall|k: int| 0 <= k < i ==> #[trigger] showable@[k] == (old(showable)@[k] && collidable@[k]),
                forall|k: int| i <= k < MAX_PEGS ==> #[trigger] showable@[k] == old(showable)@[k],
            decreases MAX_PEGS - i,
        {
            if !collidable[i] {
                showable[i] = false;
            }
            i = i + 1;
        }
    }
}

} // verus!
