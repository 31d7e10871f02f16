use pegdrop::error::Error;
use pegdrop::fixed::{Fixed, Vec2};
use pegdrop::physics::{Physics, PhysicsConfig};

fn at(x: i32, y: i32) -> Vec2 {
    Vec2::new(Fixed::new(x), Fixed::new(y))
}

fn raw(x: i32, y: i32) -> Vec2 {
    Vec2::new(Fixed::from_raw(x), Fixed::from_raw(y))
}

fn open_config(moving_radius: i32, static_radius: i32) -> PhysicsConfig {
    PhysicsConfig {
        left_wall: 0,
        up_wall: 0,
        right_wall: 200,
        down_wall: 200,
        moving_radius,
        static_radius,
        gravity: 0,
        repulsion_strength: 10,
        object_radius: 1,
    }
}

#[test]
fn resting_ball_touching_a_peg_is_pushed_out_along_x() {
    let positions = [at(55, 50)];
    let collidable = [true];
    let physics = Physics::<1>::new(&positions, &collidable).unwrap();
    let config = open_config(7, 3);
    let (position, velocity, touched) = physics
        .move_and_collide(at(50, 50), at(0, 0), &positions, &collidable, Fixed::from_raw(0), &[], &config)
        .unwrap();
    assert_eq!(touched, vec![0]);
    // Half of the overlap (10 - 5) is corrected on the moving body.
    assert_eq!(position, raw(50 * 256 - 640, 50 * 256));
    assert_eq!(velocity, at(0, 0));
}

#[test]
fn ball_at_the_left_wall_moving_left_bounces() {
    let positions = [at(0, 0)];
    let collidable = [false];
    let physics = Physics::<1>::new(&positions, &collidable).unwrap();
    let mut config = open_config(4, 3);
    config.left_wall = 10;
    let (position, velocity, touched) = physics
        .move_and_collide(at(14, 50), at(-60, 0), &positions, &collidable, Fixed::from_raw(4), &[], &config)
        .unwrap();
    assert!(touched.is_empty());
    // The wall surface is the wall plus the moving radius 4.
    assert_eq!(position, raw(14 * 256, 50 * 256));
    // 60 * 0.9 in fixed point, plus the escape force 15.
    assert_eq!(velocity, raw(13800 + 3840, 0));
}

#[test]
fn wall_bounces_do_not_gain_speed() {
    let config = open_config(4, 3);
    let mut speed = 200 * 256;
    for _ in 0..20 {
        let (p, v) = Physics::<1>::move_and_collide_with_walls(
            raw(-256, 100 * 256),
            raw(-speed, 0),
            Fixed::from_raw(256),
            &config,
        );
        assert_eq!(p.x.raw, 256);
        assert!(v.x.raw <= speed * 230 / 256 + 1 + 3840);
        speed = v.x.raw;
    }
    assert!(speed < 200 * 256);
}

#[test]
fn corner_hit_escapes_diagonally_and_damps() {
    let config = open_config(4, 3);
    let (p, v) = Physics::<1>::move_and_collide_with_walls(at(-5, -5), at(-10, -10), Fixed::new(1), &config);
    assert_eq!(p, at(1, 1));
    // -(-10) * 0.9 + 15, plus 15 towards the centre, then damped by 0.8.
    let bounced = 2300 + 3840 + 3840;
    let damped = bounced * 204 / 256;
    assert_eq!(v, raw(damped, damped));
}

#[test]
fn segment_pushes_ball_out_and_reflects() {
    let config = open_config(4, 3);
    let positions = [at(0, 0)];
    let collidable = [false];
    let physics = Physics::<1>::new(&positions, &collidable).unwrap();
    let walls = [(at(40, 60), at(80, 60))];
    let (p, v, _) = physics
        .move_and_collide(at(60, 58), at(0, 10), &positions, &collidable, Fixed::from_raw(0), &walls, &config)
        .unwrap();
    assert_eq!(p, at(60, 56));
    assert_eq!(v, raw(0, -2040));
}

#[test]
fn segment_far_away_or_degenerate_is_ignored() {
    let (p, v) = Physics::<1>::collide_with_line_segment(at(60, 20), at(1, 1), Fixed::new(4), at(40, 60), at(80, 60));
    assert_eq!((p, v), (at(60, 20), at(1, 1)));
    let (p, v) = Physics::<1>::collide_with_line_segment(at(60, 58), at(1, 1), Fixed::new(4), at(60, 60), at(60, 60));
    assert_eq!((p, v), (at(60, 58), at(1, 1)));
}

#[test]
fn touched_list_holds_exactly_the_close_pegs() {
    let positions = [at(54, 50), at(50, 57), at(70, 50), at(46, 50)];
    let collidable = [true, true, true, false];
    let physics = Physics::<4>::new(&positions, &collidable).unwrap();
    let config = open_config(3, 3);
    let (_, _, touched) = physics
        .move_and_collide(at(50, 50), at(0, 0), &positions, &collidable, Fixed::from_raw(0), &[], &config)
        .unwrap();
    assert_eq!(touched, vec![0]);
}

#[test]
fn force_move_updates_the_grid() {
    let mut positions = [at(50, 50), at(100, 100)];
    let collidable = [true, false];
    let mut physics = Physics::<2>::new(&positions, &collidable).unwrap();
    assert_eq!(physics.force_move(1, at(52, 50), &mut positions), Ok(()));
    assert_eq!(positions[1], at(52, 50));
    let collidable = [true, true];
    let config = open_config(3, 3);
    let (_, _, touched) = physics
        .move_and_collide(at(50, 53), at(0, 0), &positions, &collidable, Fixed::from_raw(0), &[], &config)
        .unwrap();
    let mut touched = touched;
    touched.sort();
    assert_eq!(touched, vec![0, 1]);
}

#[test]
fn insert_reports_a_full_cell() {
    let positions = [at(50, 50); 9];
    let collidable = [true, true, true, true, true, true, true, true, false];
    let mut physics = Physics::<9>::new(&positions, &collidable).unwrap();
    assert_eq!(physics.insert(8, at(50, 50)), Err(Error::CellFull));
    assert!(Physics::<9>::new(&positions, &[true; 9]).is_err());
}

fn two_pegs() -> ([Vec2; 2], [Vec2; 2], [bool; 2], [Fixed; 2]) {
    (
        [at(50, 50), at(60, 50)],
        [at(0, 0), at(0, 0)],
        [true, true],
        [Fixed::new(400), Fixed::new(400)],
    )
}

#[test]
fn repulsion_pushes_pegs_apart() {
    let (mut positions, mut velocities, collidable, force) = two_pegs();
    let mut physics = Physics::<2>::new(&positions, &collidable).unwrap();
    let config = open_config(3, 3);
    physics
        .move_from_fields::<1>(&mut positions, &mut velocities, &collidable, &force, Fixed::new(1), &config)
        .unwrap();
    // Normal -10/100 truncated to -25 raw, force 1, then the 0.98 drag.
    assert_eq!(velocities[0], raw(-25, 0));
    // Body 1 is pushed from where body 0 already moved to.
    assert_eq!(velocities[1], raw(23, 0));
    // Integrated over one unit of time with the new velocities.
    assert_eq!(positions, [raw(50 * 256 - 25, 50 * 256), raw(60 * 256 + 23, 50 * 256)]);
}

#[test]
fn staggered_repulsion_matches_every_frame_on_average() {
    let config = open_config(3, 3);
    let (mut p1, mut v1, collidable, force) = two_pegs();
    let mut every_frame = Physics::<2>::new(&p1, &collidable).unwrap();
    let (mut p2, mut v2, _, _) = two_pegs();
    let mut staggered = Physics::<2>::new(&p2, &collidable).unwrap();
    let delta = Fixed::from_raw(16);
    for _ in 0..2 {
        every_frame
            .move_from_fields::<1>(&mut p1, &mut v1, &collidable, &force, delta, &config)
            .unwrap();
        staggered
            .move_from_fields::<2>(&mut p2, &mut v2, &collidable, &force, delta, &config)
            .unwrap();
    }
    for i in 0..2 {
        assert!((v1[i].x.raw - v2[i].x.raw).abs() <= 2);
        assert_eq!(v1[i].y, v2[i].y);
    }
}

#[test]
fn free_bodies_stay_in_the_grid_and_skip_non_collidable() {
    let mut positions = [at(2, 150), at(90, 90), at(300, 300)];
    let mut velocities = [at(-40, 40), at(5, 5), at(7, 7)];
    let collidable = [true, true, false];
    let force = [Fixed::new(25); 3];
    let mut physics = Physics::<3>::new(&positions, &collidable).unwrap();
    let config = PhysicsConfig {
        left_wall: 0,
        up_wall: 0,
        right_wall: 250,
        down_wall: 250,
        moving_radius: 3,
        static_radius: 3,
        gravity: 0,
        repulsion_strength: 3000,
        object_radius: 4,
    };
    for _ in 0..10 {
        physics
            .move_from_fields::<4>(&mut positions, &mut velocities, &collidable, &force, Fixed::from_raw(4), &config)
            .unwrap();
        for i in 0..2 {
            assert!(positions[i].x.raw >= 0 && positions[i].x.raw <= 184 * 256);
            assert!(positions[i].y.raw >= 0 && positions[i].y.raw <= 152 * 256);
        }
        assert_eq!(positions[2], at(300, 300));
        assert_eq!(velocities[2], at(7, 7));
    }
}

#[test]
fn overlapping_pegs_are_separated() {
    let mut positions = [at(50, 50), at(52, 50)];
    let mut velocities = [at(1, 0), at(-1, 0)];
    let collidable = [true, true];
    let force = [Fixed::new(0); 2];
    let mut physics = Physics::<2>::new(&positions, &collidable).unwrap();
    let config = PhysicsConfig { object_radius: 4, ..open_config(3, 3) };
    physics
        .move_from_fields::<1>(&mut positions, &mut velocities, &collidable, &force, Fixed::from_raw(0), &config)
        .unwrap();
    assert!(positions[0].x.raw < 50 * 256);
    assert!(positions[1].x.raw > 52 * 256);
    assert!(velocities[0].x.raw < 0 && velocities[1].x.raw > 0);
}

#[test]
fn slow_bounce_is_boosted_and_jittered() {
    let mut v = raw(256, -100);
    Physics::<1>::boost_low_velocity_components(&mut v);
    assert_eq!(v, raw(3072, -3072));
    let mut w = raw(0, 5000);
    Physics::<1>::boost_low_velocity_components(&mut w);
    assert_eq!(w, raw(3072, 5000));
    let mut j = raw(0, 0);
    Physics::<1>::add_randomness(&mut j, 1, 3);
    // (1 * 31 + 3 * 17) % 10 - 5 and (1 * 37 + 3 * 23) % 10 - 5.
    assert_eq!(j, at(-3, 1));
    let mut k = raw(0, 0);
    Physics::<1>::add_randomness(&mut k, 1, 2);
    assert_eq!(k, raw(0, 0));
    let mut m = raw(256, 0);
    Physics::<1>::ensure_minimum_velocity(&mut m, 0, 1);
    assert_eq!(m, raw(3072, 3072));
}

#[test]
fn fast_components_are_never_snapped_to_the_floor() {
    let mut v = raw(i32::MIN, 256);
    Physics::<1>::boost_low_velocity_components(&mut v);
    assert_eq!(v, raw(i32::MIN, 3072));
    let mut w = raw(-3072, 3071);
    Physics::<1>::boost_low_velocity_components(&mut w);
    assert_eq!(w, raw(-3072, 3072));
    let mut z = raw(-3071, i32::MAX);
    Physics::<1>::boost_low_velocity_components(&mut z);
    assert_eq!(z, raw(-3072, i32::MAX));
}
