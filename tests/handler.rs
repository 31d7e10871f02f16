use pegdrop::fixed::{Fixed, Vec2};
use pegdrop::physics::Physics;
use pegdrop::physics_handler::PhysicsHandler;

fn at(x: i32, y: i32) -> Vec2 {
    Vec2::new(Fixed::new(x), Fixed::new(y))
}

#[test]
fn configs_of_the_game() {
    let pegs = PhysicsHandler::peg_config();
    assert_eq!((pegs.left_wall, pegs.right_wall, pegs.up_wall, pegs.down_wall), (25, 176, 20, 130));
    assert_eq!((pegs.gravity, pegs.repulsion_strength, pegs.object_radius), (0, 3000, 4));
    let ball = PhysicsHandler::ball_config();
    assert_eq!((ball.up_wall, ball.down_wall, ball.gravity, ball.moving_radius), (0, 180, 200, 4));
}

#[test]
fn spawn_uses_the_first_hidden_peg() {
    let mut showable = [true, false, false];
    let mut collidable = [true, false, false];
    let mut positions = [at(50, 50), at(0, 0), at(0, 0)];
    let mut velocities = [at(0, 0); 3];
    let mut physics = Physics::<3>::new(&positions, &collidable).unwrap();
    let spawned = PhysicsHandler::spawn_single_peg_from_green(
        &mut showable,
        &mut collidable,
        &mut positions,
        &mut velocities,
        &mut physics,
        at(80, 40),
        1234,
        -567,
    );
    assert_eq!(spawned, Ok(true));
    assert_eq!(showable, [true, true, false]);
    assert_eq!(collidable, [true, true, false]);
    assert_eq!(positions[1], at(80, 40));
    assert_eq!(velocities[1], at(34, -67));
    assert_eq!(velocities[2], at(0, 0));
}

#[test]
fn spawn_without_hidden_peg_does_nothing() {
    let mut showable = [true, true];
    let mut collidable = [true, false];
    let mut positions = [at(50, 50), at(60, 60)];
    let mut velocities = [at(1, 1); 2];
    let mut physics = Physics::<2>::new(&positions, &collidable).unwrap();
    let spawned = PhysicsHandler::spawn_single_peg_from_green(
        &mut showable,
        &mut collidable,
        &mut positions,
        &mut velocities,
        &mut physics,
        at(80, 40),
        1,
        2,
    );
    assert_eq!(spawned, Ok(false));
    assert_eq!(positions, [at(50, 50), at(60, 60)]);
    assert_eq!(collidable, [true, false]);
}

#[test]
fn hidden_pegs_follow_collidability() {
    let collidable = [true, false, false, true];
    let mut showable = [true, true, false, false];
    PhysicsHandler::hide_non_collidable_pegs(&collidable, &mut showable);
    assert_eq!(showable, [true, false, false, false]);
}

#[test]
fn ball_falls_under_gravity() {
    let positions = [at(150, 150)];
    let collidable = [true];
    let physics = Physics::<1>::new(&positions, &collidable).unwrap();
    let walls = [(at(0, 0), at(0, 0)), (at(0, 0), at(0, 0))];
    let (p, v, touched) =
        PhysicsHandler::move_ball_and_detect_collisions(&physics, at(100, 11), at(0, 0), &positions, &collidable, &walls)
            .unwrap();
    assert!(touched.is_empty());
    // Gravity 200 times the frame time 4/256, then the move over one frame.
    assert_eq!(v, Vec2::new(Fixed::from_raw(0), Fixed::from_raw(800)));
    assert_eq!(p, Vec2::new(Fixed::new(100), Fixed::from_raw(11 * 256 + 12)));
}

#[test]
fn pegs_update_keeps_them_in_bounds() {
    let mut positions = [at(30, 30), at(33, 30), at(100, 100)];
    let mut velocities = [at(0, 0), at(0, 0), at(10, 0)];
    let collidable = [true, true, true];
    let force = [Fixed::new(100); 3];
    let mut physics = Physics::<3>::new(&positions, &collidable).unwrap();
    for _ in 0..30 {
        PhysicsHandler::update_pegs(&mut physics, &mut positions, &mut velocities, &collidable, &force).unwrap();
    }
    for p in positions.iter() {
        assert!(p.x.raw >= 0 && p.x.raw <= 184 * 256 && p.y.raw >= 0 && p.y.raw <= 152 * 256);
    }
    assert!(positions[1].x.raw - positions[0].x.raw > 3 * 256);
}
