use pegdrop::bench::{PhysicsOperation, PhysicsStats};
use pegdrop::effect::{from_kinds, ActiveEffect, BallData, BucketEffect, PassiveEffect};
use pegdrop::error::Error;
use pegdrop::fixed::{Fixed, Vec2};
use pegdrop::input::{InputHandler, InventoryNavigation, MovementDirection};
use pegdrop::level::Level;
use pegdrop::peg::Kind;
use pegdrop::peg_generator::PegGenerator;
use pegdrop::save::BallKind;
use pegdrop::score::{Score, ScoreManager};
use pegdrop::shake::{ScreenShake, WhiteFlash};
use pegdrop::state::{State, StateManager};

#[test]
fn score_arithmetic() {
    let s = Score::new(2, 3, 4);
    assert_eq!(s.add(1, 1, 1), Score::new(3, 4, 5));
    assert_eq!(s.mult(2, 3, 4), Score::new(4, 9, 16));
    assert_eq!(s.apply(Score::new(10, 0, -4)), Score::new(12, 3, 0));
    assert_eq!(s.extract(), (6, 4));
}

#[test]
fn score_manager_banks_the_current_score() {
    let mut m = ScoreManager::new(7);
    assert_eq!(m.extract_final_score(), (0, 7));
    assert!(!m.is_winning());
}

#[test]
fn peg_hits_accumulate_with_effects() {
    let mut m = ScoreManager::new(5);
    let inventory = [BallData::from_kind(BallKind::Identity), BallData::from_kind(BallKind::TheDoubler)];
    let ball = Some(BallData::from_kind(BallKind::TheDoubler));
    assert_eq!(m.process_peg_hit(Kind::Blue, &inventory, &ball), (1, 1, 5));
    assert_eq!(m.process_peg_hit(Kind::Red, &inventory, &ball), (3, 1, 5));
    assert_eq!(m.process_peg_hit(Kind::Yellow, &inventory, &None), (3, 1, 6));
    assert_eq!(m.process_bucket_bonus(&[BucketEffect::MultiplyMult(2), BucketEffect::Identity]), (6, 1, 6));
    assert_eq!(m.extract_final_score(), (6, 6));
    assert_eq!(m.extract_final_score(), (6, 6));
    let grabber = Some(BallData::from_kind(BallKind::SmallGrabber));
    assert_eq!(m.process_peg_hit(Kind::Blue, &[], &grabber), (1, 11, 6));
    m.process_bucket_bonus(&[BucketEffect::MultiplyMult(100)]);
    assert_eq!(m.extract_final_score(), (6 + 1100, 6));
    assert!(m.is_winning());
}

#[test]
fn screen_shake_offsets_within_intensity() {
    let mut s = ScreenShake::new(2, 3);
    assert!(s.is_active());
    s.update(10, -9);
    // 10 % 7 - 3 and 9 % 7 - 3.
    assert_eq!(s.offset(), Vec2::new(Fixed::new(0), Fixed::new(-1)));
    s.update(6, 0);
    assert_eq!(s.offset(), Vec2::new(Fixed::new(3), Fixed::new(-3)));
    assert!(!s.is_active());
    s.update(6, 0);
    assert_eq!(s.offset(), Vec2::new(Fixed::new(0), Fixed::new(0)));
    let mut idle = ScreenShake::inactive();
    idle.start(1, 1);
    assert!(idle.is_active());
}

#[test]
fn effects_change_the_score() {
    let s = Score::new(1, 1, 0);
    assert_eq!(PassiveEffect::Identity.apply(s), s);
    assert_eq!(PassiveEffect::AddMult(2).apply(s), Score::new(1, 3, 0));
    assert_eq!(PassiveEffect::AddBase(5).apply(s), Score::new(6, 1, 0));
    assert_eq!(ActiveEffect::AddMult(1).apply(s, Kind::Red), Score::new(1, 2, 0));
    assert_eq!(ActiveEffect::AddMult(1).apply(s, Kind::Blue), s);
    assert_eq!(ActiveEffect::AddBase(10).apply(s, Kind::Blue), Score::new(11, 1, 0));
    assert_eq!(ActiveEffect::Identity.apply(s, Kind::Green), s);
    assert_eq!(BucketEffect::MultiplyMult(3).apply(Score::new(2, 2, 2)), Score::new(2, 6, 2));
    assert_eq!(BucketEffect::Identity.apply(s), s);
}

#[test]
fn balls_carry_the_effects_of_their_kind() {
    let d = BallData::from_kind(BallKind::TheDoubler);
    assert_eq!(d.kind(), BallKind::TheDoubler);
    assert_eq!(d.active(), ActiveEffect::AddMult(1));
    assert_eq!(d.passive(), PassiveEffect::Identity);
    let g = BallData::from_kind(BallKind::SmallGrabber);
    assert_eq!(g.active(), ActiveEffect::AddBase(10));
    assert_eq!(BallData::empty(), BallData::from_kind(BallKind::Identity));
    let all = from_kinds(&vec![BallKind::Identity, BallKind::SmallGrabber]);
    assert_eq!(all, vec![BallData::empty(), g]);
}

#[test]
fn ball_kind_text_and_random_choice() {
    assert_eq!(BallKind::Identity.description(), "just a ball...");
    assert_eq!(BallKind::TheDoubler.description(), "The Doubler");
    assert_eq!(BallKind::SmallGrabber.description(), "The Small Grabber");
    assert_eq!(BallKind::SmallGrabber.sprite(), 0);
    assert_eq!(BallKind::rand(4), BallKind::TheDoubler);
    assert_eq!(BallKind::rand(7), BallKind::SmallGrabber);
    assert_eq!(BallKind::rand(-3), BallKind::SmallGrabber);
}

#[test]
fn state_manager_remembers_the_state_left() {
    let mut m = StateManager::new();
    assert_eq!(m.current(), State::Aiming);
    assert_eq!(m.return_to_previous(), Err(Error::NoLastState));
    m.transition_to(State::Aiming);
    assert_eq!(m.previous(), None);
    m.transition_to(State::Falling);
    assert_eq!(m.previous(), Some(State::Aiming));
    m.transition_to(State::Counting { bucketed: None });
    assert_eq!(m.current(), State::Counting { bucketed: None });
    assert_eq!(m.return_to_previous(), Ok(State::Falling));
}

#[test]
fn level_lists_pegs_by_kind() {
    let level = Level::new_test_level();
    assert_eq!(level.target_score(), 100);
    let pegs = level.peg_count::<40>();
    assert_eq!(pegs[0], Some(Kind::Green));
    assert_eq!(pegs[1], Some(Kind::Green));
    assert_eq!(pegs[2], Some(Kind::Blue));
    assert_eq!(pegs[21], Some(Kind::Blue));
    assert_eq!(pegs[22], Some(Kind::Red));
    assert_eq!(pegs[32], Some(Kind::Yellow));
    assert_eq!(pegs[36], Some(Kind::Yellow));
    assert_eq!(pegs[37], None);
    let short = Level::new(5, 3, 3, 3, -2).peg_count::<4>();
    assert_eq!(short, [Some(Kind::Blue), Some(Kind::Blue), Some(Kind::Blue), Some(Kind::Red)]);
}

#[test]
fn white_flash_counts_down() {
    let mut f = WhiteFlash::new();
    assert!(!f.is_active());
    f.start(2);
    assert!(f.is_active());
    f.update();
    f.update();
    assert!(!f.is_active());
    f.update();
    assert!(!f.is_active());
}

#[test]
fn physics_stats_saturate() {
    let mut s = PhysicsStats::new();
    s.add_measurement(PhysicsOperation::GridQuery, 10);
    s.add_measurement(PhysicsOperation::GridQuery, u32::MAX);
    assert_eq!(s.grid_query_time, u32::MAX);
    assert_eq!(s.frame_count, 2);
    s.add_measurement(PhysicsOperation::Collision, 3);
    assert_eq!(s.collision_time, 3);
    s.reset();
    assert_eq!(s, PhysicsStats::new());
}

#[test]
fn input_decisions() {
    assert_eq!(InputHandler::get_movement_direction(true, false), MovementDirection::Left);
    assert_eq!(InputHandler::get_movement_direction(false, true), MovementDirection::Right);
    assert_eq!(InputHandler::get_movement_direction(true, true), MovementDirection::Neither);
    assert_eq!(InputHandler::get_inventory_navigation(true, true), InventoryNavigation::Up);
    assert_eq!(InputHandler::get_inventory_navigation(false, true), InventoryNavigation::Down);
    assert_eq!(InputHandler::get_inventory_navigation(false, false), InventoryNavigation::Neither);
}

#[test]
fn peg_generator_spawns_at_its_rate() {
    let at = Vec2::new(Fixed::new(10), Fixed::new(20));
    let mut g = PegGenerator::new(2, 3, at);
    assert_eq!(g.position(), at);
    let spawned: Vec<bool> = (0..7).map(|_| g.update()).collect();
    assert_eq!(spawned, vec![false, false, true, false, false, true, false]);
    assert!(g.is_finished());
}
