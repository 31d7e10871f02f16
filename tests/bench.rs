use pegdrop::bench::{Benchmark, PhysicsOperation, PhysicsStats};
use pegdrop::error::Error;

#[test]
fn single_measure_in_order() {
    let mut b = Benchmark::new();
    assert_eq!(b.get_result(), Err(Error::BenchmarkError));
    assert_eq!(b.set_after((0, 0)), Err(Error::BenchmarkError));
    assert_eq!(b.set_before((1, 65530)), Ok(()));
    assert_eq!(b.set_before((1, 0)), Err(Error::BenchmarkError));
    assert_eq!(b.set_after((2, 4)), Ok(()));
    assert_eq!(b.get_result(), Ok(10));
    b.reset();
    assert_eq!(b.get_result(), Err(Error::BenchmarkError));
    assert_eq!(b.set_before((3, 0)), Ok(()));
    assert_eq!(b.set_after((0, 0)), Ok(()));
    assert_eq!(b.get_result(), Ok(0u32.wrapping_sub(3 * 65536)));
}

#[test]
fn nested_timers_stack() {
    let mut b = Benchmark::new();
    assert_eq!(b.end_nested_timer((0, 0)), Err(Error::BenchmarkError));
    assert_eq!(b.start_nested_timer((0, 100)), Ok(()));
    assert_eq!(b.start_nested_timer((0, 150)), Ok(()));
    assert_eq!(b.end_nested_timer((0, 160)), Ok(10));
    assert_eq!(b.end_nested_timer((0, 400)), Ok(300));
    for i in 0..8 {
        assert_eq!(b.start_nested_timer((0, i)), Ok(()));
    }
    assert_eq!(b.start_nested_timer((0, 9)), Err(Error::BenchmarkError));
}

#[test]
fn physics_statistics_average() {
    let mut b = Benchmark::new();
    assert_eq!(b.physics_breakdown(), None);
    b.record_physics_measurement(PhysicsOperation::TotalFrame, 30);
    b.record_physics_measurement(PhysicsOperation::PegUpdate, 10);
    b.record_physics_measurement(PhysicsOperation::ForceCalculation, 7);
    assert_eq!(b.get_physics_stats().frame_count, 3);
    assert_eq!(b.physics_breakdown(), Some((10, 0, 0, 2, 3)));
    b.reset_physics_stats();
    assert_eq!(b.get_physics_stats(), PhysicsStats::new());
}
