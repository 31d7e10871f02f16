use vstd::prelude::*;

use crate::error::Error;
use vstd::wrapping::u32_specs;

verus! {

/// The parts of a physics frame that are timed.
#[derive(Clone, Copy, Debug, PartialEq, Eq, Structural)]
pub enum PhysicsOperation {
    TotalFrame,
    GridQuery,
    Collision,
    ForceCalculation,
    PegUpdate,
}

/// Accumulated timings of the physics, saturating.
#[derive(Clone, Copy, Debug, PartialEq, Eq, Structural)]
pub struct PhysicsStats {
    pub total_frame_time: u32,
    pub grid_query_time: u32,
    pub collision_time: u32,
    pub force_calculation_time: u32,
    pub peg_update_time: u32,
    pub frame_count: u32,
}

/// Sum, saturating at `u32::MAX`.
pub open spec fn sat_add(a: u32, b: u32) -> u32 {
    if a + b > u32::MAX {
        u32::MAX
    } else {
        (a + b) as u32
    }
}

/// Statistics with nothing measured.
pub open spec fn zero_stats() -> PhysicsStats {
    PhysicsStats {
        total_frame_time: 0,
        grid_query_time: 0,
        collision_time: 0,
        force_calculation_time: 0,
        peg_update_time: 0,
        frame_count: 0,
    }
}

/// The statistics after one measurement of `op` taking `t`.
pub open spec fn measured(s: PhysicsStats, op: PhysicsOperation, t: u32) -> PhysicsStats {
    let s1 = match op {
        PhysicsOperation::TotalFrame => PhysicsStats { total_frame_time: sat_add(s.total_frame_time, t), ..s },
        PhysicsOperation::GridQuery => PhysicsStats { grid_query_time: sat_add(s.grid_query_time, t), ..s },
        PhysicsOperation::Collision => PhysicsStats { collision_time: sat_add(s.collision_time, t), ..s },
        PhysicsOperation::ForceCalculation => PhysicsStats {
            force_calculation_time: sat_add(s.force_calculation_time, t),
            ..s
        },
        PhysicsOperation::PegUpdate => PhysicsStats { peg_update_time: sat_add(s.peg_update_time, t), ..s },
    };
    PhysicsStats { frame_count: sat_add(s.frame_count, 1), ..s1 }
}

fn saturating(a: u32, b: u32) -> (r: u32)
    ensures
        r == sat_add(a, b),
{
    if a > u32::MAX - b {
        u32::MAX
    } else {
        a + b
    }
}

impl PhysicsStats {
    pub fn new() -> (r: PhysicsStats)
        ensures
            r == zero_stats(),
    {
        PhysicsStats {
            total_frame_time: 0,
            grid_query_time: 0,
            collision_time: 0,
            force_calculation_time: 0,
            peg_update_time: 0,
            frame_count: 0,
        }
    }

    pub fn reset(&mut self)
        ensures
            *final(self) == zero_stats(),
    {
        *self = Self::new();
    }

    /// Adds `time` to the total of `operation` and counts one measurement.
    pub fn add_measurement(&mut self, operation: PhysicsOperation, time: u32)
        ensures
            *final(self) == measured(*old(self), operation, time),
    {
        match operation {
            PhysicsOperation::TotalFrame => self.total_frame_time = saturating(self.total_frame_time, time),
            PhysicsOperation::GridQuery => self.grid_query_time = saturating(self.grid_query_time, time),
            PhysicsOperation::Collision => self.collision_time = saturating(self.collision_time, time),
            PhysicsOperation::ForceCalculation => self.force_calculation_time = saturating(
                self.force_calculation_time,
                time,
            ),
            PhysicsOperation::PegUpdate => self.peg_update_time = saturating(self.peg_update_time, time),
        }
        self.frame_count = saturating(self.frame_count, 1);
    }
}

/// Depth of the stack of nested timers.
pub const MAX_NESTED_TIMERS: usize = 8;

/// A 32-bit time from the readings of the two cascaded 16-bit timers.
pub open spec fn ticks(t: (u16, u16)) -> u32 {
    (t.0 as int * 65536 + t.1 as int) as u32
}

/// Time elapsed between two readings, wrapping.
pub open spec fn elapsed(before: (u16, u16), after: (u16, u16)) -> u32 {
    u32_specs::wrapping_sub(ticks(after), ticks(before))
}

fn ticks_of(t: (u16, u16)) -> (r: u32)
    ensures
        r == ticks(t),
{
    (t.0 as u32) * 65536 + (t.1 as u32)
}

/// Timing of the physics, handed the readings of the hardware timers: one
/// measure between `set_before` and `set_after`, a stack of nested measures,
/// and the accumulated statistics.
pub struct Benchmark {
    before: Option<(u16, u16)>,
    after: Option<(u16, u16)>,
    nested_timers: Vec<(u16, u16)>,
    stats: PhysicsStats,
}

impl Benchmark {
    pub closed spec fn before_spec(&self) -> Option<(u16, u16)> {
        self.before
    }

    pub closed spec fn after_spec(&self) -> Option<(u16, u16)> {
        self.after
    }

    /// The start readings of the nested timers still open, outermost first.
    pub closed spec fn open_timers(&self) -> Seq<(u16, u16)> {
        self.nested_timers@
    }

    pub closed spec fn stats_spec(&self) -> PhysicsStats {
        self.stats
    }

    pub fn new() -> (r: Benchmark)
        ensures
            r.before_spec() is None,
            r.after_spec() is None,
            r.open_timers() == Seq::<(u16, u16)>::empty(),
            r.stats_spec() == zero_stats(),
    {
        Benchmark { before: None, after: None, nested_timers: Vec::new(), stats: PhysicsStats::new() }
    }

    /// Forgets the single measure.
    pub fn reset(&mut self)
        ensures
            final(self).before_spec() is None,
            final(self).after_spec() is None,
            final(self).open_timers() == old(self).open_timers(),
            final(self).stats_spec() == old(self).stats_spec(),
    {
        self.before = None;
        self.after = None;
    }

    /// Records the start reading; an error unless no measure is under way.
    pub fn set_before(&mut self, reading: (u16, u16)) -> (r: Result<(), Error>)
        ensures
            final(self).open_timers() == old(self).open_timers(),
            final(self).stats_spec() == old(self).stats_spec(),
            final(self).after_spec() == old(self).after_spec(),
            old(self).before_spec() is None && old(self).after_spec() is None ==> r is Ok
                && final(self).before_spec() == Some(reading),
            !(old(self).before_spec() is None && old(self).after_spec() is None) ==> r == Err::<
                (),
                Error,
            >(Error::BenchmarkError) && final(self).before_spec() == old(self).before_spec(),
    {
        match (self.before, self.after) {
            (None, None) => {
                self.before = Some(reading);
                Ok(())
            },
            _ => Err(Error::BenchmarkError),
        }
    }

    /// Records the end reading; an error unless only the start is recorded.
    pub fn set_after(&mut self, reading: (u16, u16)) -> (r: Result<(), Error>)
        ensures
            final(self).open_timers() == old(self).open_timers(),
            final(self).stats_spec() == old(self).stats_spec(),
            final(self).before_spec() == old(self).before_spec(),
            old(self).before_spec() is Some && old(self).after_spec() is None ==> r is Ok
                && final(self).after_spec() == Some(reading),
            !(old(self).before_spec() is Some && old(self).after_spec() is None) ==> r == Err::<
                (),
                Error,
            >(Error::BenchmarkError) && final(self).after_spec() == old(self).after_spec(),
    {
        match (self.before, self.after) {
            (Some(_), None) => {
                self.after = Some(reading);
                Ok(())
            },
            _ => Err(Error::BenchmarkError),
        }
    }

    /// The time of the single measure, once both readings are recorded.
    pub fn get_result(&self) -> (r: Result<u32, Error>)
        ensures
            (self.before_spec(), self.after_spec()) matches (Some(b), Some(a)) ==> r == Ok::<
                u32,
                Error,
            >(elapsed(b, a)),
            !(self.before_spec() is Some && self.after_spec() is Some) ==> r == Err::<u32, Error>(
                Error::BenchmarkError,
            ),
    {
        match (self.before, self.after) {
            (Some(b), Some(a)) => Ok(ticks_of(a).wrapping_sub(ticks_of(b))),
            _ => Err(Error::BenchmarkError),
        }
    }

    /// Opens a nested timer at `reading`; an error when the stack is full.
    pub fn start_nested_timer(&mut self, reading: (u16, u16)) -> (r: Result<(), Error>)
        ensures
            final(self).before_spec() == old(self).before_spec(),
            final(self).after_spec() == old(self).after_spec(),
            final(self).stats_spec() == old(self).stats_spec(),
            old(self).open_timers().len() < MAX_NESTED_TIMERS ==> r is Ok && final(self).open_timers()
                == old(self).open_timers().push(reading),
            old(self).open_timers().len() >= MAX_NESTED_TIMERS ==> r == Err::<(), Error>(
                Error::BenchmarkError,
            ) && final(self).open_timers() == old(self).open_timers(),
    {
        if self.nested_timers.len() >= MAX_NESTED_TIMERS {
            return Err(Error::BenchmarkError);
        }
        self.nested_timers.push(reading);
        Ok(())
    }

    /// Closes the innermost nested timer at `reading` and returns its time;
    /// an error when none is open.
    pub fn end_nested_timer(&mut self, reading: (u16, u16)) -> (r: Result<u32, Error>)
        ensures
            final(self).before_spec() == old(self).before_spec(),
            final(self).after_spec() == old(self).after_spec(),
            final(self).stats_spec() == old(self).stats_spec(),
            old(self).open_timers().len() > 0 ==> r == Ok::<u32, Error>(
                elapsed(old(self).open_timers().last(), reading),
            ) && final(self).open_timers() == old(self).open_timers().drop_last(),
            old(self).open_timers().len() == 0 ==> r == Err::<u32, Error>(Error::BenchmarkError)
                && final(self).open_timers() == old(self).open_timers(),
    {
        match self.nested_timers.pop() {
            Some(start) => Ok(ticks_of(reading).wrapping_sub(ticks_of(start))),
            None => Err(Error::BenchmarkError),
        }
    }

    pub fn record_physics_measurement(&mut self, operation: PhysicsOperation, time: u32)
        ensures
            final(self).stats_spec() == measured(old(self).stats_spec(), operation, time),
            final(self).before_spec() == old(self).before_spec(),
            final(self).after_spec() == old(self).after_spec(),
            final(self).open_timers() == old(self).open_timers(),
    {
        self.stats.add_measurement(operation, time);
    }

    pub fn get_physics_stats(&self) -> (r: PhysicsStats)
        ensures
            r == self.stats_spec(),
    {
        self.stats
    }

    pub fn reset_physics_stats(&mut self)
        ensures
            final(self).stats_spec() == zero_stats(),
            final(self).before_spec() == old(self).before_spec(),
            final(self).after_spec() == old(self).after_spec(),
            final(self).open_timers() == old(self).open_timers(),
    {
        self.stats.reset();
    }

    /// The average time per measurement of each operation (total frame, grid
    /// query, collision, force calculation, peg update); none before any.
    pub fn physics_breakdown(&self) -> (r: Option<(u32, u32, u32, u32, u32)>)
        ensures
            self.stats_spec().frame_count == 0 ==> r is None,
            self.stats_spec().frame_count > 0 ==> r == Some(
                (
                    (self.stats_spec().total_frame_time / self.stats_spec().frame_count) as u32,
                    (self.stats_spec().grid_query_time / self.stats_spec().frame_count) as u32,
                    (self.stats_spec().collision_time / self.stats_spec().frame_count) as u32,
                    (self.stats_spec().force_calculation_time / self.stats_spec().frame_count) as u32,
                    (self.stats_spec().peg_update_time / self.stats_spec().frame_count) as u32,
                ),
            ),
    {
        let s = self.stats;
        if s.frame_count > 0 {
            Some(
                (
                    s.total_frame_time / s.frame_count,
                    s.grid_query_time / s.frame_count,
                    s.collision_time / s.frame_count,
                    s.force_calculation_time / s.frame_count,
                    s.peg_update_time / s.frame_count,
                ),
            )
        } else {
            None
        }
    }
}

} // verus!
