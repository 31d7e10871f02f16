use vstd::prelude::*;

use crate::fixed::Vec2;

verus! {

/// Spawns a number of pegs at one place, one every `generation_rate` frames.
pub struct PegGenerator {
    position: Vec2,
    remaining_count: u8,
    generation_rate: u32,
    timer: u32,
}

impl PegGenerator {
    pub closed spec fn remaining(&self) -> u8 {
        self.remaining_count
    }

    pub closed spec fn rate(&self) -> u32 {
        self.generation_rate
    }

    /// Frames counted since the last spawn.
    pub closed spec fn elapsed(&self) -> u32 {
        self.timer
    }

    pub closed spec fn at(&self) -> Vec2 {
        self.position
    }

    /// The timer never passes the rate.
    pub open spec fn wf(&self) -> bool {
        self.elapsed() == 0 || self.elapsed() < self.rate()
    }

    pub fn new(count: u8, generation_rate: u32, position: Vec2) -> (r: PegGenerator)
        ensures
            r.wf(),
            r.remaining() == count,
            r.rate() == generation_rate,
            r.elapsed() == 0,
            r.at() == position,
    {
        PegGenerator { position, remaining_count: count, generation_rate, timer: 0 }
    }

    /// Counts one frame; tells whether a peg is due now.
    pub fn update(&mut self) -> (r: bool)
        requires
            old(self).wf(),
        ensures
            final(self).wf(),
            final(self).rate() == old(self).rate(),
            final(self).at() == old(self).at(),
            old(self).remaining() == 0 ==> !r && *final(self) == *old(self),
            old(self).remaining() > 0 && old(self).elapsed() + 1 >= old(self).rate() ==> r
                && final(self).elapsed() == 0 && final(self).remaining() == old(self).remaining() - 1,
            old(self).remaining() > 0 && old(self).elapsed() + 1 < old(self).rate() ==> !r
                && final(self).elapsed() == old(self).elapsed() + 1 && final(self).remaining()
                == old(self).remaining(),
    {
        if self.remaining_count == 0 {
            return false;
        }
        self.timer = self.timer + 1;
        if self.timer >= self.generation_rate {
            self.timer = 0;
            self.remaining_count = self.remaining_count - 1;
            return true;
        }
        false
    }

    pub fn is_finished(&self) -> (r: bool)
        ensures
            r == (self.remaining() == 0),
    {
        self.remaining_count == 0
    }

    pub fn position(&self) -> (r: Vec2)
        ensures
            r == self.at(),
    {
        self.position
    }
}

} // verus!
