use vstd::prelude::*;

use crate::fixed::{from_int_spec, Fixed, Vec2};

verus! {

/// The offset along one axis drawn from the random number `r`: its absolute
/// value taken modulo `2 * intensity + 1`, recentred by `intensity`.
pub open spec fn shake_offset(r: i32, intensity: i32) -> int {
    let a = if r < 0 {
        -r
    } else {
        r as int
    };
    let m = 2 * intensity + 1;
    let am = if m < 0 {
        -m
    } else {
        m
    };
    a % am - intensity
}

/// No offset.
pub open spec fn zero_offset() -> Vec2 {
    Vec2 { x: Fixed { raw: 0 }, y: Fixed { raw: 0 } }
}

/// The offset drawn from the random numbers `rx` and `ry`.
pub open spec fn shake_vec(rx: i32, ry: i32, intensity: i32) -> Vec2 {
    Vec2 {
        x: from_int_spec(shake_offset(rx, intensity)),
        y: from_int_spec(shake_offset(ry, intensity)),
    }
}

/// A shake of the screen: a random offset each frame, for a number of frames.
#[derive(Clone, Copy, Debug)]
pub struct ScreenShake {
    duration: u32,
    intensity: i32,
    offset: Vec2,
}

impl ScreenShake {
    pub closed spec fn remaining(&self) -> u32 {
        self.duration
    }

    pub closed spec fn strength(&self) -> i32 {
        self.intensity
    }

    pub closed spec fn current_offset(&self) -> Vec2 {
        self.offset
    }

    pub fn new(duration: u32, intensity: i32) -> (r: ScreenShake)
        ensures
            r.remaining() == duration,
            r.strength() == intensity,
            r.current_offset() == zero_offset(),
    {
        ScreenShake {
            duration,
            intensity,
            offset: Vec2::new(Fixed::from_raw(0), Fixed::from_raw(0)),
        }
    }

    pub fn inactive() -> (r: ScreenShake)
        ensures
            r.remaining() == 0,
            r.strength() == 0,
            r.current_offset() == zero_offset(),
    {
        Self::new(0, 0)
    }

    pub fn is_active(&self) -> (r: bool)
        ensures
            r == (self.remaining() > 0),
    {
        self.duration > 0
    }

    fn axis_offset(r: i32, intensity: i32) -> (o: i32)
        requires
            r > i32::MIN,
            -0x2000_0000 <= intensity <= 0x2000_0000,
        ensures
            o == shake_offset(r, intensity),
    {
        let a: u32 = if r < 0 {
            (-r) as u32
        } else {
            r as u32
        };
        let m: i32 = 2 * intensity + 1;
        let am: u32 = if m < 0 {
            (-m) as u32
        } else {
            m as u32
        };
        ((a % am) as i32) - intensity
    }

    /// Counts one frame down; while active, the offset is drawn from the two
    /// random numbers `rx` and `ry`, else it is zero.
    pub fn update(&mut self, rx: i32, ry: i32)
        requires
            rx > i32::MIN,
            ry > i32::MIN,
            -0x2000_0000 <= old(self).strength() <= 0x2000_0000,
        ensures
            final(self).strength() == old(self).strength(),
            old(self).remaining() > 0 ==> final(self).remaining() == old(self).remaining() - 1
                && final(self).current_offset() == shake_vec(rx, ry, old(self).strength()),
            old(self).remaining() == 0 ==> final(self).remaining() == 0 && final(self).current_offset()
                == zero_offset(),
    {
        if self.duration > 0 {
            self.duration = self.duration - 1;
            let x_offset = Self::axis_offset(rx, self.intensity);
            let y_offset = Self::axis_offset(ry, self.intensity);
            self.offset = Vec2::new(Fixed::new(x_offset), Fixed::new(y_offset));
        } else {
            self.offset = Vec2::new(Fixed::from_raw(0), Fixed::from_raw(0));
        }
    }

    pub fn start(&mut self, duration: u32, intensity: i32)
        ensures
            final(self).remaining() == duration,
            final(self).strength() == intensity,
            final(self).current_offset() == old(self).current_offset(),
    {
        self.duration = duration;
        self.intensity = intensity;
    }

    pub fn offset(&self) -> (r: Vec2)
        ensures
            r == self.current_offset(),
    {
        self.offset
    }
}

/// A white flash of the screen, counted down in frames.
#[derive(Clone, Copy, Debug)]
pub struct WhiteFlash {
    duration: u32,
}

impl WhiteFlash {
    /// Frames left of the flash.
    pub closed spec fn remaining(&self) -> u32 {
        self.duration
    }

    pub fn new() -> (r: WhiteFlash)
        ensures
            r.remaining() == 0,
    {
        WhiteFlash { duration: 0 }
    }

    pub fn is_active(&self) -> (r: bool)
        ensures
            r == (self.remaining() > 0),
    {
        self.duration > 0
    }

    /// Counts one frame down, stopping at zero.
    pub fn update(&mut self)
        ensures
            old(self).remaining() > 0 ==> final(self).remaining() == old(self).remaining() - 1,
            old(self).remaining() == 0 ==> final(self).remaining() == 0,
    {
        if self.duration > 0 {
            self.duration = self.duration - 1;
        }
    }

    pub fn start(&mut self, duration: u32)
        ensures
            final(self).remaining() == duration,
    {
        self.duration = duration;
    }
}

} // verus!
