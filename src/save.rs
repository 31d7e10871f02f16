use vstd::prelude::*;

verus! {

/// The kinds of ball a player can own.
#[derive(Clone, Copy, Debug, PartialEq, Eq, Structural)]
pub enum BallKind {
    Identity,
    TheDoubler,
    SmallGrabber,
}

/// Number of ball kinds that can be dropped as a reward.
pub const NB_DROPPABLES: usize = 2;

/// The ball kind dropped for the random number `v`: the droppable kinds are
/// picked by the number modulo their count.
pub open spec fn droppable_spec(v: i32) -> BallKind {
    if (v as int) % 2 == 0 {
        BallKind::TheDoubler
    } else {
        BallKind::SmallGrabber
    }
}

impl BallKind {
    /// Index of the sprite frame of the kind.
    pub fn sprite(&self) -> (r: usize)
        ensures
            r == 0,
    {
        match self {
            BallKind::Identity => 0,
            BallKind::TheDoubler => 0,
            BallKind::SmallGrabber => 0,
        }
    }

    /// Text shown for the kind.
    pub fn description(&self) -> (r: &'static str)
        ensures
            *self == BallKind::Identity ==> r@ == "just a ball..."@,
            *self == BallKind::TheDoubler ==> r@ == "The Doubler"@,
            *self == BallKind::SmallGrabber ==> r@ == "The Small Grabber"@,
    {
        match self {
            BallKind::Identity => {
                proof {
                    reveal_strlit("just a ball...");
                }
                "just a ball..."
            },
            BallKind::TheDoubler => {
                proof {
                    reveal_strlit("The Doubler");
                }
                "The Doubler"
            },
            BallKind::SmallGrabber => {
                proof {
                    reveal_strlit("The Small Grabber");
                }
                "The Small Grabber"
            },
        }
    }

    /// The droppable kind chosen by the random number `value`.
    pub fn rand(value: i32) -> (r: BallKind)
        ensures
            r == droppable_spec(value),
    {
        let m: i32 = value % (NB_DROPPABLES as i32);
        if m == 0 {
            BallKind::TheDoubler
        } else {
            BallKind::SmallGrabber
        }
    }
}

} // verus!
