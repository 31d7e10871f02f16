use vstd::prelude::*;

use crate::peg::Kind;
use crate::save::BallKind;
use crate::score::{fits, Score};

verus! {

/// A ball: its kind and the effects it carries.
#[derive(Clone, Copy, Debug, PartialEq, Eq, Structural)]
pub struct BallData {
    kind: BallKind,
    active: ActiveEffect,
    passive: PassiveEffect,
}

/// The effects of each ball kind.
pub open spec fn from_kind_spec(kind: BallKind) -> (ActiveEffect, PassiveEffect) {
    match kind {
        BallKind::Identity => (ActiveEffect::Identity, PassiveEffect::Identity),
        BallKind::TheDoubler => (ActiveEffect::AddMult(1), PassiveEffect::Identity),
        BallKind::SmallGrabber => (ActiveEffect::AddBase(10), PassiveEffect::Identity),
    }
}

impl BallData {
    pub closed spec fn kind_spec(&self) -> BallKind {
        self.kind
    }

    pub closed spec fn active_spec(&self) -> ActiveEffect {
        self.active
    }

    pub closed spec fn passive_spec(&self) -> PassiveEffect {
        self.passive
    }

    /// A plain ball with no effect.
    pub fn empty() -> (r: BallData)
        ensures
            r.kind_spec() == BallKind::Identity,
            r.active_spec() == ActiveEffect::Identity,
            r.passive_spec() == PassiveEffect::Identity,
    {
        BallData {
            kind: BallKind::Identity,
            active: ActiveEffect::Identity,
            passive: PassiveEffect::Identity,
        }
    }

    /// The ball of the given kind, with the effects of that kind.
    pub fn from_kind(kind: BallKind) -> (r: BallData)
        ensures
            r.kind_spec() == kind,
            (r.active_spec(), r.passive_spec()) == from_kind_spec(kind),
    {
        match kind {
            BallKind::Identity => BallData {
                kind,
                active: ActiveEffect::Identity,
                passive: PassiveEffect::Identity,
            },
            BallKind::TheDoubler => BallData {
                kind,
                active: ActiveEffect::AddMult(1),
                passive: PassiveEffect::Identity,
            },
            BallKind::SmallGrabber => BallData {
                kind,
                active: ActiveEffect::AddBase(10),
                passive: PassiveEffect::Identity,
            },
        }
    }

    pub fn active(&self) -> (r: ActiveEffect)
        ensures
            r == self.active_spec(),
    {
        self.active
    }

    pub fn passive(&self) -> (r: PassiveEffect)
        ensures
            r == self.passive_spec(),
    {
        self.passive
    }

    pub fn kind(&self) -> (r: BallKind)
        ensures
            r == self.kind_spec(),
    {
        self.kind
    }
}

/// The balls of the given kinds, in order.
pub fn from_kinds(kinds: &Vec<BallKind>) -> (r: Vec<BallData>)
    ensures
        r@.len() == kinds@.len(),
        forall|i: int|
            0 <= i < kinds@.len() ==> (#[trigger] r@[i]).kind_spec() == kinds@[i] && (
            r@[i].active_spec(),
            r@[i].passive_spec(),
            ) == from_kind_spec(kinds@[i]),
{
    let mut out: Vec<BallData> = Vec::new();
    let mut i: usize = 0;
    while i < kinds.len()
        invariant
            i <= kinds@.len(),
            out@.len() == i,
            forall|j: int|
                0 <= j < i ==> (#[trigger] out@[j]).kind_spec() == kinds@[j] && (
                out@[j].active_spec(),
                out@[j].passive_spec(),
                ) == from_kind_spec(kinds@[j]),
        decreases kinds@.len() - i,
    {
        out.push(BallData::from_kind(kinds[i]));
        i = i + 1;
    }
    out
}

/// An effect that applies to every peg hit while the ball is in the inventory.
#[derive(Clone, Copy, Debug, PartialEq, Eq, Structural)]
pub enum PassiveEffect {
    Identity,
    AddMult(i32),
    AddBase(i32),
}

/// The score after a passive effect.
pub open spec fn passive_spec(e: PassiveEffect, s: Score) -> Score {
    match e {
        PassiveEffect::Identity => s,
        PassiveEffect::AddMult(m) => Score { mult: (s.mult + m) as i32, ..s },
        PassiveEffect::AddBase(b) => Score { base: (s.base + b) as i32, ..s },
    }
}

/// A passive effect does not overflow the score.
pub open spec fn passive_fits(e: PassiveEffect, s: Score) -> bool {
    match e {
        PassiveEffect::Identity => true,
        PassiveEffect::AddMult(m) => fits(s.mult + m),
        PassiveEffect::AddBase(b) => fits(s.base + b),
    }
}

impl PassiveEffect {
    pub fn apply(self, score: Score) -> (r: Score)
        requires
            passive_fits(self, score),
        ensures
            r == passive_spec(self, score),
    {
        match self {
            PassiveEffect::Identity => score,
            PassiveEffect::AddMult(m) => score.add(0, m, 0),
            PassiveEffect::AddBase(b) => score.add(b, 0, 0),
        }
    }
}

/// An effect of the ball in play, which applies to pegs of one kind.
#[derive(Clone, Copy, Debug, PartialEq, Eq, Structural)]
pub enum ActiveEffect {
    Identity,
    AddMult(i32),
    AddBase(i32),
}

/// The score after an active effect, for a peg of the given kind: the
/// multiplier grows on red pegs, the base on blue ones.
pub open spec fn active_spec(e: ActiveEffect, s: Score, kind: Kind) -> Score {
    match (e, kind) {
        (ActiveEffect::AddMult(m), Kind::Red) => Score { mult: (s.mult + m) as i32, ..s },
        (ActiveEffect::AddBase(b), Kind::Blue) => Score { base: (s.base + b) as i32, ..s },
        _ => s,
    }
}

/// An active effect does not overflow the score.
pub open spec fn active_fits(e: ActiveEffect, s: Score, kind: Kind) -> bool {
    match (e, kind) {
        (ActiveEffect::AddMult(m), Kind::Red) => fits(s.mult + m),
        (ActiveEffect::AddBase(b), Kind::Blue) => fits(s.base + b),
        _ => true,
    }
}

impl ActiveEffect {
    pub fn apply(self, score: Score, kind: Kind) -> (r: Score)
        requires
            active_fits(self, score, kind),
        ensures
            r == active_spec(self, score, kind),
    {
        match (self, kind) {
            (ActiveEffect::Identity, _) => score,
            (ActiveEffect::AddMult(m), Kind::Red) => score.add(0, m, 0),
            (ActiveEffect::AddBase(b), Kind::Blue) => score.add(b, 0, 0),
            (_, _) => score,
        }
    }
}

/// An effect of the bucket that catches the ball.
#[derive(Clone, Copy, Debug, PartialEq, Eq, Structural)]
pub enum BucketEffect {
    Identity,
    MultiplyMult(i32),
}

/// The score after a bucket effect.
pub open spec fn bucket_spec(e: BucketEffect, s: Score) -> Score {
    match e {
        BucketEffect::Identity => s,
        BucketEffect::MultiplyMult(m) => Score { mult: (s.mult * m) as i32, ..s },
    }
}

/// A bucket effect does not overflow the score.
pub open spec fn bucket_fits(e: BucketEffect, s: Score) -> bool {
    match e {
        BucketEffect::Identity => true,
        BucketEffect::MultiplyMult(m) => fits(s.mult * m),
    }
}

impl BucketEffect {
    pub fn apply(self, score: Score) -> (r: Score)
        requires
            bucket_fits(self, score),
        ensures
            r == bucket_spec(self, score),
    {
        match self {
            BucketEffect::Identity => score,
            BucketEffect::MultiplyMult(m) => score.mult(1, m, 1),
        }
    }
}

} // verus!
