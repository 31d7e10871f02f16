use vstd::prelude::*;

use crate::config::GameConfig;
use crate::effect::{
    active_fits, active_spec, bucket_fits, bucket_spec, passive_fits, passive_spec, BallData,
    BucketEffect,
};
use crate::peg::Kind;

verus! {

/// The score of the ball in play: a base, a multiplier and coins.
#[derive(Clone, Copy, Debug, PartialEq, Eq, Structural)]
pub struct Score {
    pub base: i32,
    pub mult: i32,
    pub coins: i32,
}

/// `x` is an `i32`.
pub open spec fn fits(x: int) -> bool {
    i32::MIN <= x <= i32::MAX
}

impl Score {
    pub fn new(base: i32, mult: i32, coins: i32) -> (r: Score)
        ensures
            r == (Score { base, mult, coins }),
    {
        Score { base, mult, coins }
    }

    /// Adds to each component.
    pub fn add(self, base: i32, mult: i32, coins: i32) -> (r: Score)
        requires
            fits(self.base + base),
            fits(self.mult + mult),
            fits(self.coins + coins),
        ensures
            r.base == self.base + base,
            r.mult == self.mult + mult,
            r.coins == self.coins + coins,
    {
        Score { base: self.base + base, mult: self.mult + mult, coins: self.coins + coins }
    }

    /// Multiplies each component.
    pub fn mult(self, base: i32, mult: i32, coins: i32) -> (r: Score)
        requires
            fits(self.base * base),
            fits(self.mult * mult),
            fits(self.coins * coins),
        ensures
            r.base == self.base * base,
            r.mult == self.mult * mult,
            r.coins == self.coins * coins,
    {
        Score { base: self.base * base, mult: self.mult * mult, coins: self.coins * coins }
    }

    /// Adds another score component-wise.
    pub fn apply(self, score: Score) -> (r: Score)
        requires
            fits(self.base + score.base),
            fits(self.mult + score.mult),
            fits(self.coins + score.coins),
        ensures
            r.base == self.base + score.base,
            r.mult == self.mult + score.mult,
            r.coins == self.coins + score.coins,
    {
        Score {
            base: self.base + score.base,
            mult: self.mult + score.mult,
            coins: self.coins + score.coins,
        }
    }

    /// The damage (base times multiplier) and the coins.
    pub fn extract(self) -> (r: (i32, i32))
        requires
            fits(self.base * self.mult),
        ensures
            r.0 == self.base * self.mult,
            r.1 == self.coins,
    {
        (self.base * self.mult, self.coins)
    }
}

/// What hitting a peg of the given kind adds to the score.
pub open spec fn hit_spec(kind: Kind) -> Score {
    match kind {
        Kind::Blue => Score { base: 1, mult: 0, coins: 0 },
        Kind::Red => Score { base: 0, mult: 1, coins: 0 },
        Kind::Yellow => Score { base: 0, mult: 0, coins: 1 },
        Kind::Green => Score { base: 0, mult: 0, coins: 0 },
    }
}

/// The score of the ball in play, or the neutral score.
pub open spec fn start_spec(current: Option<Score>) -> Score {
    match current {
        Some(s) => s,
        None => Score { base: 0, mult: 1, coins: 0 },
    }
}

/// The score after the passive effects of the first `k` balls of the inventory.
pub open spec fn passives_spec(s: Score, inventory: Seq<BallData>, k: int) -> Score
    decreases k,
{
    if k <= 0 {
        s
    } else {
        passive_spec(inventory[k - 1].passive_spec(), passives_spec(s, inventory, k - 1))
    }
}

/// No step of `passives_spec` overflows.
pub open spec fn passives_fit(s: Score, inventory: Seq<BallData>, k: int) -> bool
    decreases k,
{
    if k <= 0 {
        true
    } else {
        passives_fit(s, inventory, k - 1) && passive_fits(
            inventory[k - 1].passive_spec(),
            passives_spec(s, inventory, k - 1),
        )
    }
}

/// The score after the effects of the first `k` bucket effects.
pub open spec fn buckets_spec(s: Score, effects: Seq<BucketEffect>, k: int) -> Score
    decreases k,
{
    if k <= 0 {
        s
    } else {
        bucket_spec(effects[k - 1], buckets_spec(s, effects, k - 1))
    }
}

/// No step of `buckets_spec` overflows.
pub open spec fn buckets_fit(s: Score, effects: Seq<BucketEffect>, k: int) -> bool
    decreases k,
{
    if k <= 0 {
        true
    } else {
        buckets_fit(s, effects, k - 1) && bucket_fits(effects[k - 1], buckets_spec(s, effects, k - 1))
    }
}

/// Adding `b` to `a` does not overflow.
pub open spec fn apply_fits(a: Score, b: Score) -> bool {
    fits(a.base + b.base) && fits(a.mult + b.mult) && fits(a.coins + b.coins)
}

/// Component-wise sum of two scores.
pub open spec fn apply_spec(a: Score, b: Score) -> Score {
    Score {
        base: (a.base + b.base) as i32,
        mult: (a.mult + b.mult) as i32,
        coins: (a.coins + b.coins) as i32,
    }
}

/// The score after a hit on a peg of kind `kind`: the hit itself, the passive
/// effects of the inventory, then the active effect of the ball in play.
pub open spec fn peg_hit_spec(
    current: Option<Score>,
    kind: Kind,
    inventory: Seq<BallData>,
    ball: Option<BallData>,
) -> Score {
    let s1 = apply_spec(start_spec(current), hit_spec(kind));
    let s2 = passives_spec(s1, inventory, inventory.len() as int);
    match ball {
        Some(b) => active_spec(b.active_spec(), s2, kind),
        None => s2,
    }
}

/// No step of `peg_hit_spec` overflows.
pub open spec fn peg_hit_fits(
    current: Option<Score>,
    kind: Kind,
    inventory: Seq<BallData>,
    ball: Option<BallData>,
) -> bool {
    let s1 = apply_spec(start_spec(current), hit_spec(kind));
    let s2 = passives_spec(s1, inventory, inventory.len() as int);
    &&& apply_fits(start_spec(current), hit_spec(kind))
    &&& passives_fit(s1, inventory, inventory.len() as int)
    &&& (ball matches Some(b) ==> active_fits(b.active_spec(), s2, kind))
}

proof fn lemma_passives_fit_prefix(s: Score, inventory: Seq<BallData>, k: int, n: int)
    requires
        0 <= k <= n,
        passives_fit(s, inventory, n),
    ensures
        passives_fit(s, inventory, k),
    decreases n - k,
{
    if k < n {
        lemma_passives_fit_prefix(s, inventory, k, n - 1);
    }
}

proof fn lemma_buckets_fit_prefix(s: Score, effects: Seq<BucketEffect>, k: int, n: int)
    requires
        0 <= k <= n,
        buckets_fit(s, effects, n),
    ensures
        buckets_fit(s, effects, k),
    decreases n - k,
{
    if k < n {
        lemma_buckets_fit_prefix(s, effects, k, n - 1);
    }
}

/// Accumulates the damage and coins over the balls of a level.
pub struct ScoreManager {
    current_score: Option<Score>,
    damages: i32,
    coins: i32,
}

impl ScoreManager {
    pub closed spec fn current(&self) -> Option<Score> {
        self.current_score
    }

    pub closed spec fn total_damages(&self) -> i32 {
        self.damages
    }

    pub closed spec fn total_coins(&self) -> i32 {
        self.coins
    }

    pub fn new(coins: i32) -> (r: ScoreManager)
        ensures
            r.current() is None,
            r.total_damages() == 0,
            r.total_coins() == coins,
    {
        ScoreManager { current_score: None, damages: 0, coins }
    }

    /// Banks the score of the ball in play, if any, and returns the totals.
    pub fn extract_final_score(&mut self) -> (r: (i32, i32))
        requires
            old(self).current() matches Some(s) ==> fits(s.base * s.mult) && fits(
                old(self).total_damages() + s.base * s.mult,
            ) && fits(old(self).total_coins() + s.coins),
        ensures
            final(self).current() is None,
            r == (final(self).total_damages(), final(self).total_coins()),
            old(self).current() is None ==> final(self).total_damages() == old(self).total_damages()
                && final(self).total_coins() == old(self).total_coins(),
            old(self).current() matches Some(s) ==> final(self).total_damages() == old(
                self,
            ).total_damages() + s.base * s.mult && final(self).total_coins() == old(
                self,
            ).total_coins() + s.coins,
    {
        match self.current_score {
            Some(score) => {
                let (damages, coins) = score.extract();
                self.damages = self.damages + damages;
                self.coins = self.coins + coins;
                self.current_score = None;
                (self.damages, self.coins)
            },
            None => (self.damages, self.coins),
        }
    }

    /// Scores a hit on a peg of kind `peg_kind`, with the passive effects of
    /// the inventory and the active effect of the ball in play. Returns the
    /// multiplier, the base and the coin total to show.
    pub fn process_peg_hit(
        &mut self,
        peg_kind: Kind,
        inventory: &[BallData],
        current_ball_data: &Option<BallData>,
    ) -> (r: (i32, i32, i32))
        requires
            peg_hit_fits(old(self).current(), peg_kind, inventory@, *current_ball_data),
            fits(
                old(self).total_coins() + peg_hit_spec(
                    old(self).current(),
                    peg_kind,
                    inventory@,
                    *current_ball_data,
                ).coins,
            ),
        ensures
            ({
                let s = peg_hit_spec(old(self).current(), peg_kind, inventory@, *current_ball_data);
                &&& final(self).current() == Some(s)
                &&& final(self).total_damages() == old(self).total_damages()
                &&& final(self).total_coins() == old(self).total_coins()
                &&& r.0 == s.mult && r.1 == s.base && r.2 == old(self).total_coins() + s.coins
            }),
    {
        let start = match self.current_score {
            Some(s) => s,
            None => Score::new(0, 1, 0),
        };
        let hit = match peg_kind {
            Kind::Blue => Score::new(1, 0, 0),
            Kind::Red => Score::new(0, 1, 0),
            Kind::Yellow => Score::new(0, 0, 1),
            Kind::Green => Score::new(0, 0, 0),
        };
        let mut score = start.apply(hit);
        let ghost s1 = score;
        let mut k: usize = 0;
        while k < inventory.len()
            invariant
                k <= inventory@.len(),
                passives_fit(s1, inventory@, inventory@.len() as int),
                score == passives_spec(s1, inventory@, k as int),
            decreases inventory@.len() - k,
        {
            proof {
                lemma_passives_fit_prefix(s1, inventory@, k as int + 1, inventory@.len() as int);
            }
            score = inventory[k].passive().apply(score);
            k = k + 1;
        }
        match current_ball_data {
            Some(ball_data) => {
                score = ball_data.active().apply(score, peg_kind);
            },
            None => {},
        }
        self.current_score = Some(score);
        (score.mult, score.base, self.coins + score.coins)
    }

    /// Applies the effects of the bucket that caught the ball. Returns the
    /// multiplier, the base and the coin total to show.
    pub fn process_bucket_bonus(&mut self, bucket_effects: &[BucketEffect]) -> (r: (i32, i32, i32))
        requires
            buckets_fit(start_spec(old(self).current()), bucket_effects@, bucket_effects@.len() as int),
            fits(
                old(self).total_coins() + buckets_spec(
                    start_spec(old(self).current()),
                    bucket_effects@,
                    bucket_effects@.len() as int,
                ).coins,
            ),
        ensures
            ({
                let s = buckets_spec(start_spec(old(self).current()), bucket_effects@, bucket_effects@.len() as int);
                &&& final(self).current() == Some(s)
                &&& final(self).total_damages() == old(self).total_damages()
                &&& final(self).total_coins() == old(self).total_coins()
                &&& r.0 == s.mult && r.1 == s.base && r.2 == old(self).total_coins() + s.coins
            }),
    {
        let mut score = match self.current_score {
            Some(s) => s,
            None => Score::new(0, 1, 0),
        };
        let ghost s0 = score;
        let mut k: usize = 0;
        while k < bucket_effects.len()
            invariant
                k <= bucket_effects@.len(),
                buckets_fit(s0, bucket_effects@, bucket_effects@.len() as int),
                score == buckets_spec(s0, bucket_effects@, k as int),
            decreases bucket_effects@.len() - k,
        {
            proof {
                lemma_buckets_fit_prefix(s0, bucket_effects@, k as int + 1, bucket_effects@.len() as int);
            }
            score = bucket_effects[k].apply(score);
            k = k + 1;
        }
        self.current_score = Some(score);
        (score.mult, score.base, self.coins + score.coins)
    }

    /// The level is won once the damage dealt exceeds the target score.
    pub fn is_winning(&self) -> (r: bool)
        ensures
            r == (self.total_damages() > GameConfig::TARGET_SCORE),
    {
        self.damages > GameConfig::TARGET_SCORE
    }
}

} // verus!
