use vstd::prelude::*;

use crate::peg::Kind;

verus! {

/// A level: the score to reach and how many pegs of each kind it holds.
pub struct Level {
    target_score: i32,
    blue_qty: i32,
    red_qty: i32,
    yellow_qty: i32,
    green_qty: i32,
}

/// `x`, or zero when negative.
pub open spec fn nonneg(x: i32) -> int {
    if x < 0 {
        0
    } else {
        x as int
    }
}

/// The kind of the `k`-th peg of a level with the given quantities: green
/// pegs first, then blue, red and yellow; none past the last.
pub open spec fn peg_at(green: i32, blue: i32, red: i32, yellow: i32, k: int) -> Option<Kind> {
    let g = nonneg(green);
    let b = g + nonneg(blue);
    let r = b + nonneg(red);
    let y = r + nonneg(yellow);
    if k < g {
        Some(Kind::Green)
    } else if k < b {
        Some(Kind::Blue)
    } else if k < r {
        Some(Kind::Red)
    } else if k < y {
        Some(Kind::Yellow)
    } else {
        None
    }
}

/// The smaller of two integers.
pub open spec fn min_int(a: int, b: int) -> int {
    if a < b {
        a
    } else {
        b
    }
}

impl Level {
    pub closed spec fn target_spec(&self) -> i32 {
        self.target_score
    }

    /// The kind of the `k`-th peg of the level.
    pub closed spec fn peg_spec(&self, k: int) -> Option<Kind> {
        peg_at(self.green_qty, self.blue_qty, self.red_qty, self.yellow_qty, k)
    }

    pub fn new(target_score: i32, blue_qty: i32, red_qty: i32, yellow_qty: i32, green_qty: i32) -> (r: Level)
        ensures
            r.target_spec() == target_score,
            forall|k: int| #[trigger] r.peg_spec(k) == peg_at(green_qty, blue_qty, red_qty, yellow_qty, k),
    {
        Level { target_score, blue_qty, red_qty, yellow_qty, green_qty }
    }

    /// The level used while testing the game.
    pub fn new_test_level() -> (r: Level)
        ensures
            r.target_spec() == 100,
            forall|k: int| #[trigger] r.peg_spec(k) == peg_at(2, 20, 10, 5, k),
    {
        Level { target_score: 100, blue_qty: 20, red_qty: 10, yellow_qty: 5, green_qty: 2 }
    }

    pub fn target_score(&self) -> (r: i32)
        ensures
            r == self.target_spec(),
    {
        self.target_score
    }

    fn fill<const N: usize>(result: &mut [Option<Kind>; N], idx: usize, count: i32, kind: Kind) -> (r: usize)
        requires
            idx <= N,
        ensures
            r == min_int(N as int, idx + nonneg(count)),
            forall|k: int| 0 <= k < N && !(idx <= k < r) ==> final(result)@[k] == old(result)@[k],
            forall|k: int| idx <= k < r ==> final(result)@[k] == Some(kind),
    {
        let mut i = idx;
        let mut c: i32 = 0;
        while c < count
            invariant
                idx <= i <= N,
                0 <= c,
                count < 0 ==> c == 0,
                count >= 0 ==> c <= count,
                i == min_int(N as int, idx + c),
                forall|k: int| 0 <= k < N && !(idx <= k < i) ==> result@[k] == old(result)@[k],
                forall|k: int| idx <= k < i ==> result@[k] == Some(kind),
            decreases count - c,
        {
            if i < N {
                result[i] = Some(kind);
                i = i + 1;
            }
            c = c + 1;
        }
        assert(count < 0 ==> c == 0);
        assert(count >= 0 ==> c == count);
        i
    }

    /// The kinds of the pegs of the level, in `N` slots: green pegs first,
    /// then blue, red and yellow; pegs past `N` are dropped, and slots past
    /// the last peg are empty.
    pub fn peg_count<const N: usize>(&self) -> (r: [Option<Kind>; N])
        ensures
            forall|k: int| 0 <= k < N ==> r@[k] == self.peg_spec(k),
    {
        let mut result: [Option<Kind>; N] = [None; N];
        let i0 = Self::fill(&mut result, 0, self.green_qty, Kind::Green);
        let i1 = Self::fill(&mut result, i0, self.blue_qty, Kind::Blue);
        let i2 = Self::fill(&mut result, i1, self.red_qty, Kind::Red);
        let i3 = Self::fill(&mut result, i2, self.yellow_qty, Kind::Yellow);
        assert forall|k: int| 0 <= k < N implies result@[k] == self.peg_spec(k) by {
            if k >= i3 {
                assert(result@[k] == None::<Kind>);
            }
        };
        result
    }
}

} // verus!
