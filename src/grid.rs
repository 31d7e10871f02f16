use vstd::prelude::*;

use crate::error::Error;
use crate::fixed::{v2, Fixed, Vec2};

verus! {

/// Capacity of one grid cell.
pub const MAX_NB_NEIGHBOR_PER_CELL: usize = 8;

/// Number of cells along the x axis.
pub const NB_WIDTH: usize = 24;

/// Number of cells along the y axis.
pub const NB_HEIGHT: usize = 20;

/// Total number of cells.
pub const NB_CELLS: usize = 480;

/// A cell spans `1 << SHIFT_VALUE` world units per axis.
pub const SHIFT_VALUE: usize = 3;

/// Capacity of the result of one neighbour query.
pub const MAX_NEIGHBORS: usize = 64;

/// Largest x coordinate mapped to a cell, `(NB_WIDTH - 1) * 8` in raw fixed-point form.
pub const GRID_MAX_X_RAW: i32 = 47104;

/// Largest y coordinate mapped to a cell, `(NB_HEIGHT - 1) * 8` in raw fixed-point form.
pub const GRID_MAX_Y_RAW: i32 = 38912;

#[verifier::external_type_specification]
#[verifier::external_body]
#[verifier::reject_recursive_types(T)]
pub struct ExHeaplessVec<T, const N: usize>(heapless::Vec<T, N>);

/// The body indices held by a grid cell, in storage order.
pub uninterp spec fn cell_items(c: heapless::Vec<u8, 8>) -> Seq<u8>;

/// Relies on `heapless::Vec::new`: a vector with no element.
#[verifier::external_body]
fn cell_new() -> (r: heapless::Vec<u8, 8>)
    ensures
        cell_items(r) == Seq::<u8>::empty(),
{
    heapless::Vec::new()
}

/// Relies on `heapless::Vec::push`: the item is appended while the length is
/// under the capacity (8); otherwise it is handed back and nothing changes.
#[verifier::external_body]
fn cell_push(c: &mut heapless::Vec<u8, 8>, v: u8) -> (r: Result<(), u8>)
    ensures
        cell_items(*old(c)).len() < 8 ==> r is Ok && cell_items(*final(c)) == cell_items(
            *old(c),
        ).push(v),
        cell_items(*old(c)).len() >= 8 ==> r is Err && cell_items(*final(c)) == cell_items(
            *old(c),
        ),
{
    c.push(v)
}

/// Relies on the length of a `heapless::Vec` (through its slice).
#[verifier::external_body]
fn cell_len(c: &heapless::Vec<u8, 8>) -> (r: usize)
    ensures
        r == cell_items(*c).len(),
{
    c.len()
}

/// Relies on indexing a `heapless::Vec` (through its slice).
#[verifier::external_body]
fn cell_get(c: &heapless::Vec<u8, 8>, k: usize) -> (r: u8)
    requires
        k < cell_items(*c).len(),
    ensures
        r == cell_items(*c)[k as int],
{
    c[k]
}

/// Relies on `heapless::Vec::swap_remove`: the element at `k` is returned and
/// replaced by the last one, and the length drops by one.
#[verifier::external_body]
fn cell_swap_remove(c: &mut heapless::Vec<u8, 8>, k: usize) -> (r: u8)
    requires
        k < cell_items(*old(c)).len(),
    ensures
        r == cell_items(*old(c))[k as int],
        cell_items(*final(c)) == swap_removed(cell_items(*old(c)), k as int),
{
    c.swap_remove(k)
}

/// The body indices held by the result of a neighbour query, in order.
pub uninterp spec fn found_items(v: heapless::Vec<u8, 64>) -> Seq<u8>;

/// Relies on `heapless::Vec::new`: a vector with no element.
#[verifier::external_body]
fn found_new() -> (r: heapless::Vec<u8, 64>)
    ensures
        found_items(r) == Seq::<u8>::empty(),
{
    heapless::Vec::new()
}

/// Relies on `heapless::Vec::push`: the item is appended while the length is
/// under the capacity (64); otherwise it is handed back and nothing changes.
#[verifier::external_body]
fn found_push(c: &mut heapless::Vec<u8, 64>, v: u8) -> (r: Result<(), u8>)
    ensures
        found_items(*old(c)).len() < 64 ==> r is Ok && found_items(*final(c)) == found_items(
            *old(c),
        ).push(v),
        found_items(*old(c)).len() >= 64 ==> r is Err && found_items(*final(c)) == found_items(
            *old(c),
        ),
{
    c.push(v)
}

/// Relies on the length of a `heapless::Vec` (through its slice).
#[verifier::external_body]
pub(crate) fn found_len(c: &heapless::Vec<u8, 64>) -> (r: usize)
    ensures
        r == found_items(*c).len(),
{
    c.len()
}

/// Relies on indexing a `heapless::Vec` (through its slice).
#[verifier::external_body]
pub(crate) fn found_get(c: &heapless::Vec<u8, 64>, k: usize) -> (r: u8)
    requires
        k < found_items(*c).len(),
    ensures
        r == found_items(*c)[k as int],
{
    c[k]
}

/// `s` with the element at `k` replaced by the last element, and the last dropped.
pub open spec fn swap_removed(s: Seq<u8>, k: int) -> Seq<u8> {
    s.update(k, s.last()).drop_last()
}

/// The position of the first occurrence of `v` in `s`.
pub open spec fn first_pos(s: Seq<u8>, v: u8) -> int {
    choose|k: int| 0 <= k < s.len() && s[k] == v && forall|j: int| 0 <= j < k ==> s[j] != v
}

/// `s` after removing the first occurrence of `v` by a swap-remove, if any.
pub open spec fn remove_first(s: Seq<u8>, v: u8) -> Seq<u8> {
    if s.contains(v) {
        swap_removed(s, first_pos(s, v))
    } else {
        s
    }
}

/// `v` clamped into `0..=hi`.
pub open spec fn clamp_raw(v: i32, hi: i32) -> i32 {
    if v < 0 {
        0
    } else if v > hi {
        hi
    } else {
        v
    }
}

/// A position clamped into the area covered by the grid.
pub open spec fn clamp_to_grid(p: Vec2) -> Vec2 {
    v2(clamp_raw(p.x.raw, GRID_MAX_X_RAW), clamp_raw(p.y.raw, GRID_MAX_Y_RAW))
}

/// Cell coordinate of a non-negative raw coordinate: rounded to the nearest
/// integer, then divided by the cell size.
pub open spec fn cell_coord(raw: i32) -> int {
    ((raw as int + 128) / 256) / 8
}

/// Column of the cell of `p`.
pub open spec fn cell_x(p: Vec2) -> int {
    cell_coord(clamp_to_grid(p).x.raw)
}

/// Row of the cell of `p`.
pub open spec fn cell_y(p: Vec2) -> int {
    cell_coord(clamp_to_grid(p).y.raw)
}

/// Index of the cell of a position, in the flat cell sequence.
pub open spec fn cell_of(p: Vec2) -> int {
    cell_x(p) * 20 + cell_y(p)
}

/// A grid with every cell empty.
pub open spec fn empty_grid() -> Seq<Seq<u8>> {
    Seq::new(480, |k: int| Seq::<u8>::empty())
}

/// Inserting body `i` at `p`: the index must fit in `u8` and the cell must have room.
pub open spec fn insert_step(g: Seq<Seq<u8>>, i: int, p: Vec2) -> Result<Seq<Seq<u8>>, Error> {
    if i > 255 {
        Err(Error::IndexTooBig)
    } else if g[cell_of(p)].len() >= 8 {
        Err(Error::CellFull)
    } else {
        Ok(g.update(cell_of(p), g[cell_of(p)].push(i as u8)))
    }
}

/// The grid built from the first `n` bodies, in index order, or the first error met.
pub open spec fn built(pos: Seq<Vec2>, col: Seq<bool>, n: int) -> Result<Seq<Seq<u8>>, Error>
    decreases n,
{
    if n <= 0 {
        Ok(empty_grid())
    } else {
        match built(pos, col, n - 1) {
            Err(e) => Err(e),
            Ok(g) => if col[n - 1] {
                insert_step(g, n - 1, pos[n - 1])
            } else {
                Ok(g)
            },
        }
    }
}

/// The grid after removing body `i` from the cell of `p` (if it is there).
pub open spec fn removed(g: Seq<Seq<u8>>, i: int, p: Vec2) -> Seq<Seq<u8>> {
    g.update(cell_of(p), remove_first(g[cell_of(p)], i as u8))
}

/// The grid after moving body `i` from `op` to `np`, or the error met:
/// nothing changes when the positions are equal.
pub open spec fn grid_move_spec(g: Seq<Seq<u8>>, i: int, op: Vec2, np: Vec2) -> Result<Seq<Seq<u8>>, Error> {
    if op == np {
        Ok(g)
    } else if i > 255 {
        Err(Error::IndexTooBig)
    } else {
        insert_step(removed(g, i, op), i, np)
    }
}

/// The members of the cells of column `x` with `ylo <= y < yhi`, in scan order.
pub open spec fn column_items(g: Seq<Seq<u8>>, x: int, ylo: int, yhi: int) -> Seq<u8>
    decreases yhi - ylo,
{
    if yhi <= ylo {
        Seq::empty()
    } else {
        column_items(g, x, ylo, yhi - 1) + g[x * 20 + yhi - 1]
    }
}

/// The members of the cells `xlo <= x < xhi`, `ylo <= y < yhi`, in scan order.
pub open spec fn block_items(g: Seq<Seq<u8>>, xlo: int, xhi: int, ylo: int, yhi: int) -> Seq<u8>
    decreases xhi - xlo,
{
    if xhi <= xlo {
        Seq::empty()
    } else {
        block_items(g, xlo, xhi - 1, ylo, yhi) + column_items(g, xhi - 1, ylo, yhi)
    }
}

/// First cell of a scan of radius `r` around cell `c` (saturating).
pub open spec fn span_lo(c: int, r: int) -> int {
    if c >= r {
        c - r
    } else {
        0
    }
}

/// End (exclusive) of a scan of radius `r` around cell `c`, within `n` cells.
pub open spec fn span_hi(c: int, r: int, n: int) -> int {
    if c + r + 1 >= n {
        n
    } else {
        c + r + 1
    }
}

/// What a neighbour query at `p` with radius `r` (in cells) finds.
pub open spec fn neighbors_spec(g: Seq<Seq<u8>>, p: Vec2, r: int) -> Seq<u8> {
    block_items(
        g,
        span_lo(cell_x(p), r),
        span_hi(cell_x(p), r, 24),
        span_lo(cell_y(p), r),
        span_hi(cell_y(p), r, 20),
    )
}

/// Every position maps to a cell of the grid.
pub proof fn lemma_cell_bounds(p: Vec2)
    ensures
        0 <= cell_x(p) < 24,
        0 <= cell_y(p) < 20,
        0 <= cell_of(p) < 480,
{
}

/// Clamping into the grid leaves a position already in it unchanged, and
/// clamping twice is clamping once.
pub proof fn lemma_clamp_idempotent(p: Vec2)
    ensures
        clamp_to_grid(clamp_to_grid(p)) == clamp_to_grid(p),
        (0 <= p.x.raw <= GRID_MAX_X_RAW && 0 <= p.y.raw <= GRID_MAX_Y_RAW) ==> clamp_to_grid(p) == p,
{
}

proof fn lemma_built_err_stays(pos: Seq<Vec2>, col: Seq<bool>, m: int, n: int, e: Error)
    requires
        0 <= m <= n,
        built(pos, col, m) == Err::<Seq<Seq<u8>>, Error>(e),
    ensures
        built(pos, col, n) == Err::<Seq<Seq<u8>>, Error>(e),
    decreases n - m,
{
    if m < n {
        lemma_built_err_stays(pos, col, m, n - 1, e);
    }
}

proof fn lemma_column_len_mono(g: Seq<Seq<u8>>, x: int, ylo: int, a: int, b: int)
    requires
        ylo <= a <= b,
    ensures
        column_items(g, x, ylo, a).len() <= column_items(g, x, ylo, b).len(),
    decreases b - a,
{
    if a < b {
        lemma_column_len_mono(g, x, ylo, a, b - 1);
    }
}

proof fn lemma_block_len_mono(g: Seq<Seq<u8>>, xlo: int, a: int, b: int, ylo: int, yhi: int)
    requires
        xlo <= a <= b,
    ensures
        block_items(g, xlo, a, ylo, yhi).len() <= block_items(g, xlo, b, ylo, yhi).len(),
    decreases b - a,
{
    if a < b {
        lemma_block_len_mono(g, xlo, a, b - 1, ylo, yhi);
    }
}

/// The grid `g` records each of its members in the cell of that member's
/// position in `pos`, once.
pub open spec fn consistent(g: Seq<Seq<u8>>, pos: Seq<Vec2>) -> bool {
    &&& g.len() == 480
    &&& forall|k: int, j: int|
        0 <= k < 480 && 0 <= j < g[k].len() ==> (#[trigger] g[k][j] as int) < pos.len() && cell_of(
            pos[g[k][j] as int],
        ) == k
    &&& forall|k: int| 0 <= k < 480 ==> (#[trigger] g[k]).no_duplicates()
}

/// Body `v` is held by some cell of `g`.
pub open spec fn member(g: Seq<Seq<u8>>, v: u8) -> bool {
    exists|k: int| 0 <= k < 480 && (#[trigger] g[k]).contains(v)
}

/// The cell of `q` lies in the block scanned by a query at `p` with radius `r`.
pub open spec fn in_block(q: Vec2, p: Vec2, r: int) -> bool {
    &&& span_lo(cell_x(p), r) <= cell_x(q) < span_hi(cell_x(p), r, 24)
    &&& span_lo(cell_y(p), r) <= cell_y(q) < span_hi(cell_y(p), r, 20)
}

proof fn lemma_concat_contains(a: Seq<u8>, b: Seq<u8>, v: u8)
    ensures
        (a + b).contains(v) <==> a.contains(v) || b.contains(v),
{
    if (a + b).contains(v) {
        let i = choose|i: int| 0 <= i < (a + b).len() && (a + b)[i] == v;
        if i < a.len() {
            assert(a[i] == v);
        } else {
            assert(b[i - a.len()] == v);
        }
    }
    if a.contains(v) {
        let i = choose|i: int| 0 <= i < a.len() && a[i] == v;
        assert((a + b)[i] == v);
    }
    if b.contains(v) {
        let i = choose|i: int| 0 <= i < b.len() && b[i] == v;
        assert((a + b)[a.len() + i] == v);
    }
}

proof fn lemma_column_contains(g: Seq<Seq<u8>>, x: int, ylo: int, yhi: int, v: u8)
    requires
        ylo <= yhi,
    ensures
        column_items(g, x, ylo, yhi).contains(v) <==> exists|y: int|
            ylo <= y < yhi && (#[trigger] g[x * 20 + y]).contains(v),
    decreases yhi - ylo,
{
    if ylo < yhi {
        lemma_column_contains(g, x, ylo, yhi - 1, v);
        lemma_concat_contains(column_items(g, x, ylo, yhi - 1), g[x * 20 + yhi - 1], v);
        if column_items(g, x, ylo, yhi).contains(v) {
            if !column_items(g, x, ylo, yhi - 1).contains(v) {
                assert(g[x * 20 + (yhi - 1)].contains(v));
            }
        }
    }
}

proof fn lemma_block_contains(g: Seq<Seq<u8>>, xlo: int, xhi: int, ylo: int, yhi: int, v: u8)
    requires
        xlo <= xhi,
        ylo <= yhi,
    ensures
        block_items(g, xlo, xhi, ylo, yhi).contains(v) <==> exists|x: int, y: int|
            xlo <= x < xhi && ylo <= y < yhi && (#[trigger] g[x * 20 + y]).contains(v),
    decreases xhi - xlo,
{
    if xlo < xhi {
        lemma_block_contains(g, xlo, xhi - 1, ylo, yhi, v);
        lemma_column_contains(g, xhi - 1, ylo, yhi, v);
        lemma_concat_contains(
            block_items(g, xlo, xhi - 1, ylo, yhi),
            column_items(g, xhi - 1, ylo, yhi),
            v,
        );
        if block_items(g, xlo, xhi, ylo, yhi).contains(v) {
            if !block_items(g, xlo, xhi - 1, ylo, yhi).contains(v) {
                let y = choose|y: int| ylo <= y < yhi && (#[trigger] g[(xhi - 1) * 20 + y]).contains(v);
                assert(g[(xhi - 1) * 20 + y].contains(v));
            }
        }
        if exists|x: int, y: int| xlo <= x < xhi && ylo <= y < yhi && (#[trigger] g[x * 20 + y]).contains(v) {
            let (x, y) = choose|x: int, y: int|
                xlo <= x < xhi && ylo <= y < yhi && (#[trigger] g[x * 20 + y]).contains(v);
            if x == xhi - 1 {
                assert(exists|y2: int| ylo <= y2 < yhi && (#[trigger] g[(xhi - 1) * 20 + y2]).contains(v));
            }
        }
    }
}

/// A neighbour query on a consistent grid finds exactly the members whose
/// position lies in a cell of the scanned block: no stale entry, none missing.
pub proof fn lemma_query_exact(g: Seq<Seq<u8>>, pos: Seq<Vec2>, p: Vec2, r: int, v: u8)
    requires
        consistent(g, pos),
        r >= 0,
    ensures
        neighbors_spec(g, p, r).contains(v) <==> member(g, v) && in_block(pos[v as int], p, r),
{
    let xlo = span_lo(cell_x(p), r);
    let xhi = span_hi(cell_x(p), r, 24);
    let ylo = span_lo(cell_y(p), r);
    let yhi = span_hi(cell_y(p), r, 20);
    lemma_cell_bounds(p);
    lemma_block_contains(g, xlo, xhi, ylo, yhi, v);
    if neighbors_spec(g, p, r).contains(v) {
        let (x, y) = choose|x: int, y: int|
            xlo <= x < xhi && ylo <= y < yhi && (#[trigger] g[x * 20 + y]).contains(v);
        let k = x * 20 + y;
        let j = choose|j: int| 0 <= j < g[k].len() && g[k][j] == v;
        assert(g[k][j] == v);
        lemma_cell_bounds(pos[v as int]);
        assert(cell_x(pos[v as int]) == x && cell_y(pos[v as int]) == y);
    }
    if member(g, v) && in_block(pos[v as int], p, r) {
        let k = choose|k: int| 0 <= k < 480 && (#[trigger] g[k]).contains(v);
        let j = choose|j: int| 0 <= j < g[k].len() && g[k][j] == v;
        assert(g[k][j] == v);
        lemma_cell_bounds(pos[v as int]);
        let x = cell_x(pos[v as int]);
        let y = cell_y(pos[v as int]);
        assert(g[x * 20 + y].contains(v));
    }
}

/// In a consistent grid a member is held once, by the cell of its position,
/// and by no other cell.
pub proof fn lemma_member_once(g: Seq<Seq<u8>>, pos: Seq<Vec2>, v: u8)
    requires
        consistent(g, pos),
        member(g, v),
    ensures
        (v as int) < pos.len(),
        0 <= cell_of(pos[v as int]) < 480,
        g[cell_of(pos[v as int])].contains(v),
        g[cell_of(pos[v as int])].no_duplicates(),
        forall|k: int| 0 <= k < 480 && k != cell_of(pos[v as int]) ==> !(#[trigger] g[k]).contains(v),
{
    let k0 = choose|k: int| 0 <= k < 480 && (#[trigger] g[k]).contains(v);
    lemma_member_cell(g, pos, v, k0);
    assert forall|k: int| 0 <= k < 480 && k != cell_of(pos[v as int]) implies !(#[trigger] g[k]).contains(v) by {
        if g[k].contains(v) {
            lemma_member_cell(g, pos, v, k);
        }
    };
}

/// In a consistent grid a member is held by the cell of its position.
proof fn lemma_member_cell(g: Seq<Seq<u8>>, pos: Seq<Vec2>, v: u8, k: int)
    requires
        consistent(g, pos),
        0 <= k < 480,
        g[k].contains(v),
    ensures
        (v as int) < pos.len(),
        k == cell_of(pos[v as int]),
{
    let j = choose|j: int| 0 <= j < g[k].len() && g[k][j] == v;
    assert(g[k][j] == v);
}

proof fn lemma_swap_removed(s: Seq<u8>, k: int)
    requires
        0 <= k < s.len(),
        s.no_duplicates(),
    ensures
        swap_removed(s, k).no_duplicates(),
        swap_removed(s, k).len() == s.len() - 1,
        forall|v: u8| swap_removed(s, k).contains(v) <==> (s.contains(v) && v != s[k]),
{
    let t = swap_removed(s, k);
    let n = s.len();
    assert forall|a: int, b: int| 0 <= a < t.len() && 0 <= b < t.len() && a != b implies t[a] != t[b] by {
        let sa = if a == k { n - 1 } else { a };
        let sb = if b == k { n - 1 } else { b };
        assert(t[a] == s[sa]);
        assert(t[b] == s[sb]);
    };
    assert forall|v: u8| t.contains(v) <==> (s.contains(v) && v != s[k]) by {
        if t.contains(v) {
            let a = choose|a: int| 0 <= a < t.len() && t[a] == v;
            let sa = if a == k { n - 1 } else { a };
            assert(s[sa] == v);
        }
        if s.contains(v) && v != s[k] {
            let a = choose|a: int| 0 <= a < s.len() && s[a] == v;
            if a == n - 1 {
                assert(t[k] == v);
            } else {
                assert(t[a] == v);
            }
        }
    };
}

/// Moving body `i` (whose recorded position is `pos[i]`) to `new_pos`, when the
/// insertion succeeds, keeps the grid consistent with the updated positions,
/// and adds `i` to the members.
pub proof fn lemma_update_consistent(g: Seq<Seq<u8>>, pos: Seq<Vec2>, i: int, new_pos: Vec2)
    requires
        consistent(g, pos),
        0 <= i < pos.len(),
        i <= 255,
        insert_step(removed(g, i, pos[i]), i, new_pos) is Ok,
    ensures
        ({
            let g2 = insert_step(removed(g, i, pos[i]), i, new_pos)->Ok_0;
            &&& consistent(g2, pos.update(i, new_pos))
            &&& forall|v: u8| #[trigger] member(g2, v) <==> member(g, v) || v == i as u8
        }),
{
    let v0 = i as u8;
    let co = cell_of(pos[i]);
    let cn = cell_of(new_pos);
    lemma_cell_bounds(pos[i]);
    lemma_cell_bounds(new_pos);
    let s = g[co];
    let g1 = removed(g, i, pos[i]);
    let pos2 = pos.update(i, new_pos);
    assert(g1.len() == 480);
    // After the removal, `i` is in no cell, and every cell keeps its properties.
    if s.contains(v0) {
        let j = choose|j: int| 0 <= j < s.len() && s[j] == v0;
        assert(s[j] == v0);
        assert(forall|q: int| 0 <= q < j ==> s[q] != v0);
        let w = first_pos(s, v0);
        assert(0 <= w < s.len() && s[w] == v0 && forall|q: int| 0 <= q < w ==> s[q] != v0);
        assert(w == j) by {
            if w < j {
            } else if w > j {
            }
        };
        lemma_swap_removed(s, j);
    }
    assert forall|k: int| 0 <= k < 480 implies !(#[trigger] g1[k]).contains(v0) && g1[k].no_duplicates()
        && forall|v: u8| g1[k].contains(v) ==> g[k].contains(v) by {
        if k != co {
            assert(g1[k] == g[k]);
            if g[k].contains(v0) {
                lemma_member_cell(g, pos, v0, k);
            }
        }
    };
    let g2 = insert_step(g1, i, new_pos)->Ok_0;
    assert(g2 == g1.update(cn, g1[cn].push(v0)));
    assert forall|k: int| 0 <= k < 480 implies (#[trigger] g2[k]).no_duplicates() by {
        if k == cn {
            assert forall|a: int, b: int| 0 <= a < g2[k].len() && 0 <= b < g2[k].len() && a != b implies g2[k][a] != g2[k][b] by {
                if a == g1[k].len() {
                    assert(g1[k].contains(g1[k][b]));
                } else if b == g1[k].len() {
                    assert(g1[k].contains(g1[k][a]));
                }
            };
        }
    };
    assert forall|k: int, j: int| 0 <= k < 480 && 0 <= j < g2[k].len() implies (#[trigger] g2[k][j] as int) < pos2.len()
        && cell_of(pos2[g2[k][j] as int]) == k by {
        let v = g2[k][j];
        if k == cn && j == g1[k].len() {
            assert(v == v0);
        } else {
            assert(g1[k][j] == v);
            assert(g1[k].contains(v));
            assert(g[k].contains(v));
            lemma_member_cell(g, pos, v, k);
            assert(v != v0);
        }
    };
    assert forall|v: u8| #[trigger] member(g2, v) <==> member(g, v) || v == v0 by {
        if member(g2, v) {
            let k = choose|k: int| 0 <= k < 480 && (#[trigger] g2[k]).contains(v);
            if v != v0 {
                let j = choose|j: int| 0 <= j < g2[k].len() && g2[k][j] == v;
                if k == cn {
                    assert(j != g1[k].len());
                    assert(g1[k][j] == v);
                }
                assert(g1[k].contains(v));
                assert(g[k].contains(v));
            }
        }
        if v == v0 {
            assert(g2[cn][g1[cn].len() as int] == v0);
            assert(g2[cn].contains(v0));
        } else if member(g, v) {
            let k = choose|k: int| 0 <= k < 480 && (#[trigger] g[k]).contains(v);
            let j = choose|j: int| 0 <= j < g[k].len() && g[k][j] == v;
            if k == co && s.contains(v0) {
                assert(swap_removed(s, first_pos(s, v0)).contains(v));
                assert(g1[k].contains(v));
            } else {
                assert(g1[k] == g[k]);
                assert(g1[k].contains(v));
            }
            let j1 = choose|j1: int| 0 <= j1 < g1[k].len() && g1[k][j1] == v;
            if k == cn {
                assert(g2[k][j1] == v);
            } else {
                assert(g2[k] == g1[k]);
            }
            assert(g2[k].contains(v));
        }
    };
}

/// Inserting a body that is not yet a member, at its recorded position, when
/// the cell has room, keeps the grid consistent and adds it to the members.
pub proof fn lemma_insert_consistent(g: Seq<Seq<u8>>, pos: Seq<Vec2>, i: int)
    requires
        consistent(g, pos),
        0 <= i < pos.len(),
        !member(g, i as u8),
        insert_step(g, i, pos[i]) is Ok,
    ensures
        consistent(insert_step(g, i, pos[i])->Ok_0, pos),
        forall|v: u8| #[trigger] member(insert_step(g, i, pos[i])->Ok_0, v) <==> member(g, v) || v == i as u8,
{
    let v0 = i as u8;
    lemma_cell_bounds(pos[i]);
    let c = cell_of(pos[i]);
    let g2 = insert_step(g, i, pos[i])->Ok_0;
    assert(!g[c].contains(v0));
    assert forall|k: int| 0 <= k < 480 implies (#[trigger] g2[k]).no_duplicates() by {
        if k == c {
            assert forall|a: int, b: int| 0 <= a < g2[k].len() && 0 <= b < g2[k].len() && a != b implies g2[k][a] != g2[k][b] by {
                if a == g[k].len() {
                    assert(g[k].contains(g[k][b]));
                } else if b == g[k].len() {
                    assert(g[k].contains(g[k][a]));
                }
            };
        }
    };
    assert forall|k: int, j: int| 0 <= k < 480 && 0 <= j < g2[k].len() implies (#[trigger] g2[k][j] as int) < pos.len()
        && cell_of(pos[g2[k][j] as int]) == k by {
        if !(k == c && j == g[k].len()) {
            assert(g2[k][j] == g[k][j]);
        }
    };
    assert forall|v: u8| #[trigger] member(g2, v) <==> member(g, v) || v == v0 by {
        if member(g2, v) && v != v0 {
            let k = choose|k: int| 0 <= k < 480 && (#[trigger] g2[k]).contains(v);
            let j = choose|j: int| 0 <= j < g2[k].len() && g2[k][j] == v;
            assert(g[k][j] == v);
            assert(g[k].contains(v));
        }
        if v == v0 {
            assert(g2[c][g[c].len() as int] == v0);
            assert(g2[c].contains(v0));
        } else if member(g, v) {
            let k = choose|k: int| 0 <= k < 480 && (#[trigger] g[k]).contains(v);
            let j = choose|j: int| 0 <= j < g[k].len() && g[k][j] == v;
            assert(g2[k][j] == v);
            assert(g2[k].contains(v));
        }
    };
}

/// How many of the first `n` bodies are collidable and fall in cell `k`.
pub open spec fn load(pos: Seq<Vec2>, col: Seq<bool>, n: int, k: int) -> nat
    decreases n,
{
    if n <= 0 {
        0
    } else if col[n - 1] && cell_of(pos[n - 1]) == k {
        load(pos, col, n - 1, k) + 1
    } else {
        load(pos, col, n - 1, k)
    }
}

proof fn lemma_load_mono(pos: Seq<Vec2>, col: Seq<bool>, m: int, n: int, k: int)
    requires
        0 <= m <= n,
    ensures
        load(pos, col, m, k) <= load(pos, col, n, k),
    decreases n - m,
{
    if m < n {
        lemma_load_mono(pos, col, m, n - 1, k);
    }
}

/// Building succeeds when every index fits in `u8` and no cell receives more
/// than its capacity; each cell then holds as many bodies as fall in it.
pub proof fn lemma_built_ok(pos: Seq<Vec2>, col: Seq<bool>, n: int)
    requires
        0 <= n <= 256,
        n <= pos.len(),
        n <= col.len(),
        forall|k: int| 0 <= k < 480 ==> #[trigger] load(pos, col, n, k) <= 8,
    ensures
        built(pos, col, n) is Ok,
        built(pos, col, n)->Ok_0.len() == 480,
        forall|k: int| 0 <= k < 480 ==> (#[trigger] built(pos, col, n)->Ok_0[k]).len() == load(pos, col, n, k),
    decreases n,
{
    if n > 0 {
        assert forall|k: int| 0 <= k < 480 implies #[trigger] load(pos, col, n - 1, k) <= 8 by {
            lemma_load_mono(pos, col, n - 1, n, k);
        };
        lemma_built_ok(pos, col, n - 1);
        let g = built(pos, col, n - 1)->Ok_0;
        if col[n - 1] {
            let c = cell_of(pos[n - 1]);
            lemma_cell_bounds(pos[n - 1]);
            assert(load(pos, col, n, c) == load(pos, col, n - 1, c) + 1);
            assert(g[c].len() < 8);
            let g2 = built(pos, col, n)->Ok_0;
            assert forall|k: int| 0 <= k < 480 implies (#[trigger] g2[k]).len() == load(pos, col, n, k) by {
                if k != c {
                    assert(g2[k] == g[k]);
                }
            };
        }
    }
}

/// The grid built from the bodies is consistent with their positions, and
/// its members are the collidable bodies.
pub proof fn lemma_built_consistent(pos: Seq<Vec2>, col: Seq<bool>, n: int)
    requires
        0 <= n <= pos.len(),
        n <= col.len(),
        built(pos, col, n) is Ok,
    ensures
        consistent(built(pos, col, n)->Ok_0, pos),
        forall|v: u8| #[trigger] member(built(pos, col, n)->Ok_0, v) <==> (v as int) < n && col[v as int],
    decreases n,
{
    if n == 0 {
        let g = empty_grid();
        assert forall|v: u8| !member(g, v) by {
            if member(g, v) {
                let k = choose|k: int| 0 <= k < 480 && (#[trigger] g[k]).contains(v);
                assert(g[k].len() == 0);
            }
        };
    } else {
        lemma_built_consistent(pos, col, n - 1);
        let g = built(pos, col, n - 1)->Ok_0;
        if col[n - 1] {
            assert(n - 1 <= 255);
            assert(!member(g, (n - 1) as u8));
            lemma_insert_consistent(g, pos, n - 1);
            let g2 = built(pos, col, n)->Ok_0;
            assert forall|v: u8| #[trigger] member(g2, v) <==> (v as int) < n && col[v as int] by {
                assert(member(g, v) <==> (v as int) < n - 1 && col[v as int]);
                assert(member(g2, v) <==> member(g, v) || v == (n - 1) as u8);
                if v as int == n - 1 {
                    assert(v == (n - 1) as u8);
                }
            };
        } else {
            assert forall|v: u8| #[trigger] member(g, v) <==> (v as int) < n && col[v as int] by {
                assert(member(g, v) <==> (v as int) < n - 1 && col[v as int]);
                if v as int == n - 1 {
                    assert(!col[v as int]);
                }
            };
        }
    }
}

/// Clamps a position into the area covered by the grid.
pub fn clamp_position_to_grid(position: Vec2) -> (r: Vec2)
    ensures
        r == clamp_to_grid(position),
{
    let lo = Fixed::from_raw(0);
    Vec2::new(
        position.x.clamp(lo, Fixed::from_raw(GRID_MAX_X_RAW)),
        position.y.clamp(lo, Fixed::from_raw(GRID_MAX_Y_RAW)),
    )
}

/// A uniform grid of cells over the world, each holding the indices of the
/// bodies whose position falls in it.
pub struct Grid2D {
    cells: Vec<heapless::Vec<u8, 8>>,
}

impl View for Grid2D {
    type V = Seq<Seq<u8>>;

    closed spec fn view(&self) -> Seq<Seq<u8>> {
        self.cells@.map_values(|c: heapless::Vec<u8, 8>| cell_items(c))
    }
}

impl Grid2D {
    /// The grid has all its cells, none over capacity.
    pub open spec fn wf(&self) -> bool {
        &&& self@.len() == 480
        &&& forall|k: int| 0 <= k < 480 ==> #[trigger] self@[k].len() <= 8
    }

    /// Maps a position to the coordinates of its cell: clamped into the grid,
    /// rounded to the nearest integer, divided by the cell size.
    pub fn spatial_to_grid_coords(coordinates: &Vec2) -> (r: (usize, usize))
        ensures
            r.0 == cell_x(*coordinates),
            r.1 == cell_y(*coordinates),
            r.0 < NB_WIDTH,
            r.1 < NB_HEIGHT,
    {
        let c = clamp_position_to_grid(*coordinates);
        let rx = c.x.round();
        let ry = c.y.round();
        let ux = rx as u32;
        let uy = ry as u32;
        proof {
            lemma_cell_bounds(*coordinates);
        }
        ((ux / 8) as usize, (uy / 8) as usize)
    }

    fn cell_index(x: usize, y: usize) -> (r: usize)
        requires
            x < NB_WIDTH,
            y < NB_HEIGHT,
        ensures
            r == x * 20 + y,
            r < NB_CELLS,
    {
        x * NB_HEIGHT + y
    }

    fn empty() -> (r: Grid2D)
        ensures
            r.wf(),
            r@ == empty_grid(),
    {
        let mut cells: Vec<heapless::Vec<u8, 8>> = Vec::new();
        let mut k: usize = 0;
        while k < NB_CELLS
            invariant
                k <= NB_CELLS,
                cells@.len() == k,
                forall|j: int| 0 <= j < k ==> cell_items(#[trigger] cells@[j]) == Seq::<u8>::empty(),
            decreases NB_CELLS - k,
        {
            cells.push(cell_new());
            k = k + 1;
        }
        let r = Grid2D { cells };
        assert(r@ =~= empty_grid());
        r
    }

    fn push_in_cell(&mut self, k: usize, index: u8) -> (r: Result<(), Error>)
        requires
            old(self).wf(),
            k < NB_CELLS,
        ensures
            final(self).wf(),
            old(self)@[k as int].len() < 8 ==> r is Ok && final(self)@ == old(self)@.update(
                k as int,
                old(self)@[k as int].push(index),
            ),
            old(self)@[k as int].len() >= 8 ==> r == Err::<(), Error>(Error::CellFull)
                && final(self)@ == old(self)@,
    {
        let ghost before = self@;
        let res = cell_push(&mut self.cells[k], index);
        assert(self@ =~= if before[k as int].len() < 8 {
            before.update(k as int, before[k as int].push(index))
        } else {
            before
        });
        match res {
            Ok(()) => Ok(()),
            Err(_) => Err(Error::CellFull),
        }
    }

    /// Removes the first occurrence of `index` from cell `k`; tells whether it was there.
    fn try_remove_in_cell(&mut self, k: usize, index: u8) -> (r: bool)
        requires
            old(self).wf(),
            k < NB_CELLS,
        ensures
            final(self).wf(),
            r == old(self)@[k as int].contains(index),
            final(self)@ == old(self)@.update(
                k as int,
                remove_first(old(self)@[k as int], index),
            ),
    {
        let ghost before = self@;
        let ghost s = before[k as int];
        assert(cell_items(self.cells@[k as int]) == s);
        let n = cell_len(&self.cells[k]);
        let mut j: usize = 0;
        let mut found = false;
        while j < n && !found
            invariant
                self@ == before,
                self.cells@.len() == 480,
                k < 480,
                n == s.len(),
                cell_items(self.cells@[k as int]) == s,
                j <= n,
                found ==> j < n && s[j as int] == index,
                forall|q: int| 0 <= q < j ==> s[q] != index,
            decreases n - j + (if found { 0int } else { 1int }),
        {
            if cell_get(&self.cells[k], j) == index {
                found = true;
            } else {
                j = j + 1;
            }
        }
        if found {
            assert(first_pos(s, index) == j) by {
                assert(s.contains(index));
                let w = first_pos(s, index);
                assert(0 <= w < s.len() && s[w] == index && forall|q: int|
                    0 <= q < w ==> s[q] != index);
                if w < j {
                } else if w > j {
                }
            };
            cell_swap_remove(&mut self.cells[k], j);
            assert(self@ =~= before.update(k as int, remove_first(s, index)));
            assert(s.len() <= 8);
            assert forall|q: int| 0 <= q < 480 implies #[trigger] self@[q].len() <= 8 by {
                if q != k {
                    assert(self@[q] == before[q]);
                }
            };
            true
        } else {
            assert(!s.contains(index));
            assert(self@ =~= before.update(k as int, remove_first(s, index)));
            false
        }
    }

    /// Builds the grid from the positions of the bodies, inserting each
    /// collidable body in index order.
    pub fn new(positions: &[Vec2], collidable: &[bool]) -> (r: Result<Grid2D, Error>)
        requires
            collidable@.len() >= positions@.len(),
        ensures
            match r {
                Ok(g) => g.wf() && built(positions@, collidable@, positions@.len() as int) == Ok::<
                    Seq<Seq<u8>>,
                    Error,
                >(g@),
                Err(e) => built(positions@, collidable@, positions@.len() as int) == Err::<
                    Seq<Seq<u8>>,
                    Error,
                >(e),
            },
    {
        let mut res = Grid2D::empty();
        let n = positions.len();
        let mut i: usize = 0;
        while i < n
            invariant
                n == positions@.len(),
                collidable@.len() >= n,
                i <= n,
                res.wf(),
                built(positions@, collidable@, i as int) == Ok::<Seq<Seq<u8>>, Error>(res@),
            decreases n - i,
        {
            if collidable[i] {
                let (x, y) = Self::spatial_to_grid_coords(&positions[i]);
                if i > 255 {
                    proof {
                        lemma_built_err_stays(
                            positions@,
                            collidable@,
                            i + 1,
                            n as int,
                            Error::IndexTooBig,
                        );
                    }
                    return Err(Error::IndexTooBig);
                }
                let k = Self::cell_index(x, y);
                match res.push_in_cell(k, i as u8) {
                    Ok(()) => {},
                    Err(e) => {
                        proof {
                            lemma_built_err_stays(positions@, collidable@, i + 1, n as int, e);
                        }
                        return Err(e);
                    },
                }
            }
            i = i + 1;
        }
        Ok(res)
    }

    /// Adds body `index` at `position`, for a body that becomes collidable.
    pub fn insert(&mut self, index: usize, position: Vec2) -> (r: Result<(), Error>)
        requires
            old(self).wf(),
        ensures
            final(self).wf(),
            match insert_step(old(self)@, index as int, position) {
                Ok(g) => r is Ok && final(self)@ == g,
                Err(e) => r == Err::<(), Error>(e) && final(self)@ == old(self)@,
            },
            forall|pos: Seq<Vec2>|
                #[trigger] consistent(old(self)@, pos) && index < pos.len() && pos[index as int]
                    == position && !member(old(self)@, index as u8) && r is Ok ==> consistent(
                    final(self)@,
                    pos,
                ),
    {
        if index > 255 {
            return Err(Error::IndexTooBig);
        }
        let ghost g0 = self@;
        let (x, y) = Self::spatial_to_grid_coords(&position);
        let k = Self::cell_index(x, y);
        let res = self.push_in_cell(k, index as u8);
        assert forall|pos: Seq<Vec2>|
            #[trigger] consistent(g0, pos) && index < pos.len() && pos[index as int] == position
                && !member(g0, index as u8) && res is Ok implies consistent(self@, pos) by {
            lemma_insert_consistent(g0, pos, index as int);
        };
        res
    }

    /// Moves body `index` from the cell of `old_position` to the cell of
    /// `new_position`. Equal positions leave the grid untouched. A body that is
    /// not found in its old cell is taken as newly tracked: it is only inserted.
    pub fn update(&mut self, index: usize, old_position: Vec2, new_position: Vec2) -> (r: Result<
        (),
        Error,
    >)
        requires
            old(self).wf(),
        ensures
            final(self).wf(),
            old_position == new_position ==> r is Ok && final(self)@ == old(self)@,
            old_position != new_position && index > 255 ==> r == Err::<(), Error>(
                Error::IndexTooBig,
            ) && final(self)@ == old(self)@,
            old_position != new_position && index <= 255 ==> match insert_step(
                removed(old(self)@, index as int, old_position),
                index as int,
                new_position,
            ) {
                Ok(g) => r is Ok && final(self)@ == g,
                Err(e) => r == Err::<(), Error>(e) && final(self)@ == removed(
                    old(self)@,
                    index as int,
                    old_position,
                ),
            },
            match grid_move_spec(old(self)@, index as int, old_position, new_position) {
                Ok(g) => r is Ok && final(self)@ == g,
                Err(e) => r == Err::<(), Error>(e),
            },
            forall|pos: Seq<Vec2>|
                #[trigger] consistent(old(self)@, pos) && index < pos.len() && pos[index as int]
                    == old_position && r is Ok ==> consistent(
                    final(self)@,
                    pos.update(index as int, new_position),
                ),
            forall|pos: Seq<Vec2>, v: u8|
                #![trigger consistent(old(self)@, pos), member(final(self)@, v)]
                consistent(old(self)@, pos) && index < pos.len() && pos[index as int] == old_position
                    && old_position != new_position && r is Ok ==> (member(final(self)@, v) <==> member(
                    old(self)@,
                    v,
                ) || v == index as u8),
    {
        if old_position == new_position {
            assert forall|pos: Seq<Vec2>|
                #[trigger] consistent(self@, pos) && index < pos.len() && pos[index as int]
                    == old_position implies consistent(self@, pos.update(index as int, new_position)) by {
                assert(pos.update(index as int, new_position) =~= pos);
            };
            return Ok(());
        }
        if index > 255 {
            return Err(Error::IndexTooBig);
        }
        let ghost g0 = self@;
        let (ox, oy) = Self::spatial_to_grid_coords(&old_position);
        let (nx, ny) = Self::spatial_to_grid_coords(&new_position);
        let ok = Self::cell_index(ox, oy);
        let nk = Self::cell_index(nx, ny);
        let _was_removed = self.try_remove_in_cell(ok, index as u8);
        let res = self.push_in_cell(nk, index as u8);
        assert forall|pos: Seq<Vec2>|
            #[trigger] consistent(g0, pos) && index < pos.len() && pos[index as int] == old_position
                && res is Ok implies consistent(self@, pos.update(index as int, new_position)) by {
            lemma_update_consistent(g0, pos, index as int, new_position);
        };
        assert forall|pos: Seq<Vec2>, v: u8|
            #![trigger consistent(g0, pos), member(self@, v)]
            consistent(g0, pos) && index < pos.len() && pos[index as int] == old_position && res is Ok
                implies (member(self@, v) <==> member(g0, v) || v == index as u8) by {
            lemma_update_consistent(g0, pos, index as int, new_position);
        };
        res
    }

    /// The indices of the bodies in the square block of cells spanning
    /// `cell_radius` cells in each direction from the cell of `position`,
    /// column by column. More than `MAX_NEIGHBORS` of them is an error.
    pub fn get_neighbors(&self, position: Vec2, cell_radius: usize) -> (r: Result<
        heapless::Vec<u8, 64>,
        Error,
    >)
        requires
            self.wf(),
        ensures
            neighbors_spec(self@, position, cell_radius as int).len() <= 64 ==> r is Ok
                && found_items(r->Ok_0) == neighbors_spec(self@, position, cell_radius as int),
            neighbors_spec(self@, position, cell_radius as int).len() > 64 ==> r is Err && r->Err_0
                == Error::TooManyNeighbors,
            forall|pos: Seq<Vec2>, v: u8|
                #[trigger] consistent(self@, pos) && r is Ok ==> (#[trigger] found_items(r->Ok_0).contains(v)
                    <==> member(self@, v) && in_block(pos[v as int], position, cell_radius as int)),
    {
        proof {
            assert forall|pos: Seq<Vec2>, v: u8| #[trigger] consistent(self@, pos) implies (
            #[trigger] neighbors_spec(self@, position, cell_radius as int).contains(v) <==> member(self@, v)
                && in_block(pos[v as int], position, cell_radius as int)) by {
                lemma_query_exact(self@, pos, position, cell_radius as int, v);
            };
        }
        let (cx, cy) = Self::spatial_to_grid_coords(&position);
        let xlo = if cx >= cell_radius {
            cx - cell_radius
        } else {
            0
        };
        let ylo = if cy >= cell_radius {
            cy - cell_radius
        } else {
            0
        };
        let xhi = if cell_radius >= NB_WIDTH || cx + cell_radius + 1 >= NB_WIDTH {
            NB_WIDTH
        } else {
            cx + cell_radius + 1
        };
        let yhi = if cell_radius >= NB_HEIGHT || cy + cell_radius + 1 >= NB_HEIGHT {
            NB_HEIGHT
        } else {
            cy + cell_radius + 1
        };
        let ghost g = self@;
        assert(neighbors_spec(g, position, cell_radius as int) == block_items(
            g,
            xlo as int,
            xhi as int,
            ylo as int,
            yhi as int,
        ));
        let mut out = found_new();
        let mut x = xlo;
        while x < xhi
            invariant
                self.wf(),
                g == self@,
                neighbors_spec(g, position, cell_radius as int) == block_items(
                    g,
                    xlo as int,
                    xhi as int,
                    ylo as int,
                    yhi as int,
                ),
                xlo <= x <= xhi <= NB_WIDTH,
                ylo <= yhi <= NB_HEIGHT,
                found_items(out) == block_items(g, xlo as int, x as int, ylo as int, yhi as int),
                found_items(out).len() <= 64,
            decreases xhi - x,
        {
            let mut y = ylo;
            while y < yhi
                invariant
                    self.wf(),
                    g == self@,
                neighbors_spec(g, position, cell_radius as int) == block_items(
                    g,
                    xlo as int,
                    xhi as int,
                    ylo as int,
                    yhi as int,
                ),
                    xlo <= x < xhi <= NB_WIDTH,
                    ylo <= y <= yhi <= NB_HEIGHT,
                    found_items(out) == block_items(g, xlo as int, x as int, ylo as int, yhi as int)
                        + column_items(g, x as int, ylo as int, y as int),
                    found_items(out).len() <= 64,
                decreases yhi - y,
            {
                let k = Self::cell_index(x, y);
                let ghost prefix = found_items(out);
                assert(cell_items(self.cells@[k as int]) == g[k as int]);
                let n = cell_len(&self.cells[k]);
                let mut j: usize = 0;
                while j < n
                    invariant
                        self.wf(),
                        g == self@,
                neighbors_spec(g, position, cell_radius as int) == block_items(
                    g,
                    xlo as int,
                    xhi as int,
                    ylo as int,
                    yhi as int,
                ),
                        k < 480,
                        k == x * 20 + y,
                        xlo <= x < xhi <= NB_WIDTH,
                        ylo <= y < yhi <= NB_HEIGHT,
                        prefix == block_items(g, xlo as int, x as int, ylo as int, yhi as int)
                            + column_items(g, x as int, ylo as int, y as int),
                        n == g[k as int].len(),
                        cell_items(self.cells@[k as int]) == g[k as int],
                        j <= n,
                        found_items(out) == prefix + g[k as int].subrange(0, j as int),
                        found_items(out).len() <= 64,
                    decreases n - j,
                {
                    let v = cell_get(&self.cells[k], j);
                    let pushed = found_push(&mut out, v);
                    if let Err(_) = pushed {
                        proof {
                            let xl = xlo as int;
                            let yl = ylo as int;
                            assert(column_items(g, x as int, yl, y + 1) == column_items(
                                g,
                                x as int,
                                yl,
                                y as int,
                            ) + g[k as int]);
                            lemma_column_len_mono(g, x as int, yl, y + 1, yhi as int);
                            assert(block_items(g, xl, x + 1, yl, yhi as int) == block_items(
                                g,
                                xl,
                                x as int,
                                yl,
                                yhi as int,
                            ) + column_items(g, x as int, yl, yhi as int));
                            lemma_block_len_mono(g, xl, x + 1, xhi as int, yl, yhi as int);
                            assert(found_items(out).len() == prefix.len() + j);
                            assert(block_items(g, xl, x + 1, yl, yhi as int).len() >= prefix.len()
                                + n);
                            assert(block_items(g, xl, xhi as int, yl, yhi as int).len() > 64);
                        }
                        return Err(Error::TooManyNeighbors);
                    }
                    assert(g[k as int].subrange(0, j + 1) =~= g[k as int].subrange(
                        0,
                        j as int,
                    ).push(v));
                    j = j + 1;
                }
                assert(g[k as int].subrange(0, n as int) =~= g[k as int]);
                assert(column_items(g, x as int, ylo as int, y + 1) == column_items(
                    g,
                    x as int,
                    ylo as int,
                    y as int,
                ) + g[k as int]);
                assert(found_items(out) =~= block_items(g, xlo as int, x as int, ylo as int, yhi as int)
                    + column_items(g, x as int, ylo as int, y + 1));
                y = y + 1;
            }
            assert(found_items(out) =~= block_items(g, xlo as int, x + 1, ylo as int, yhi as int));
            x = x + 1;
        }
        Ok(out)
    }
}

} // verus!
