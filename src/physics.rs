use vstd::prelude::*;

use crate::error::Error;
use crate::fixed::{
    add_spec, dot_spec, from_int_spec, fx, mag2_spec, mul_spec, neg_spec, sub_spec, vadd, vdiv,
    vscale, vsub, wrap, Fixed, Vec2, clamp_spec, div_spec, sqrt_spec, mul_raw,
    lemma_wrap_small,
};
use crate::grid::{
    clamp_position_to_grid, clamp_to_grid, consistent, insert_step, lemma_built_consistent,
    lemma_clamp_idempotent, lemma_query_exact, lemma_update_consistent, member, in_block,
    neighbors_spec, removed, grid_move_spec, found_items, found_len, found_get, Grid2D,
};
use vstd::wrapping::usize_specs;

verus! {

broadcast use vstd::array::group_array_axioms;

/// Wall bounce damping, 0.9 in fixed point.
pub const WALL_BOUNCE_DAMPING_RAW: i32 = 230;

/// Damping of a bounce off another body, 0.9 in fixed point.
pub const BOUNCE_DAMPING_RAW: i32 = 230;

/// Velocity pushed outwards from a wall on contact, 15 in fixed point.
pub const ESCAPE_FORCE_RAW: i32 = 3840;

/// Damping of the velocity along a wall that was hit, 0.8 in fixed point.
pub const WALL_SLIDE_DAMPING_RAW: i32 = 204;

/// Distances at or under this one are too small to divide by (0.001 in fixed point).
pub const MIN_DISTANCE_THRESHOLD_RAW: i32 = 0;

/// Drag applied to free bodies each frame, 0.98 in fixed point.
pub const VELOCITY_DAMPING_RAW: i32 = 250;

/// Squared speed under which a bounced body is boosted, 625 in fixed point.
pub const MIN_BOUNCE_SPEED_SQUARED_RAW: i32 = 160000;

/// Per-axis speed floor of a boosted body, 12 in fixed point.
pub const HALF_MIN_VELOCITY_RAW: i32 = 3072;

/// Jitter is added on one frame out of this many for a given body.
pub const RANDOMNESS_INTERVAL: usize = 4;

pub const RAND_X_MULTIPLIER: usize = 31;

pub const RAND_Y_MULTIPLIER: usize = 37;

pub const RAND_X_OFFSET: usize = 17;

pub const RAND_Y_OFFSET: usize = 23;

pub const RAND_MODULO: usize = 10;

pub const RAND_CENTER_OFFSET: i32 = 5;

/// Squared distances under this one exert no repulsion (0.1 in fixed point).
pub const MIN_DISTANCE_CHECK_RAW: i32 = 25;

/// Share of an overlap corrected on one body, 0.5 in fixed point.
pub const OVERLAP_ADJUSTMENT_RAW: i32 = 128;

/// Bound on each velocity component after a repulsion step, 50 in fixed point.
pub const VELOCITY_CLAMP_LIMIT_RAW: i32 = 12800;

/// Radius, in cells, of the query for contacts.
pub const NEIGHBOR_SEARCH_RADIUS: usize = 1;

/// Radius, in cells, of the query for repulsion.
pub const FORCE_SEARCH_RADIUS: usize = 5;

/// Tuning of one population of bodies; passed to each call, never stored.
#[derive(Clone, Copy, Debug, PartialEq, Eq, Structural)]
pub struct PhysicsConfig {
    pub left_wall: i32,
    pub up_wall: i32,
    pub right_wall: i32,
    pub down_wall: i32,
    pub moving_radius: i32,
    pub static_radius: i32,
    pub gravity: i32,
    pub repulsion_strength: i32,
    pub object_radius: i32,
}

/// Truncating halving, as `i32` division by two.
pub open spec fn trunc_half(s: int) -> int {
    if s >= 0 {
        s / 2
    } else {
        -((-s) / 2)
    }
}

/// Contact with the walls `lo`/`hi` along one axis: position clamped to the
/// wall, velocity reflected, damped, and pushed outwards by the escape force.
pub open spec fn wall_hit(p: Fixed, v: Fixed, lo: Fixed, hi: Fixed) -> (Fixed, Fixed, bool) {
    if p.raw < lo.raw {
        (lo, add_spec(mul_spec(neg_spec(v), fx(WALL_BOUNCE_DAMPING_RAW)), fx(ESCAPE_FORCE_RAW)), true)
    } else if p.raw > hi.raw {
        (hi, sub_spec(mul_spec(neg_spec(v), fx(WALL_BOUNCE_DAMPING_RAW)), fx(ESCAPE_FORCE_RAW)), true)
    } else {
        (p, v, false)
    }
}

/// The surface of the low wall at `wall`, for a body of radius `radius`.
pub open spec fn wall_lo(wall: i32, radius: Fixed) -> Fixed {
    add_spec(from_int_spec(wall as int), radius)
}

/// The surface of the high wall at `wall`, for a body of radius `radius`.
pub open spec fn wall_hi(wall: i32, radius: Fixed) -> Fixed {
    sub_spec(from_int_spec(wall as int), radius)
}

/// The middle of two walls, truncated to an integer.
pub open spec fn center_spec(a: i32, b: i32) -> Fixed {
    from_int_spec(trunc_half(a + b))
}

/// After hitting two walls at once, the velocity is pushed away from the corner.
pub open spec fn corner_escape_spec(p: Vec2, v: Vec2, hx: bool, hy: bool, c: PhysicsConfig) -> Vec2 {
    if hx && hy {
        Vec2 {
            x: if p.x.raw < center_spec(c.left_wall, c.right_wall).raw {
                add_spec(v.x, fx(ESCAPE_FORCE_RAW))
            } else {
                sub_spec(v.x, fx(ESCAPE_FORCE_RAW))
            },
            y: if p.y.raw < center_spec(c.up_wall, c.down_wall).raw {
                add_spec(v.y, fx(ESCAPE_FORCE_RAW))
            } else {
                sub_spec(v.y, fx(ESCAPE_FORCE_RAW))
            },
        }
    } else {
        v
    }
}

/// The velocity along a wall that was hit is damped.
pub open spec fn slide_damping_spec(v: Vec2, hx: bool, hy: bool) -> Vec2 {
    Vec2 {
        x: if hy {
            mul_spec(v.x, fx(WALL_SLIDE_DAMPING_RAW))
        } else {
            v.x
        },
        y: if hx {
            mul_spec(v.y, fx(WALL_SLIDE_DAMPING_RAW))
        } else {
            v.y
        },
    }
}

/// Position and velocity after the collision with the four walls.
pub open spec fn walls_spec(p: Vec2, v: Vec2, radius: Fixed, c: PhysicsConfig) -> (Vec2, Vec2) {
    let hx = wall_hit(p.x, v.x, wall_lo(c.left_wall, radius), wall_hi(c.right_wall, radius));
    let hy = wall_hit(p.y, v.y, wall_lo(c.up_wall, radius), wall_hi(c.down_wall, radius));
    let p1 = Vec2 { x: hx.0, y: hy.0 };
    let v1 = Vec2 { x: hx.1, y: hy.1 };
    (p1, slide_damping_spec(corner_escape_spec(p1, v1, hx.2, hy.2, c), hx.2, hy.2))
}

/// A body past the left wall, and between the top and bottom walls, is put
/// back on the left wall surface, with its x velocity reflected, damped and
/// pushed out by the escape force; its y position is kept.
pub proof fn lemma_left_wall_bounce(p: Vec2, v: Vec2, radius: Fixed, c: PhysicsConfig)
    requires
        p.x.raw < wall_lo(c.left_wall, radius).raw,
        wall_lo(c.up_wall, radius).raw <= p.y.raw <= wall_hi(c.down_wall, radius).raw,
    ensures
        walls_spec(p, v, radius, c).0 == (Vec2 { x: wall_lo(c.left_wall, radius), y: p.y }),
        walls_spec(p, v, radius, c).1.x == add_spec(
            mul_spec(neg_spec(v.x), fx(WALL_BOUNCE_DAMPING_RAW)),
            fx(ESCAPE_FORCE_RAW),
        ),
{
}

/// The point of the segment `s`-`e` closest to `p`; none for a degenerate segment.
pub open spec fn closest_spec(p: Vec2, s: Vec2, e: Vec2) -> Option<Vec2> {
    let w = vsub(e, s);
    let l2 = mag2_spec(w);
    if l2.raw <= MIN_DISTANCE_THRESHOLD_RAW {
        None
    } else {
        let t = clamp_spec(div_spec(dot_spec(vsub(p, s), w), l2), fx(0), fx(256));
        Some(vadd(s, vscale(w, t)))
    }
}

/// Position and velocity after the collision with the segment `s`-`e`: a body
/// closer than its radius is put back at its radius along the contact normal,
/// and its velocity is reflected across the normal, the normal component damped.
pub open spec fn segment_spec(p: Vec2, v: Vec2, radius: Fixed, s: Vec2, e: Vec2) -> (Vec2, Vec2) {
    match closest_spec(p, s, e) {
        None => (p, v),
        Some(cp) => {
            let dv = vsub(p, cp);
            let d2 = mag2_spec(dv);
            if 0 <= d2.raw && d2.raw < mul_spec(radius, radius).raw {
                let d = sqrt_spec(d2);
                if d.raw > MIN_DISTANCE_THRESHOLD_RAW {
                    let normal = vdiv(dv, d);
                    let van = dot_spec(v, normal);
                    (
                        vadd(cp, vscale(normal, radius)),
                        vsub(
                            v,
                            vscale(vscale(normal, mul_spec(van, fx(512))), fx(WALL_BOUNCE_DAMPING_RAW)),
                        ),
                    )
                } else {
                    (p, v)
                }
            } else {
                (p, v)
            }
        },
    }
}

/// Position and velocity after the first `n` segments, in order.
pub open spec fn segments_spec(p: Vec2, v: Vec2, radius: Fixed, walls: Seq<(Vec2, Vec2)>, n: int) -> (Vec2, Vec2)
    decreases n,
{
    if n <= 0 {
        (p, v)
    } else {
        let pv = segments_spec(p, v, radius, walls, n - 1);
        segment_spec(pv.0, pv.1, radius, walls[n - 1].0, walls[n - 1].1)
    }
}

/// Contact distance of the moving body with a static one.
pub open spec fn collision_distance_spec(c: PhysicsConfig) -> Fixed {
    from_int_spec(wrap(c.moving_radius + c.static_radius) as int)
}

/// `q` lies within `cd` of `p`. A squared distance that wrapped below zero
/// belongs to a far away pair.
pub open spec fn within(p: Vec2, q: Vec2, cd: Fixed) -> bool {
    let d2 = mag2_spec(vsub(p, q));
    0 <= d2.raw && d2.raw < mul_spec(cd, cd).raw
}

/// Body `i` is a collidable body, one of the `pos`, within `cd` of `p`.
pub open spec fn touches(i: int, p: Vec2, pos: Seq<Vec2>, col: Seq<bool>, cd: Fixed) -> bool {
    0 <= i < pos.len() && i < col.len() && col[i] && within(p, pos[i], cd)
}

/// The found bodies, among the first `k` of `ns`, that the body at `p` touches.
pub open spec fn touched_spec(ns: Seq<u8>, p: Vec2, pos: Seq<Vec2>, col: Seq<bool>, cd: Fixed, k: int) -> Seq<usize>
    decreases k,
{
    if k <= 0 {
        Seq::empty()
    } else {
        let prev = touched_spec(ns, p, pos, col, cd, k - 1);
        if touches(ns[k - 1] as int, p, pos, col, cd) {
            prev.push(ns[k - 1] as usize)
        } else {
            prev
        }
    }
}

/// The contacts, among the first `k` of `ns`, that are resolved: a touched body
/// at a distance large enough to divide by.
pub open spec fn collisions_spec(ns: Seq<u8>, p: Vec2, pos: Seq<Vec2>, col: Seq<bool>, cd: Fixed, k: int) -> Seq<(usize, Vec2, Fixed, Fixed)>
    decreases k,
{
    if k <= 0 {
        Seq::empty()
    } else {
        let prev = collisions_spec(ns, p, pos, col, cd, k - 1);
        let i = ns[k - 1] as int;
        if touches(i, p, pos, col, cd) {
            let dv = vsub(p, pos[i]);
            let d = sqrt_spec(mag2_spec(dv));
            if d.raw > MIN_DISTANCE_THRESHOLD_RAW {
                prev.push((i as usize, dv, d, cd))
            } else {
                prev
            }
        } else {
            prev
        }
    }
}

/// Bounce off one static body along `dv` at distance `d`.
pub open spec fn static_resolve_spec(p: Vec2, v: Vec2, dv: Vec2, d: Fixed, cd: Fixed) -> (Vec2, Vec2)
    recommends
        d.raw > 0,
{
    let normal = vdiv(dv, d);
    let van = dot_spec(v, normal);
    let v1 = vsub(v, vscale(normal, mul_spec(van, fx(512))));
    let overlap = sub_spec(cd, d);
    (
        vadd(p, vscale(vscale(normal, overlap), fx(OVERLAP_ADJUSTMENT_RAW))),
        vscale(v1, fx(BOUNCE_DAMPING_RAW)),
    )
}

/// Position and velocity after resolving the first `k` contacts of `cs`, in order.
pub open spec fn resolve_all_spec(p: Vec2, v: Vec2, cs: Seq<(usize, Vec2, Fixed, Fixed)>, k: int) -> (Vec2, Vec2)
    decreases k,
{
    if k <= 0 {
        (p, v)
    } else {
        let pv = resolve_all_spec(p, v, cs, k - 1);
        static_resolve_spec(pv.0, pv.1, cs[k - 1].1, cs[k - 1].2, cs[k - 1].3)
    }
}

/// Velocity after one integration step under gravity.
pub open spec fn integrated_velocity(v: Vec2, delta: Fixed, c: PhysicsConfig) -> Vec2 {
    vadd(v, vscale(Vec2 { x: fx(0), y: from_int_spec(c.gravity as int) }, delta))
}

/// Position and velocity of the moving body when it meets the static bodies:
/// integrated, then bounced off the walls and the segments.
pub open spec fn pre_static_spec(p: Vec2, v: Vec2, delta: Fixed, walls: Seq<(Vec2, Vec2)>, c: PhysicsConfig) -> (Vec2, Vec2) {
    let v1 = integrated_velocity(v, delta, c);
    let p1 = vadd(p, vscale(v1, delta));
    let w = walls_spec(p1, v1, from_int_spec(c.moving_radius as int), c);
    segments_spec(w.0, w.1, from_int_spec(c.moving_radius as int), walls, walls.len() as int)
}

proof fn lemma_collisions_positive(ns: Seq<u8>, p: Vec2, pos: Seq<Vec2>, col: Seq<bool>, cd: Fixed, k: int)
    ensures
        forall|j: int|
            0 <= j < collisions_spec(ns, p, pos, col, cd, k).len() ==> (#[trigger] collisions_spec(
                ns,
                p,
                pos,
                col,
                cd,
                k,
            )[j]).2.raw > 0,
    decreases k,
{
    if k > 0 {
        lemma_collisions_positive(ns, p, pos, col, cd, k - 1);
        let prev = collisions_spec(ns, p, pos, col, cd, k - 1);
        let cur = collisions_spec(ns, p, pos, col, cd, k);
        assert forall|j: int| 0 <= j < cur.len() implies (#[trigger] cur[j]).2.raw > 0 by {
            if j < prev.len() {
                assert(cur[j] == prev[j]);
            }
        };
    }
}

/// Velocity of body `index` after the repulsion of the first `k` bodies of `ns`.
pub open spec fn repulsion_spec(
    v: Vec2,
    ns: Seq<u8>,
    index: int,
    p: Vec2,
    force_radius: Fixed,
    pos: Seq<Vec2>,
    delta: Fixed,
    c: PhysicsConfig,
    k: int,
) -> Vec2
    decreases k,
{
    if k <= 0 {
        v
    } else {
        let prev = repulsion_spec(v, ns, index, p, force_radius, pos, delta, c, k - 1);
        repulsion_step_spec(prev, ns[k - 1] as int, index, p, force_radius, pos, delta, c)
    }
}

/// The repulsion strength numerator, the squared strength of `c`.
pub open spec fn strength_spec(c: PhysicsConfig) -> Fixed {
    from_int_spec(wrap(c.repulsion_strength * c.repulsion_strength) as int)
}

/// Velocity `v` of body `index` at `p` after the repulsion of body `n`.
#[verifier::opaque]
pub open spec fn repulsion_step_spec(
    v: Vec2,
    n: int,
    index: int,
    p: Vec2,
    force_radius: Fixed,
    pos: Seq<Vec2>,
    delta: Fixed,
    c: PhysicsConfig,
) -> Vec2 {
    if n != index && 0 <= n < pos.len() {
        let dv = vsub(p, pos[n]);
        let d2 = mag2_spec(dv);
        if d2.raw < MIN_DISTANCE_CHECK_RAW || d2.raw >= force_radius.raw {
            v
        } else {
            let normal = vdiv(dv, d2);
            let fm = div_spec(strength_spec(c), d2);
            let nv = vadd(v, vscale(vscale(normal, fm), delta));
            Vec2 {
                x: clamp_spec(nv.x, fx((-VELOCITY_CLAMP_LIMIT_RAW) as i32), fx(VELOCITY_CLAMP_LIMIT_RAW)),
                y: clamp_spec(nv.y, fx((-VELOCITY_CLAMP_LIMIT_RAW) as i32), fx(VELOCITY_CLAMP_LIMIT_RAW)),
            }
        }
    } else {
        v
    }
}

/// A component under the speed floor is snapped to the floor, keeping its sign.
pub open spec fn boost_component(a: Fixed) -> Fixed {
    if -HALF_MIN_VELOCITY_RAW < a.raw && a.raw < HALF_MIN_VELOCITY_RAW {
        if a.raw >= 0 {
            fx(HALF_MIN_VELOCITY_RAW)
        } else {
            neg_spec(fx(HALF_MIN_VELOCITY_RAW))
        }
    } else {
        a
    }
}

/// A component under the floor in magnitude is raised to the floor, keeping
/// its sign; any other component, the most negative one included, is kept.
pub proof fn lemma_boost_keeps_fast_components(a: Fixed)
    ensures
        (a.raw <= -HALF_MIN_VELOCITY_RAW || a.raw >= HALF_MIN_VELOCITY_RAW) ==> boost_component(a) == a,
        -HALF_MIN_VELOCITY_RAW < a.raw < HALF_MIN_VELOCITY_RAW ==> abs_int(boost_component(a).raw as int)
            == HALF_MIN_VELOCITY_RAW && (a.raw >= 0 <==> boost_component(a).raw >= 0),
{
    lemma_wrap_small(-HALF_MIN_VELOCITY_RAW as int);
}

/// Both components raised to the speed floor.
pub open spec fn boost_spec(v: Vec2) -> Vec2 {
    Vec2 { x: boost_component(v.x), y: boost_component(v.y) }
}

/// The jitter schedule: body `index` gets jitter when `frame + index` is a
/// multiple of `RANDOMNESS_INTERVAL` (the sum wrapping).
pub open spec fn jitter_due(index: usize, frame: usize) -> bool {
    usize_specs::wrapping_add(frame, index) % 4 == 0
}

/// The jitter of one axis: a hash of index and frame, in `-5..=4`.
pub open spec fn jitter(index: usize, frame: usize, mi: usize, mf: usize) -> int {
    (usize_specs::wrapping_add(usize_specs::wrapping_mul(index, mi), usize_specs::wrapping_mul(frame, mf)) % 10) as int - 5
}

/// The velocity with the jitter due at this frame, if any.
pub open spec fn randomness_spec(v: Vec2, index: usize, frame: usize) -> Vec2 {
    if jitter_due(index, frame) {
        Vec2 {
            x: add_spec(v.x, from_int_spec(jitter(index, frame, 31, 17))),
            y: add_spec(v.y, from_int_spec(jitter(index, frame, 37, 23))),
        }
    } else {
        v
    }
}

/// A slow, non-still velocity boosted to the floor, then jittered.
pub open spec fn min_velocity_spec(v: Vec2, index: usize, frame: usize) -> Vec2 {
    let s2 = mag2_spec(v);
    let b = if s2.raw < MIN_BOUNCE_SPEED_SQUARED_RAW && s2.raw > 0 {
        boost_spec(v)
    } else {
        v
    };
    randomness_spec(b, index, frame)
}

/// Position and velocity of a free body after drag and the walls, with the
/// speed floor and jitter applied when a wall changed its velocity.
pub open spec fn movement_spec(p: Vec2, v: Vec2, index: usize, frame: usize, c: PhysicsConfig) -> (Vec2, Vec2) {
    let vd = vscale(v, fx(VELOCITY_DAMPING_RAW));
    let w = walls_spec(p, vd, from_int_spec(c.object_radius as int), c);
    if w.1 != vd {
        (w.0, min_velocity_spec(w.1, index, frame))
    } else {
        w
    }
}

/// The touched list holds exactly the found bodies, among the first `k`, that
/// are collidable and within the contact distance of `p`.
pub proof fn lemma_touched_found(ns: Seq<u8>, p: Vec2, pos: Seq<Vec2>, col: Seq<bool>, cd: Fixed, k: int)
    requires
        0 <= k <= ns.len(),
    ensures
        forall|t: usize|
            #[trigger] touched_spec(ns, p, pos, col, cd, k).contains(t) <==> exists|j: int|
                0 <= j < k && ns[j] as usize == t && touches(t as int, p, pos, col, cd),
    decreases k,
{
    if k > 0 {
        lemma_touched_found(ns, p, pos, col, cd, k - 1);
        let prev = touched_spec(ns, p, pos, col, cd, k - 1);
        let cur = touched_spec(ns, p, pos, col, cd, k);
        assert forall|t: usize| #[trigger] cur.contains(t) <==> exists|j: int|
            0 <= j < k && ns[j] as usize == t && touches(t as int, p, pos, col, cd) by {
            if cur.contains(t) {
                let a = choose|a: int| 0 <= a < cur.len() && cur[a] == t;
                if a < prev.len() {
                    assert(prev[a] == t);
                    assert(prev.contains(t));
                } else {
                    assert(ns[k - 1] as usize == t);
                }
            }
            if exists|j: int| 0 <= j < k && ns[j] as usize == t && touches(t as int, p, pos, col, cd) {
                let j = choose|j: int| 0 <= j < k && ns[j] as usize == t && touches(t as int, p, pos, col, cd);
                if j < k - 1 {
                    assert(prev.contains(t));
                    let a = choose|a: int| 0 <= a < prev.len() && prev[a] == t;
                    assert(cur[a] == t);
                } else {
                    assert(cur[cur.len() - 1] == t);
                }
            }
        };
    }
}

/// On a grid consistent with the positions of the static bodies, a body is in
/// the touched list of a contact query at `p` exactly when it is a member of
/// the grid in a cell next to that of `p`, collidable, and within the contact
/// distance of `p`.
pub proof fn lemma_touched_exact(g: Seq<Seq<u8>>, pos: Seq<Vec2>, col: Seq<bool>, p: Vec2, cd: Fixed, t: usize)
    requires
        consistent(g, pos),
    ensures
        ({
            let ns = neighbors_spec(g, p, NEIGHBOR_SEARCH_RADIUS as int);
            touched_spec(ns, p, pos, col, cd, ns.len() as int).contains(t) <==> t < 256 && member(g, t as u8)
                && in_block(pos[t as int], p, NEIGHBOR_SEARCH_RADIUS as int) && touches(t as int, p, pos, col, cd)
        }),
{
    let ns = neighbors_spec(g, p, NEIGHBOR_SEARCH_RADIUS as int);
    lemma_touched_found(ns, p, pos, col, cd, ns.len() as int);
    if t < 256 {
        lemma_query_exact(g, pos, p, NEIGHBOR_SEARCH_RADIUS as int, t as u8);
    }
    if touched_spec(ns, p, pos, col, cd, ns.len() as int).contains(t) {
        let j = choose|j: int| 0 <= j < ns.len() && ns[j] as usize == t && touches(t as int, p, pos, col, cd);
        assert(ns[j] == t as u8);
        assert(ns.contains(t as u8));
    }
    if t < 256 && member(g, t as u8) && in_block(pos[t as int], p, NEIGHBOR_SEARCH_RADIUS as int) && touches(t as int, p, pos, col, cd) {
        let j = choose|j: int| 0 <= j < ns.len() && ns[j] == t as u8;
        assert(ns[j] as usize == t);
    }
}

/// A bounce off a wall leaves the velocity along that axis no faster than the
/// damped incoming speed plus the escape force (and one unit of rounding);
/// without contact the velocity is unchanged.
pub proof fn lemma_wall_bounce_damped(p: Fixed, v: Fixed, lo: Fixed, hi: Fixed)
    requires
        -8388608 < v.raw < 8388608,
    ensures
        ({
            let h = wall_hit(p, v, lo, hi);
            &&& h.2 ==> abs_int(h.1.raw as int) <= abs_int(v.raw as int) * WALL_BOUNCE_DAMPING_RAW / 256 + 1
                + ESCAPE_FORCE_RAW
            &&& !h.2 ==> h.1 == v
        }),
{
    let n = -(v.raw as int);
    assert(neg_spec(v).raw == n);
    let m = (n * 230) / 256;
    assert(-7549747 <= m <= 7549747);
    assert(mul_spec(neg_spec(v), fx(WALL_BOUNCE_DAMPING_RAW)).raw == m);
    if v.raw >= 0 {
        assert(-(v.raw * 230 / 256) - 1 <= m <= 0);
    } else {
        assert(0 <= m <= n * 230 / 256);
    }
}

/// Absolute value of an integer.
pub open spec fn abs_int(x: int) -> int {
    if x < 0 {
        -x
    } else {
        x
    }
}

/// In any `partial` consecutive frames after frame `f`, body `i` has its
/// repulsion recomputed on exactly one of them.
pub proof fn lemma_stagger_once(i: int, f: int, partial: int)
    requires
        0 <= i,
        0 <= f,
        0 < partial,
    ensures
        exists|t: int| f < t <= f + partial && #[trigger] (t % partial) == i % partial,
        forall|t1: int, t2: int|
            f < t1 <= f + partial && f < t2 <= f + partial && #[trigger] (t1 % partial) == i % partial
                && #[trigger] (t2 % partial) == i % partial ==> t1 == t2,
{
    let r = i % partial;
    let b = (f + 1) % partial;
    let t = if r >= b {
        f + 1 + (r - b)
    } else {
        f + 1 + (r - b) + partial
    };
    assert(t % partial == r) by {
        vstd::arithmetic::div_mod::lemma_fundamental_div_mod(f + 1, partial);
        vstd::arithmetic::div_mod::lemma_mod_multiples_vanish((f + 1) / partial, r, partial);
        vstd::arithmetic::div_mod::lemma_small_mod(r as nat, partial as nat);
        vstd::arithmetic::div_mod::lemma_mod_bound(i, partial);
        vstd::arithmetic::div_mod::lemma_mod_bound(f + 1, partial);
        if r >= b {
            assert(t == partial * ((f + 1) / partial) + r);
        } else {
            assert(t == partial * ((f + 1) / partial + 1) + r) by (nonlinear_arith)
                requires
                    f + 1 == partial * ((f + 1) / partial) + b,
                    t == f + 1 + (r - b) + partial,
            ;
            vstd::arithmetic::div_mod::lemma_mod_multiples_vanish((f + 1) / partial + 1, r, partial);
        }
    };
    assert(f < t <= f + partial) by {
        vstd::arithmetic::div_mod::lemma_mod_bound(i, partial);
        vstd::arithmetic::div_mod::lemma_mod_bound(f + 1, partial);
    };
    assert forall|t1: int, t2: int|
        f < t1 <= f + partial && f < t2 <= f + partial && #[trigger] (t1 % partial) == i % partial
            && #[trigger] (t2 % partial) == i % partial implies t1 == t2 by {
        if t1 != t2 {
            let lo = if t1 < t2 { t1 } else { t2 };
            let hi = if t1 < t2 { t2 } else { t1 };
            vstd::arithmetic::div_mod::lemma_fundamental_div_mod(lo, partial);
            vstd::arithmetic::div_mod::lemma_fundamental_div_mod(hi, partial);
            vstd::arithmetic::div_mod::lemma_mod_bound(lo, partial);
            assert(hi - lo == partial * (hi / partial - lo / partial)) by (nonlinear_arith)
                requires
                    lo == partial * (lo / partial) + lo % partial,
                    hi == partial * (hi / partial) + hi % partial,
                    lo % partial == hi % partial,
            ;
            assert(0 < hi - lo < partial);
            assert(false) by (nonlinear_arith)
                requires
                    hi - lo == partial * (hi / partial - lo / partial),
                    0 < hi - lo < partial,
                    0 < partial,
            ;
        }
    };
}

/// The step scaled for staggering: `delta` times `partial` is exact, and the
/// velocity change it gives from a force component `f` is `partial` times the
/// per-frame change, up to less than `partial` raw units of rounding.
pub proof fn lemma_stagger_scaling(f: Fixed, delta: Fixed, partial: int)
    requires
        0 < partial,
        partial * 256 <= i32::MAX,
        0 <= delta.raw,
        delta.raw * partial <= i32::MAX,
        -2147483648 * 256 <= f.raw * delta.raw * partial < 2147483648 * 256,
    ensures
        mul_spec(delta, from_int_spec(partial)).raw == delta.raw * partial,
        partial * mul_spec(f, delta).raw <= mul_spec(f, mul_spec(delta, from_int_spec(partial))).raw
            < partial * mul_spec(f, delta).raw + partial,
{
    let d = delta.raw as int;
    lemma_wrap_small(partial * 256);
    assert(from_int_spec(partial).raw == partial * 256);
    assert(d * (partial * 256) == (d * partial) * 256) by (nonlinear_arith);
    assert((d * partial) * 256 / 256 == d * partial) by (nonlinear_arith);
    lemma_wrap_small(d * partial);
    assert(mul_spec(delta, from_int_spec(partial)).raw == d * partial);
    let fd = f.raw * d;
    let q = fd / 256;
    let r = fd % 256;
    vstd::arithmetic::div_mod::lemma_fundamental_div_mod(fd, 256);
    assert(0 <= r < 256);
    assert(f.raw * (d * partial) == fd * partial) by (nonlinear_arith)
        requires
            fd == f.raw * d,
    ;
    assert(fd * partial == (q * partial) * 256 + r * partial) by (nonlinear_arith)
        requires
            fd == 256 * q + r,
    ;
    assert(0 <= r * partial < 256 * partial) by (nonlinear_arith)
        requires
            0 <= r < 256,
            0 < partial,
    ;
    let q2 = (fd * partial) / 256;
    vstd::arithmetic::div_mod::lemma_fundamental_div_mod(fd * partial, 256);
    assert(q * partial <= q2 < q * partial + partial) by (nonlinear_arith)
        requires
            fd * partial == (q * partial) * 256 + r * partial,
            0 <= r * partial < 256 * partial,
            fd * partial == 256 * q2 + (fd * partial) % 256,
            0 <= (fd * partial) % 256 < 256,
    ;
    assert(fd * partial == f.raw * delta.raw * partial) by (nonlinear_arith)
        requires
            fd == f.raw * d,
            d == delta.raw,
    ;
    assert(-2147483648 <= q2 < 2147483648) by (nonlinear_arith)
        requires
            -2147483648 * 256 <= fd * partial < 2147483648 * 256,
            fd * partial == 256 * q2 + (fd * partial) % 256,
            0 <= (fd * partial) % 256 < 256,
    ;
    assert(-2147483648 <= q < 2147483648) by (nonlinear_arith)
        requires
            q * partial <= q2 < q * partial + partial,
            -2147483648 <= q2 < 2147483648,
            0 < partial,
    ;
    lemma_wrap_small(q);
    lemma_wrap_small(q2);
    assert(mul_spec(f, delta).raw == q);
    assert(mul_spec(f, mul_spec(delta, from_int_spec(partial))).raw == q2);
    assert(partial * q <= q2 < partial * q + partial) by (nonlinear_arith)
        requires
            q * partial <= q2 < q * partial + partial,
    ;
}

/// The outcome of one step of the moving body at `p` with velocity `v`: its
/// position and velocity after the static bodies, and the bodies it touched;
/// or the error of the neighbour query.
pub open spec fn collide_outcome(
    g: Seq<Seq<u8>>,
    p: Vec2,
    v: Vec2,
    pos: Seq<Vec2>,
    col: Seq<bool>,
    delta: Fixed,
    walls: Seq<(Vec2, Vec2)>,
    c: PhysicsConfig,
) -> Result<(Vec2, Vec2, Seq<usize>), Error> {
    let pre = pre_static_spec(p, v, delta, walls, c);
    let ns = neighbors_spec(g, pre.0, NEIGHBOR_SEARCH_RADIUS as int);
    let cd = collision_distance_spec(c);
    let cs = collisions_spec(ns, pre.0, pos, col, cd, ns.len() as int);
    if ns.len() > 64 {
        Err(Error::TooManyNeighbors)
    } else {
        let f = resolve_all_spec(pre.0, pre.1, cs, cs.len() as int);
        Ok((f.0, f.1, touched_spec(ns, pre.0, pos, col, cd, ns.len() as int)))
    }
}

/// Grid, positions and velocities of the free bodies during a frame.
pub type FieldState = (Seq<Seq<u8>>, Seq<Vec2>, Seq<Vec2>);

/// One frame of body `i`, its stages in order: repulsion when its turn in the
/// stagger comes, drag and walls, then integration of the position left by the
/// wall stage with the velocity left by the previous stages, clamped into the
/// grid. The grid then moves the body from its position at the start of the
/// frame, which is where the grid records it.
pub open spec fn advance_spec(
    st: FieldState,
    i: int,
    force: Fixed,
    delta: Fixed,
    sdelta: Fixed,
    partial: int,
    frame: usize,
    c: PhysicsConfig,
) -> Result<FieldState, Error> {
    let (g, pos, vel) = st;
    let p = pos[i];
    let ns = neighbors_spec(g, p, FORCE_SEARCH_RADIUS as int);
    let due = i % partial == (frame as int) % partial;
    if due && ns.len() > 64 {
        Err(Error::TooManyNeighbors)
    } else {
        let vel1 = if due {
            vel.update(i, repulsion_spec(vel[i], ns, i, p, force, pos, sdelta, c, ns.len() as int))
        } else {
            vel
        };
        let mv = movement_spec(p, vel1[i], i as usize, frame, c);
        let np = clamp_to_grid(vadd(mv.0, vscale(mv.1, delta)));
        match grid_move_spec(g, i, p, np) {
            Ok(g2) => Ok((g2, pos.update(i, np), vel1.update(i, mv.1))),
            Err(e) => Err(e),
        }
    }
}

/// The first pass of a frame over the first `n` bodies, the collidable ones
/// advanced in index order; or the first error met.
pub open spec fn advance_pass_spec(
    st: FieldState,
    col: Seq<bool>,
    frs: Seq<Fixed>,
    delta: Fixed,
    sdelta: Fixed,
    partial: int,
    frame: usize,
    c: PhysicsConfig,
    n: int,
) -> Result<FieldState, Error>
    decreases n,
{
    if n <= 0 {
        Ok(st)
    } else {
        match advance_pass_spec(st, col, frs, delta, sdelta, partial, frame, c, n - 1) {
            Err(e) => Err(e),
            Ok(s) => if col[n - 1] {
                advance_spec(s, n - 1, frs[n - 1], delta, sdelta, partial, frame, c)
            } else {
                Ok(s)
            },
        }
    }
}

/// The contact of bodies `i` and `j`: when they overlap, a correction of each
/// is queued in `ups`, and when they approach, an impulse is exchanged.
pub open spec fn pair_spec(
    pos: Seq<Vec2>,
    vel: Seq<Vec2>,
    ups: Seq<(usize, Vec2)>,
    i: int,
    j: int,
    cd: Fixed,
) -> (Seq<Vec2>, Seq<(usize, Vec2)>) {
    let dv = vsub(pos[i], pos[j]);
    let d2 = mag2_spec(dv);
    if d2.raw < mul_spec(cd, cd).raw && d2.raw > MIN_DISTANCE_THRESHOLD_RAW {
        let d = sqrt_spec(d2);
        let normal = vdiv(dv, d);
        let sep = vscale(vscale(normal, sub_spec(cd, d)), fx(OVERLAP_ADJUSTMENT_RAW));
        let ups2 = ups.push((i as usize, vadd(pos[i], sep))).push((j as usize, vsub(pos[j], sep)));
        let van = dot_spec(vsub(vel[i], vel[j]), normal);
        if van.raw < 0 {
            let imp = vscale(vscale(normal, van), fx(BOUNCE_DAMPING_RAW));
            (vel.update(i, vsub(vel[i], imp)).update(j, vadd(vel[j], imp)), ups2)
        } else {
            (vel, ups2)
        }
    } else {
        (vel, ups)
    }
}

/// The contacts of body `i` with the first `k` bodies found, `ns`, that come
/// after it and are collidable.
pub open spec fn pairs_spec(
    pos: Seq<Vec2>,
    vel: Seq<Vec2>,
    ups: Seq<(usize, Vec2)>,
    i: int,
    ns: Seq<u8>,
    col: Seq<bool>,
    cd: Fixed,
    k: int,
) -> (Seq<Vec2>, Seq<(usize, Vec2)>)
    decreases k,
{
    if k <= 0 {
        (vel, ups)
    } else {
        let prev = pairs_spec(pos, vel, ups, i, ns, col, cd, k - 1);
        let j = ns[k - 1] as int;
        if j > i && j < pos.len() && col[j] {
            pair_spec(pos, prev.0, prev.1, i, j, cd)
        } else {
            prev
        }
    }
}

/// The contacts found from the first `n` collidable bodies, in index order:
/// the velocities and the queued corrections; or the error of a query.
pub open spec fn contacts_spec(
    g: Seq<Seq<u8>>,
    pos: Seq<Vec2>,
    vel: Seq<Vec2>,
    col: Seq<bool>,
    cd: Fixed,
    n: int,
) -> Result<(Seq<Vec2>, Seq<(usize, Vec2)>), Error>
    decreases n,
{
    if n <= 0 {
        Ok((vel, Seq::empty()))
    } else {
        match contacts_spec(g, pos, vel, col, cd, n - 1) {
            Err(e) => Err(e),
            Ok(s) => if col[n - 1] {
                let ns = neighbors_spec(g, pos[n - 1], NEIGHBOR_SEARCH_RADIUS as int);
                if ns.len() > 64 {
                    Err(Error::TooManyNeighbors)
                } else {
                    Ok(pairs_spec(pos, s.0, s.1, n - 1, ns, col, cd, ns.len() as int))
                }
            } else {
                Ok(s)
            },
        }
    }
}

/// Grid and positions after the first `u` queued corrections, in order.
pub open spec fn corrections_spec(
    g: Seq<Seq<u8>>,
    pos: Seq<Vec2>,
    ups: Seq<(usize, Vec2)>,
    u: int,
) -> Result<(Seq<Seq<u8>>, Seq<Vec2>), Error>
    decreases u,
{
    if u <= 0 {
        Ok((g, pos))
    } else {
        match corrections_spec(g, pos, ups, u - 1) {
            Err(e) => Err(e),
            Ok(s) => {
                let (idx, np) = ups[u - 1];
                match grid_move_spec(s.0, idx as int, s.1[idx as int], np) {
                    Ok(g2) => Ok((g2, s.1.update(idx as int, np))),
                    Err(e) => Err(e),
                }
            },
        }
    }
}

/// The contact pass: contacts found on the grid as it stands, then the
/// corrections applied.
pub open spec fn contact_pass_spec(st: FieldState, col: Seq<bool>, cd: Fixed) -> Result<FieldState, Error> {
    let (g, pos, vel) = st;
    match contacts_spec(g, pos, vel, col, cd, pos.len() as int) {
        Err(e) => Err(e),
        Ok(cs) => match corrections_spec(g, pos, cs.1, cs.1.len() as int) {
            Err(e) => Err(e),
            Ok(gp) => Ok((gp.0, gp.1, cs.0)),
        },
    }
}

/// The final clamp of the first `n` collidable bodies into the grid.
pub open spec fn clamp_pass_spec(g: Seq<Seq<u8>>, pos: Seq<Vec2>, col: Seq<bool>, n: int) -> Result<(Seq<Seq<u8>>, Seq<Vec2>), Error>
    decreases n,
{
    if n <= 0 {
        Ok((g, pos))
    } else {
        match clamp_pass_spec(g, pos, col, n - 1) {
            Err(e) => Err(e),
            Ok(s) => {
                let p = s.1[n - 1];
                let np = clamp_to_grid(p);
                if col[n - 1] && np != p {
                    match grid_move_spec(s.0, n - 1, p, np) {
                        Ok(g2) => Ok((g2, s.1.update(n - 1, np))),
                        Err(e) => Err(e),
                    }
                } else {
                    Ok(s)
                }
            },
        }
    }
}

/// One frame of the free bodies at frame counter `frame` (the counter before
/// the frame): the advance pass, the contact pass and the final clamp.
pub open spec fn fields_spec(
    st: FieldState,
    col: Seq<bool>,
    frs: Seq<Fixed>,
    delta: Fixed,
    partial: int,
    frame: usize,
    c: PhysicsConfig,
) -> Result<FieldState, Error> {
    let f = usize_specs::wrapping_add(frame, 1);
    let sdelta = mul_spec(delta, from_int_spec(partial));
    let cd = from_int_spec(wrap(c.object_radius * 2) as int);
    match advance_pass_spec(st, col, frs, delta, sdelta, partial, f, c, st.1.len() as int) {
        Err(e) => Err(e),
        Ok(s1) => match contact_pass_spec(s1, col, cd) {
            Err(e) => Err(e),
            Ok(s2) => match clamp_pass_spec(s2.0, s2.1, col, s2.1.len() as int) {
                Err(e) => Err(e),
                Ok(s3) => Ok((s3.0, s3.1, s2.2)),
            },
        },
    }
}

proof fn lemma_advance_pass_err(
    st: FieldState,
    col: Seq<bool>,
    frs: Seq<Fixed>,
    delta: Fixed,
    sdelta: Fixed,
    partial: int,
    frame: usize,
    c: PhysicsConfig,
    m: int,
    n: int,
    e: Error,
)
    requires
        0 <= m <= n,
        advance_pass_spec(st, col, frs, delta, sdelta, partial, frame, c, m) == Err::<FieldState, Error>(e),
    ensures
        advance_pass_spec(st, col, frs, delta, sdelta, partial, frame, c, n) == Err::<FieldState, Error>(e),
    decreases n - m,
{
    if m < n {
        lemma_advance_pass_err(st, col, frs, delta, sdelta, partial, frame, c, m, n - 1, e);
    }
}

proof fn lemma_contacts_err(
    g: Seq<Seq<u8>>,
    pos: Seq<Vec2>,
    vel: Seq<Vec2>,
    col: Seq<bool>,
    cd: Fixed,
    m: int,
    n: int,
    e: Error,
)
    requires
        0 <= m <= n,
        contacts_spec(g, pos, vel, col, cd, m) == Err::<(Seq<Vec2>, Seq<(usize, Vec2)>), Error>(e),
    ensures
        contacts_spec(g, pos, vel, col, cd, n) == Err::<(Seq<Vec2>, Seq<(usize, Vec2)>), Error>(e),
    decreases n - m,
{
    if m < n {
        lemma_contacts_err(g, pos, vel, col, cd, m, n - 1, e);
    }
}

proof fn lemma_corrections_err(g: Seq<Seq<u8>>, pos: Seq<Vec2>, ups: Seq<(usize, Vec2)>, m: int, n: int, e: Error)
    requires
        0 <= m <= n,
        corrections_spec(g, pos, ups, m) == Err::<(Seq<Seq<u8>>, Seq<Vec2>), Error>(e),
    ensures
        corrections_spec(g, pos, ups, n) == Err::<(Seq<Seq<u8>>, Seq<Vec2>), Error>(e),
    decreases n - m,
{
    if m < n {
        lemma_corrections_err(g, pos, ups, m, n - 1, e);
    }
}

proof fn lemma_clamp_pass_err(g: Seq<Seq<u8>>, pos: Seq<Vec2>, col: Seq<bool>, m: int, n: int, e: Error)
    requires
        0 <= m <= n,
        clamp_pass_spec(g, pos, col, m) == Err::<(Seq<Seq<u8>>, Seq<Vec2>), Error>(e),
    ensures
        clamp_pass_spec(g, pos, col, n) == Err::<(Seq<Seq<u8>>, Seq<Vec2>), Error>(e),
    decreases n - m,
{
    if m < n {
        lemma_clamp_pass_err(g, pos, col, m, n - 1, e);
    }
}

/// The grid is consistent with the positions, and its members are exactly
/// the collidable bodies.
pub open spec fn synced(g: Seq<Seq<u8>>, pos: Seq<Vec2>, col: Seq<bool>) -> bool {
    &&& consistent(g, pos)
    &&& forall|v: u8| #[trigger] member(g, v) <==> (v as int) < pos.len() && (v as int) < col.len() && col[v as int]
}

/// Moving a collidable body keeps the grid in step with the positions.
pub proof fn lemma_move_synced(g: Seq<Seq<u8>>, pos: Seq<Vec2>, col: Seq<bool>, i: int, np: Vec2)
    requires
        synced(g, pos, col),
        0 <= i < pos.len(),
        i < col.len(),
        col[i],
        grid_move_spec(g, i, pos[i], np) is Ok,
    ensures
        synced(grid_move_spec(g, i, pos[i], np)->Ok_0, pos.update(i, np), col),
{
    if pos[i] == np {
        assert(pos.update(i, np) =~= pos);
    } else {
        lemma_update_consistent(g, pos, i, np);
        let g2 = grid_move_spec(g, i, pos[i], np)->Ok_0;
        assert forall|v: u8| #[trigger] member(g2, v) <==> (v as int) < pos.len() && (v as int) < col.len()
            && col[v as int] by {
            if v == i as u8 {
                assert(v as int == i);
            }
        };
    }
}

/// The physics engine: the grid of the collidable bodies and the frame counter.
pub struct Physics<const N: usize> {
    neighbors: Grid2D,
    frame_counter: usize,
}

impl<const N: usize> Physics<N> {
    /// The content of the grid.
    pub closed spec fn grid(&self) -> Seq<Seq<u8>> {
        self.neighbors@
    }

    /// The number of frames advanced so far, wrapping.
    pub closed spec fn frame(&self) -> usize {
        self.frame_counter
    }

    pub closed spec fn wf(&self) -> bool {
        self.neighbors.wf()
    }

    /// Builds the engine from the initial positions; the grid holds the collidable bodies.
    pub fn new(positions: &[Vec2; N], collidable: &[bool; N]) -> (r: Result<Self, Error>)
        ensures
            match r {
                Ok(ph) => ph.wf() && ph.frame() == 0 && crate::grid::built(
                    positions@,
                    collidable@,
                    N as int,
                ) == Ok::<Seq<Seq<u8>>, Error>(ph.grid()) && consistent(ph.grid(), positions@)
                    && forall|v: u8| #[trigger] member(ph.grid(), v) <==> (v as int) < N && collidable@[v as int]
                    && synced(ph.grid(), positions@, collidable@),
                Err(e) => crate::grid::built(positions@, collidable@, N as int) == Err::<
                    Seq<Seq<u8>>,
                    Error,
                >(e),
            },
    {
        let g = Grid2D::new(positions.as_slice(), collidable.as_slice());
        match g {
            Ok(grid) => {
                proof {
                    lemma_built_consistent(positions@, collidable@, N as int);
                }
                Ok(Physics { neighbors: grid, frame_counter: 0 })
            },
            Err(e) => Err(e),
        }
    }

    fn hit_horizontal_walls(
        position: &mut Vec2,
        velocity: &mut Vec2,
        radius: Fixed,
        config: &PhysicsConfig,
    ) -> (r: bool)
        ensures
            (final(position).x, final(velocity).x, r) == wall_hit(
                old(position).x,
                old(velocity).x,
                wall_lo(config.left_wall, radius),
                wall_hi(config.right_wall, radius),
            ),
            final(position).y == old(position).y,
            final(velocity).y == old(velocity).y,
    {
        let damping = Fixed::from_raw(WALL_BOUNCE_DAMPING_RAW);
        let escape = Fixed::from_raw(ESCAPE_FORCE_RAW);
        let lo = Fixed::new(config.left_wall).add(radius);
        let hi = Fixed::new(config.right_wall).sub(radius);
        if position.x.raw < lo.raw {
            position.x = lo;
            velocity.x = velocity.x.neg().mul(damping).add(escape);
            true
        } else if position.x.raw > hi.raw {
            position.x = hi;
            velocity.x = velocity.x.neg().mul(damping).sub(escape);
            true
        } else {
            false
        }
    }

    fn hit_vertical_walls(
        position: &mut Vec2,
        velocity: &mut Vec2,
        radius: Fixed,
        config: &PhysicsConfig,
    ) -> (r: bool)
        ensures
            (final(position).y, final(velocity).y, r) == wall_hit(
                old(position).y,
                old(velocity).y,
                wall_lo(config.up_wall, radius),
                wall_hi(config.down_wall, radius),
            ),
            final(position).x == old(position).x,
            final(velocity).x == old(velocity).x,
    {
        let damping = Fixed::from_raw(WALL_BOUNCE_DAMPING_RAW);
        let escape = Fixed::from_raw(ESCAPE_FORCE_RAW);
        let lo = Fixed::new(config.up_wall).add(radius);
        let hi = Fixed::new(config.down_wall).sub(radius);
        if position.y.raw < lo.raw {
            position.y = lo;
            velocity.y = velocity.y.neg().mul(damping).add(escape);
            true
        } else if position.y.raw > hi.raw {
            position.y = hi;
            velocity.y = velocity.y.neg().mul(damping).sub(escape);
            true
        } else {
            false
        }
    }

    fn wall_center(a: i32, b: i32) -> (r: Fixed)
        ensures
            r == center_spec(a, b),
    {
        let s: i64 = a as i64 + b as i64;
        let h: i64 = if s >= 0 {
            s / 2
        } else {
            -((-s) / 2)
        };
        Fixed::new(h as i32)
    }

    fn apply_corner_escape(
        position: Vec2,
        velocity: &mut Vec2,
        hit_x: bool,
        hit_y: bool,
        config: &PhysicsConfig,
    )
        ensures
            *final(velocity) == corner_escape_spec(position, *old(velocity), hit_x, hit_y, *config),
    {
        if hit_x && hit_y {
            let escape = Fixed::from_raw(ESCAPE_FORCE_RAW);
            let center_x = Self::wall_center(config.left_wall, config.right_wall);
            let center_y = Self::wall_center(config.up_wall, config.down_wall);
            if position.x.raw < center_x.raw {
                velocity.x = velocity.x.add(escape);
            } else {
                velocity.x = velocity.x.sub(escape);
            }
            if position.y.raw < center_y.raw {
                velocity.y = velocity.y.add(escape);
            } else {
                velocity.y = velocity.y.sub(escape);
            }
        }
    }

    fn apply_wall_slide_damping(velocity: &mut Vec2, hit_x: bool, hit_y: bool)
        ensures
            *final(velocity) == slide_damping_spec(*old(velocity), hit_x, hit_y),
    {
        let damping = Fixed::from_raw(WALL_SLIDE_DAMPING_RAW);
        if hit_x {
            velocity.y = velocity.y.mul(damping);
        }
        if hit_y {
            velocity.x = velocity.x.mul(damping);
        }
    }

    /// Bounces a body of radius `radius` off the four walls of `config`.
    pub fn move_and_collide_with_walls(
        position: Vec2,
        velocity: Vec2,
        radius: Fixed,
        config: &PhysicsConfig,
    ) -> (r: (Vec2, Vec2))
        ensures
            r == walls_spec(position, velocity, radius, *config),
    {
        let mut position = position;
        let mut velocity = velocity;
        let hit_x = Self::hit_horizontal_walls(&mut position, &mut velocity, radius, config);
        let hit_y = Self::hit_vertical_walls(&mut position, &mut velocity, radius, config);
        Self::apply_corner_escape(position, &mut velocity, hit_x, hit_y, config);
        Self::apply_wall_slide_damping(&mut velocity, hit_x, hit_y);
        (position, velocity)
    }

    fn find_closest_point_on_segment(position: Vec2, wall_start: Vec2, wall_end: Vec2) -> (r: Option<Vec2>)
        ensures
            r == closest_spec(position, wall_start, wall_end),
    {
        let wall_vector = wall_end.sub(wall_start);
        let wall_length_squared = wall_vector.magnitude_squared();
        if wall_length_squared.raw <= MIN_DISTANCE_THRESHOLD_RAW {
            return None;
        }
        let ball_to_start = position.sub(wall_start);
        let t = ball_to_start.dot(wall_vector).div(wall_length_squared).clamp(
            Fixed::from_raw(0),
            Fixed::from_raw(256),
        );
        Some(wall_start.add(wall_vector.scale(t)))
    }

    /// Pushes a body of radius `radius` out of the segment `wall_start`-`wall_end`
    /// and reflects its velocity across the contact normal, with damping.
    pub fn collide_with_line_segment(
        position: Vec2,
        velocity: Vec2,
        radius: Fixed,
        wall_start: Vec2,
        wall_end: Vec2,
    ) -> (r: (Vec2, Vec2))
        ensures
            r == segment_spec(position, velocity, radius, wall_start, wall_end),
    {
        let closest = Self::find_closest_point_on_segment(position, wall_start, wall_end);
        let closest_point = match closest {
            None => {
                return (position, velocity);
            },
            Some(cp) => cp,
        };
        let distance_vector = position.sub(closest_point);
        let distance_squared = distance_vector.magnitude_squared();
        let radius_squared = radius.mul(radius);
        if 0 <= distance_squared.raw && distance_squared.raw < radius_squared.raw {
            let distance = distance_squared.sqrt();
            if distance.raw > MIN_DISTANCE_THRESHOLD_RAW {
                let normal = distance_vector.div(distance);
                let new_position = closest_point.add(normal.scale(radius));
                let velocity_along_normal = velocity.dot(normal);
                let new_velocity = velocity.sub(
                    normal.scale(velocity_along_normal.mul(Fixed::from_raw(512))).scale(
                        Fixed::from_raw(WALL_BOUNCE_DAMPING_RAW),
                    ),
                );
                return (new_position, new_velocity);
            }
        }
        (position, velocity)
    }

    /// Finds the collidable bodies that the body at `position` touches among the
    /// bodies found in `neighbors`; returns them, and the contacts to resolve.
    fn detect_static_collisions(
        neighbors: &heapless::Vec<u8, 64>,
        position: Vec2,
        positions: &[Vec2; N],
        collidable: &[bool; N],
        config: &PhysicsConfig,
    ) -> (r: (Vec<usize>, Vec<(usize, Vec2, Fixed, Fixed)>))
        ensures
            r.0@ == touched_spec(
                found_items(*neighbors),
                position,
                positions@,
                collidable@,
                collision_distance_spec(*config),
                found_items(*neighbors).len() as int,
            ),
            r.1@ == collisions_spec(
                found_items(*neighbors),
                position,
                positions@,
                collidable@,
                collision_distance_spec(*config),
                found_items(*neighbors).len() as int,
            ),
    {
        let collision_distance = Fixed::new(config.moving_radius.wrapping_add(config.static_radius));
        let collision_distance_squared = collision_distance.mul(collision_distance);
        let ghost cd = collision_distance_spec(*config);
        let mut touched: Vec<usize> = Vec::new();
        let mut collisions: Vec<(usize, Vec2, Fixed, Fixed)> = Vec::new();
        let mut k: usize = 0;
        while k < found_len(neighbors)
            invariant
                k <= found_items(*neighbors).len(),
                collision_distance == cd,
                collision_distance_squared == mul_spec(cd, cd),
                touched@ == touched_spec(found_items(*neighbors), position, positions@, collidable@, cd, k as int),
                collisions@ == collisions_spec(found_items(*neighbors), position, positions@, collidable@, cd, k as int),
            decreases found_items(*neighbors).len() - k,
        {
            let i = found_get(neighbors, k) as usize;
            if i < N && collidable[i] {
                let distance_vector = position.sub(positions[i]);
                let distance_squared = distance_vector.magnitude_squared();
                if 0 <= distance_squared.raw && distance_squared.raw < collision_distance_squared.raw {
                    touched.push(i);
                    let distance = distance_squared.sqrt();
                    if distance.raw > MIN_DISTANCE_THRESHOLD_RAW {
                        collisions.push((i, distance_vector, distance, collision_distance));
                    }
                }
            }
            k = k + 1;
        }
        (touched, collisions)
    }

    fn resolve_static_collision(
        position: &mut Vec2,
        velocity: &mut Vec2,
        distance_vector: Vec2,
        distance: Fixed,
        collision_distance: Fixed,
    )
        requires
            distance.raw > 0,
        ensures
            (*final(position), *final(velocity)) == static_resolve_spec(
                *old(position),
                *old(velocity),
                distance_vector,
                distance,
                collision_distance,
            ),
    {
        let normal = distance_vector.div(distance);
        let velocity_along_normal = velocity.dot(normal);
        *velocity = velocity.sub(normal.scale(velocity_along_normal.mul(Fixed::from_raw(512))));
        *velocity = velocity.scale(Fixed::from_raw(BOUNCE_DAMPING_RAW));
        let overlap = collision_distance.sub(distance);
        *position = position.add(normal.scale(overlap).scale(Fixed::from_raw(OVERLAP_ADJUSTMENT_RAW)));
    }

    fn move_and_collide_with_statics(
        &self,
        position: Vec2,
        velocity: Vec2,
        positions: &[Vec2; N],
        collidable: &[bool; N],
        config: &PhysicsConfig,
    ) -> (r: Result<(Vec2, Vec2, Vec<usize>), Error>)
        requires
            self.wf(),
        ensures
            ({
                let ns = neighbors_spec(self.grid(), position, NEIGHBOR_SEARCH_RADIUS as int);
                let cd = collision_distance_spec(*config);
                let cs = collisions_spec(ns, position, positions@, collidable@, cd, ns.len() as int);
                &&& ns.len() > 64 ==> r == Err::<(Vec2, Vec2, Vec<usize>), Error>(Error::TooManyNeighbors)
                &&& ns.len() <= 64 ==> r is Ok && (r->Ok_0.0, r->Ok_0.1) == resolve_all_spec(
                    position,
                    velocity,
                    cs,
                    cs.len() as int,
                ) && r->Ok_0.2@ == touched_spec(ns, position, positions@, collidable@, cd, ns.len() as int)
            }),
    {
        let found = self.neighbors.get_neighbors(position, NEIGHBOR_SEARCH_RADIUS);
        let neighbors = match found {
            Ok(v) => v,
            Err(e) => {
                return Err(e);
            },
        };
        let (touched, collisions) = Self::detect_static_collisions(
            &neighbors,
            position,
            positions,
            collidable,
            config,
        );
        let ghost cs = collisions@;
        proof {
            lemma_collisions_positive(found_items(neighbors), position, positions@, collidable@, collision_distance_spec(*config), found_items(neighbors).len() as int);
        }
        let mut position = position;
        let mut velocity = velocity;
        let ghost p0 = position;
        let ghost v0 = velocity;
        let mut k: usize = 0;
        while k < collisions.len()
            invariant
                collisions@ == cs,
                k <= cs.len(),
                forall|j: int| 0 <= j < cs.len() ==> (#[trigger] cs[j]).2.raw > 0,
                (position, velocity) == resolve_all_spec(p0, v0, cs, k as int),
            decreases cs.len() - k,
        {
            let c = collisions[k];
            Self::resolve_static_collision(&mut position, &mut velocity, c.1, c.2, c.3);
            k = k + 1;
        }
        Ok((position, velocity, touched))
    }

    /// Advances the moving body (the ball) by one step: gravity, the walls of
    /// `config`, the segments `walls` in order, then the collidable static
    /// bodies found around it. Returns its new position and velocity and the
    /// indices of the static bodies it touched. The walls and the segments both
    /// inflate the ball by `config.moving_radius`.
    /// A contact with a static body pushes the ball out along the normal by
    /// half the overlap, the other half being the static body's share.
    pub fn move_and_collide(
        &self,
        position: Vec2,
        velocity: Vec2,
        positions: &[Vec2; N],
        collidable: &[bool; N],
        delta: Fixed,
        walls: &[(Vec2, Vec2)],
        config: &PhysicsConfig,
    ) -> (r: Result<(Vec2, Vec2, Vec<usize>), Error>)
        requires
            self.wf(),
        ensures
            match r {
                Ok(t) => collide_outcome(
                    self.grid(),
                    position,
                    velocity,
                    positions@,
                    collidable@,
                    delta,
                    walls@,
                    *config,
                ) == Ok::<(Vec2, Vec2, Seq<usize>), Error>((t.0, t.1, t.2@)),
                Err(e) => collide_outcome(
                    self.grid(),
                    position,
                    velocity,
                    positions@,
                    collidable@,
                    delta,
                    walls@,
                    *config,
                ) == Err::<(Vec2, Vec2, Seq<usize>), Error>(e),
            },
            forall|t: usize|
                consistent(self.grid(), positions@) && r is Ok ==> (#[trigger] r->Ok_0.2@.contains(t)
                    <==> {
                    let pre = pre_static_spec(position, velocity, delta, walls@, *config).0;
                    &&& t < 256
                    &&& member(self.grid(), t as u8)
                    &&& in_block(positions@[t as int], pre, NEIGHBOR_SEARCH_RADIUS as int)
                    &&& touches(t as int, pre, positions@, collidable@, collision_distance_spec(*config))
                }),
            forall|t: usize|
                synced(self.grid(), positions@, collidable@) && N <= 256 && r is Ok ==> (
                #[trigger] r->Ok_0.2@.contains(t) <==> {
                    let pre = pre_static_spec(position, velocity, delta, walls@, *config).0;
                    &&& in_block(positions@[t as int], pre, NEIGHBOR_SEARCH_RADIUS as int)
                    &&& touches(t as int, pre, positions@, collidable@, collision_distance_spec(*config))
                }),
    {
        let gravity = Vec2::new(Fixed::from_raw(0), Fixed::new(config.gravity));
        let velocity = velocity.add(gravity.scale(delta));
        let position = position.add(velocity.scale(delta));
        let (mut position, mut velocity) = Self::move_and_collide_with_walls(
            position,
            velocity,
            Fixed::new(config.moving_radius),
            config,
        );
        let ghost w = (position, velocity);
        let radius = Fixed::new(config.moving_radius);
        let mut k: usize = 0;
        while k < walls.len()
            invariant
                k <= walls@.len(),
                radius == from_int_spec(config.moving_radius as int),
                (position, velocity) == segments_spec(w.0, w.1, radius, walls@, k as int),
            decreases walls@.len() - k,
        {
            let (wall_start, wall_end) = walls[k];
            let pv = Self::collide_with_line_segment(position, velocity, radius, wall_start, wall_end);
            position = pv.0;
            velocity = pv.1;
            k = k + 1;
        }
        let res = self.move_and_collide_with_statics(position, velocity, positions, collidable, config);
        proof {
            assert forall|t: usize|
                consistent(self.grid(), positions@) && res is Ok implies (#[trigger] res->Ok_0.2@.contains(t)
                    <==> {
                    &&& t < 256
                    &&& member(self.grid(), t as u8)
                    &&& in_block(positions@[t as int], position, NEIGHBOR_SEARCH_RADIUS as int)
                    &&& touches(t as int, position, positions@, collidable@, collision_distance_spec(*config))
                }) by {
                lemma_touched_exact(
                    self.grid(),
                    positions@,
                    collidable@,
                    position,
                    collision_distance_spec(*config),
                    t,
                );
            };
            assert forall|t: usize|
                synced(self.grid(), positions@, collidable@) && N <= 256 && res is Ok implies (
                #[trigger] res->Ok_0.2@.contains(t) <==> {
                    &&& in_block(positions@[t as int], position, NEIGHBOR_SEARCH_RADIUS as int)
                    &&& touches(t as int, position, positions@, collidable@, collision_distance_spec(*config))
                }) by {
                lemma_touched_exact(
                    self.grid(),
                    positions@,
                    collidable@,
                    position,
                    collision_distance_spec(*config),
                    t,
                );
                if t < 256 {
                    assert(member(self.grid(), t as u8) <==> (t as int) < N && collidable@[t as int]);
                }
            };
        }
        res
    }

    fn repulsion_step(
        velocity: Vec2,
        neighbor_index: usize,
        index: usize,
        position: Vec2,
        force_radius: Fixed,
        positions: &[Vec2; N],
        delta: Fixed,
        strength: Fixed,
    ) -> (r: Vec2)
        ensures
            forall|c: PhysicsConfig|
                strength_spec(c) == strength ==> r == #[trigger] repulsion_step_spec(
                    velocity,
                    neighbor_index as int,
                    index as int,
                    position,
                    force_radius,
                    positions@,
                    delta,
                    c,
                ),
    {
        reveal(repulsion_step_spec);
        if neighbor_index != index && neighbor_index < N {
            let distance_vector = position.sub(positions[neighbor_index]);
            let distance_squared = distance_vector.magnitude_squared();
            if !(distance_squared.raw < MIN_DISTANCE_CHECK_RAW || distance_squared.raw >= force_radius.raw) {
                let normal = distance_vector.div(distance_squared);
                let force_magnitude = strength.div(distance_squared);
                let repulsion_force = normal.scale(force_magnitude);
                let new_velocity = velocity.add(repulsion_force.scale(delta));
                let lo = Fixed::from_raw(-VELOCITY_CLAMP_LIMIT_RAW);
                let hi = Fixed::from_raw(VELOCITY_CLAMP_LIMIT_RAW);
                return Vec2::new(new_velocity.x.clamp(lo, hi), new_velocity.y.clamp(lo, hi));
            }
        }
        velocity
    }

    /// Adds to the velocity of body `index` the repulsion of each body found
    /// within `FORCE_SEARCH_RADIUS` cells whose squared distance is at least
    /// `MIN_DISTANCE_CHECK_RAW` and under `force_radius`; each step is clamped.
    fn apply_repulsion_forces(
        &self,
        index: usize,
        position: Vec2,
        force_radius: Fixed,
        positions: &[Vec2; N],
        velocities: &mut [Vec2; N],
        delta: Fixed,
        config: &PhysicsConfig,
    ) -> (r: Result<(), Error>)
        requires
            self.wf(),
            index < N,
        ensures
            ({
                let ns = neighbors_spec(self.grid(), position, FORCE_SEARCH_RADIUS as int);
                &&& ns.len() > 64 ==> r == Err::<(), Error>(Error::TooManyNeighbors) && final(velocities)@ == old(velocities)@
                &&& ns.len() <= 64 ==> r is Ok && final(velocities)@ == old(velocities)@.update(
                    index as int,
                    repulsion_spec(
                        old(velocities)@[index as int],
                        ns,
                        index as int,
                        position,
                        force_radius,
                        positions@,
                        delta,
                        *config,
                        ns.len() as int,
                    ),
                )
            }),
    {
        let found = self.neighbors.get_neighbors(position, FORCE_SEARCH_RADIUS);
        let neighbors = match found {
            Ok(v) => v,
            Err(e) => {
                return Err(e);
            },
        };
        let strength = Fixed::new(config.repulsion_strength.wrapping_mul(config.repulsion_strength));
        let ghost v0 = velocities@;
        let mut k: usize = 0;
        while k < found_len(&neighbors)
            invariant
                index < N,
                k <= found_items(neighbors).len(),
                strength == strength_spec(*config),
                v0.len() == N,
                velocities@.len() == N,
                velocities@ == v0.update(
                    index as int,
                    repulsion_spec(v0[index as int], found_items(neighbors), index as int, position, force_radius, positions@, delta, *config, k as int),
                ),
            decreases found_items(neighbors).len() - k,
        {
            let neighbor_index = found_get(&neighbors, k) as usize;
            let nv = Self::repulsion_step(
                velocities[index],
                neighbor_index,
                index,
                position,
                force_radius,
                positions,
                delta,
                strength,
            );
            velocities[index] = nv;
            assert(repulsion_spec(v0[index as int], found_items(neighbors), index as int, position, force_radius, positions@, delta, *config, k + 1)
                == repulsion_step_spec(repulsion_spec(v0[index as int], found_items(neighbors), index as int, position, force_radius, positions@, delta, *config, k as int), found_items(neighbors)[k as int] as int, index as int, position, force_radius, positions@, delta, *config));
            k = k + 1;
        }
        Ok(())
    }

    /// Snaps each velocity component under the speed floor up to the floor,
    /// keeping its sign (zero counts as positive).
    pub fn boost_low_velocity_components(velocity: &mut Vec2)
        ensures
            *final(velocity) == boost_spec(*old(velocity)),
    {
        let floor = Fixed::from_raw(HALF_MIN_VELOCITY_RAW);
        if -HALF_MIN_VELOCITY_RAW < velocity.x.raw && velocity.x.raw < HALF_MIN_VELOCITY_RAW {
            velocity.x = if velocity.x.raw >= 0 {
                floor
            } else {
                floor.neg()
            };
        }
        if -HALF_MIN_VELOCITY_RAW < velocity.y.raw && velocity.y.raw < HALF_MIN_VELOCITY_RAW {
            velocity.y = if velocity.y.raw >= 0 {
                floor
            } else {
                floor.neg()
            };
        }
    }

    /// Adds the deterministic jitter of body `index` at frame `frame_counter`.
    pub fn add_randomness(velocity: &mut Vec2, index: usize, frame_counter: usize)
        ensures
            *final(velocity) == randomness_spec(*old(velocity), index, frame_counter),
    {
        if frame_counter.wrapping_add(index) % RANDOMNESS_INTERVAL == 0 {
            let rand_x = (index.wrapping_mul(RAND_X_MULTIPLIER).wrapping_add(
                frame_counter.wrapping_mul(RAND_X_OFFSET),
            ) % RAND_MODULO) as i32 - RAND_CENTER_OFFSET;
            let rand_y = (index.wrapping_mul(RAND_Y_MULTIPLIER).wrapping_add(
                frame_counter.wrapping_mul(RAND_Y_OFFSET),
            ) % RAND_MODULO) as i32 - RAND_CENTER_OFFSET;
            velocity.x = velocity.x.add(Fixed::new(rand_x));
            velocity.y = velocity.y.add(Fixed::new(rand_y));
        }
    }

    /// Boosts a slow, non-still velocity up to the speed floor, then adds the jitter.
    pub fn ensure_minimum_velocity(velocity: &mut Vec2, index: usize, frame_counter: usize)
        ensures
            *final(velocity) == min_velocity_spec(*old(velocity), index, frame_counter),
    {
        let speed_squared = velocity.magnitude_squared();
        if speed_squared.raw < MIN_BOUNCE_SPEED_SQUARED_RAW && speed_squared.raw > 0 {
            Self::boost_low_velocity_components(velocity);
        }
        Self::add_randomness(velocity, index, frame_counter);
    }

    /// Drag, wall collision, and (after a bounce) the speed floor and jitter,
    /// for body `index`.
    fn update_object_movement(
        index: usize,
        positions: &mut [Vec2; N],
        velocities: &mut [Vec2; N],
        frame_counter: usize,
        config: &PhysicsConfig,
    )
        requires
            index < N,
        ensures
            ({
                let pv = movement_spec(old(positions)@[index as int], old(velocities)@[index as int], index, frame_counter, *config);
                &&& final(positions)@ == old(positions)@.update(index as int, pv.0)
                &&& final(velocities)@ == old(velocities)@.update(index as int, pv.1)
            }),
    {
        velocities[index] = velocities[index].scale(Fixed::from_raw(VELOCITY_DAMPING_RAW));
        let old_velocity = velocities[index];
        let (p, v) = Self::move_and_collide_with_walls(
            positions[index],
            velocities[index],
            Fixed::new(config.object_radius),
            config,
        );
        positions[index] = p;
        let mut v = v;
        if v != old_velocity {
            Self::ensure_minimum_velocity(&mut v, index, frame_counter);
        }
        velocities[index] = v;
    }

    /// Separates the overlapping pair `i`, `j` (with `i` before `j`): the
    /// position corrections are queued in `updates`; when the pair approaches,
    /// an impulse is exchanged along the normal.
    fn resolve_pair(
        i: usize,
        j: usize,
        positions: &[Vec2; N],
        velocities: &mut [Vec2; N],
        updates: &mut Vec<(usize, Vec2)>,
        collision_distance: Fixed,
    )
        requires
            i < N,
            j < N,
            i != j,
        ensures
            (final(velocities)@, final(updates)@) == pair_spec(
                positions@,
                old(velocities)@,
                old(updates)@,
                i as int,
                j as int,
                collision_distance,
            ),
            final(velocities)@.len() == N,
            forall|k: int| 0 <= k < N && k != i && k != j ==> final(velocities)@[k] == old(velocities)@[k],
            final(updates)@.len() >= old(updates)@.len(),
            forall|k: int| 0 <= k < old(updates)@.len() ==> final(updates)@[k] == old(updates)@[k],
            forall|k: int|
                old(updates)@.len() <= k < final(updates)@.len() ==> (#[trigger] final(updates)@[k]).0 == i
                    || final(updates)@[k].0 == j,
    {
        let distance_vector = positions[i].sub(positions[j]);
        let distance_squared = distance_vector.magnitude_squared();
        let collision_distance_squared = collision_distance.mul(collision_distance);
        if distance_squared.raw < collision_distance_squared.raw && distance_squared.raw > MIN_DISTANCE_THRESHOLD_RAW {
            let distance = distance_squared.sqrt();
            assert(distance.raw > 0) by (nonlinear_arith)
                requires
                    distance_squared.raw >= 1,
                    ({
                        let c = distance.raw as int / 16;
                        0 <= c && c * c <= distance_squared.raw && distance_squared.raw < (c + 1) * (c + 1)
                    }),
            ;
            let normal = distance_vector.div(distance);
            let overlap = collision_distance.sub(distance);
            let separation = normal.scale(overlap).scale(Fixed::from_raw(OVERLAP_ADJUSTMENT_RAW));
            updates.push((i, positions[i].add(separation)));
            updates.push((j, positions[j].sub(separation)));
            let relative_velocity = velocities[i].sub(velocities[j]);
            let velocity_along_normal = relative_velocity.dot(normal);
            if velocity_along_normal.raw < 0 {
                let impulse = normal.scale(velocity_along_normal).scale(Fixed::from_raw(BOUNCE_DAMPING_RAW));
                velocities[i] = velocities[i].sub(impulse);
                velocities[j] = velocities[j].add(impulse);
            }
        }
    }

    /// The contacts of collidable body `i` with the bodies found around it
    /// that come after it in index order.
    fn contacts_of(
        &self,
        i: usize,
        positions: &[Vec2; N],
        velocities: &mut [Vec2; N],
        updates: &mut Vec<(usize, Vec2)>,
        collidable: &[bool; N],
        collision_distance: Fixed,
    ) -> (r: Result<(), Error>)
        requires
            self.wf(),
            i < N,
            collidable@[i as int],
            forall|q: int|
                0 <= q < old(updates)@.len() ==> (#[trigger] old(updates)@[q]).0 < N
                    && collidable@[old(updates)@[q].0 as int],
        ensures
            ({
                let ns = neighbors_spec(self.grid(), positions@[i as int], NEIGHBOR_SEARCH_RADIUS as int);
                &&& ns.len() > 64 ==> r == Err::<(), Error>(Error::TooManyNeighbors)
                &&& ns.len() <= 64 ==> r is Ok && (final(velocities)@, final(updates)@) == pairs_spec(
                    positions@,
                    old(velocities)@,
                    old(updates)@,
                    i as int,
                    ns,
                    collidable@,
                    collision_distance,
                    ns.len() as int,
                )
            }),
            final(velocities)@.len() == N,
            forall|q: int|
                0 <= q < N && !#[trigger] collidable@[q] ==> final(velocities)@[q] == old(velocities)@[q],
            forall|q: int|
                0 <= q < final(updates)@.len() ==> (#[trigger] final(updates)@[q]).0 < N
                    && collidable@[final(updates)@[q].0 as int],
    {
        let found = self.neighbors.get_neighbors(positions[i], NEIGHBOR_SEARCH_RADIUS);
        let neighbors = match found {
            Ok(v) => v,
            Err(e) => {
                return Err(e);
            },
        };
        let ghost va = velocities@;
        let ghost ua = updates@;
        let mut k: usize = 0;
        while k < found_len(&neighbors)
            invariant
                i < N,
                collidable@[i as int],
                k <= found_items(neighbors).len(),
                velocities@.len() == N,
                va == old(velocities)@,
                ua == old(updates)@,
                (velocities@, updates@) == pairs_spec(
                    positions@,
                    va,
                    ua,
                    i as int,
                    found_items(neighbors),
                    collidable@,
                    collision_distance,
                    k as int,
                ),
                forall|q: int| 0 <= q < N && !#[trigger] collidable@[q] ==> velocities@[q] == va[q],
                forall|q: int|
                    0 <= q < updates@.len() ==> (#[trigger] updates@[q]).0 < N
                        && collidable@[updates@[q].0 as int],
            decreases found_items(neighbors).len() - k,
        {
            let j = found_get(&neighbors, k) as usize;
            if j > i && j < N && collidable[j] {
                let ghost before = updates@;
                Self::resolve_pair(i, j, positions, velocities, updates, collision_distance);
                assert forall|q: int|
                    0 <= q < updates@.len() implies (#[trigger] updates@[q]).0 < N
                        && collidable@[updates@[q].0 as int] by {
                    if q < before.len() {
                        assert(updates@[q] == before[q]);
                    }
                };
            }
            k = k + 1;
        }
        Ok(())
    }

    /// Separates the overlapping collidable pairs found through the grid; the
    /// corrections are applied after the full pass, and the grid follows them.
    fn resolve_object_collisions(
        &mut self,
        positions: &mut [Vec2; N],
        velocities: &mut [Vec2; N],
        collidable: &[bool; N],
        config: &PhysicsConfig,
    ) -> (r: Result<(), Error>)
        requires
            old(self).wf(),
        ensures
            final(self).wf(),
            final(self).frame() == old(self).frame(),
            forall|k: int|
                0 <= k < N && !#[trigger] collidable@[k] ==> final(positions)@[k] == old(positions)@[k]
                    && final(velocities)@[k] == old(velocities)@[k],
            consistent(old(self).grid(), old(positions)@) && r is Ok ==> consistent(
                final(self).grid(),
                final(positions)@,
            ),
            synced(old(self).grid(), old(positions)@, collidable@) && r is Ok ==> synced(
                final(self).grid(),
                final(positions)@,
                collidable@,
            ),
            match contact_pass_spec(
                (old(self).grid(), old(positions)@, old(velocities)@),
                collidable@,
                from_int_spec(wrap(config.object_radius * 2) as int),
            ) {
                Ok(st) => r is Ok && final(self).grid() == st.0 && final(positions)@ == st.1
                    && final(velocities)@ == st.2,
                Err(e) => r == Err::<(), Error>(e),
            },
    {
        let collision_distance = Fixed::new(config.object_radius.wrapping_mul(2));
        let ghost p0 = positions@;
        let ghost v0 = velocities@;
        let ghost g0 = self.neighbors@;
        let ghost cd = from_int_spec(wrap(config.object_radius * 2) as int);
        let mut position_updates: Vec<(usize, Vec2)> = Vec::new();
        let mut i: usize = 0;
        while i < N
            invariant
                self.wf(),
                self.frame() == old(self).frame(),
                self.grid() == old(self).grid(),
                g0 == old(self).grid(),
                cd == from_int_spec(wrap(config.object_radius * 2) as int),
                collision_distance == cd,
                contacts_spec(g0, p0, v0, collidable@, cd, i as int) == Ok::<
                    (Seq<Vec2>, Seq<(usize, Vec2)>),
                    Error,
                >((velocities@, position_updates@)),
                i <= N,
                positions@ == p0,
                p0.len() == N,
                v0.len() == N,
                p0 == old(positions)@,
                v0 == old(velocities)@,
                velocities@.len() == N,
                forall|k: int| 0 <= k < N && !#[trigger] collidable@[k] ==> velocities@[k] == v0[k],
                forall|k: int|
                    0 <= k < position_updates@.len() ==> (#[trigger] position_updates@[k]).0 < N
                        && collidable@[position_updates@[k].0 as int],
            decreases N - i,
        {
            if collidable[i] {
                match self.contacts_of(i, positions, velocities, &mut position_updates, collidable, collision_distance) {
                    Ok(()) => {},
                    Err(e) => {
                        proof {
                            lemma_contacts_err(g0, p0, v0, collidable@, cd, i + 1, N as int, e);
                            assert(contact_pass_spec((g0, p0, v0), collidable@, cd) == Err::<FieldState, Error>(e));
                        }
                        return Err(e);
                    },
                }
            }
            i = i + 1;
        }
        let ghost ups = position_updates@;
        let ghost vf = velocities@;
        let mut u: usize = 0;
        while u < position_updates.len()
            invariant
                self.wf(),
                self.frame() == old(self).frame(),
                u <= position_updates@.len(),
                position_updates@ == ups,
                velocities@ == vf,
                contacts_spec(g0, p0, v0, collidable@, cd, N as int) == Ok::<
                    (Seq<Vec2>, Seq<(usize, Vec2)>),
                    Error,
                >((vf, ups)),
                g0 == old(self).grid(),
                cd == from_int_spec(wrap(config.object_radius * 2) as int),
                corrections_spec(g0, p0, ups, u as int) == Ok::<(Seq<Seq<u8>>, Seq<Vec2>), Error>(
                    (self.grid(), positions@),
                ),
                consistent(old(self).grid(), old(positions)@) ==> consistent(self.grid(), positions@),
                synced(old(self).grid(), old(positions)@, collidable@) ==> synced(
                    self.grid(),
                    positions@,
                    collidable@,
                ),
                velocities@.len() == N,
                positions@.len() == N,
                p0.len() == N,
                v0.len() == N,
                p0 == old(positions)@,
                v0 == old(velocities)@,
                forall|k: int| 0 <= k < N && !#[trigger] collidable@[k] ==> velocities@[k] == v0[k],
                forall|k: int| 0 <= k < N && !#[trigger] collidable@[k] ==> positions@[k] == p0[k],
                forall|k: int|
                    0 <= k < position_updates@.len() ==> (#[trigger] position_updates@[k]).0 < N
                        && collidable@[position_updates@[k].0 as int],
            decreases position_updates@.len() - u,
        {
            let (index, new_position) = position_updates[u];
            let old_position = positions[index];
            let ghost g1 = self.neighbors@;
            let ghost q1 = positions@;
            positions[index] = new_position;
            assert(positions@ =~= q1.update(index as int, new_position));
            if old_position != new_position {
                match self.neighbors.update(index, old_position, new_position) {
                    Ok(()) => {
                        proof {
                            if consistent(g1, q1) {
                                lemma_update_consistent(g1, q1, index as int, new_position);
                            }
                            if synced(g1, q1, collidable@) {
                                lemma_move_synced(g1, q1, collidable@, index as int, new_position);
                            }
                        }
                    },
                    Err(e) => {
                        proof {
                            lemma_corrections_err(g0, p0, ups, u + 1, ups.len() as int, e);
                            assert(contact_pass_spec((g0, p0, v0), collidable@, cd) == Err::<FieldState, Error>(e));
                        }
                        return Err(e);
                    },
                }
            } else {
                assert(positions@ =~= q1);
            }
            u = u + 1;
        }
        assert(contact_pass_spec((g0, p0, v0), collidable@, cd) == Ok::<FieldState, Error>(
            (self.grid(), positions@, velocities@),
        ));
        Ok(())
    }

    /// One frame of body `index`: repulsion when its turn in the stagger comes,
    /// drag and walls, then integration of the resulting position with the
    /// resulting velocity, clamped into the grid; the grid follows the move.
    fn advance_body(
        &mut self,
        index: usize,
        positions: &mut [Vec2; N],
        velocities: &mut [Vec2; N],
        force: Fixed,
        delta: Fixed,
        scaled_delta: Fixed,
        partial: usize,
        config: &PhysicsConfig,
        collidable: &[bool; N],
    ) -> (r: Result<(), Error>)
        requires
            old(self).wf(),
            index < N,
            partial > 0,
            collidable@[index as int],
        ensures
            final(self).wf(),
            final(self).frame() == old(self).frame(),
            final(positions)@.len() == N,
            final(velocities)@.len() == N,
            forall|k: int| 0 <= k < N && k != index ==> final(positions)@[k] == old(positions)@[k],
            forall|k: int| 0 <= k < N && k != index ==> final(velocities)@[k] == old(velocities)@[k],
            consistent(old(self).grid(), old(positions)@) && r is Ok ==> consistent(
                final(self).grid(),
                final(positions)@,
            ),
            synced(old(self).grid(), old(positions)@, collidable@) && r is Ok ==> synced(
                final(self).grid(),
                final(positions)@,
                collidable@,
            ),
            match advance_spec(
                (old(self).grid(), old(positions)@, old(velocities)@),
                index as int,
                force,
                delta,
                scaled_delta,
                partial as int,
                old(self).frame(),
                *config,
            ) {
                Ok(st) => r is Ok && final(self).grid() == st.0 && final(positions)@ == st.1
                    && final(velocities)@ == st.2,
                Err(e) => r == Err::<(), Error>(e),
            },
    {
        let ghost g0 = self.neighbors@;
        let ghost p0 = positions@;
        let ghost v0 = velocities@;
        let position = positions[index];
        if index % partial == self.frame_counter % partial {
            match self.apply_repulsion_forces(index, position, force, positions, velocities, scaled_delta, config) {
                Ok(()) => {},
                Err(e) => {
                    return Err(e);
                },
            }
        }
        let ghost v1 = velocities@;
        Self::update_object_movement(index, positions, velocities, self.frame_counter, config);
        let ghost mv = movement_spec(position, v1[index as int], index, self.frame(), *config);
        assert(velocities@ == v1.update(index as int, mv.1));
        let new_pos = clamp_position_to_grid(positions[index].add(velocities[index].scale(delta)));
        positions[index] = new_pos;
        assert(positions@ =~= p0.update(index as int, new_pos));
        if new_pos != position {
            let res = self.neighbors.update(index, position, new_pos);
            proof {
                if res is Ok && consistent(g0, p0) {
                    lemma_update_consistent(g0, p0, index as int, new_pos);
                }
                if res is Ok && synced(g0, p0, collidable@) {
                    lemma_move_synced(g0, p0, collidable@, index as int, new_pos);
                }
            }
            return res;
        }
        assert(positions@ =~= p0);
        Ok(())
    }

    /// Advances every collidable free body (the pegs) by one frame: staggered
    /// repulsion, drag and walls, integration, contacts between bodies, and a
    /// final clamp into the grid; the grid follows every move.
    pub fn move_from_fields<const PARTIAL: usize>(
        &mut self,
        positions: &mut [Vec2; N],
        velocities: &mut [Vec2; N],
        collidable: &[bool; N],
        force_radius_squared: &[Fixed; N],
        delta: Fixed,
        config: &PhysicsConfig,
    ) -> (r: Result<(), Error>)
        requires
            old(self).wf(),
            0 < PARTIAL <= 8388607,
        ensures
            final(self).wf(),
            final(self).frame() == usize_specs::wrapping_add(old(self).frame(), 1),
            forall|k: int|
                0 <= k < N && !#[trigger] collidable@[k] ==> final(positions)@[k] == old(positions)@[k]
                    && final(velocities)@[k] == old(velocities)@[k],
            r is Ok ==> forall|k: int|
                0 <= k < N && collidable@[k] ==> clamp_to_grid(#[trigger] final(positions)@[k])
                    == final(positions)@[k],
            consistent(old(self).grid(), old(positions)@) && r is Ok ==> consistent(
                final(self).grid(),
                final(positions)@,
            ),
            synced(old(self).grid(), old(positions)@, collidable@) && r is Ok ==> synced(
                final(self).grid(),
                final(positions)@,
                collidable@,
            ),
            match fields_spec(
                (old(self).grid(), old(positions)@, old(velocities)@),
                collidable@,
                force_radius_squared@,
                delta,
                PARTIAL as int,
                old(self).frame(),
                *config,
            ) {
                Ok(st) => r is Ok && final(self).grid() == st.0 && final(positions)@ == st.1
                    && final(velocities)@ == st.2,
                Err(e) => r == Err::<(), Error>(e),
            },
    {
        self.frame_counter = self.frame_counter.wrapping_add(1);
        let ghost p0 = positions@;
        let ghost v0 = velocities@;
        let ghost g0 = self.neighbors@;
        let scaled_delta = delta.mul(Fixed::new(PARTIAL as i32));
        let ghost st0: FieldState = (g0, p0, v0);
        let ghost fr = self.frame();
        let ghost cd = from_int_spec(wrap(config.object_radius * 2) as int);
        let mut i: usize = 0;
        while i < N
            invariant
                self.wf(),
                self.frame() == usize_specs::wrapping_add(old(self).frame(), 1),
                0 < PARTIAL,
                i <= N,
                st0 == (old(self).grid(), old(positions)@, old(velocities)@),
                fr == self.frame(),
                scaled_delta == mul_spec(delta, from_int_spec(PARTIAL as int)),
                advance_pass_spec(
                    st0,
                    collidable@,
                    force_radius_squared@,
                    delta,
                    scaled_delta,
                    PARTIAL as int,
                    fr,
                    *config,
                    i as int,
                ) == Ok::<FieldState, Error>((self.grid(), positions@, velocities@)),
                consistent(old(self).grid(), old(positions)@) ==> consistent(self.grid(), positions@),
                synced(old(self).grid(), old(positions)@, collidable@) ==> synced(
                    self.grid(),
                    positions@,
                    collidable@,
                ),
                p0.len() == N,
                v0.len() == N,
                p0 == old(positions)@,
                v0 == old(velocities)@,
                positions@.len() == N,
                velocities@.len() == N,
                forall|k: int| 0 <= k < N && !#[trigger] collidable@[k] ==> positions@[k] == p0[k] && velocities@[k] == v0[k],
            decreases N - i,
        {
            if collidable[i] {
                match self.advance_body(i, positions, velocities, force_radius_squared[i], delta, scaled_delta, PARTIAL, config, collidable) {
                    Ok(()) => {},
                    Err(e) => {
                        proof {
                            lemma_advance_pass_err(
                                st0,
                                collidable@,
                                force_radius_squared@,
                                delta,
                                scaled_delta,
                                PARTIAL as int,
                                fr,
                                *config,
                                i + 1,
                                N as int,
                                e,
                            );
                        }
                        return Err(e);
                    },
                }
            }
            i = i + 1;
        }
        let ghost s1: FieldState = (self.grid(), positions@, velocities@);
        assert(advance_pass_spec(st0, collidable@, force_radius_squared@, delta, scaled_delta, PARTIAL as int, fr, *config, N as int) == Ok::<FieldState, Error>(s1));
        match self.resolve_object_collisions(positions, velocities, collidable, config) {
            Ok(()) => {},
            Err(e) => {
                return Err(e);
            },
        }
        let ghost s2: FieldState = (self.grid(), positions@, velocities@);
        assert(contact_pass_spec(s1, collidable@, cd) == Ok::<FieldState, Error>(s2));
        let mut i: usize = 0;
        while i < N
            invariant
                self.wf(),
                self.frame() == usize_specs::wrapping_add(old(self).frame(), 1),
                i <= N,
                st0 == (old(self).grid(), old(positions)@, old(velocities)@),
                fr == self.frame(),
                scaled_delta == mul_spec(delta, from_int_spec(PARTIAL as int)),
                cd == from_int_spec(wrap(config.object_radius * 2) as int),
                advance_pass_spec(st0, collidable@, force_radius_squared@, delta, scaled_delta, PARTIAL as int, fr, *config, N as int) == Ok::<FieldState, Error>(s1),
                contact_pass_spec(s1, collidable@, cd) == Ok::<FieldState, Error>(s2),
                s2.1.len() == N,
                velocities@ == s2.2,
                clamp_pass_spec(s2.0, s2.1, collidable@, i as int) == Ok::<(Seq<Seq<u8>>, Seq<Vec2>), Error>(
                    (self.grid(), positions@),
                ),
                consistent(old(self).grid(), old(positions)@) ==> consistent(self.grid(), positions@),
                synced(old(self).grid(), old(positions)@, collidable@) ==> synced(
                    self.grid(),
                    positions@,
                    collidable@,
                ),
                p0.len() == N,
                v0.len() == N,
                p0 == old(positions)@,
                v0 == old(velocities)@,
                positions@.len() == N,
                velocities@.len() == N,
                forall|k: int| 0 <= k < N && !#[trigger] collidable@[k] ==> positions@[k] == p0[k] && velocities@[k] == v0[k],
                forall|k: int| 0 <= k < i && collidable@[k] ==> clamp_to_grid(#[trigger] positions@[k]) == positions@[k],
            decreases N - i,
        {
            if collidable[i] {
                let old_position = positions[i];
                let new_pos = clamp_position_to_grid(positions[i]);
                proof {
                    lemma_clamp_idempotent(old_position);
                }
                if new_pos != old_position {
                    let ghost g1 = self.neighbors@;
                    let ghost q1 = positions@;
                    positions[i] = new_pos;
                    assert(positions@ =~= q1.update(i as int, new_pos));
                    match self.neighbors.update(i, old_position, new_pos) {
                        Ok(()) => {
                            proof {
                                if consistent(g1, q1) {
                                    lemma_update_consistent(g1, q1, i as int, new_pos);
                                }
                                if synced(g1, q1, collidable@) {
                                    lemma_move_synced(g1, q1, collidable@, i as int, new_pos);
                                }
                            }
                        },
                        Err(e) => {
                            proof {
                                lemma_clamp_pass_err(s2.0, s2.1, collidable@, i + 1, N as int, e);
                            }
                            return Err(e);
                        },
                    }
                }
            }
            i = i + 1;
        }
        Ok(())
    }

    /// Teleports body `index` to `at` and moves it in the grid accordingly.
    pub fn force_move(&mut self, index: usize, at: Vec2, positions: &mut [Vec2; N]) -> (r: Result<(), Error>)
        requires
            old(self).wf(),
            index < N,
        ensures
            final(self).wf(),
            final(self).frame() == old(self).frame(),
            final(positions)@ == old(positions)@.update(index as int, at),
            old(positions)@[index as int] == at ==> r is Ok && final(self).grid() == old(self).grid(),
            consistent(old(self).grid(), old(positions)@) && r is Ok ==> consistent(
                final(self).grid(),
                final(positions)@,
            ),
            forall|v: u8|
                consistent(old(self).grid(), old(positions)@) && old(positions)@[index as int] != at
                    && r is Ok ==> (#[trigger] member(final(self).grid(), v) <==> member(
                    old(self).grid(),
                    v,
                ) || v == index as u8),
            old(positions)@[index as int] != at && index > 255 ==> r == Err::<(), Error>(Error::IndexTooBig)
                && final(self).grid() == old(self).grid(),
            old(positions)@[index as int] != at && index <= 255 ==> match insert_step(
                removed(old(self).grid(), index as int, old(positions)@[index as int]),
                index as int,
                at,
            ) {
                Ok(g) => r is Ok && final(self).grid() == g,
                Err(e) => r == Err::<(), Error>(e) && final(self).grid() == removed(
                    old(self).grid(),
                    index as int,
                    old(positions)@[index as int],
                ),
            },
    {
        let ghost g0 = self.neighbors@;
        let ghost p0 = positions@;
        let old_position = positions[index];
        positions[index] = at;
        let res = self.neighbors.update(index, old_position, at);
        proof {
            if res is Ok && consistent(g0, p0) {
                if old_position != at {
                    lemma_update_consistent(g0, p0, index as int, at);
                    assert(index <= 255);
                } else {
                    assert(positions@ =~= p0);
                }
            }
        }
        res
    }

    /// Adds body `index` at `position` to the grid, for a body that becomes collidable.
    pub fn insert(&mut self, index: usize, position: Vec2) -> (r: Result<(), Error>)
        requires
            old(self).wf(),
        ensures
            final(self).wf(),
            final(self).frame() == old(self).frame(),
            match insert_step(old(self).grid(), index as int, position) {
                Ok(g) => r is Ok && final(self).grid() == g,
                Err(e) => r == Err::<(), Error>(e) && final(self).grid() == old(self).grid(),
            },
    {
        self.neighbors.insert(index, position)
    }
}

} // verus!
