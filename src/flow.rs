//! The flow lattice: each lattice point takes its angle from the two nearest
//! particles, blended by inverse distance.
use vstd::prelude::*;
use vstd::arithmetic::div_mod::{
    lemma_fundamental_div_mod,
    lemma_fundamental_div_mod_converse,
    lemma_mod_bound,
};
use crate::arith::floor_div;
use crate::particles::Particle;

verus! {

/// Bound on the coordinates that the lattice works with (2^58).
pub const COORD_LIMIT: i64 = 288230376151711744;
/// Shortest stick, in hundredths of a pixel (2 pixels).
pub const STICK_FLOOR: i64 = 200;
/// Beyond this many lattice units of total distance, sticks are shortest.
pub const RIPPLE_RANGE_UNITS: i64 = 8;

/// The flow at one lattice point: the blended angle, and the sum of the
/// distances to the two nearest particles.
#[derive(Clone, Copy, Debug, PartialEq, Eq, Structural)]
pub struct FlowSample {
    pub angle: i64,
    pub total_dist: i64,
}

pub open spec fn coord_ok(v: int) -> bool {
    -COORD_LIMIT <= v <= COORD_LIMIT
}

pub open spec fn placed(p: Particle) -> bool {
    coord_ok(p.x as int) && coord_ok(p.y as int)
}

pub open spec fn sq_dist(p: Particle, x: int, y: int) -> int {
    (p.x - x) * (p.x - x) + (p.y - y) * (p.y - y)
}

/// `r` is the rounded-down square root of `n`.
pub open spec fn is_floor_sqrt(n: int, r: int) -> bool {
    0 <= r && r * r <= n && n < (r + 1) * (r + 1)
}

/// The largest `r` with `r * r <= n`.
pub open spec fn floor_sqrt(n: int) -> int {
    choose|r: int| #[trigger] is_floor_sqrt(n, r)
}

/// Euclidean distance, rounded down to a hundredth of a pixel.
pub open spec fn dist(p: Particle, x: int, y: int) -> int {
    floor_sqrt(sq_dist(p, x, y))
}

/// `i0` and `i1` are the nearest and second nearest of the first `n`
/// particles to `(x, y)`, ties going to the one seen first.
pub open spec fn is_nearest_pair_in(ps: Seq<Particle>, n: int, x: int, y: int, i0: int, i1: int) -> bool {
    &&& 0 <= i0 < n
    &&& 0 <= i1 < n
    &&& i0 != i1
    &&& forall|k: int| 0 <= k < n ==> sq_dist(ps[i0], x, y) <= #[trigger] sq_dist(ps[k], x, y)
    &&& forall|k: int| 0 <= k < i0 ==> sq_dist(ps[i0], x, y) < #[trigger] sq_dist(ps[k], x, y)
    &&& forall|k: int|
        0 <= k < n && k != i0 ==> sq_dist(ps[i1], x, y) <= #[trigger] sq_dist(ps[k], x, y)
    &&& forall|k: int|
        0 <= k < i1 && k != i0 ==> sq_dist(ps[i1], x, y) < #[trigger] sq_dist(ps[k], x, y)
}

pub open spec fn is_nearest_pair(ps: Seq<Particle>, x: int, y: int, i0: int, i1: int) -> bool {
    is_nearest_pair_in(ps, ps.len() as int, x, y, i0, i1)
}

/// Inverse-distance blend: each angle is weighted by the other particle's
/// distance, rounded down; 0 when both distances are 0.
pub open spec fn blend(a0: int, a1: int, d0: int, d1: int) -> int {
    if d0 + d1 == 0 {
        0
    } else {
        (a0 * d1 + a1 * d0) / (d0 + d1)
    }
}

/// The flow sample from the nearest particle `p0` and second nearest `p1`.
pub open spec fn flow_of(p0: Particle, p1: Particle, x: int, y: int) -> FlowSample {
    let d0 = dist(p0, x, y);
    let d1 = dist(p1, x, y);
    FlowSample { angle: blend(p0.angle as int, p1.angle as int, d0, d1) as i64, total_dist: (d0 + d1) as i64 }
}

/// `s` is the flow at `(x, y)` among particles `ps`.
pub open spec fn is_flow_at(ps: Seq<Particle>, x: int, y: int, s: FlowSample) -> bool {
    exists|i0: int, i1: int|
        #[trigger] is_nearest_pair(ps, x, y, i0, i1) && s == flow_of(ps[i0], ps[i1], x, y)
}

/// Stick length: from a full lattice unit down towards two pixels as the total
/// distance grows to `RIPPLE_RANGE_UNITS` units, kept within `[2px, unit]`.
pub open spec fn stick_length(unit: int, total: int) -> int {
    let range = RIPPLE_RANGE_UNITS * unit;
    let v = (range * unit + (STICK_FLOOR - unit) * total) / range;
    let v1 = if v > STICK_FLOOR { v } else { STICK_FLOOR as int };
    if v1 < unit {
        v1
    } else {
        unit
    }
}

/// Only one number is the rounded-down square root.
pub proof fn lemma_floor_sqrt_unique(n: int, r: int)
    requires
        0 <= r,
        r * r <= n,
        n < (r + 1) * (r + 1),
    ensures
        floor_sqrt(n) == r,
{
    assert(is_floor_sqrt(n, r));
    let s = floor_sqrt(n);
    assert(is_floor_sqrt(n, s));
    if s < r {
        assert((s + 1) * (s + 1) <= r * r) by (nonlinear_arith)
            requires
                0 <= s < r,
        ;
    } else if s > r {
        assert((r + 1) * (r + 1) <= s * s) by (nonlinear_arith)
            requires
                0 <= r < s,
        ;
    }
}

/// The rounded-down square root does not decrease.
pub proof fn lemma_floor_sqrt_monotone(a: int, b: int, ra: int, rb: int)
    requires
        0 <= ra,
        0 <= rb,
        ra * ra <= a,
        a <= b,
        b < (rb + 1) * (rb + 1),
    ensures
        ra <= rb,
{
    if ra > rb {
        assert((rb + 1) * (rb + 1) <= ra * ra) by (nonlinear_arith)
            requires
                0 <= rb < ra,
        ;
    }
}

/// Rounded-down square root by bisection.
pub fn isqrt(n: u128) -> (r: u128)
    requires
        n < 0x1000000000000000000000000000000,
    ensures
        r * r <= n < (r + 1) * (r + 1),
        r <= 0x1000000000000000,
        r == floor_sqrt(n as int),
{
    let mut lo: u128 = 0;
    let mut hi: u128 = 0x1000000000000000;
    assert(hi * hi == 0x1000000000000000000000000000000);
    while hi - lo > 1
        invariant
            lo < hi <= 0x1000000000000000,
            lo * lo <= n,
            n < hi * hi,
        decreases hi - lo,
    {
        let mid: u128 = lo + (hi - lo) / 2;
        assert(mid * mid <= 0x1000000000000000 * 0x1000000000000000) by (nonlinear_arith)
            requires
                mid <= 0x1000000000000000,
        ;
        if mid * mid <= n {
            lo = mid;
        } else {
            hi = mid;
        }
    }
    proof {
        lemma_floor_sqrt_unique(n as int, lo as int);
    }
    lo
}

fn squared_distance(p: Particle, x: i64, y: i64) -> (r: u128)
    requires
        placed(p),
        coord_ok(x as int),
        coord_ok(y as int),
    ensures
        r == sq_dist(p, x as int, y as int),
        r < 0x1000000000000000000000000000000,
{
    let dx: i128 = p.x as i128 - x as i128;
    let dy: i128 = p.y as i128 - y as i128;
    proof {
        assert(dx * dx <= 0x800000000000000 * 0x800000000000000) by (nonlinear_arith)
            requires
                -0x800000000000000 <= dx <= 0x800000000000000,
        ;
        assert(dy * dy <= 0x800000000000000 * 0x800000000000000) by (nonlinear_arith)
            requires
                -0x800000000000000 <= dy <= 0x800000000000000,
        ;
        assert(0 <= dx * dx) by (nonlinear_arith);
        assert(0 <= dy * dy) by (nonlinear_arith);
    }
    (dx * dx + dy * dy) as u128
}

/// Indices of the nearest and second nearest particle to `(x, y)`, scanning
/// in order with strict comparisons, so the first seen wins a tie.
pub fn nearest_two(particles: &Vec<Particle>, x: i64, y: i64) -> (r: (usize, usize))
    requires
        particles.len() >= 2,
        forall|k: int| 0 <= k < particles.len() ==> placed(#[trigger] particles[k]),
        coord_ok(x as int),
        coord_ok(y as int),
    ensures
        is_nearest_pair(particles@, x as int, y as int, r.0 as int, r.1 as int),
        dist(particles[r.0 as int], x as int, y as int) <= dist(particles[r.1 as int], x as int, y as int),
{
    let ghost ps = particles@;
    let first = squared_distance(particles[0], x, y);
    let second = squared_distance(particles[1], x, y);
    let (mut i0, mut i1, mut best0, mut best1) = if second < first {
        (1usize, 0usize, second, first)
    } else {
        (0usize, 1usize, first, second)
    };
    let mut k: usize = 2;
    while k < particles.len()
        invariant
            2 <= k <= particles.len(),
            ps == particles@,
            forall|j: int| 0 <= j < particles.len() ==> placed(#[trigger] particles[j]),
            coord_ok(x as int),
            coord_ok(y as int),
            is_nearest_pair_in(ps, k as int, x as int, y as int, i0 as int, i1 as int),
            best0 == sq_dist(ps[i0 as int], x as int, y as int),
            best1 == sq_dist(ps[i1 as int], x as int, y as int),
        decreases particles.len() - k,
    {
        let d = squared_distance(particles[k], x, y);
        if d < best0 {
            i1 = i0;
            best1 = best0;
            i0 = k;
            best0 = d;
        } else if d < best1 {
            i1 = k;
            best1 = d;
        }
        k = k + 1;
    }
    proof {
        let a = sq_dist(ps[i0 as int], x as int, y as int);
        let b = sq_dist(ps[i1 as int], x as int, y as int);
        let ra = floor_sqrt(a);
        let rb = floor_sqrt(b);
        assert(0 <= a) by (nonlinear_arith)
            requires
                a == (ps[i0 as int].x - x) * (ps[i0 as int].x - x) + (ps[i0 as int].y - y) * (
                ps[i0 as int].y - y),
        ;
        let wa = lemma_floor_sqrt_exists(a);
        assert(is_floor_sqrt(a, wa));
        let wb = lemma_floor_sqrt_exists(b);
        assert(is_floor_sqrt(b, wb));
        lemma_floor_sqrt_monotone(a, b, ra, rb);
    }
    (i0, i1)
}

/// Every non-negative number has a rounded-down square root.
pub proof fn lemma_floor_sqrt_exists(n: int) -> (r: int)
    requires
        0 <= n,
    ensures
        0 <= r,
        r * r <= n < (r + 1) * (r + 1),
    decreases n,
{
    if n == 0 {
        0
    } else {
        let s = lemma_floor_sqrt_exists(n - 1);
        if (s + 1) * (s + 1) <= n {
            assert(n < (s + 2) * (s + 2)) by (nonlinear_arith)
                requires
                    n - 1 < (s + 1) * (s + 1),
                    0 <= s,
            ;
            s + 1
        } else {
            s
        }
    }
}

/// The blend of two angles by the other's distance (see `blend`).
pub fn blend_angles(a0: i64, a1: i64, d0: i64, d1: i64) -> (r: i64)
    requires
        0 <= d0 <= 0x1000000000000000,
        0 <= d1 <= 0x1000000000000000,
    ensures
        r == blend(a0 as int, a1 as int, d0 as int, d1 as int),
        d0 + d1 > 0 ==> (a0 <= r <= a1 || a1 <= r <= a0),
        d0 + d1 == 0 ==> r == 0,
{
    let total: i128 = d0 as i128 + d1 as i128;
    if total == 0 {
        return 0;
    }
    let lo: i64 = if a0 <= a1 { a0 } else { a1 };
    let hi: i64 = if a0 <= a1 { a1 } else { a0 };
    let u0: i128 = a0 as i128 - lo as i128;
    let u1: i128 = a1 as i128 - lo as i128;
    let span: i128 = hi as i128 - lo as i128;
    proof {
        assert(0 <= u0 * d1 <= span * d1) by (nonlinear_arith)
            requires
                0 <= u0 <= span,
                0 <= d1,
        ;
        assert(0 <= u1 * d0 <= span * d0) by (nonlinear_arith)
            requires
                0 <= u1 <= span,
                0 <= d0,
        ;
        assert(span * d1 + span * d0 == span * total) by (nonlinear_arith)
            requires
                total == d0 + d1,
        ;
        assert(span * total <= 0x20000000000000000 * 0x2000000000000000) by (nonlinear_arith)
            requires
                0 <= span <= 0x20000000000000000,
                0 <= total <= 0x2000000000000000,
        ;
    }
    let num: i128 = u0 * d1 as i128 + u1 * d0 as i128;
    let q: i128 = num / total;
    proof {
        let rem = num % total;
        lemma_fundamental_div_mod(num as int, total as int);
        lemma_mod_bound(num as int, total as int);
        assert(num == total * q + rem);
        assert(a0 * d1 + a1 * d0 == (q + lo) * total + rem) by (nonlinear_arith)
            requires
                num == total * q + rem,
                num == u0 * d1 + u1 * d0,
                u0 == a0 - lo,
                u1 == a1 - lo,
                total == d0 + d1,
        ;
        lemma_fundamental_div_mod_converse(a0 * d1 + a1 * d0, total as int, q + lo, rem as int);
        assert(0 <= q <= span) by (nonlinear_arith)
            requires
                num == total * q + rem,
                0 <= rem < total,
                0 <= num <= span * total,
                total > 0,
        ;
    }
    (lo as i128 + q) as i64
}

/// The flow sample at `(x, y)`.
pub fn flow_sample_at(particles: &Vec<Particle>, x: i64, y: i64) -> (r: FlowSample)
    requires
        particles.len() >= 2,
        forall|k: int| 0 <= k < particles.len() ==> placed(#[trigger] particles[k]),
        coord_ok(x as int),
        coord_ok(y as int),
    ensures
        is_flow_at(particles@, x as int, y as int, r),
{
    let (i0, i1) = nearest_two(particles, x, y);
    let d0 = isqrt(squared_distance(particles[i0], x, y));
    let d1 = isqrt(squared_distance(particles[i1], x, y));
    let angle = blend_angles(particles[i0].angle, particles[i1].angle, d0 as i64, d1 as i64);
    let r = FlowSample { angle, total_dist: (d0 + d1) as i64 };
    assert(is_nearest_pair(particles@, x as int, y as int, i0 as int, i1 as int));
    assert(r == flow_of(particles[i0 as int], particles[i1 as int], x as int, y as int));
    r
}

/// The stick length for lattice spacing `unit` and a sample's total distance.
pub fn stick_size(unit: i64, total_dist: i64) -> (r: i64)
    requires
        1 <= unit <= 0x80000000000000,
    ensures
        r == stick_length(unit as int, total_dist as int),
        r <= unit,
        unit >= STICK_FLOOR ==> STICK_FLOOR <= r,
{
    let units: i128 = RIPPLE_RANGE_UNITS as i128;
    assert(units == 8);
    let range: i128 = units * unit as i128;
    proof {
        assert(range == 8 * unit);
        assert(range * unit <= 0x400000000000000 * 0x80000000000000) by (nonlinear_arith)
            requires
                0 < range <= 0x400000000000000,
                0 < unit <= 0x80000000000000,
        ;
        assert(0 < range * unit) by (nonlinear_arith)
            requires
                0 < range,
                0 < unit,
        ;
        let c = STICK_FLOOR - unit;
        assert(-0x80000000000000 * 0x8000000000000000 <= c * total_dist <= 0x80000000000000
            * 0x8000000000000000) by (nonlinear_arith)
            requires
                -0x80000000000000 <= c <= 200,
                -0x8000000000000000 <= total_dist <= 0x8000000000000000,
        ;
    }
    let num: i128 = range * unit as i128 + (STICK_FLOOR as i128 - unit as i128) * total_dist as i128;
    let v = floor_div(num, range);
    let v1: i128 = if v > STICK_FLOOR as i128 { v } else { STICK_FLOOR as i128 };
    if v1 < unit as i128 {
        v1 as i64
    } else {
        unit
    }
}


/// Weights each angle by the other particle's distance: for `d0 <= d1` the
/// weights `d1 / (d0 + d1)` and `d0 / (d0 + d1)` lie in `[0, 1]`, sum to one,
/// and the nearer particle's is the larger; the blend is that convex
/// combination rounded down, so it lies between the two angles.
pub proof fn lemma_blend_is_convex(a0: int, a1: int, d0: int, d1: int)
    requires
        0 <= d0 <= d1,
        0 < d0 + d1,
    ensures
        0 <= d0 <= d1,
        blend(a0, a1, d0, d1) * (d0 + d1) <= a0 * d1 + a1 * d0,
        a0 * d1 + a1 * d0 < (blend(a0, a1, d0, d1) + 1) * (d0 + d1),
        a0 <= blend(a0, a1, d0, d1) <= a1 || a1 <= blend(a0, a1, d0, d1) <= a0,
{
    let t = d0 + d1;
    let n = a0 * d1 + a1 * d0;
    let q = n / t;
    let rem = n % t;
    lemma_fundamental_div_mod(n, t);
    lemma_mod_bound(n, t);
    assert(q * t <= n < (q + 1) * t) by (nonlinear_arith)
        requires
            n == t * q + rem,
            0 <= rem < t,
    ;
    if a0 <= a1 {
        assert(a0 * t <= n <= a1 * t) by (nonlinear_arith)
            requires
                a0 <= a1,
                0 <= d0,
                0 <= d1,
                t == d0 + d1,
                n == a0 * d1 + a1 * d0,
        ;
        assert(a0 <= q <= a1) by (nonlinear_arith)
            requires
                a0 * t <= n <= a1 * t,
                q * t <= n < (q + 1) * t,
                t > 0,
        ;
    } else {
        assert(a1 * t <= n <= a0 * t) by (nonlinear_arith)
            requires
                a1 <= a0,
                0 <= d0,
                0 <= d1,
                t == d0 + d1,
                n == a0 * d1 + a1 * d0,
        ;
        assert(a1 <= q <= a0) by (nonlinear_arith)
            requires
                a1 * t <= n <= a0 * t,
                q * t <= n < (q + 1) * t,
                t > 0,
        ;
    }
}

/// The flow at every lattice point, row by row: point `(i, j)` sits at
/// `(j * unit, i * unit)`.
pub fn recompute(particles: &Vec<Particle>, rows: u64, columns: u64, unit: i64) -> (r: Vec<
    Vec<FlowSample>,
>)
    requires
        particles.len() >= 2 || rows * columns == 0,
        forall|k: int| 0 <= k < particles.len() ==> placed(#[trigger] particles[k]),
        1 <= unit,
        rows * unit <= COORD_LIMIT,
        columns * unit <= COORD_LIMIT,
    ensures
        r.len() == rows,
        forall|i: int| 0 <= i < rows ==> (#[trigger] r[i]).len() == columns,
        forall|i: int, j: int|
            0 <= i < rows && 0 <= j < columns ==> is_flow_at(
                particles@,
                j * unit,
                i * unit,
                #[trigger] r[i][j],
            ),
{
    let mut grid: Vec<Vec<FlowSample>> = Vec::new();
    let mut i: u64 = 0;
    while i < rows
        invariant
            i <= rows,
            grid.len() == i,
            particles.len() >= 2 || rows * columns == 0,
            forall|k: int| 0 <= k < particles.len() ==> placed(#[trigger] particles[k]),
            1 <= unit,
            rows * unit <= COORD_LIMIT,
            columns * unit <= COORD_LIMIT,
            forall|a: int| 0 <= a < i ==> (#[trigger] grid[a]).len() == columns,
            forall|a: int, b: int|
                0 <= a < i && 0 <= b < columns ==> is_flow_at(
                    particles@,
                    b * unit,
                    a * unit,
                    #[trigger] grid[a][b],
                ),
        decreases rows - i,
    {
        assert(i * unit <= rows * unit) by (nonlinear_arith)
            requires
                i <= rows,
                1 <= unit,
        ;
        let y: i64 = (i as i128 * unit as i128) as i64;
        let mut row: Vec<FlowSample> = Vec::new();
        let mut j: u64 = 0;
        while j < columns
            invariant
                j <= columns,
                row.len() == j,
                y == i * unit,
                coord_ok(y as int),
                i < rows,
                particles.len() >= 2 || rows * columns == 0,
                forall|k: int| 0 <= k < particles.len() ==> placed(#[trigger] particles[k]),
                1 <= unit,
                columns * unit <= COORD_LIMIT,
                forall|b: int|
                    0 <= b < j ==> is_flow_at(particles@, b * unit, y as int, #[trigger] row[b]),
            decreases columns - j,
        {
            assert(j * unit <= columns * unit) by (nonlinear_arith)
                requires
                    j <= columns,
                    1 <= unit,
            ;
            assert(rows * columns != 0) by (nonlinear_arith)
                requires
                    i < rows,
                    j < columns,
            ;
            let x: i64 = (j as i128 * unit as i128) as i64;
            let s = flow_sample_at(particles, x, y);
            row.push(s);
            j = j + 1;
        }
        grid.push(row);
        i = i + 1;
    }
    grid
}

} // verus!
