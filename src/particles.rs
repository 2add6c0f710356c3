//! Particle state: random placement, noise sample points, and the move with
//! screen wrap-around.
use vstd::prelude::*;
use rand::Rng;
use crate::arith::{floor_div, floor_mod};
use crate::layout::MAX_EXTENT;

verus! {

/// Distance travelled per tick, in particle diameters.
pub const SPEED: i64 = 3;
/// A full turn, in thousandths of a degree.
pub const FULL_TURN: i64 = 360000;
/// Scale of noise coordinates, noise values and directions (millionths).
pub const NOISE_UNIT: i64 = 1000000;
/// Jitter added to noise coordinates stays in `[-JITTER, JITTER)` (0.1).
pub const JITTER: i64 = 100000;
/// Noise time advances by 1/100 per tick.
pub const NOISE_TIME_STEP: i64 = 10000;
/// Upper bound on particle diameters, in hundredths of a pixel.
pub const MAX_PARTICLE_SIZE: i64 = 1000000;

/// A particle: position in hundredths of a device pixel, heading in
/// thousandths of a degree.
#[derive(Clone, Copy, Debug, PartialEq, Eq, Structural)]
pub struct Particle {
    pub x: i64,
    pub y: i64,
    pub angle: i64,
}

/// A new heading for one particle: its angle, and the cosine and sine of that
/// angle in millionths.
#[derive(Clone, Copy, Debug, PartialEq, Eq, Structural)]
pub struct Heading {
    pub angle: i64,
    pub dir_x: i64,
    pub dir_y: i64,
}

/// A point at which to sample the three-dimensional noise, in millionths.
#[derive(Clone, Copy, Debug, PartialEq, Eq, Structural)]
pub struct NoiseQuery {
    pub x: i64,
    pub y: i64,
    pub t: i64,
}

/// Jitter for one particle's noise coordinates, in millionths.
#[derive(Clone, Copy, Debug, PartialEq, Eq, Structural)]
pub struct Jitter {
    pub dx: i64,
    pub dy: i64,
}

impl Heading {
    /// The angle is within one turn; the direction components are a cosine
/// and a sine.
    pub open spec fn wf(&self) -> bool {
        &&& 0 <= self.angle < FULL_TURN
        &&& -NOISE_UNIT <= self.dir_x <= NOISE_UNIT
        &&& -NOISE_UNIT <= self.dir_y <= NOISE_UNIT
    }
}

impl Jitter {
    pub open spec fn wf(&self) -> bool {
        &&& -JITTER <= self.dx < JITTER
        &&& -JITTER <= self.dy < JITTER
    }
}

/// Canvas extents and particle size within the supported bounds.
pub open spec fn frame_ok(width: int, height: int, size: int) -> bool {
    &&& 0 <= width <= MAX_EXTENT
    &&& 0 <= height <= MAX_EXTENT
    &&& 0 <= size <= MAX_PARTICLE_SIZE
}

/// The wrap-around box: each coordinate within one particle size of the canvas.
pub open spec fn in_frame(p: Particle, width: int, height: int, size: int) -> bool {
    &&& -size <= p.x <= width + size
    &&& -size <= p.y <= height + size
}

/// One axis of a move: `SPEED * size * dir`, rounded towards zero.
pub open spec fn step_of(size: int, dir: int) -> int {
    if dir >= 0 {
        SPEED * size * dir / (NOISE_UNIT as int)
    } else {
        -(SPEED * size * (-dir) / (NOISE_UNIT as int))
    }
}

/// Wrap-around on one axis: past one edge by more than `size`, re-enter at
/// the other.
pub open spec fn wrap(v: int, extent: int, size: int) -> int {
    if v < -size {
        extent + size
    } else if v > extent + size {
        -size
    } else {
        v
    }
}

/// A particle after one tick under heading `h`.
pub open spec fn moved(p: Particle, h: Heading, width: int, height: int, size: int) -> Particle {
    Particle {
        x: wrap(p.x as int + step_of(size, h.dir_x as int), width, size) as i64,
        y: wrap(p.y as int + step_of(size, h.dir_y as int), height, size) as i64,
        angle: h.angle,
    }
}

/// Where the noise is sampled for particle `p` at tick `tick`: its position
/// relative to the canvas, plus jitter, and time `tick / 100`.
pub open spec fn noise_query(p: Particle, width: int, height: int, tick: int, j: Jitter) -> NoiseQuery {
    NoiseQuery {
        x: (p.x * NOISE_UNIT / width + j.dx) as i64,
        y: (p.y * NOISE_UNIT / height + j.dy) as i64,
        t: (tick * NOISE_TIME_STEP) as i64,
    }
}

/// A noise value (millionths) as an angle: `noise * 2π`, in thousandths of a
/// degree, rounded down and reduced into `[0, FULL_TURN)`.
pub open spec fn angle_of(noise: int) -> int {
    (noise * FULL_TURN / (NOISE_UNIT as int)) % (FULL_TURN as int)
}

/// Relies on rand's `thread_rng().gen_range(low, high)` for `i64`: a value in
/// `[low, high)`; it panics when `low >= high`.
#[verifier::external_body]
fn random_in(low: i64, high: i64) -> (r: i64)
    requires
        low < high,
    ensures
        low <= r < high,
{
    rand::thread_rng().gen_range(low, high)
}

/// `count` particles placed uniformly in `[0, width) × [0, height)` with
/// headings uniform in `[0, FULL_TURN)`.
pub fn generate_particles(width: i64, height: i64, count: usize) -> (r: Vec<Particle>)
    requires
        0 < width <= MAX_EXTENT,
        0 < height <= MAX_EXTENT,
    ensures
        r.len() == count,
        forall|i: int|
            0 <= i < r.len() ==> {
                &&& 0 <= #[trigger] r[i].x < width
                &&& 0 <= r[i].y < height
                &&& 0 <= r[i].angle < FULL_TURN
            },
{
    let mut particles: Vec<Particle> = Vec::new();
    let mut k: usize = 0;
    while k < count
        invariant
            k <= count,
            particles.len() == k,
            0 < width,
            0 < height,
            forall|i: int|
                0 <= i < particles.len() ==> {
                    &&& 0 <= #[trigger] particles[i].x < width
                    &&& 0 <= particles[i].y < height
                    &&& 0 <= particles[i].angle < FULL_TURN
                },
        decreases count - k,
    {
        let x = random_in(0, width);
        let y = random_in(0, height);
        let angle = random_in(0, FULL_TURN);
        particles.push(Particle { x, y, angle });
        k = k + 1;
    }
    particles
}

/// Fresh jitter for `count` particles, each component in `[-JITTER, JITTER)`.
pub fn draw_jitter(count: usize) -> (r: Vec<Jitter>)
    ensures
        r.len() == count,
        forall|i: int| 0 <= i < r.len() ==> (#[trigger] r[i]).wf(),
{
    let mut jitter: Vec<Jitter> = Vec::new();
    let mut k: usize = 0;
    while k < count
        invariant
            k <= count,
            jitter.len() == k,
            forall|i: int| 0 <= i < jitter.len() ==> (#[trigger] jitter[i]).wf(),
        decreases count - k,
    {
        let dx = random_in(-JITTER, JITTER);
        let dy = random_in(-JITTER, JITTER);
        jitter.push(Jitter { dx, dy });
        k = k + 1;
    }
    jitter
}

proof fn lemma_normalized_bound(v: int, extent: int, q: int)
    requires
        1 <= extent <= MAX_EXTENT,
        -MAX_PARTICLE_SIZE <= v <= extent + MAX_PARTICLE_SIZE,
        q == v * NOISE_UNIT / extent,
    ensures
        -MAX_PARTICLE_SIZE * NOISE_UNIT - 1 <= q <= NOISE_UNIT + MAX_PARTICLE_SIZE * NOISE_UNIT,
{
    let a = v * NOISE_UNIT;
    let r = a % extent;
    vstd::arithmetic::div_mod::lemma_fundamental_div_mod(a, extent);
    vstd::arithmetic::div_mod::lemma_mod_bound(a, extent);
    assert(a == extent * q + r);
    assert(q <= NOISE_UNIT + MAX_PARTICLE_SIZE * NOISE_UNIT) by (nonlinear_arith)
        requires
            a == extent * q + r,
            r >= 0,
            a <= (extent + MAX_PARTICLE_SIZE) * NOISE_UNIT,
            extent >= 1,
    ;
    assert(q >= -MAX_PARTICLE_SIZE * NOISE_UNIT - 1) by (nonlinear_arith)
        requires
            a == extent * q + r,
            r < extent,
            a >= -MAX_PARTICLE_SIZE * NOISE_UNIT,
            extent >= 1,
    ;
}

fn normalized(v: i64, extent: i64) -> (r: i64)
    requires
        1 <= extent <= MAX_EXTENT,
        -MAX_PARTICLE_SIZE <= v <= extent + MAX_PARTICLE_SIZE,
    ensures
        r == v * NOISE_UNIT / (extent as int),
        -MAX_PARTICLE_SIZE * NOISE_UNIT - 1 <= r <= NOISE_UNIT + MAX_PARTICLE_SIZE * NOISE_UNIT,
{
    let q = floor_div(v as i128 * NOISE_UNIT as i128, extent as i128);
    proof {
        lemma_normalized_bound(v as int, extent as int, q as int);
    }
    q as i64
}

/// The noise sample point of one particle for a given jitter.
pub fn sample_point(p: Particle, width: i64, height: i64, tick: u32, j: Jitter) -> (r: NoiseQuery)
    requires
        1 <= width <= MAX_EXTENT,
        1 <= height <= MAX_EXTENT,
        in_frame(p, width as int, height as int, MAX_PARTICLE_SIZE as int),
        j.wf(),
    ensures
        r == noise_query(p, width as int, height as int, tick as int, j),
{
    let x = normalized(p.x, width);
    let y = normalized(p.y, height);
    NoiseQuery { x: x + j.dx, y: y + j.dy, t: tick as i64 * NOISE_TIME_STEP }
}

/// The noise sample points of all particles, particle `i` with jitter `i`.
pub fn sample_points(
    particles: &Vec<Particle>,
    width: i64,
    height: i64,
    tick: u32,
    jitter: &Vec<Jitter>,
) -> (r: Vec<NoiseQuery>)
    requires
        1 <= width <= MAX_EXTENT,
        1 <= height <= MAX_EXTENT,
        jitter.len() == particles.len(),
        forall|i: int|
            0 <= i < particles.len() ==> in_frame(
                #[trigger] particles[i],
                width as int,
                height as int,
                MAX_PARTICLE_SIZE as int,
            ),
        forall|i: int| 0 <= i < jitter.len() ==> (#[trigger] jitter[i]).wf(),
    ensures
        r.len() == particles.len(),
        forall|i: int|
            0 <= i < r.len() ==> #[trigger] r[i] == noise_query(
                particles[i],
                width as int,
                height as int,
                tick as int,
                jitter[i],
            ),
{
    let mut queries: Vec<NoiseQuery> = Vec::new();
    let mut k: usize = 0;
    while k < particles.len()
        invariant
            k <= particles.len(),
            queries.len() == k,
            jitter.len() == particles.len(),
            1 <= width <= MAX_EXTENT,
            1 <= height <= MAX_EXTENT,
            forall|i: int|
                0 <= i < particles.len() ==> in_frame(
                    #[trigger] particles[i],
                    width as int,
                    height as int,
                    MAX_PARTICLE_SIZE as int,
                ),
            forall|i: int| 0 <= i < jitter.len() ==> (#[trigger] jitter[i]).wf(),
            forall|i: int|
                0 <= i < k ==> #[trigger] queries[i] == noise_query(
                    particles[i],
                    width as int,
                    height as int,
                    tick as int,
                    jitter[i],
                ),
        decreases particles.len() - k,
    {
        let q = sample_point(particles[k], width, height, tick, jitter[k]);
        queries.push(q);
        k = k + 1;
    }
    queries
}

/// Maps a noise value (millionths) to a heading angle: `noise * 2π`, as a
/// turn in `[0, FULL_TURN)`.
pub fn angle_of_noise(noise: i32) -> (r: i64)
    ensures
        r == angle_of(noise as int),
        0 <= r < FULL_TURN,
{
    proof {
        assert(-(i32::MAX as int) * FULL_TURN - FULL_TURN <= noise * FULL_TURN
            <= (i32::MAX as int) * FULL_TURN) by (nonlinear_arith)
            requires
                i32::MIN <= noise <= i32::MAX,
        ;
    }
    let turns = floor_div(noise as i128 * FULL_TURN as i128, NOISE_UNIT as i128);
    proof {
        vstd::arithmetic::div_mod::lemma_div_is_ordered(
            noise * FULL_TURN,
            (i32::MAX as int) * FULL_TURN,
            NOISE_UNIT as int,
        );
        vstd::arithmetic::div_mod::lemma_div_is_ordered(
            -(i32::MAX as int) * FULL_TURN - FULL_TURN,
            noise * FULL_TURN,
            NOISE_UNIT as int,
        );
    }
    floor_mod(turns as i64, FULL_TURN)
}

fn step(size: i64, dir: i64) -> (r: i64)
    requires
        0 <= size <= MAX_PARTICLE_SIZE,
        -NOISE_UNIT <= dir <= NOISE_UNIT,
    ensures
        r == step_of(size as int, dir as int),
        -SPEED * size <= r <= SPEED * size,
{
    let magnitude: i64 = if dir >= 0 { dir } else { -dir };
    proof {
        assert(0 <= SPEED * size * magnitude <= SPEED * size * NOISE_UNIT) by (nonlinear_arith)
            requires
                0 <= size,
                0 <= magnitude <= NOISE_UNIT,
        ;
        vstd::arithmetic::div_mod::lemma_div_is_ordered(
            SPEED * size * magnitude,
            SPEED * size * NOISE_UNIT,
            NOISE_UNIT as int,
        );
        vstd::arithmetic::div_mod::lemma_div_multiples_vanish(SPEED * size, NOISE_UNIT as int);
        assert(SPEED * size * NOISE_UNIT == NOISE_UNIT * (SPEED * size)) by (nonlinear_arith);
        vstd::arithmetic::div_mod::lemma_div_pos_is_pos(SPEED * size * magnitude, NOISE_UNIT as int);
    }
    let length = SPEED * size * magnitude / NOISE_UNIT;
    if dir >= 0 {
        length
    } else {
        -length
    }
}

fn wrap_coord(v: i64, extent: i64, size: i64) -> (r: i64)
    requires
        0 <= extent <= MAX_EXTENT,
        0 <= size <= MAX_PARTICLE_SIZE,
    ensures
        r == wrap(v as int, extent as int, size as int),
{
    if v < -size {
        extent + size
    } else if v > extent + size {
        -size
    } else {
        v
    }
}

/// Moves particle `i` along heading `i`, sets its angle, and wraps each axis
/// on its own. Every particle ends inside the wrap-around box.
pub fn advance(
    particles: &mut Vec<Particle>,
    headings: &Vec<Heading>,
    width: i64,
    height: i64,
    particle_size: i64,
)
    requires
        frame_ok(width as int, height as int, particle_size as int),
        headings.len() == old(particles).len(),
        forall|i: int| 0 <= i < headings.len() ==> (#[trigger] headings[i]).wf(),
        forall|i: int|
            0 <= i < old(particles).len() ==> in_frame(
                #[trigger] old(particles)[i],
                width as int,
                height as int,
                particle_size as int,
            ),
    ensures
        final(particles).len() == old(particles).len(),
        forall|i: int|
            0 <= i < final(particles).len() ==> #[trigger] final(particles)[i] == moved(
                old(particles)[i],
                headings[i],
                width as int,
                height as int,
                particle_size as int,
            ),
        forall|i: int|
            0 <= i < final(particles).len() ==> in_frame(
                #[trigger] final(particles)[i],
                width as int,
                height as int,
                particle_size as int,
            ),
{
    let ghost start = particles@;
    let mut k: usize = 0;
    while k < particles.len()
        invariant
            frame_ok(width as int, height as int, particle_size as int),
            particles.len() == start.len(),
            headings.len() == start.len(),
            k <= start.len(),
            forall|i: int| 0 <= i < headings.len() ==> (#[trigger] headings[i]).wf(),
            forall|i: int|
                k <= i < start.len() ==> #[trigger] particles[i] == start[i],
            forall|i: int|
                0 <= i < start.len() ==> in_frame(
                    #[trigger] start[i],
                    width as int,
                    height as int,
                    particle_size as int,
                ),
            forall|i: int|
                0 <= i < k ==> #[trigger] particles[i] == moved(
                    start[i],
                    headings[i],
                    width as int,
                    height as int,
                    particle_size as int,
                ),
            forall|i: int|
                0 <= i < k ==> in_frame(
                    #[trigger] particles[i],
                    width as int,
                    height as int,
                    particle_size as int,
                ),
        decreases start.len() - k,
    {
        let p = particles[k];
        let h = headings[k];
        assert(in_frame(start[k as int], width as int, height as int, particle_size as int));
        let dx = step(particle_size, h.dir_x);
        let dy = step(particle_size, h.dir_y);
        let x = wrap_coord(p.x + dx, width, particle_size);
        let y = wrap_coord(p.y + dy, height, particle_size);
        particles.set(k, Particle { x, y, angle: h.angle });
        k = k + 1;
    }
}


pub open spec fn zero_jitter() -> Jitter {
    Jitter { dx: 0, dy: 0 }
}

/// With the jitter fixed at zero nothing random is left: the sample point
/// is the particle's position relative to the canvas and the time
/// `tick / 100`, so the same particles, canvas and tick give the same
/// sample points and, with the same noise, the same frame.
pub proof fn lemma_zero_jitter_is_reproducible(
    p: Particle,
    q: Particle,
    width: int,
    height: int,
    tick: int,
)
    requires
        p.x == q.x,
        p.y == q.y,
    ensures
        noise_query(p, width, height, tick, zero_jitter()) == (NoiseQuery {
            x: (p.x * NOISE_UNIT / width) as i64,
            y: (p.y * NOISE_UNIT / height) as i64,
            t: (tick * NOISE_TIME_STEP) as i64,
        }),
        noise_query(p, width, height, tick, zero_jitter()) == noise_query(
            q,
            width,
            height,
            tick,
            zero_jitter(),
        ),
{
}

/// Whatever a particle's moved position on one axis, after wrap-around it
/// lies within one particle size of the canvas.
pub proof fn lemma_wrap_stays_in_frame(v: int, extent: int, size: int)
    requires
        0 <= extent,
        0 <= size,
    ensures
        -size <= wrap(v, extent, size) <= extent + size,
{
}

} // verus!
