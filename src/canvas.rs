//! The simulation state between two resizes, and what one tick does to it.
use vstd::prelude::*;
use vstd::string::StringSliceAdditionalSpecFns;
use crate::color::{color_change_intensity_hex, color_of, hex_text_of, scaled_color};
use crate::flow::{
    is_flow_at, placed, recompute, stick_length, stick_size, FlowSample, COORD_LIMIT,
};
use crate::layout::{GRID_SIZE_DESKTOP, compute_layout, device_extent, lemma_device_extent_bound, layout_for, MAX_EXTENT, NUM_OF_PARTICLES};
use crate::particles::{
    advance, draw_jitter, frame_ok, generate_particles, in_frame, moved, noise_query,
    sample_points, Heading, Jitter, NoiseQuery, Particle, FULL_TURN, MAX_PARTICLE_SIZE,
};

verus! {

/// Stick color: the particle color at half intensity (thousandths).
pub const SECOND_COLOR_INTENSITY: u32 = 500;

/// A flow stick to draw: from `(x, y)` along `angle`, `length` long.
#[derive(Clone, Copy, Debug, PartialEq, Eq, Structural)]
pub struct Stick {
    pub x: i64,
    pub y: i64,
    pub angle: i64,
    pub length: i64,
}

/// A particle to draw: a filled circle at `(x, y)` turned by `angle`.
#[derive(Clone, Copy, Debug, PartialEq, Eq, Structural)]
pub struct Dot {
    pub x: i64,
    pub y: i64,
    pub angle: i64,
    pub radius: i64,
}

/// One frame, back to front: the background over `width × height`, the
/// sticks row by row, then the particles.
#[derive(Clone, Debug)]
pub struct Scene {
    pub width: i64,
    pub height: i64,
    pub sticks: Vec<Vec<Stick>>,
    pub dots: Vec<Dot>,
}

/// The simulation: canvas size, colors, tick count, particles and lattice.
#[derive(Clone, Debug)]
pub struct Canvas {
    /// Device pixel ratio in thousandths.
    pub dpr: u32,
    /// Canvas width in hundredths of a device pixel.
    pub width: i64,
    /// Canvas height in hundredths of a device pixel.
    pub height: i64,
    pub bgcolor: String,
    pub color: String,
    /// Stick color.
    pub color2: String,
    /// Ticks since the last resize.
    pub frame: u32,
    pub particles: Vec<Particle>,
    pub unit_size: i64,
    pub particle_size: i64,
    /// Lattice rows.
    pub num_of_horizontal_grids: u64,
    /// Lattice columns.
    pub num_of_vertical_grids: u64,
}

/// `st` is the stick of lattice point `(i, j)` among particles `ps`.
pub open spec fn is_stick_at(ps: Seq<Particle>, unit: int, i: int, j: int, st: Stick) -> bool {
    &&& st.x == j * unit
    &&& st.y == i * unit
    &&& exists|s: FlowSample|
        #[trigger] is_flow_at(ps, j * unit, i * unit, s) && st.angle == s.angle && st.length
            == stick_length(unit, s.total_dist as int)
}

pub open spec fn dot_of(p: Particle, size: int) -> Dot {
    Dot { x: p.x, y: p.y, angle: p.angle, radius: (size / 2) as i64 }
}

/// What one tick queried: the sample point of each particle, for some jitter.
pub open spec fn is_jittered_query(p: Particle, width: int, height: int, tick: int, q: NoiseQuery) -> bool {
    exists|j: Jitter| j.wf() && q == #[trigger] noise_query(p, width, height, tick, j)
}

proof fn lemma_in_frame_placed(p: Particle, width: int, height: int, size: int)
    requires
        frame_ok(width, height, size),
        in_frame(p, width, height, size),
    ensures
        placed(p),
        in_frame(p, width, height, MAX_PARTICLE_SIZE as int),
{
}

impl Canvas {
    /// The bounds and the wrap-around box that every tick keeps.
    pub open spec fn wf(&self) -> bool {
        &&& frame_ok(self.width as int, self.height as int, self.particle_size as int)
        &&& 1 <= self.width
        &&& 1 <= self.height
        &&& 1 <= self.unit_size <= MAX_EXTENT
        &&& self.num_of_vertical_grids * self.unit_size <= COORD_LIMIT
        &&& forall|i: int|
            0 <= i < self.particles.len() ==> in_frame(
                #[trigger] self.particles[i],
                self.width as int,
                self.height as int,
                self.particle_size as int,
            )
        &&& forall|i: int|
            0 <= i < self.particles.len() ==> 0 <= #[trigger] self.particles[i].angle < FULL_TURN
    }

    /// There is something to draw the lattice from: two particles, or no
    /// lattice point at all.
    pub open spec fn lattice_ready(&self) -> bool {
        self.particles.len() >= 2 || self.num_of_horizontal_grids * self.num_of_vertical_grids == 0
    }

    /// Every lattice row lies within the coordinates that the flow works with.
    pub open spec fn rows_fit(&self) -> bool {
        self.num_of_horizontal_grids * self.unit_size <= COORD_LIMIT
    }

    /// A canvas of the given colors before its first resize; the stick color
    /// is the particle color at `SECOND_COLOR_INTENSITY`.
    pub fn new(bgcolor: &str, color: &str, dpr: u32) -> (r: Canvas)
        requires
            color_of(color.spec_bytes()) is Ok,
        ensures
            r.wf(),
            r.dpr == dpr,
            r.bgcolor@ == bgcolor@,
            r.color@ == color@,
            r.color2@ == hex_text_of(
                scaled_color(color_of(color.spec_bytes())->Ok_0, SECOND_COLOR_INTENSITY as int),
            ),
            r.frame == 0,
            r.particles.len() == 0,
            r.width == 10000,
            r.height == 10000,
            r.unit_size == 100,
            r.particle_size == 10,
            r.num_of_horizontal_grids == 10,
            r.num_of_vertical_grids == 10,
    {
        let color2 = color_change_intensity_hex(color, SECOND_COLOR_INTENSITY);
        Canvas {
            dpr,
            width: 10000,
            height: 10000,
            bgcolor: bgcolor.to_owned(),
            color: color.to_owned(),
            color2,
            frame: 0,
            particles: Vec::new(),
            unit_size: 100,
            particle_size: 10,
            num_of_horizontal_grids: 10,
            num_of_vertical_grids: 10,
        }
    }

    /// A resize to a CSS viewport of `css_width × css_height` (hundredths of
    /// a pixel): a new layout, a fresh set of particles, and the tick count
    /// back to zero.
    pub fn update_size(&mut self, css_width: u32, css_height: u32)
        requires
            device_extent(css_width as int, old(self).dpr as int) >= 1,
            device_extent(css_height as int, old(self).dpr as int) >= 1,
        ensures
            final(self).wf(),
            ({
                let l = layout_for(css_width as int, css_height as int, old(self).dpr as int);
                &&& final(self).width == l.width
                &&& final(self).height == l.height
                &&& final(self).unit_size == l.unit_size
                &&& final(self).particle_size == l.particle_size
                &&& final(self).num_of_horizontal_grids == l.num_of_horizontal_grids
                &&& final(self).num_of_vertical_grids == l.num_of_vertical_grids
            }),
            final(self).width >= GRID_SIZE_DESKTOP ==> final(self).rows_fit(),
            final(self).frame == 0,
            final(self).particles.len() == NUM_OF_PARTICLES,
            forall|i: int|
                0 <= i < final(self).particles.len() ==> {
                    &&& 0 <= #[trigger] final(self).particles[i].x < final(self).width
                    &&& 0 <= final(self).particles[i].y < final(self).height
                    &&& 0 <= final(self).particles[i].angle < FULL_TURN
                },
            final(self).dpr == old(self).dpr,
            final(self).bgcolor == old(self).bgcolor,
            final(self).color == old(self).color,
            final(self).color2 == old(self).color2,
    {
        let layout = compute_layout(css_width, css_height, self.dpr);
        proof {
            lemma_device_extent_bound(css_width as int, self.dpr as int);
            lemma_device_extent_bound(css_height as int, self.dpr as int);
        }
        self.frame = 0;
        self.unit_size = layout.unit_size;
        self.particle_size = layout.particle_size;
        self.num_of_horizontal_grids = layout.num_of_horizontal_grids;
        self.num_of_vertical_grids = layout.num_of_vertical_grids;
        self.particles = generate_particles(layout.width, layout.height, layout.particle_count);
        self.width = layout.width;
        self.height = layout.height;
        assert(forall|i: int|
            0 <= i < self.particles.len() ==> in_frame(
                #[trigger] self.particles[i],
                self.width as int,
                self.height as int,
                self.particle_size as int,
            ));
        assert(frame_ok(self.width as int, self.height as int, self.particle_size as int));
        assert(self.num_of_vertical_grids * self.unit_size <= COORD_LIMIT);
    }

    /// Starts a tick: counts it, and returns where to sample the noise for
    /// each particle, with fresh jitter.
    pub fn begin_update(&mut self) -> (r: Vec<NoiseQuery>)
        requires
            old(self).wf(),
        ensures
            final(self).wf(),
            final(self).frame == if old(self).frame < u32::MAX {
                old(self).frame + 1
            } else {
                old(self).frame as int
            },
            final(self).particles == old(self).particles,
            final(self).width == old(self).width,
            final(self).dpr == old(self).dpr,
            final(self).bgcolor == old(self).bgcolor,
            final(self).color == old(self).color,
            final(self).color2 == old(self).color2,
            final(self).height == old(self).height,
            final(self).particle_size == old(self).particle_size,
            final(self).unit_size == old(self).unit_size,
            final(self).num_of_horizontal_grids == old(self).num_of_horizontal_grids,
            final(self).num_of_vertical_grids == old(self).num_of_vertical_grids,
            r.len() == old(self).particles.len(),
            forall|i: int|
                0 <= i < r.len() ==> is_jittered_query(
                    old(self).particles[i],
                    old(self).width as int,
                    old(self).height as int,
                    final(self).frame as int,
                    #[trigger] r[i],
                ),
    {
        if self.frame < u32::MAX {
            self.frame = self.frame + 1;
        }
        let jitter = draw_jitter(self.particles.len());
        proof {
            assert forall|i: int| 0 <= i < self.particles.len() implies in_frame(
                #[trigger] self.particles[i],
                self.width as int,
                self.height as int,
                MAX_PARTICLE_SIZE as int,
            ) by {
                lemma_in_frame_placed(
                    self.particles[i],
                    self.width as int,
                    self.height as int,
                    self.particle_size as int,
                );
            }
        }
        let r = sample_points(&self.particles, self.width, self.height, self.frame, &jitter);
        assert forall|i: int| 0 <= i < r.len() implies is_jittered_query(
            self.particles[i],
            self.width as int,
            self.height as int,
            self.frame as int,
            #[trigger] r[i],
        ) by {
            assert(jitter[i].wf());
        }
        r
    }

    /// Ends a tick: particle `i` takes heading `i`, moves, and wraps around.
    pub fn update(&mut self, headings: &Vec<Heading>)
        requires
            old(self).wf(),
            headings.len() == old(self).particles.len(),
            forall|i: int| 0 <= i < headings.len() ==> (#[trigger] headings[i]).wf(),
        ensures
            final(self).wf(),
            final(self).particles.len() == old(self).particles.len(),
            forall|i: int|
                0 <= i < final(self).particles.len() ==> #[trigger] final(self).particles[i]
                    == moved(
                    old(self).particles[i],
                    headings[i],
                    old(self).width as int,
                    old(self).height as int,
                    old(self).particle_size as int,
                ),
            final(self).frame == old(self).frame,
            final(self).width == old(self).width,
            final(self).dpr == old(self).dpr,
            final(self).bgcolor == old(self).bgcolor,
            final(self).color == old(self).color,
            final(self).color2 == old(self).color2,
            final(self).height == old(self).height,
            final(self).particle_size == old(self).particle_size,
            final(self).unit_size == old(self).unit_size,
            final(self).num_of_horizontal_grids == old(self).num_of_horizontal_grids,
            final(self).num_of_vertical_grids == old(self).num_of_vertical_grids,
    {
        let width = self.width;
        let height = self.height;
        let size = self.particle_size;
        advance(&mut self.particles, headings, width, height, size);
    }

    /// The flow at every lattice point, row by row.
    pub fn flow(&self) -> (r: Vec<Vec<FlowSample>>)
        requires
            self.wf(),
            self.lattice_ready(),
            self.rows_fit(),
        ensures
            r.len() == self.num_of_horizontal_grids,
            forall|i: int| 0 <= i < r.len() ==> (#[trigger] r[i]).len() == self.num_of_vertical_grids,
            forall|i: int, j: int|
                0 <= i < r.len() && 0 <= j < self.num_of_vertical_grids ==> is_flow_at(
                    self.particles@,
                    j * self.unit_size,
                    i * self.unit_size,
                    #[trigger] r[i][j],
                ),
    {
        proof {
            assert forall|k: int| 0 <= k < self.particles.len() implies placed(
                #[trigger] self.particles[k],
            ) by {
                lemma_in_frame_placed(
                    self.particles[k],
                    self.width as int,
                    self.height as int,
                    self.particle_size as int,
                );
            }
        }
        recompute(
            &self.particles,
            self.num_of_horizontal_grids,
            self.num_of_vertical_grids,
            self.unit_size,
        )
    }

    /// What to draw for the current state: one stick per lattice point,
    /// sized by the local particle distance, and one dot per particle.
    pub fn draw(&self) -> (r: Scene)
        requires
            self.wf(),
            self.lattice_ready(),
            self.rows_fit(),
        ensures
            r.width == self.width,
            r.height == self.height,
            r.sticks.len() == self.num_of_horizontal_grids,
            forall|i: int|
                0 <= i < r.sticks.len() ==> (#[trigger] r.sticks[i]).len()
                    == self.num_of_vertical_grids,
            forall|i: int, j: int|
                0 <= i < r.sticks.len() && 0 <= j < self.num_of_vertical_grids ==> is_stick_at(
                    self.particles@,
                    self.unit_size as int,
                    i,
                    j,
                    #[trigger] r.sticks[i][j],
                ),
            r.dots.len() == self.particles.len(),
            forall|k: int|
                0 <= k < r.dots.len() ==> #[trigger] r.dots[k] == dot_of(
                    self.particles[k],
                    self.particle_size as int,
                ),
    {
        let grid = self.flow();
        let unit = self.unit_size;
        let rows = self.num_of_horizontal_grids;
        let columns = self.num_of_vertical_grids;
        let mut sticks: Vec<Vec<Stick>> = Vec::new();
        let mut i: usize = 0;
        while i < grid.len()
            invariant
                i <= grid.len(),
                grid.len() == rows,
                sticks.len() == i,
                self.wf(),
                self.rows_fit(),
                unit == self.unit_size,
                columns == self.num_of_vertical_grids,
                rows == self.num_of_horizontal_grids,
                forall|a: int| 0 <= a < grid.len() ==> (#[trigger] grid[a]).len() == columns,
                forall|a: int, b: int|
                    0 <= a < grid.len() && 0 <= b < columns ==> is_flow_at(
                        self.particles@,
                        b * unit,
                        a * unit,
                        #[trigger] grid[a][b],
                    ),
                forall|a: int| 0 <= a < i ==> (#[trigger] sticks[a]).len() == columns,
                forall|a: int, b: int|
                    0 <= a < i && 0 <= b < columns ==> is_stick_at(
                        self.particles@,
                        unit as int,
                        a,
                        b,
                        #[trigger] sticks[a][b],
                    ),
            decreases grid.len() - i,
        {
            assert(i * unit <= rows * unit) by (nonlinear_arith)
                requires
                    i < rows,
                    1 <= unit,
            ;
            let y: i64 = (i as i128 * unit as i128) as i64;
            let ghost row_ref = grid[i as int];
            let mut row: Vec<Stick> = Vec::new();
            let mut j: usize = 0;
            while j < grid[i].len()
                invariant
                    i < grid.len(),
                    row_ref == grid[i as int],
                    grid[i as int].len() == columns,
                    j <= columns,
                    row.len() == j,
                    y == i * unit,
                    1 <= unit <= MAX_EXTENT,
                    columns * unit <= COORD_LIMIT,
                    forall|b: int|
                        0 <= b < columns ==> is_flow_at(
                            self.particles@,
                            b * unit,
                            i * unit,
                            #[trigger] grid[i as int][b],
                        ),
                    forall|b: int|
                        0 <= b < j ==> is_stick_at(
                            self.particles@,
                            unit as int,
                            i as int,
                            b,
                            #[trigger] row[b],
                        ),
                decreases columns - j,
            {
                assert(j * unit <= columns * unit) by (nonlinear_arith)
                    requires
                        j < columns,
                        1 <= unit,
                ;
                let x: i64 = (j as i128 * unit as i128) as i64;
                let s = grid[i][j];
                let length = stick_size(unit, s.total_dist);
                let st = Stick { x, y, angle: s.angle, length };
                assert(is_flow_at(self.particles@, j * unit, i * unit, s));
                row.push(st);
                j = j + 1;
            }
            sticks.push(row);
            i = i + 1;
        }
        let mut dots: Vec<Dot> = Vec::new();
        let mut k: usize = 0;
        while k < self.particles.len()
            invariant
                k <= self.particles.len(),
                dots.len() == k,
                self.particle_size >= 0,
                forall|a: int|
                    0 <= a < k ==> #[trigger] dots[a] == dot_of(
                        self.particles[a],
                        self.particle_size as int,
                    ),
            decreases self.particles.len() - k,
        {
            let p = self.particles[k];
            dots.push(Dot { x: p.x, y: p.y, angle: p.angle, radius: self.particle_size / 2 });
            k = k + 1;
        }
        Scene { width: self.width, height: self.height, sticks, dots }
    }
}

} // verus!
