//! Layout policy: grid resolution, particle size and particle count for a
//! viewport, in one of two presentation profiles.
use vstd::prelude::*;
use crate::arith::{ceil_div, lemma_ceil_div_bound};
use vstd::arithmetic::div_mod::lemma_fundamental_div_mod_converse;

verus! {

/// Number of particles, whatever the profile.
pub const NUM_OF_PARTICLES: usize = 150;
/// Particle diameter of the compact profile, in hundredths of a pixel.
pub const PARTICLE_SIZE_MOBILE: i64 = 650;
/// Particle diameter of the expanded profile, in hundredths of a pixel.
pub const PARTICLE_SIZE_DESKTOP: i64 = 350;
/// Lattice columns across the width in the compact profile.
pub const GRID_SIZE_MOBILE: i64 = 15;
/// Lattice columns across the width in the expanded profile.
pub const GRID_SIZE_DESKTOP: i64 = 50;
/// CSS widths below 768 pixels (here in hundredths) use the compact profile.
pub const COMPACT_WIDTH_LIMIT: u32 = 76800;
/// Upper bound on canvas extents, in hundredths of a device pixel (2^55).
pub const MAX_EXTENT: i64 = 36028797018963968;

/// The two presentation profiles.
#[derive(Clone, Copy, Debug, PartialEq, Eq, Structural)]
pub enum Profile {
    /// Narrow viewports: coarser lattice, larger particles.
    Compact,
    /// Wide viewports: finer lattice, smaller particles.
    Expanded,
}

/// Everything that is fixed between two resizes.
#[derive(Clone, Copy, Debug, PartialEq, Eq, Structural)]
pub struct LayoutParameters {
    pub profile: Profile,
    /// Canvas width in hundredths of a device pixel.
    pub width: i64,
    /// Canvas height in hundredths of a device pixel.
    pub height: i64,
    /// Lattice spacing in hundredths of a device pixel.
    pub unit_size: i64,
    /// Particle diameter in hundredths of a device pixel.
    pub particle_size: i64,
    /// Lattice columns across the width that the profile asks for.
    pub grid_size: i64,
    /// Lattice rows (along the height).
    pub num_of_horizontal_grids: u64,
    /// Lattice columns (along the width).
    pub num_of_vertical_grids: u64,
    pub particle_count: usize,
}

pub open spec fn profile_for(css_width: int) -> Profile {
    if css_width < COMPACT_WIDTH_LIMIT {
        Profile::Compact
    } else {
        Profile::Expanded
    }
}

pub open spec fn particle_size_of(p: Profile) -> int {
    match p {
        Profile::Compact => PARTICLE_SIZE_MOBILE as int,
        Profile::Expanded => PARTICLE_SIZE_DESKTOP as int,
    }
}

pub open spec fn grid_size_of(p: Profile) -> int {
    match p {
        Profile::Compact => GRID_SIZE_MOBILE as int,
        Profile::Expanded => GRID_SIZE_DESKTOP as int,
    }
}

/// A CSS extent scaled by the pixel ratio (in thousandths), rounded to the
/// nearest hundredth of a device pixel.
pub open spec fn device_extent(css: int, dpr: int) -> int {
    (css * dpr + 500) / 1000
}

/// Lattice spacing: the width split into `grid` columns, never below one.
pub open spec fn unit_for(width: int, grid: int) -> int {
    if width / grid >= 1 {
        width / grid
    } else {
        1
    }
}

/// Lattice points along `extent` at spacing `width / grid` (exact, not
/// rounded): `ceil(extent * grid / width)`; none on a canvas of no width.
pub open spec fn grid_count(extent: int, width: int, grid: int) -> int {
    if width > 0 {
        ceil_div(extent * grid, width)
    } else {
        0
    }
}

/// The layout for a CSS viewport size (hundredths of a pixel) and a device
/// pixel ratio (thousandths).
pub open spec fn layout_for(css_width: int, css_height: int, dpr: int) -> LayoutParameters {
    let profile = profile_for(css_width);
    let width = device_extent(css_width, dpr);
    let height = device_extent(css_height, dpr);
    let unit = unit_for(width, grid_size_of(profile));
    LayoutParameters {
        profile,
        width: width as i64,
        height: height as i64,
        unit_size: unit as i64,
        particle_size: particle_size_of(profile) as i64,
        grid_size: grid_size_of(profile) as i64,
        num_of_horizontal_grids: grid_count(height, width, grid_size_of(profile)) as u64,
        num_of_vertical_grids: grid_count(width, width, grid_size_of(profile)) as u64,
        particle_count: NUM_OF_PARTICLES,
    }
}

impl LayoutParameters {
    /// The bounds that every computed layout keeps.
    pub open spec fn wf(&self) -> bool {
        &&& 0 <= self.width <= MAX_EXTENT
        &&& 0 <= self.height <= MAX_EXTENT
        &&& 1 <= self.unit_size <= MAX_EXTENT
        &&& self.width > 0 ==> self.num_of_vertical_grids == self.grid_size
        &&& self.num_of_vertical_grids * self.unit_size <= MAX_EXTENT
        &&& self.width >= self.grid_size ==> self.num_of_horizontal_grids * self.unit_size
            <= self.height + self.width
        &&& self.particle_size == particle_size_of(self.profile)
        &&& self.grid_size == grid_size_of(self.profile)
    }
}

pub proof fn lemma_device_extent_bound(css: int, dpr: int)
    requires
        0 <= css <= u32::MAX,
        0 <= dpr <= u32::MAX,
    ensures
        0 <= device_extent(css, dpr) <= MAX_EXTENT,
{
    assert(css * dpr <= (u32::MAX as int) * (u32::MAX as int)) by (nonlinear_arith)
        requires
            0 <= css <= u32::MAX,
            0 <= dpr <= u32::MAX,
    ;
    assert(0 <= css * dpr) by (nonlinear_arith)
        requires
            0 <= css,
            0 <= dpr,
    ;
    vstd::arithmetic::div_mod::lemma_div_is_ordered(
        css * dpr + 500,
        (u32::MAX as int) * (u32::MAX as int) + 500,
        1000,
    );
    vstd::arithmetic::div_mod::lemma_div_pos_is_pos(css * dpr + 500, 1000);
}

fn device_extent_of(css: u32, dpr: u32) -> (r: i64)
    ensures
        r == device_extent(css as int, dpr as int),
        0 <= r <= MAX_EXTENT,
{
    proof {
        lemma_device_extent_bound(css as int, dpr as int);
        assert((css as int) * (dpr as int) <= (u32::MAX as int) * (u32::MAX as int))
            by (nonlinear_arith)
            requires
                css <= u32::MAX,
                dpr <= u32::MAX,
        ;
    }
    let product: u64 = css as u64 * dpr as u64;
    ((product + 500) / 1000) as i64
}

proof fn lemma_grid_counts(w: int, h: int, g: int, unit: int)
    requires
        0 <= w <= MAX_EXTENT,
        0 <= h <= MAX_EXTENT,
        1 <= g <= 50,
        unit == unit_for(w, g),
    ensures
        1 <= unit <= MAX_EXTENT,
        w > 0 ==> grid_count(w, w, g) == g,
        grid_count(w, w, g) * unit <= MAX_EXTENT,
        0 <= grid_count(h, w, g),
        w >= g ==> grid_count(h, w, g) * unit <= h + w,
{
    let q = w / g;
    vstd::arithmetic::div_mod::lemma_fundamental_div_mod(w, g);
    vstd::arithmetic::div_mod::lemma_mod_bound(w, g);
    vstd::arithmetic::div_mod::lemma_div_is_ordered_by_denominator(w, 1, g);
    assert(w == g * q + w % g);
    assert(0 <= q) by {
        vstd::arithmetic::div_mod::lemma_div_pos_is_pos(w, g);
    }
    if w > 0 {
        assert(w * g + w - 1 == g * w + (w - 1)) by (nonlinear_arith);
        lemma_fundamental_div_mod_converse(w * g + w - 1, w, g, w - 1);
        assert(0 <= h * g) by (nonlinear_arith)
            requires
                0 <= h,
                0 <= g,
        ;
        lemma_ceil_div_bound(h * g, w);
        if q >= 1 {
            assert(g * unit <= w);
        } else {
            assert(unit == 1);
        }
        if w >= g {
            let rows = grid_count(h, w, g);
            assert(q >= 1) by (nonlinear_arith)
                requires
                    w == g * q + w % g,
                    w % g < g,
                    w >= g,
            ;
            assert(rows * w < h * g + w);
            assert(rows * unit <= h + w) by (nonlinear_arith)
                requires
                    rows * w < h * g + w,
                    g * unit <= w,
                    rows >= 0,
                    g >= 1,
                    unit >= 1,
            ;
        }
    }
}

/// Derives the layout from the viewport's CSS size (hundredths of a pixel)
/// and the device pixel ratio (thousandths).
pub fn compute_layout(css_width: u32, css_height: u32, dpr: u32) -> (r: LayoutParameters)
    ensures
        r == layout_for(css_width as int, css_height as int, dpr as int),
        r.wf(),
        r.profile == profile_for(css_width as int),
        r.particle_count == NUM_OF_PARTICLES,
{
    let profile = if css_width < COMPACT_WIDTH_LIMIT {
        Profile::Compact
    } else {
        Profile::Expanded
    };
    let (particle_size, grid_size) = match profile {
        Profile::Compact => (PARTICLE_SIZE_MOBILE, GRID_SIZE_MOBILE),
        Profile::Expanded => (PARTICLE_SIZE_DESKTOP, GRID_SIZE_DESKTOP),
    };
    let width = device_extent_of(css_width, dpr);
    let height = device_extent_of(css_height, dpr);
    let unit_size: i64 = if width / grid_size >= 1 {
        width / grid_size
    } else {
        1
    };
    let (rows, columns) = if width > 0 {
        (
            ((height * grid_size + width - 1) / width) as u64,
            ((width * grid_size + width - 1) / width) as u64,
        )
    } else {
        (0u64, 0u64)
    };
    proof {
        lemma_grid_counts(width as int, height as int, grid_size as int, unit_size as int);
    }
    LayoutParameters {
        profile,
        width,
        height,
        unit_size,
        particle_size,
        grid_size,
        num_of_horizontal_grids: rows,
        num_of_vertical_grids: columns,
        particle_count: NUM_OF_PARTICLES,
    }
}

/// The profile, and with it the particle size and the grid size, depends on
/// the CSS width alone: not on the height or the pixel ratio.
pub proof fn lemma_profile_depends_on_width_only(
    css_width: int,
    height_a: int,
    dpr_a: int,
    height_b: int,
    dpr_b: int,
)
    ensures
        layout_for(css_width, height_a, dpr_a).profile == layout_for(css_width, height_b, dpr_b).profile,
        layout_for(css_width, height_a, dpr_a).particle_size == layout_for(
            css_width,
            height_b,
            dpr_b,
        ).particle_size,
        layout_for(css_width, height_a, dpr_a).grid_size == layout_for(
            css_width,
            height_b,
            dpr_b,
        ).grid_size,
{
}

/// The profile changes at exactly 768 CSS pixels: 767.99 is still compact and
/// 768 is expanded, whatever the height and pixel ratio.
pub proof fn lemma_profile_flips_at_threshold(css_height: int, dpr: int)
    ensures
        layout_for(76799, css_height, dpr).profile == Profile::Compact,
        layout_for(76800, css_height, dpr).profile == Profile::Expanded,
        layout_for(76799, css_height, dpr).particle_count
            == layout_for(76800, css_height, dpr).particle_count,
{
}

} // verus!
