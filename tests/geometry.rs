use perlin_experiment::flow::{
    blend_angles, flow_sample_at, isqrt, nearest_two, recompute, stick_size, FlowSample,
};
use perlin_experiment::layout::{compute_layout, Profile, NUM_OF_PARTICLES};
use perlin_experiment::particles::{
    advance, angle_of_noise, generate_particles, sample_point, sample_points, Heading, Jitter,
    Particle,
};

fn particle(x: i64, y: i64, angle: i64) -> Particle {
    Particle { x, y, angle }
}

#[test]
fn layout_expanded_profile() {
    let l = compute_layout(102400, 76800, 1000);
    assert_eq!(l.profile, Profile::Expanded);
    assert_eq!(l.width, 102400);
    assert_eq!(l.height, 76800);
    assert_eq!(l.unit_size, 2048);
    assert_eq!(l.particle_size, 350);
    assert_eq!(l.num_of_horizontal_grids, 38);
    assert_eq!(l.num_of_vertical_grids, 50);
    assert_eq!(l.particle_count, NUM_OF_PARTICLES);
}

#[test]
fn layout_scales_by_pixel_ratio() {
    let l = compute_layout(40000, 30000, 2000);
    assert_eq!(l.profile, Profile::Compact);
    assert_eq!(l.width, 80000);
    assert_eq!(l.height, 60000);
    assert_eq!(l.unit_size, 5333);
    assert_eq!(l.particle_size, 650);
    assert_eq!(l.num_of_horizontal_grids, 12);
    assert_eq!(l.num_of_vertical_grids, 15);
}

#[test]
fn layout_rounds_to_hundredths() {
    let l = compute_layout(33333, 10001, 1500);
    assert_eq!(l.width, 50000);
    assert_eq!(l.height, 15002);
}

#[test]
fn layout_columns_match_grid_size() {
    let l = compute_layout(76700, 30000, 1000);
    assert_eq!(l.unit_size, 5113);
    assert_eq!(l.num_of_vertical_grids, 15);
    // 30000 / (76700 / 15) = 5.867...
    assert_eq!(l.num_of_horizontal_grids, 6);
    let tiny = compute_layout(10, 1000, 1000);
    assert_eq!(tiny.unit_size, 1);
    assert_eq!(tiny.num_of_vertical_grids, 15);
    assert_eq!(tiny.num_of_horizontal_grids, 1500);
}

#[test]
fn layout_is_deterministic() {
    assert_eq!(compute_layout(123456, 65432, 1250), compute_layout(123456, 65432, 1250));
}

#[test]
fn layout_threshold_767_vs_768() {
    let narrow = compute_layout(76700, 50000, 1000);
    let wide = compute_layout(76800, 50000, 1000);
    assert_eq!(narrow.profile, Profile::Compact);
    assert_eq!(wide.profile, Profile::Expanded);
    assert_eq!(narrow.particle_size, 650);
    assert_eq!(wide.particle_size, 350);
    assert_eq!(narrow.grid_size, 15);
    assert_eq!(wide.grid_size, 50);
    assert_eq!(compute_layout(76799, 50000, 1000).profile, Profile::Compact);
}

#[test]
fn layout_zero_width_keeps_unit_positive() {
    let l = compute_layout(0, 100, 1000);
    assert_eq!(l.unit_size, 1);
    assert_eq!(l.num_of_vertical_grids, 0);
    assert_eq!(l.num_of_horizontal_grids, 0);
}

#[test]
fn regenerate_gives_count_in_bounds() {
    let ps = generate_particles(80000, 60000, 150);
    assert_eq!(ps.len(), 150);
    for p in &ps {
        assert!(0 <= p.x && p.x < 80000);
        assert!(0 <= p.y && p.y < 60000);
        assert!(0 <= p.angle && p.angle < 360000);
    }
    assert_eq!(generate_particles(10, 10, 0).len(), 0);
}

#[test]
fn advance_moves_along_heading() {
    let mut ps = vec![particle(1000, 1000, 0)];
    let hs = vec![Heading { angle: 5, dir_x: 1000000, dir_y: 0 }];
    advance(&mut ps, &hs, 80000, 60000, 350);
    assert_eq!(ps[0], particle(2050, 1000, 5));
}

#[test]
fn advance_rounds_towards_zero() {
    let mut ps = vec![particle(1000, 1000, 0)];
    let hs = vec![Heading { angle: 7, dir_x: -500001, dir_y: 333333 }];
    advance(&mut ps, &hs, 80000, 60000, 350);
    // 3 * 350 * 0.500001 = 525.00105 and 3 * 350 * 0.333333 = 349.99965
    assert_eq!(ps[0], particle(475, 1349, 7));
}

#[test]
fn advance_wraps_each_axis() {
    let mut ps = vec![particle(0, 60000, 0), particle(80000, 0, 0), particle(500, 500, 0)];
    let hs = vec![
        Heading { angle: 1, dir_x: -1000000, dir_y: 1000000 },
        Heading { angle: 2, dir_x: 1000000, dir_y: -1000000 },
        Heading { angle: 3, dir_x: 0, dir_y: 0 },
    ];
    advance(&mut ps, &hs, 80000, 60000, 650);
    assert_eq!(ps[0], particle(80650, -650, 1));
    assert_eq!(ps[1], particle(-650, 60650, 2));
    assert_eq!(ps[2], particle(500, 500, 3));
}

#[test]
fn advance_on_no_particles_is_a_no_op() {
    let mut ps: Vec<Particle> = Vec::new();
    advance(&mut ps, &Vec::new(), 100, 100, 10);
    assert!(ps.is_empty());
}

#[test]
fn sample_point_normalizes_and_jitters() {
    let q = sample_point(particle(40000, -300, 0), 80000, 60000, 7, Jitter { dx: 100, dy: -100000 });
    assert_eq!(q.x, 500100);
    // -300 / 60000 = -0.005 exactly
    assert_eq!(q.y, -5000 - 100000);
    assert_eq!(q.t, 70000);
    let r = sample_point(particle(-1, 0, 0), 3, 3, 0, Jitter { dx: 0, dy: 0 });
    assert_eq!(r.x, -333334);
}

#[test]
fn zero_jitter_queries_are_reproducible() {
    let ps = generate_particles(80000, 60000, 20);
    let zero = vec![Jitter { dx: 0, dy: 0 }; 20];
    let a = sample_points(&ps, 80000, 60000, 3, &zero);
    let b = sample_points(&ps, 80000, 60000, 3, &zero);
    assert_eq!(a, b);
    let hs: Vec<Heading> = a
        .iter()
        .map(|q| Heading { angle: angle_of_noise((q.x % 1000) as i32), dir_x: 600000, dir_y: -800000 })
        .collect();
    let mut first = ps.clone();
    let mut second = ps.clone();
    advance(&mut first, &hs, 80000, 60000, 350);
    advance(&mut second, &hs, 80000, 60000, 350);
    assert_eq!(first, second);
}

#[test]
fn noise_maps_to_full_turn() {
    assert_eq!(angle_of_noise(500000), 180000);
    assert_eq!(angle_of_noise(1000000), 0);
    assert_eq!(angle_of_noise(0), 0);
    assert_eq!(angle_of_noise(-1), 359999);
    assert_eq!(angle_of_noise(-250000), 270000);
    assert_eq!(angle_of_noise(1250000), 90000);
}

#[test]
fn isqrt_rounds_down() {
    assert_eq!(isqrt(0), 0);
    assert_eq!(isqrt(15), 3);
    assert_eq!(isqrt(16), 4);
    assert_eq!(isqrt(1u128 << 100), 1u128 << 50);
    assert_eq!(isqrt((1u128 << 100) - 1), (1u128 << 50) - 1);
}

#[test]
fn two_particles_blend_to_quarter_turn() {
    let ps = vec![particle(0, 0, 0), particle(10, 0, 180000)];
    let s = flow_sample_at(&ps, 5, 0);
    assert_eq!(s, FlowSample { angle: 90000, total_dist: 10 });
}

#[test]
fn nearer_particle_dominates() {
    let ps = vec![particle(0, 0, 0), particle(400, 0, 90000)];
    let s = flow_sample_at(&ps, 100, 0);
    // weights 300/400 and 100/400
    assert_eq!(s, FlowSample { angle: 22500, total_dist: 400 });
}

#[test]
fn nearest_two_ties_go_to_first_seen() {
    let ps = vec![particle(10, 0, 0), particle(0, 10, 0), particle(-10, 0, 0), particle(50, 50, 0)];
    assert_eq!(nearest_two(&ps, 0, 0), (0, 1));
    let qs = vec![particle(50, 50, 0), particle(3, 4, 0), particle(0, 5, 0), particle(1, 1, 0)];
    assert_eq!(nearest_two(&qs, 0, 0), (3, 1));
}

#[test]
fn coincident_particles_give_zero_angle() {
    let ps = vec![particle(7, 7, 1000), particle(7, 7, 2000), particle(70, 70, 3000)];
    assert_eq!(flow_sample_at(&ps, 7, 7), FlowSample { angle: 0, total_dist: 0 });
    assert_eq!(blend_angles(1000, 2000, 0, 0), 0);
}

#[test]
fn blend_handles_negative_angles() {
    assert_eq!(blend_angles(-100, 100, 1, 1), 0);
    assert_eq!(blend_angles(-3, 0, 1, 2), -2);
}

#[test]
fn blend_stays_between_angles() {
    for &(a0, a1, d0, d1) in &[(0i64, 360000i64, 3i64, 7i64), (-5000, 12345, 0, 9), (77, 77, 4, 4)] {
        let r = blend_angles(a0, a1, d0, d1);
        assert!(a0.min(a1) <= r && r <= a0.max(a1));
    }
    assert_eq!(blend_angles(-5000, 12345, 0, 9), -5000);
}

#[test]
fn stick_size_interpolates_and_clamps() {
    assert_eq!(stick_size(2000, 0), 2000);
    assert_eq!(stick_size(2000, 8000), 1100);
    assert_eq!(stick_size(2000, 16000), 200);
    assert_eq!(stick_size(2000, 1000000), 200);
    assert_eq!(stick_size(100, 0), 100);
    assert_eq!(stick_size(100, 5000), 100);
}

#[test]
fn lattice_is_row_major() {
    let ps = vec![particle(0, 0, 1000), particle(100, 0, 2000), particle(0, 100, 3000)];
    let g = recompute(&ps, 2, 3, 100);
    assert_eq!(g.len(), 2);
    assert_eq!(g[0].len(), 3);
    assert_eq!(g[0][0], flow_sample_at(&ps, 0, 0));
    assert_eq!(g[0][2], flow_sample_at(&ps, 200, 0));
    assert_eq!(g[1][0], flow_sample_at(&ps, 0, 100));
    assert_eq!(g[1][0], FlowSample { angle: 3000, total_dist: 100 });
    assert_eq!(g[0][2], FlowSample { angle: 1666, total_dist: 300 });
}
