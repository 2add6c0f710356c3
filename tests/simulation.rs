use noise::{NoiseFn, Perlin};
use perlin_experiment::canvas::Canvas;
use perlin_experiment::color::{
    color_change_intensity_hex, color_change_intensity_rgb, hex_to_rgb, parse_hex_color,
    rgb_to_hex, ColorError, RgbColor,
};
use perlin_experiment::config::Config;
use perlin_experiment::debounce::Debouncer;
use perlin_experiment::particles::{angle_of_noise, Heading, NoiseQuery};

fn headings_for(queries: &[NoiseQuery], perlin: &Perlin) -> Vec<Heading> {
    queries
        .iter()
        .map(|q| {
            let v = perlin.get([q.x as f64 / 1e6, q.y as f64 / 1e6, q.t as f64 / 1e6]);
            let angle = angle_of_noise((v * 1e6).round() as i32);
            let radians = angle as f64 * std::f64::consts::PI / 180000.0;
            Heading {
                angle,
                dir_x: (radians.cos() * 1e6).round() as i64,
                dir_y: (radians.sin() * 1e6).round() as i64,
            }
        })
        .collect()
}

#[test]
fn one_tick_keeps_particles_in_frame() {
    let mut canvas = Canvas::new("#101010", "#ff8000", 1000);
    canvas.update_size(80000, 60000);
    assert_eq!(canvas.width, 80000);
    assert_eq!(canvas.height, 60000);
    assert_eq!(canvas.particles.len(), 150);
    let perlin = Perlin::new();
    let queries = canvas.begin_update();
    assert_eq!(canvas.frame, 1);
    assert_eq!(queries.len(), 150);
    let headings = headings_for(&queries, &perlin);
    canvas.update(&headings);
    let s = canvas.particle_size;
    assert_eq!(canvas.particles.len(), 150);
    for p in &canvas.particles {
        assert!(-s <= p.x && p.x <= 80000 + s);
        assert!(-s <= p.y && p.y <= 60000 + s);
    }
}

#[test]
fn queries_carry_bounded_jitter() {
    let mut canvas = Canvas::new("#101010", "#ff8000", 1000);
    canvas.update_size(80000, 60000);
    let before = canvas.particles.clone();
    let queries = canvas.begin_update();
    assert_eq!(canvas.particles, before);
    for (p, q) in before.iter().zip(queries.iter()) {
        let base_x = p.x * 1000000 / 80000;
        let base_y = p.y * 1000000 / 60000;
        assert!(base_x - 100000 <= q.x && q.x < base_x + 100000);
        assert!(base_y - 100000 <= q.y && q.y < base_y + 100000);
        assert_eq!(q.t, 10000);
    }
}

#[test]
fn many_ticks_keep_particles_in_frame() {
    let mut canvas = Canvas::new("#101010", "#ff8000", 2000);
    canvas.update_size(30000, 20000);
    let perlin = Perlin::new();
    for _ in 0..50 {
        let queries = canvas.begin_update();
        let headings = headings_for(&queries, &perlin);
        canvas.update(&headings);
    }
    assert_eq!(canvas.frame, 50);
    let s = canvas.particle_size;
    for p in &canvas.particles {
        assert!(-s <= p.x && p.x <= canvas.width + s);
        assert!(-s <= p.y && p.y <= canvas.height + s);
    }
}

#[test]
fn resize_mid_run_switches_to_compact() {
    let mut canvas = Canvas::new("#101010", "#ff8000", 1000);
    canvas.update_size(102400, 76800);
    assert_eq!(canvas.particle_size, 350);
    assert_eq!(canvas.unit_size, 2048);
    assert_eq!(canvas.num_of_horizontal_grids, 38);
    assert_eq!(canvas.num_of_vertical_grids, 50);
    let perlin = Perlin::new();
    for _ in 0..3 {
        let queries = canvas.begin_update();
        canvas.update(&headings_for(&queries, &perlin));
    }
    assert_eq!(canvas.frame, 3);
    canvas.update_size(40000, 30000);
    assert_eq!(canvas.frame, 0);
    assert_eq!(canvas.particles.len(), 150);
    assert_eq!(canvas.particle_size, 650);
    assert_eq!(canvas.unit_size, 2666);
    assert_eq!(canvas.num_of_horizontal_grids, 12);
    assert_eq!(canvas.num_of_vertical_grids, 15);
    let scene = canvas.draw();
    assert!(scene.dots.iter().all(|d| d.radius == 325));
    for p in &canvas.particles {
        assert!(0 <= p.x && p.x < 40000);
        assert!(0 <= p.y && p.y < 30000);
    }
}

#[test]
fn scene_has_a_stick_per_lattice_point_and_a_dot_per_particle() {
    let mut canvas = Canvas::new("#101010", "#ff8000", 1000);
    canvas.update_size(40000, 30000);
    let scene = canvas.draw();
    assert_eq!(scene.width, 40000);
    assert_eq!(scene.height, 30000);
    assert_eq!(scene.sticks.len(), 12);
    for (i, row) in scene.sticks.iter().enumerate() {
        assert_eq!(row.len(), 15);
        for (j, st) in row.iter().enumerate() {
            assert_eq!(st.x, j as i64 * 2666);
            assert_eq!(st.y, i as i64 * 2666);
            assert!(200 <= st.length && st.length <= 2666);
        }
    }
    let flow = canvas.flow();
    assert_eq!(scene.sticks[3][4].angle, flow[3][4].angle);
    assert_eq!(scene.dots.len(), 150);
    assert_eq!(scene.dots[0].radius, 325);
    assert_eq!(scene.dots[0].x, canvas.particles[0].x);
}

#[test]
fn new_canvas_derives_stick_color() {
    let canvas = Canvas::new("#101010", "#ff8000", 1500);
    assert_eq!(canvas.color2, "#7f4000");
    assert_eq!(canvas.bgcolor, "#101010");
    assert_eq!(canvas.color, "#ff8000");
    assert_eq!(canvas.dpr, 1500);
    assert_eq!(canvas.frame, 0);
    assert!(canvas.particles.is_empty());
}

#[test]
fn hex_colors_parse() {
    assert_eq!(hex_to_rgb("#ff8000"), RgbColor { r: 255, g: 128, b: 0 });
    assert_eq!(hex_to_rgb("##ABCDEF"), RgbColor { r: 171, g: 205, b: 239 });
    assert_eq!(hex_to_rgb("0a0B0c"), RgbColor { r: 10, g: 11, b: 12 });
}

#[test]
fn bad_hex_colors_are_rejected() {
    assert_eq!(parse_hex_color("#12345"), Err(ColorError::NotHex));
    assert_eq!(parse_hex_color("#zzzzzz"), Err(ColorError::NotHex));
    assert_eq!(parse_hex_color("#1234"), Err(ColorError::WrongLength));
    assert_eq!(parse_hex_color(""), Err(ColorError::WrongLength));
    assert_eq!(parse_hex_color("#"), Err(ColorError::WrongLength));
    assert_eq!(parse_hex_color("#ff80001"), Err(ColorError::NotHex));
}

#[test]
fn rgb_formats_as_lowercase_hex() {
    assert_eq!(rgb_to_hex(&RgbColor { r: 255, g: 128, b: 0 }), "#ff8000");
    assert_eq!(rgb_to_hex(&RgbColor { r: 1, g: 171, b: 12 }), "#01ab0c");
}

#[test]
fn intensity_scales_and_clamps() {
    let c = RgbColor { r: 255, g: 128, b: 3 };
    assert_eq!(color_change_intensity_rgb(&c, 500), RgbColor { r: 127, g: 64, b: 1 });
    assert_eq!(color_change_intensity_rgb(&c, 3000), RgbColor { r: 255, g: 255, b: 9 });
    assert_eq!(color_change_intensity_rgb(&c, 0), RgbColor { r: 0, g: 0, b: 0 });
    assert_eq!(color_change_intensity_hex("#ff8000", 500), "#7f4000");
    assert_eq!(color_change_intensity_hex("#ff8000", 3000), "#ffff00");
}

#[test]
fn debouncer_calls_once_after_the_last_event() {
    let mut d = Debouncer::new(500);
    assert!(!d.fire(100));
    assert_eq!(d.record(1000), 1500);
    assert_eq!(d.record(1200), 1700);
    assert!(!d.fire(1500));
    assert!(d.pending);
    assert!(d.fire(1700));
    assert!(!d.pending);
    assert!(!d.fire(1800));
    assert_eq!(d.record(u64::MAX - 10), u64::MAX);
    assert!(!d.fire(u64::MAX - 1));
    assert!(d.fire(u64::MAX));
}

#[test]
fn angles_stay_within_a_turn_after_ticks() {
    let mut canvas = Canvas::new("#101010", "#ff8000", 1000);
    canvas.update_size(50000, 50000);
    let perlin = Perlin::new();
    for _ in 0..10 {
        let queries = canvas.begin_update();
        canvas.update(&headings_for(&queries, &perlin));
    }
    assert!(canvas.particles.iter().all(|p| 0 <= p.angle && p.angle < 360000));
    assert_eq!(canvas.dpr, 1000);
    assert_eq!(canvas.color2, "#7f4000");
}

#[test]
fn empty_lattice_draws_without_particles() {
    let canvas = Canvas::new("#101010", "#ff8000", 1000);
    let mut empty = canvas.clone();
    empty.num_of_horizontal_grids = 0;
    let scene = empty.draw();
    assert!(scene.sticks.is_empty());
    assert!(scene.dots.is_empty());
}

#[test]
fn config_holds_colors() {
    let c = Config { bgcolor: "#000000".to_string(), color: "#ffffff".to_string() };
    let copy = c.clone();
    assert_eq!(copy.bgcolor, "#000000");
    assert_eq!(copy.color, "#ffffff");
}
