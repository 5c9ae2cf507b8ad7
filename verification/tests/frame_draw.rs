use mandelbrot_explorer::iteration::{isqrt, max_iterations, ITER_CAP};
use mandelbrot_explorer::pipeline::RenderPipeline;
use mandelbrot_explorer::viewport::ViewportModel;

fn ready_pipeline(width: u32, height: u32) -> RenderPipeline {
    RenderPipeline::build(
        true,
        String::new(),
        true,
        String::new(),
        true,
        String::new(),
        width,
        height,
    )
        .expect("build succeeds")
}

#[test]
fn redraw_is_idempotent() {
    // Two consecutive redraws with no intervening state change emit
    // identical frames: same uniforms, same quad, same six-vertex draw call.
    let p = ready_pipeline(640, 480);
    let v = ViewportModel::new();
    let f1 = p.redraw(&v);
    let f2 = p.redraw(&v);
    assert_eq!(f1, f2);
    assert_eq!(f1.vertex_count, 6);
    assert_eq!(f2.vertex_count, 6);
    assert_eq!(f1.center_x, f2.center_x);
    assert_eq!(f1.center_y, f2.center_y);
    assert_eq!(f1.zoom, f2.zoom);
    assert_eq!(f1.max_iter, f2.max_iter);
    assert_eq!(f1.vertices, f2.vertices);
}

#[test]
fn frame_carries_viewport_and_surface_uniforms() {
    let p = ready_pipeline(1600, 900);
    let mut v = ViewportModel::new();
    v.set_center(-750_000, 150_000);
    v.set_zoom(4_000_000);
    let f = p.redraw(&v);
    assert_eq!(f.center_x, -750_000);
    assert_eq!(f.center_y, 150_000);
    assert_eq!(f.zoom, 4_000_000);
    assert_eq!(f.width, 1600);
    assert_eq!(f.height, 900);
    // min(100 / sqrt(4.0), 3000) == 50
    assert_eq!(f.max_iter, 50);
    // The static full-surface quad: two triangles, six vertices, one unit
    // from the center on each axis.
    let unit = 1_000_000i64;
    assert_eq!(
        f.vertices,
        vec![-unit, -unit, unit, -unit, -unit, unit, -unit, unit, unit, -unit, unit, unit],
    );
    // Fixed dark background.
    assert_eq!(
        (f.clear_r, f.clear_g, f.clear_b, f.clear_a),
        (100_000, 100_000, 100_000, 1_000_000),
    );
}

#[test]
fn configure_surface_updates_the_frame() {
    let mut p = ready_pipeline(800, 600);
    p.configure_surface(1024, 768);
    let v = ViewportModel::new();
    let f = p.redraw(&v);
    assert_eq!(f.width, 1024);
    assert_eq!(f.height, 768);
}

#[test]
fn isqrt_matches_exact_squares_and_neighbors() {
    assert_eq!(isqrt(0), 0);
    assert_eq!(isqrt(1), 1);
    assert_eq!(isqrt(3), 1);
    assert_eq!(isqrt(4), 2);
    assert_eq!(isqrt(999_999), 999);
    assert_eq!(isqrt(1_000_000), 1000);
    assert_eq!(isqrt(4_999_695), 2235);
    assert_eq!(isqrt(4_999_696), 2236);
    assert_eq!(isqrt(5_000_000), 2236);
    assert_eq!(isqrt(0xFFFF_FFFF), 65_535);
}

#[test]
fn iteration_cap_follows_the_inverse_square_root_formula() {
    // min(100 / sqrt(zoom in units), 3000), evaluated in ticks.
    assert_eq!(max_iterations(1_000_000), 100);
    assert_eq!(max_iterations(4_000_000), 50);
    assert_eq!(max_iterations(250_000), 200);
    // At the largest zoom the cap bottoms out at 44 (about 44.7).
    assert_eq!(max_iterations(5_000_000), 44);
    // At extreme zoom-in the formula explodes and the hard cap wins.
    assert_eq!(max_iterations(1), ITER_CAP);
    assert_eq!(max_iterations(1_155), ITER_CAP);
    assert_eq!(max_iterations(1_156), 2_941);
}

#[test]
fn iteration_cap_is_monotone_and_bounded() {
    let zooms = [
        1i64, 2, 10, 1_000, 10_000, 250_000, 999_999, 1_000_000, 2_000_000, 3_500_000, 4_999_999,
        5_000_000,
    ];
    let mut prev = u64::MAX;
    for &z in zooms.iter() {
        let m = max_iterations(z);
        assert!(m <= ITER_CAP);
        assert!(m >= 44);
        assert!(m <= prev);
        prev = m;
    }
}
