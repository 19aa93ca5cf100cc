use mandelbrot::palette::Colour;
use mandelbrot::palette::generate_palette;
use mandelbrot::splines::MonotonicCubicSpline;
use mandelbrot::splines::Point;

// The fixed gradient control points, in fixed point at scale 65536 with
// the y values premultiplied by 255.
const KNOTS_X: [i64; 6] = [0, 10387, 27564, 42216, 56289, 65536];
const BLUE_Y: [i64; 6] = [6677752, 13597702, 16711680, 380597, 242198, 6677752];

fn blue_spline() -> MonotonicCubicSpline {
    let x: Vec<i64> = KNOTS_X.to_vec();
    let y: Vec<i64> = BLUE_Y.to_vec();
    MonotonicCubicSpline::new(&x, &y)
}

#[test]
fn interpolation() {
    // The blue channel of the gradient, sampled at one hundred evenly
    // spaced positions.
    let mut smooth = blue_spline();

    let mut values = Vec::new();
    for i in 0..100u64 {
        let p = ((i * 65536) / 100) as i64;
        values.push(smooth.interpolate(p));
    }

    // Spot values of the fixed-point evaluation, and the global range.
    assert_eq!(values[0], 6677752);
    assert_eq!(values[25], 15948849);
    assert_eq!(values[50], 11153686);
    assert_eq!(values[75], 242198);
    assert_eq!(values[99], 6191691);
    for v in values {
        assert!(v >= 242198 && v <= 16711680);
    }
}

#[test]
fn test_spline_knot_exactness() {
    // Interpolating exactly at a control point returns that control
    // point's value.
    let mut smooth = blue_spline();
    for k in 0..6 {
        assert_eq!(smooth.interpolate(KNOTS_X[k]), BLUE_Y[k]);
    }
}

#[test]
fn test_spline_clamps_outside_knots() {
    let mut smooth = blue_spline();
    assert_eq!(smooth.interpolate(-500000), BLUE_Y[0]);
    assert_eq!(smooth.interpolate(7000000), BLUE_Y[5]);
}

#[test]
fn test_spline_no_overshoot() {
    // Between two neighbouring control points the result stays between
    // their values.
    let x: Vec<i64> = vec![0, 65536, 131072, 262144];
    let y: Vec<i64> = vec![0, 6553600, 6553600, 13107200];
    let mut smooth = MonotonicCubicSpline::new(&x, &y);
    for i in 0..=64i64 {
        let p = i * 1024;
        let v = smooth.interpolate(p);
        assert!(v >= 0 && v <= 6553600);
    }
    for i in 64..=128i64 {
        let p = i * 1024;
        let v = smooth.interpolate(p);
        assert_eq!(v, 6553600);
    }
}

#[test]
fn test_hermite_exact_at_interval_ends() {
    let r0 = MonotonicCubicSpline::hermite(0, (0, 65536), (100, 200000), (3000, -3000));
    assert_eq!(r0, 100);
    let r1 = MonotonicCubicSpline::hermite(65536, (0, 65536), (100, 200000), (3000, -3000));
    assert_eq!(r1, 200000);
}

#[test]
fn test_generate_palette_shape() {
    // Exactly n entries; the first entry is the first gradient control
    // colour and the last is close to the last control colour (0, 10, 101).
    let palette = generate_palette(256);
    assert_eq!(palette.len(), 256);
    assert_eq!(palette[0], Colour { r: 0, g: 0, b: 101 });
    assert_eq!(palette[128], Colour { r: 247, g: 244, b: 170 });
    assert_eq!(palette[255], Colour { r: 0, g: 10, b: 99 });
}

#[test]
fn test_generate_palette_single_entry() {
    let palette = generate_palette(1);
    assert_eq!(palette.len(), 1);
    assert_eq!(palette[0], Colour { r: 0, g: 0, b: 101 });
}

#[test]
fn test_point_new() {
    let p: Point<i64> = Point::new(3, 4);
    assert_eq!(p.x, 3);
    assert_eq!(p.y, 4);
    let q: Point<f64> = Point::new(0.5, -0.25);
    assert!(q.x == 0.5 && q.y == -0.25);
}
