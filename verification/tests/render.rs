use astro_float::BigFloat;
use mandelbrot::ImageInfo;
use mandelbrot::math::Complex;
use mandelbrot::math::EscapeOutcome;
use mandelbrot::math::escape_time;
use mandelbrot::math::pixel_to_point;
use mandelbrot::output::resolve_colour;
use mandelbrot::output::smooth_colour_index;
use mandelbrot::palette::Colour;
use mandelbrot::palette::generate_palette;
use mandelbrot::partition::Partition;
use mandelbrot::partition::new_buffer;
use mandelbrot::partition::process_partition;
use mandelbrot::partition::subdivide_partition;

fn geometry(
    width: usize,
    height: usize,
    ul: (f64, f64),
    lr: (f64, f64),
    precision: u32,
    iterations: usize,
) -> ImageInfo {
    let p = precision as usize;
    ImageInfo::new(
        width,
        height,
        Complex {
            re: BigFloat::from_f64(ul.0, p),
            im: BigFloat::from_f64(ul.1, p),
        },
        Complex {
            re: BigFloat::from_f64(lr.0, p),
            im: BigFloat::from_f64(lr.1, p),
        },
        precision,
        iterations,
    )
    .expect("valid geometry")
}

#[test]
fn test_subdivide_quadrants() {
    let p = Partition {
        x_offset: 0,
        y_offset: 0,
        width: 100,
        height: 60,
    };
    let quads = subdivide_partition(&p);
    assert_eq!(quads.len(), 4);
    // dx = 99 gives the split column 0 + 49 + 1 = 50; dy = 59 gives row 30.
    assert_eq!(
        quads[0],
        Partition { x_offset: 0, y_offset: 0, width: 51, height: 31 }
    );
    assert_eq!(
        quads[1],
        Partition { x_offset: 51, y_offset: 0, width: 49, height: 31 }
    );
    assert_eq!(
        quads[2],
        Partition { x_offset: 0, y_offset: 31, width: 51, height: 29 }
    );
    assert_eq!(
        quads[3],
        Partition { x_offset: 51, y_offset: 31, width: 49, height: 29 }
    );
}

#[test]
fn test_subdivide_tiles_parent() {
    // Every pixel of the parent is covered by exactly one quadrant.
    let p = Partition {
        x_offset: 3,
        y_offset: 5,
        width: 17,
        height: 9,
    };
    let quads = subdivide_partition(&p);
    let mut counts = vec![0u32; p.width * p.height];
    for q in &quads {
        for y in q.y_offset..q.y_offset + q.height {
            for x in q.x_offset..q.x_offset + q.width {
                assert!(x >= p.x_offset && x < p.x_offset + p.width);
                assert!(y >= p.y_offset && y < p.y_offset + p.height);
                counts[(y - p.y_offset) * p.width + (x - p.x_offset)] += 1;
            }
        }
    }
    for c in counts {
        assert_eq!(c, 1);
    }
}

fn classify(entry: &Option<EscapeOutcome>) -> Option<usize> {
    match entry {
        Some(EscapeOutcome::Interior) => None,
        Some(EscapeOutcome::Exterior(it)) => Some(it.n),
        None => panic!("pixel was never written"),
    }
}

#[test]
fn test_connectedness_shortcut_interior_region() {
    // A rectangle entirely inside the set: the shortcut fills the inside
    // with Interior, matching brute-force evaluation of every pixel.
    let info = geometry(8, 8, (-0.2, 0.2), (0.2, -0.2), 64, 64);
    let root = Partition {
        x_offset: 0,
        y_offset: 0,
        width: info.width,
        height: info.height,
    };
    let mut pixels = new_buffer(&info);
    process_partition(&info, &root, &mut pixels);

    for y in 0..info.height {
        for x in 0..info.width {
            let brute = escape_time(&info, &pixel_to_point((x, y), &info));
            let adaptive = classify(&pixels[y * info.width + x]);
            assert_eq!(adaptive, brute.map(|it| it.n));
            assert_eq!(adaptive, None);
        }
    }
}

#[test]
fn test_adaptive_matches_brute_force_exterior_region() {
    // A rectangle entirely outside the set: no shortcut applies and the
    // recursion computes exactly what brute force computes.
    let info = geometry(9, 7, (2.0, 3.0), (3.0, 2.0), 64, 32);
    let root = Partition {
        x_offset: 0,
        y_offset: 0,
        width: info.width,
        height: info.height,
    };
    let mut pixels = new_buffer(&info);
    process_partition(&info, &root, &mut pixels);

    for y in 0..info.height {
        for x in 0..info.width {
            let brute = escape_time(&info, &pixel_to_point((x, y), &info));
            let adaptive = classify(&pixels[y * info.width + x]);
            assert!(adaptive.is_some());
            assert_eq!(adaptive, brute.map(|it| it.n));
        }
    }
}

#[test]
fn test_render_deterministic() {
    // Rendering the same geometry twice produces identical buffers.
    let info = geometry(16, 16, (-2.0, 1.25), (0.5, -1.25), 64, 50);
    let root = Partition {
        x_offset: 0,
        y_offset: 0,
        width: info.width,
        height: info.height,
    };
    let mut first = new_buffer(&info);
    process_partition(&info, &root, &mut first);
    let mut second = new_buffer(&info);
    process_partition(&info, &root, &mut second);

    for i in 0..first.len() {
        match (&first[i], &second[i]) {
            (Some(EscapeOutcome::Interior), Some(EscapeOutcome::Interior)) => {}
            (Some(EscapeOutcome::Exterior(a)), Some(EscapeOutcome::Exterior(b))) => {
                assert_eq!(a.n, b.n);
                assert!(a.norm == b.norm);
                assert!(a.z.re == b.z.re && a.z.im == b.z.im);
            }
            _ => panic!("buffers differ at index {}", i),
        }
    }
}

#[test]
fn test_new_buffer_empty_slots() {
    let info = geometry(5, 3, (-1.0, 1.0), (1.0, -1.0), 32, 10);
    let buf = new_buffer(&info);
    assert_eq!(buf.len(), 15);
    assert!(buf.iter().all(|e| e.is_none()));
}

#[test]
fn test_escape_time_origin_interior() {
    // The origin is a fixed point of the iteration: a set member.
    let info = geometry(2, 2, (-1.0, 1.0), (1.0, -1.0), 64, 1);
    let c = Complex {
        re: BigFloat::from_u32(0, 64),
        im: BigFloat::from_u32(0, 64),
    };
    assert!(escape_time(&info, &c).is_none());
}

#[test]
fn test_escape_time_two_exterior() {
    // c = 2 + 0i diverges immediately: the squared magnitude first
    // exceeds 4 at z_2 = 6 (z_0 = 0, z_1 = 2 has squared magnitude
    // exactly 4, which does not exceed the threshold).
    let info = geometry(2, 2, (-1.0, 1.0), (1.0, -1.0), 64, 64);
    let c = Complex {
        re: BigFloat::from_u32(2, 64),
        im: BigFloat::from_u32(0, 64),
    };
    let it = escape_time(&info, &c).expect("2 + 0i escapes");
    assert_eq!(it.n, 2);
    let four = BigFloat::from_u32(4, 64);
    assert!(it.norm > four);
}

#[test]
fn test_escape_time_minus_one_interior() {
    // c = -1 + 0i cycles with period 2 (0, -1, 0, -1, ...): a known set
    // member.
    let info = geometry(2, 2, (-2.0, 1.0), (1.0, -1.0), 64, 50);
    let c = Complex {
        re: BigFloat::from_i32(-1, 64),
        im: BigFloat::from_u32(0, 64),
    };
    assert!(escape_time(&info, &c).is_none());
}

#[test]
fn test_smooth_colour_index_known_value() {
    // For c = 2: n = 2, exit norm 36, so the smoothed index is
    // 3 - ln(ln 36)/ln 2, roughly 1.16, which saturates to index 1.
    let info = geometry(2, 2, (-1.0, 1.0), (1.0, -1.0), 64, 256);
    let c = Complex {
        re: BigFloat::from_u32(2, 64),
        im: BigFloat::from_u32(0, 64),
    };
    let it = escape_time(&info, &c).expect("2 + 0i escapes");
    let idx = smooth_colour_index(&info, &it);
    assert_eq!(idx, 1);

    let palette = generate_palette(info.iterations);
    let colour = resolve_colour(&info, &palette, &Some(EscapeOutcome::Exterior(it)));
    assert_eq!(colour, palette[1]);
}

#[test]
fn test_resolve_colour_interior_is_black() {
    let info = geometry(2, 2, (-1.0, 1.0), (1.0, -1.0), 64, 16);
    let palette = generate_palette(info.iterations);
    let black = Colour { r: 0, g: 0, b: 0 };
    assert_eq!(
        resolve_colour(&info, &palette, &Some(EscapeOutcome::Interior)),
        black
    );
    assert_eq!(resolve_colour(&info, &palette, &None), black);
}

#[test]
fn test_render_one_pixel_image() {
    let info = geometry(1, 1, (-0.5, 0.5), (0.5, -0.5), 64, 10);
    let root = Partition {
        x_offset: 0,
        y_offset: 0,
        width: 1,
        height: 1,
    };
    let mut pixels = new_buffer(&info);
    process_partition(&info, &root, &mut pixels);
    assert!(pixels[0].is_some());
}

#[test]
fn test_render_single_column_image() {
    let info = geometry(1, 9, (-0.1, 1.2), (0.1, -1.2), 64, 20);
    let root = Partition {
        x_offset: 0,
        y_offset: 0,
        width: 1,
        height: 9,
    };
    let mut pixels = new_buffer(&info);
    process_partition(&info, &root, &mut pixels);
    for y in 0..info.height {
        let brute = escape_time(&info, &pixel_to_point((0, y), &info));
        assert_eq!(classify(&pixels[y]), brute.map(|it| it.n));
    }
}

#[test]
fn test_end_to_end_small_render() {
    // The full pipeline on a small image: render, build the palette, and
    // resolve every pixel to a displayable colour.
    let info = geometry(12, 8, (-2.0, 1.0), (1.0, -1.0), 64, 40);
    let root = Partition {
        x_offset: 0,
        y_offset: 0,
        width: info.width,
        height: info.height,
    };
    let mut pixels = new_buffer(&info);
    process_partition(&info, &root, &mut pixels);

    let palette = generate_palette(info.iterations);
    assert_eq!(palette.len(), info.iterations);

    let mut seen_interior = false;
    let mut seen_exterior = false;
    for entry in &pixels {
        let c = resolve_colour(&info, &palette, entry);
        match entry {
            Some(EscapeOutcome::Interior) => {
                seen_interior = true;
                assert_eq!(c, Colour { r: 0, g: 0, b: 0 });
            }
            Some(EscapeOutcome::Exterior(_)) => {
                seen_exterior = true;
            }
            None => panic!("pixel was never written"),
        }
    }
    // This region straddles the set boundary, so both kinds appear.
    assert!(seen_interior && seen_exterior);
}
