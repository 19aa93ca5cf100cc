use astro_float::BigFloat;
use mandelbrot::ImageInfo;
use mandelbrot::errors::MyError;
use mandelbrot::math::Complex;
use mandelbrot::math::pixel_to_point;
use mandelbrot::parsing::parse_complex;
use mandelbrot::parsing::parse_pair;

fn complex_f64(re: f64, im: f64, prec: usize) -> Complex {
    Complex {
        re: BigFloat::from_f64(re, prec),
        im: BigFloat::from_f64(im, prec),
    }
}

#[test]
fn test_pixel_to_point() {
    let info = ImageInfo {
        width: 100,
        height: 200,
        cplx_upper_left: complex_f64(-1.0, 1.0, 40),
        cplx_lower_right: complex_f64(1.0, -1.0, 40),
        precision: 40,
        iterations: 255,
    };
    let p = pixel_to_point((25, 175), &info);
    assert!(p.re == BigFloat::from_f64(-0.5, 40));
    assert!(p.im == BigFloat::from_f64(-0.75, 40));
}

#[test]
fn test_mapper_upper_left_exact() {
    // Pixel (0, 0) maps exactly onto the upper left corner.
    let info = ImageInfo {
        width: 640,
        height: 480,
        cplx_upper_left: complex_f64(-2.0, 1.25, 96),
        cplx_lower_right: complex_f64(0.5, -1.25, 96),
        precision: 96,
        iterations: 100,
    };
    let p = pixel_to_point((0, 0), &info);
    assert!(p.re == info.cplx_upper_left.re);
    assert!(p.im == info.cplx_upper_left.im);
}

#[test]
fn test_mapper_far_corner_within_one_pixel() {
    // Pixel (W-1, H-1) lands within one pixel's width and height of the
    // lower right corner.
    let prec = 96usize;
    let info = ImageInfo {
        width: 640,
        height: 480,
        cplx_upper_left: complex_f64(-2.0, 1.25, prec),
        cplx_lower_right: complex_f64(0.5, -1.25, prec),
        precision: 96,
        iterations: 100,
    };
    let p = pixel_to_point((info.width - 1, info.height - 1), &info);
    let rm = astro_float::RoundingMode::ToEven;

    let span_re = info.cplx_lower_right.re.sub(&info.cplx_upper_left.re, prec, rm);
    let pixel_w = span_re.div(&BigFloat::from_u64(info.width as u64, prec), prec, rm);
    let diff_re = info.cplx_lower_right.re.sub(&p.re, prec, rm);
    assert!(diff_re >= BigFloat::from_u32(0, prec));
    assert!(diff_re <= pixel_w);

    let span_im = info.cplx_upper_left.im.sub(&info.cplx_lower_right.im, prec, rm);
    let pixel_h = span_im.div(&BigFloat::from_u64(info.height as u64, prec), prec, rm);
    let diff_im = p.im.sub(&info.cplx_lower_right.im, prec, rm);
    assert!(diff_im >= BigFloat::from_u32(0, prec));
    assert!(diff_im <= pixel_h);
}

#[test]
fn test_image_info_rejects_zero_dimensions() {
    let r = ImageInfo::new(
        0,
        10,
        complex_f64(-1.0, 1.0, 64),
        complex_f64(1.0, -1.0, 64),
        64,
        10,
    );
    assert!(matches!(r, Err(MyError::InvalidArgument(_))));
}

#[test]
fn test_image_info_rejects_low_precision() {
    let r = ImageInfo::new(
        10,
        10,
        complex_f64(-1.0, 1.0, 64),
        complex_f64(1.0, -1.0, 64),
        19,
        10,
    );
    assert!(matches!(r, Err(MyError::InvalidArgument(_))));
}

#[test]
fn test_image_info_rejects_zero_iterations() {
    let r = ImageInfo::new(
        10,
        10,
        complex_f64(-1.0, 1.0, 64),
        complex_f64(1.0, -1.0, 64),
        64,
        0,
    );
    assert!(matches!(r, Err(MyError::InvalidArgument(_))));
}

#[test]
fn test_image_info_rejects_unordered_corners() {
    // The upper left corner must be strictly up and left of the lower
    // right corner.
    let r = ImageInfo::new(
        10,
        10,
        complex_f64(1.0, -1.0, 64),
        complex_f64(-1.0, 1.0, 64),
        64,
        10,
    );
    assert!(matches!(r, Err(MyError::InvalidArgument(_))));
}

#[test]
fn test_image_info_accepts_valid_geometry() {
    let info = ImageInfo::new(
        100,
        50,
        complex_f64(-1.0, 1.0, 64),
        complex_f64(1.0, -1.0, 64),
        64,
        255,
    )
    .expect("valid geometry");
    assert_eq!(info.width, 100);
    assert_eq!(info.height, 50);
    assert_eq!(info.precision, 64);
    assert_eq!(info.iterations, 255);
}

#[test]
fn test_parse_pair_usize() {
    assert_eq!(parse_pair::<usize>("400x600", 'x'), Some((400, 600)));
    assert_eq!(parse_pair::<usize>("400;600", 'x'), None);
    assert_eq!(parse_pair::<usize>("400x", 'x'), None);
    assert_eq!(parse_pair::<usize>("", 'x'), None);
    assert_eq!(parse_pair::<usize>("10x20x30", 'x'), None);
}

#[test]
fn test_parse_pair_i32() {
    assert_eq!(parse_pair::<i32>("10,-20", ','), Some((10, -20)));
    assert_eq!(parse_pair::<i32>("ten,20", ','), None);
}

#[test]
fn test_parse_complex() {
    let c = parse_complex("1.0,0.5").expect("parses");
    assert!(c.re == BigFloat::from_f64(1.0, 200));
    assert!(c.im == BigFloat::from_f64(0.5, 200));
    assert!(parse_complex("1.0").is_none());
    assert!(parse_complex("abc,def").is_none());
}

