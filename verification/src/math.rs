//! Complex arithmetic, the escape-time evaluator and the coordinate mapper.

use vstd::prelude::*;
use crate::ImageInfo;
use crate::mp;

verus! {

/// A complex number: a pair of arbitrary-precision floats.
#[derive(Debug, Clone)]
pub struct Complex {
    /// Real part.
    pub re: astro_float::BigFloat,
    /// Imaginary part.
    pub im: astro_float::BigFloat,
}

impl Complex {
    /// What [`Complex::square`] returns: `(re² − im², 2·re·im)`, every
    /// step rounded at `prec` bits.
    pub open spec fn spec_square(self, prec: usize) -> Complex {
        Complex {
            re: mp::sub_of(
                mp::mul_of(self.re, self.re, prec),
                mp::mul_of(self.im, self.im, prec),
                prec,
            ),
            im: mp::add_of(
                mp::mul_of(self.re, self.im, prec),
                mp::mul_of(self.re, self.im, prec),
                prec,
            ),
        }
    }

    /// What [`Complex::add`] returns: the componentwise sum rounded at
    /// `prec` bits.
    pub open spec fn spec_add(self, other: Complex, prec: usize) -> Complex {
        Complex {
            re: mp::add_of(self.re, other.re, prec),
            im: mp::add_of(self.im, other.im, prec),
        }
    }

    /// What [`Complex::norm`] returns: the squared magnitude
    /// `re² + im²`, every step rounded at `prec` bits.
    pub open spec fn spec_norm(self, prec: usize) -> astro_float::BigFloat {
        mp::add_of(mp::mul_of(self.re, self.re, prec), mp::mul_of(self.im, self.im, prec), prec)
    }

    /// Builds a complex number from its parts.
    pub fn new(re: astro_float::BigFloat, im: astro_float::BigFloat) -> (r: Complex)
        ensures
            r.re == re,
            r.im == im,
    {
        Complex { re, im }
    }

    /// `self * self`, computed as `(re² − im², 2·re·im)`, every step at
    /// `prec` bits.
    pub fn square(&self, prec: usize) -> (r: Complex)
        ensures
            r == self.spec_square(prec),
    {
        let re2 = mp::float_mul(&self.re, &self.re, prec);
        let im2 = mp::float_mul(&self.im, &self.im, prec);
        let cross = mp::float_mul(&self.re, &self.im, prec);
        Complex {
            re: mp::float_sub(&re2, &im2, prec),
            im: mp::float_add(&cross, &cross, prec),
        }
    }

    /// `self + other`, componentwise at `prec` bits.
    pub fn add(&self, other: &Complex, prec: usize) -> (r: Complex)
        ensures
            r == self.spec_add(*other, prec),
    {
        Complex {
            re: mp::float_add(&self.re, &other.re, prec),
            im: mp::float_add(&self.im, &other.im, prec),
        }
    }

    /// The squared magnitude `re² + im²` at `prec` bits.
    pub fn norm(&self, prec: usize) -> (r: astro_float::BigFloat)
        ensures
            r == self.spec_norm(prec),
    {
        let re2 = mp::float_mul(&self.re, &self.re, prec);
        let im2 = mp::float_mul(&self.im, &self.im, prec);
        mp::float_add(&re2, &im2, prec)
    }
}

/// The orbit of the iteration: `z_0 = 0` and `z_{k+1} = z_k² + c`, with
/// every arithmetic step rounded at `prec` bits.
pub open spec fn spec_orbit(c: Complex, prec: usize, k: nat) -> Complex
    decreases k,
{
    if k == 0 {
        Complex { re: mp::u32_of(0, prec), im: mp::u32_of(0, prec) }
    } else {
        spec_orbit(c, prec, (k - 1) as nat).spec_square(prec).spec_add(c, prec)
    }
}

/// The escape test at step `k`: the squared magnitude of `z_k` compares
/// strictly greater than four.
pub open spec fn spec_escaped_at(c: Complex, prec: usize, k: nat) -> bool {
    mp::gt_of(spec_orbit(c, prec, k).spec_norm(prec), mp::u32_of(4, prec))
}

/// The point passes the whole membership test: no orbit step within the
/// cap escapes.
pub open spec fn spec_interior(c: Complex, prec: usize, cap: int) -> bool {
    forall|k: nat| k < cap ==> !#[trigger] spec_escaped_at(c, prec, k)
}

/// The iteration record of a point that escaped.
#[derive(Debug, Clone)]
pub struct Iteration {
    /// 0-based index of the iteration at which the squared magnitude of `z`
    /// first exceeded 4.
    pub n: usize,
    /// That squared magnitude, retained for continuous colouring.
    pub norm: astro_float::BigFloat,
    /// The value of `z` at that iteration.
    pub z: Complex,
}

/// The record describes the first escape of the orbit of `c` under the
/// geometry's precision and iteration cap: `n` is the least escaping
/// step, and `norm` and `z` belong to that step — the test precedes the
/// update, so `norm` is the pre-update squared magnitude.
pub open spec fn spec_first_escape(it: Iteration, c: Complex, prec: usize, cap: int) -> bool {
    &&& it.n < cap
    &&& spec_escaped_at(c, prec, it.n as nat)
    &&& forall|k: nat| k < it.n ==> !#[trigger] spec_escaped_at(c, prec, k)
    &&& it.z == spec_orbit(c, prec, it.n as nat)
    &&& it.norm == spec_orbit(c, prec, it.n as nat).spec_norm(prec)
}

/// Outcome of the escape-time evaluation of one pixel: either the squared
/// magnitude stayed within the threshold for the full iteration cap
/// (`Interior`, treated as a set member), or the point escaped, with the
/// iteration record retained for colouring.  Never mutated after creation.
#[derive(Debug, Clone)]
pub enum EscapeOutcome {
    /// No escape within the iteration cap.
    Interior,
    /// The point escaped at the recorded iteration.
    Exterior(Iteration),
}

/// Try to determine if `c` is in the Mandelbrot set, using at most
/// `img_info.iterations` iterations to decide.
///
/// If `c` is not a member, return `Some(it)`, where `it.n` is the 0-based
/// index of the iteration at which the squared magnitude of `z` first
/// exceeded 4 — the test precedes the update, so `it.norm` is the
/// pre-update squared magnitude.  If `c` seems to be a member (more
/// precisely, if the iteration limit was reached without being able to
/// prove that `c` is not a member), return `None`.
///
/// Comparisons and arithmetic occur entirely at the configured bit
/// precision; nothing is rounded to machine-native floating point.
#[verifier::loop_isolation(false)]
pub fn escape_time(img_info: &ImageInfo, c: &Complex) -> (r: Option<Iteration>)
    requires
        img_info.wf(),
    ensures
        r is None <==> spec_interior(*c, img_info.spec_prec(), img_info.iterations as int),
        r matches Some(it) ==> spec_first_escape(
            it,
            *c,
            img_info.spec_prec(),
            img_info.iterations as int,
        ),
{
    let precision = img_info.precision as usize;
    let max_iterations = img_info.iterations;

    let four = mp::float_from_u32(4, precision);
    let mut z = Complex::new(
        mp::float_from_u32(0, precision),
        mp::float_from_u32(0, precision),
    );

    let mut i: usize = 0;
    while i < max_iterations
        invariant
            i <= max_iterations,
            z == spec_orbit(*c, precision, i as nat),
            forall|k: nat| k < i ==> !#[trigger] spec_escaped_at(*c, precision, k),
        decreases max_iterations - i,
    {
        let z_norm = z.norm(precision);
        if mp::float_gt(&z_norm, &four) {
            proof {
                assert(spec_escaped_at(*c, precision, i as nat));
                if spec_interior(*c, precision, max_iterations as int) {
                    assert(!spec_escaped_at(*c, precision, i as nat));
                }
            }
            return Some(Iteration { n: i, norm: z_norm, z });
        }
        proof {
            assert(!spec_escaped_at(*c, precision, i as nat));
            assert(spec_orbit(*c, precision, (i + 1) as nat) == spec_orbit(
                *c,
                precision,
                i as nat,
            ).spec_square(precision).spec_add(*c, precision));
        }
        z = z.square(precision).add(c, precision);
        i = i + 1;
    }
    None
}

/// The point on the complex plane that pixel `(x, y)` of the image maps
/// to; see [`pixel_to_point`].
pub open spec fn spec_pixel_point(info: ImageInfo, x: u64, y: u64) -> Complex {
    let prec = info.spec_prec();
    let set_width = mp::sub_of(info.cplx_lower_right.re, info.cplx_upper_left.re, prec);
    let set_height = mp::sub_of(info.cplx_upper_left.im, info.cplx_lower_right.im, prec);
    Complex {
        re: mp::add_of(
            info.cplx_upper_left.re,
            mp::div_of(
                mp::mul_of(mp::u64_of(x, prec), set_width, prec),
                mp::u64_of(info.width as u64, prec),
                prec,
            ),
            prec,
        ),
        im: mp::sub_of(
            info.cplx_upper_left.im,
            mp::div_of(
                mp::mul_of(mp::u64_of(y, prec), set_height, prec),
                mp::u64_of(info.height as u64, prec),
                prec,
            ),
            prec,
        ),
    }
}

/// Given the column and row of a pixel in the output image, return the
/// corresponding point on the complex plane: the column interpolates
/// linearly between the real parts of the corners over `[0, width)`, the
/// row between their imaginary parts over `[0, height)`.  All arithmetic is
/// performed at the configured precision.
///
/// At extreme zoom depth an insufficient precision can make adjacent
/// pixels map to the same point, silently degrading image quality; the
/// renderer does not detect this, and choosing a sufficient precision is
/// the caller's responsibility.
pub fn pixel_to_point(pixel: (usize, usize), img_info: &ImageInfo) -> (r: Complex)
    requires
        img_info.wf(),
    ensures
        r == spec_pixel_point(*img_info, pixel.0 as u64, pixel.1 as u64),
{
    let precision = img_info.precision as usize;

    let set_width = mp::float_sub(
        &img_info.cplx_lower_right.re,
        &img_info.cplx_upper_left.re,
        precision,
    );
    let set_height = mp::float_sub(
        &img_info.cplx_upper_left.im,
        &img_info.cplx_lower_right.im,
        precision,
    );

    let fx = mp::float_from_u64(pixel.0 as u64, precision);
    let fy = mp::float_from_u64(pixel.1 as u64, precision);
    let fw = mp::float_from_u64(img_info.width as u64, precision);
    let fh = mp::float_from_u64(img_info.height as u64, precision);

    let re_step = mp::float_div(&mp::float_mul(&fx, &set_width, precision), &fw, precision);
    let im_step = mp::float_div(&mp::float_mul(&fy, &set_height, precision), &fh, precision);

    // Subtraction for the imaginary part: the row index increases going
    // down, while the imaginary component increases going up.
    Complex::new(
        mp::float_add(&img_info.cplx_upper_left.re, &re_step, precision),
        mp::float_sub(&img_info.cplx_upper_left.im, &im_step, precision),
    )
}

} // verus!
