//! Adaptive Mandelbrot-set renderer.
//!
//! The image is described by an [`ImageInfo`]: a pixel grid together with the
//! complex-plane rectangle it covers, the numeric precision in bits, and the
//! iteration cap.  Rendering walks a recursive spatial partition of the grid
//! (see [`partition`]), evaluates the escape-time iteration for each pixel
//! (see [`math`]), and colours the outcome through a monotone-spline palette
//! (see [`splines`], [`palette`] and [`output`]).

use vstd::prelude::*;

pub mod errors;
pub mod math;
pub mod mp;
pub mod output;
pub mod palette;
pub mod parsing;
pub mod partition;
pub mod splines;

verus! {

/// Represents the image to be worked on.
/// The primary coordinate system is pixels, with the complex numbers being
/// derived from pixel coordinates; see [`math::pixel_to_point`].
pub struct ImageInfo {
    /// Width in pixels.
    pub width: usize,
    /// Height in pixels.
    pub height: usize,
    /// Complex number at the upper left corner of the image.
    pub cplx_upper_left: crate::math::Complex,
    /// Complex number at the lower right corner of the image.
    pub cplx_lower_right: crate::math::Complex,
    /// Precision for calculations, in bits.
    pub precision: u32,
    /// Iteration cap for the escape-time evaluation.
    pub iterations: usize,
}

impl ImageInfo {
    /// The plain-valued part of the geometry invariant: a non-degenerate
    /// pixel grid whose index space fits in `usize`, a precision of at
    /// least 20 bits, and at least one iteration.
    pub open spec fn wf(self) -> bool {
        &&& self.width >= 1
        &&& self.height >= 1
        &&& self.width * self.height <= usize::MAX
        &&& self.precision >= 20
        &&& self.iterations >= 1
    }

    /// The precision in bits, as the arithmetic wrappers take it.
    pub open spec fn spec_prec(self) -> usize {
        self.precision as usize
    }

    /// The plain-valued conditions that [`ImageInfo::new`] checks.
    pub open spec fn spec_dimensions_ok(
        width: usize,
        height: usize,
        precision: u32,
        iterations: usize,
    ) -> bool {
        &&& width >= 1
        &&& height >= 1
        &&& width * height <= usize::MAX
        &&& precision >= 20
        &&& iterations >= 1
    }

    /// Validates the configuration and builds the geometry.  Malformed
    /// geometry — zero pixel dimensions, a pixel grid too large to index,
    /// precision below the 20-bit minimum, a zero iteration cap, or plane
    /// corners that are not ordered with `upper_left` strictly up and left
    /// of `lower_right` — is rejected here, before rendering begins, and
    /// never surfaces mid-render.
    pub fn new(
        width: usize,
        height: usize,
        cplx_upper_left: crate::math::Complex,
        cplx_lower_right: crate::math::Complex,
        precision: u32,
        iterations: usize,
    ) -> (r: Result<ImageInfo, crate::errors::MyError>)
        ensures
            r is Ok <==> (ImageInfo::spec_dimensions_ok(width, height, precision, iterations)
                && crate::mp::lt_of(cplx_upper_left.re, cplx_lower_right.re) && crate::mp::lt_of(
                cplx_lower_right.im,
                cplx_upper_left.im,
            )),
            r matches Err(e) ==> e is InvalidArgument,
            r matches Ok(g) ==> {
                &&& g.wf()
                &&& g.width == width
                &&& g.height == height
                &&& g.precision == precision
                &&& g.iterations == iterations
                &&& g.cplx_upper_left == cplx_upper_left
                &&& g.cplx_lower_right == cplx_lower_right
            },
    {
        if width < 1 || height < 1 {
            return Err(
                crate::errors::MyError::InvalidArgument(
                    "image dimensions must be at least one pixel".to_owned(),
                ),
            );
        }
        if width.checked_mul(height).is_none() {
            return Err(
                crate::errors::MyError::InvalidArgument(
                    "image has more pixels than this platform can index".to_owned(),
                ),
            );
        }
        if precision < 20 {
            return Err(
                crate::errors::MyError::InvalidArgument(
                    "precision must be at least 20 bits".to_owned(),
                ),
            );
        }
        if iterations < 1 {
            return Err(
                crate::errors::MyError::InvalidArgument(
                    "the iteration cap must be at least 1".to_owned(),
                ),
            );
        }
        let re_ordered = crate::mp::float_lt(&cplx_upper_left.re, &cplx_lower_right.re);
        let im_ordered = crate::mp::float_lt(&cplx_lower_right.im, &cplx_upper_left.im);
        if !re_ordered || !im_ordered {
            return Err(
                crate::errors::MyError::InvalidArgument(
                    "the complex-plane corners are not ordered".to_owned(),
                ),
            );
        }
        Ok(
            ImageInfo {
                width,
                height,
                cplx_upper_left,
                cplx_lower_right,
                precision,
                iterations,
            },
        )
    }
}

} // verus!
