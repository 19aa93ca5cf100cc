//! Colour mapping: from escape outcomes to palette indices and colours.

use vstd::prelude::*;
use crate::ImageInfo;
use crate::math::EscapeOutcome;
use crate::math::Iteration;
use crate::mp;
use crate::palette::Colour;

verus! {

/// Index `k` (exactly representable as a float) compares at most `value`.
pub open spec fn spec_index_le(k: usize, value: astro_float::BigFloat, prec: usize) -> bool {
    mp::le_of(mp::u64_of(k as u64, prec), value)
}

/// The greatest index `k` in `[0, limit)` whose exact float value is at
/// most `value`, found by binary search; 0 when `value` is below every
/// index (or not a number).  The two ensured comparisons pin the result
/// as the saturation point of `value` into `[0, limit)`.
fn clamp_index(value: &astro_float::BigFloat, limit: usize, prec: usize) -> (idx: usize)
    requires
        limit >= 1,
    ensures
        idx < limit,
        idx > 0 ==> spec_index_le(idx, *value, prec),
        idx < limit - 1 ==> !spec_index_le((idx + 1) as usize, *value, prec),
{
    let mut lo: usize = 0;
    let mut hi: usize = limit - 1;
    while lo < hi
        invariant
            lo <= hi < limit,
            lo > 0 ==> spec_index_le(lo, *value, prec),
            hi < limit - 1 ==> !spec_index_le((hi + 1) as usize, *value, prec),
        decreases hi - lo,
    {
        let mid = lo + (hi - lo + 1) / 2;
        let m = mp::float_from_u64(mid as u64, prec);
        if mp::float_le(&m, value) {
            lo = mid;
        } else {
            hi = mid - 1;
        }
    }
    lo
}

/// The smoothed index value `(n + 1) - ln(ln(norm)) / ln 2` of an escape
/// record, every step rounded at `prec` bits.
pub open spec fn spec_smoothed(it: Iteration, prec: usize) -> astro_float::BigFloat {
    mp::sub_of(
        mp::u64_of((it.n + 1) as u64, prec),
        mp::div_of(
            mp::ln_of(mp::ln_of(it.norm, prec), prec),
            mp::ln_of(mp::u32_of(2, prec), prec),
            prec,
        ),
        prec,
    )
}

/// Translates an escape record into a continuous ("smoothed") palette
/// index: `(n + 1) - ln(ln(norm)) / ln(2)`, computed at the configured
/// precision and then saturated into `[0, iterations - 1]` — the result
/// is the greatest index that compares at most the smoothed value, or 0.
/// The smoothing removes the visible banding that raw integer iteration
/// counts produce; that it takes the floor rather than the nearest
/// integer is a cosmetic calibration choice.
pub fn smooth_colour_index(image_info: &ImageInfo, it: &Iteration) -> (idx: usize)
    requires
        image_info.wf(),
        it.n < image_info.iterations,
    ensures
        idx < image_info.iterations,
        idx > 0 ==> spec_index_le(idx, spec_smoothed(*it, image_info.spec_prec()), image_info.spec_prec()),
        idx < image_info.iterations - 1 ==> !spec_index_le(
            (idx + 1) as usize,
            spec_smoothed(*it, image_info.spec_prec()),
            image_info.spec_prec(),
        ),
{
    let prec = image_info.precision as usize;

    let n1 = mp::float_from_u64((it.n + 1) as u64, prec);

    let two = mp::float_from_u32(2, prec);
    let ln_2 = mp::float_ln(&two, prec);

    // log_log_abs = ln(ln(norm)) / ln(2)
    let log_log_norm = mp::float_ln(&mp::float_ln(&it.norm, prec), prec);
    let log_log_abs = mp::float_div(&log_log_norm, &ln_2, prec);

    // n_smoothed = (n + 1) - log_log_abs
    let n_smoothed = mp::float_sub(&n1, &log_log_abs, prec);

    clamp_index(&n_smoothed, image_info.iterations, prec)
}

/// Resolves one pixel-buffer entry to a displayable colour: interior (and
/// never-written) pixels are black, and an escaped pixel looks up its
/// smoothed index in the palette, clamped to the palette's range.
pub fn resolve_colour(
    image_info: &ImageInfo,
    palette: &Vec<Colour>,
    entry: &Option<EscapeOutcome>,
) -> (c: Colour)
    requires
        image_info.wf(),
        palette@.len() >= 1,
    ensures
        (entry matches Some(o) && o is Exterior) ==> exists|i: int|
            0 <= i < palette@.len() && c == palette@[i],
        !(entry matches Some(o) && o is Exterior) ==> c == (Colour { r: 0, g: 0, b: 0 }),
{
    match entry {
        None => Colour { r: 0, g: 0, b: 0 },
        Some(EscapeOutcome::Interior) => Colour { r: 0, g: 0, b: 0 },
        Some(EscapeOutcome::Exterior(it)) => {
            let index = if it.n < image_info.iterations {
                smooth_colour_index(image_info, it)
            } else {
                image_info.iterations - 1
            };
            let pi = if index < palette.len() {
                index
            } else {
                palette.len() - 1
            };
            palette[pi]
        },
    }
}

} // verus!
