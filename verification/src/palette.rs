//! Palette generation: an ordered colour table sampled from three
//! monotone splines.

use vstd::prelude::*;
use crate::splines::MonotonicCubicSpline;

verus! {

/// One displayable colour: red, green and blue channels, each already in
/// the displayable range by construction.
#[derive(Debug, Clone, Copy, PartialEq, Eq, Structural)]
pub struct Colour {
    /// Red channel.
    pub r: u8,
    /// Green channel.
    pub g: u8,
    /// Blue channel.
    pub b: u8,
}

/// The displayable channel a fixed-point value stands for: the scale
/// divided back out and the result saturated into `[0, 255]`.
pub open spec fn spec_channel_sat(yv: i64) -> u8 {
    if yv < 0 {
        0
    } else if yv / 65536 > 255 {
        255
    } else {
        (yv / 65536) as u8
    }
}

/// Converts one interpolated fixed-point channel value into a displayable
/// channel: divide the scale back out and saturate into `[0, 255]`.
/// At or before the first knot the channel is exactly the first control
/// value's channel.
fn channel(spline: &mut MonotonicCubicSpline, at: i64) -> (v: u8)
    requires
        old(spline).wf(),
    ensures
        *final(spline) == *old(spline),
        at <= old(spline).spec_xs()[0] ==> v == spec_channel_sat(old(spline).spec_ys()[0]),
{
    let raw = spline.interpolate(at);
    let low_clamped: u64 = if raw < 0 {
        0
    } else {
        raw as u64
    };
    let q = low_clamped / 65536;
    if q > 255 {
        255
    } else {
        q as u8
    }
}

/// Pushes the six fixed control values of one channel, scaled to fixed
/// point, onto a fresh vector.
fn knot_values(v0: i64, v1: i64, v2: i64, v3: i64, v4: i64, v5: i64) -> (r: Vec<i64>)
    ensures
        r@ =~= seq![v0, v1, v2, v3, v4, v5],
{
    let mut r: Vec<i64> = Vec::new();
    r.push(v0);
    r.push(v1);
    r.push(v2);
    r.push(v3);
    r.push(v4);
    r.push(v5);
    proof {
        assert(r@ =~= seq![v0, v1, v2, v3, v4, v5]);
    }
    r
}

/// Builds an ordered table of `num_entries` colours by sampling three
/// monotone cubic splines — one per channel — at `num_entries` equally
/// spaced positions in `[0, 1)`.  The control points are a standard
/// fractal-art gradient (the default Ultra Fractal palette), in fixed
/// point at scale 65536 with y values premultiplied by 255.
#[verifier::loop_isolation(false)]
pub fn generate_palette(num_entries: usize) -> (result: Vec<Colour>)
    requires
        num_entries >= 1,
    ensures
        result@.len() == num_entries,
        result@[0] == (Colour { r: 0, g: 0, b: 101 }),
{
    let x = knot_values(0, 10387, 27564, 42216, 56289, 65536);
    let y_red = knot_values(0, 2145185, 15327690, 16504081, 69200, 0);
    let y_green = knot_values(0, 7092949, 16711680, 11314119, 449797, 657395);
    let y_blue = knot_values(6677752, 13597702, 16711680, 380597, 242198, 6677752);

    let mut red_spline = MonotonicCubicSpline::new(&x, &y_red);
    let mut green_spline = MonotonicCubicSpline::new(&x, &y_green);
    let mut blue_spline = MonotonicCubicSpline::new(&x, &y_blue);

    let mut result: Vec<Colour> = Vec::new();
    let mut i: usize = 0;
    while i < num_entries
        invariant
            i <= num_entries,
            result@.len() == i,
            red_spline.wf(),
            green_spline.wf(),
            blue_spline.wf(),
            red_spline.spec_xs() == x@ && red_spline.spec_ys() == y_red@,
            green_spline.spec_xs() == x@ && green_spline.spec_ys() == y_green@,
            blue_spline.spec_xs() == x@ && blue_spline.spec_ys() == y_blue@,
            // The first sample sits exactly on the first knot, so the first
            // entry is the first gradient control colour.
            i > 0 ==> result@[0] == (Colour { r: 0, g: 0, b: 101 }),
        decreases num_entries - i,
    {
        let at128 = (i as u128 * 65536) / (num_entries as u128);
        proof {
            vstd::arithmetic::mul::lemma_mul_strict_inequality(
                i as int,
                num_entries as int,
                65536,
            );
            vstd::arithmetic::mul::lemma_mul_is_commutative(i as int, 65536);
            vstd::arithmetic::mul::lemma_mul_is_commutative(num_entries as int, 65536);
            vstd::arithmetic::div_mod::lemma_multiply_divide_lt(
                i as int * 65536,
                num_entries as int,
                65536,
            );
            vstd::arithmetic::div_mod::lemma_div_pos_is_pos(
                i as int * 65536,
                num_entries as int,
            );
        }
        let at = at128 as i64;

        let r = channel(&mut red_spline, at);
        let g = channel(&mut green_spline, at);
        let b = channel(&mut blue_spline, at);

        proof {
            if i == 0 {
                vstd::arithmetic::div_mod::lemma_div_multiples_vanish(0, num_entries as int);
                assert(at == 0);
                assert(x@[0] == 0 && y_red@[0] == 0 && y_green@[0] == 0 && y_blue@[0] == 6677752);
                assert(r == spec_channel_sat(0) && g == spec_channel_sat(0) && b
                    == spec_channel_sat(6677752));
            }
        }
        result.push(Colour { r, g, b });
        i = i + 1;
    }
    result
}

} // verus!
