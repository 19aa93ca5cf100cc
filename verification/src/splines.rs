//! Shape-preserving cubic interpolation over a small ordered control-point
//! set.
//!
//! All coordinates are fixed-point numbers: a stored value `v` stands for
//! the real number `v / 65536`.  Construction estimates a tangent at every
//! control point and then applies Fritsch–Carlson monotonicity limiting,
//! so that evaluation between two control points never overshoots them —
//! the property the palette generator depends on to keep colour channels
//! in range.

use vstd::prelude::*;
use vstd::arithmetic::div_mod::lemma_div_is_ordered;
use vstd::arithmetic::div_mod::lemma_div_multiples_vanish;
use vstd::arithmetic::div_mod::lemma_div_pos_is_pos;
use vstd::arithmetic::mul::lemma_mul_is_commutative;

verus! {

/// Bound on the magnitude of every control-point coordinate: 2^26.
pub const COORD_BOUND: i64 = 67108864;

/// Bound on the magnitude of a secant: the scale 65536 times twice the
/// coordinate bound.
pub const SECANT_BOUND: i64 = 65536 * 134217728;

/// Bound on the magnitude of a limited tangent: three times the secant
/// bound.
pub const TANGENT_BOUND: i64 = 3 * 65536 * 134217728;

/// A pair of coordinates of any numeric type.
#[derive(Debug, Copy, Clone)]
pub struct Point<N> {
    /// Horizontal coordinate.
    pub x: N,
    /// Vertical coordinate.
    pub y: N,
}

impl<N> Point<N> {
    /// Builds the point `(x, y)`.
    pub fn new(x: N, y: N) -> (r: Self)
        ensures
            r.x == x,
            r.y == y,
    {
        Self { x, y }
    }
}

/// Rust's truncating integer division (rounding toward zero), for a
/// positive divisor.
pub open spec fn trunc_div(a: int, b: int) -> int {
    if a >= 0 {
        a / b
    } else {
        -((-a) / b)
    }
}

/// The quotient of a magnitude-bounded dividend is within the scaled
/// bound: `|a| <= c*b` implies `|trunc_div(a, b)| <= c`.
proof fn lemma_trunc_div_range(a: int, b: int, c: int)
    requires
        1 <= b,
        0 <= c,
        -(c * b) <= a <= c * b,
    ensures
        -c <= trunc_div(a, b) <= c,
{
    if a >= 0 {
        lemma_div_pos_is_pos(a, b);
        lemma_div_is_ordered(a, c * b, b);
        lemma_mul_is_commutative(c, b);
        lemma_div_multiples_vanish(c, b);
    } else {
        lemma_div_pos_is_pos(-a, b);
        lemma_div_is_ordered(-a, c * b, b);
        lemma_mul_is_commutative(c, b);
        lemma_div_multiples_vanish(c, b);
    }
}

/// Dividing an exact multiple is exact: `trunc_div(v*b, b) == v`.
proof fn lemma_trunc_div_exact(v: int, b: int)
    requires
        1 <= b,
    ensures
        trunc_div(v * b, b) == v,
{
    if v >= 0 {
        lemma_mul_is_commutative(v, b);
        lemma_div_multiples_vanish(v, b);
    } else {
        assert(-(v * b) == (-v) * b) by (nonlinear_arith);
        lemma_mul_is_commutative(-v, b);
        lemma_div_multiples_vanish(-v, b);
    }
}

/// Truncating division on `i64`, for a positive divisor.
fn div_trunc(a: i64, b: i64) -> (r: i64)
    requires
        1 <= b,
        -0x7fff_ffff_ffff_ffff <= a,
    ensures
        r as int == trunc_div(a as int, b as int),
{
    if a >= 0 {
        let q = (a as u64) / (b as u64);
        proof {
            lemma_div_is_ordered_by_denominator_wrap(a as int, b as int);
        }
        q as i64
    } else {
        let q = ((-a) as u64) / (b as u64);
        proof {
            lemma_div_is_ordered_by_denominator_wrap(-a as int, b as int);
        }
        -(q as i64)
    }
}

/// Truncating division on `i128`, for a positive divisor.
fn div_trunc_128(a: i128, b: i128) -> (r: i128)
    requires
        1 <= b,
        -0x7fff_ffff_ffff_ffff_ffff_ffff_ffff_ffff <= a,
    ensures
        r as int == trunc_div(a as int, b as int),
{
    if a >= 0 {
        let q = (a as u128) / (b as u128);
        proof {
            lemma_div_is_ordered_by_denominator_wrap(a as int, b as int);
        }
        q as i128
    } else {
        let q = ((-a) as u128) / (b as u128);
        proof {
            lemma_div_is_ordered_by_denominator_wrap(-a as int, b as int);
        }
        -(q as i128)
    }
}

/// A nonnegative value does not grow when divided by a positive divisor.
proof fn lemma_div_is_ordered_by_denominator_wrap(a: int, b: int)
    requires
        0 <= a,
        1 <= b,
    ensures
        0 <= a / b <= a,
{
    lemma_div_pos_is_pos(a, b);
    if b == 1 {
        lemma_div_multiples_vanish(a, 1);
    } else {
        vstd::arithmetic::div_mod::lemma_div_is_ordered_by_denominator(a, 1, b);
        lemma_div_multiples_vanish(a, 1);
    }
}

/// Integer square root by binary search: the greatest `r` with
/// `r*r <= n`.
fn isqrt(n: u128) -> (r: u128)
    requires
        n < 0x1_0000_0000_0000_0000_0000_0000,
    ensures
        r * r <= n < (r + 1) * (r + 1),
        r <= 0x1_0000_0000_0000,
{
    let mut lo: u128 = 0;
    let mut hi: u128 = 0x1_0000_0000_0000;
    proof {
        assert((0x1_0000_0000_0000u128 + 1) * (0x1_0000_0000_0000u128 + 1) > n) by (nonlinear_arith)
            requires
                n < 0x1_0000_0000_0000_0000_0000_0000,
        ;
    }
    while lo < hi
        invariant
            lo <= hi <= 0x1_0000_0000_0000,
            lo * lo <= n,
            n < (hi + 1) * (hi + 1),
        decreases hi - lo,
    {
        let mid = lo + (hi - lo + 1) / 2;
        proof {
            assert(mid * mid <= 0x1_0000_0000_0000u128 * 0x1_0000_0000_0000u128)
                by (nonlinear_arith)
                requires
                    0 <= mid <= 0x1_0000_0000_0000u128,
            ;
        }
        let sq = mid * mid;
        if sq <= n {
            lo = mid;
        } else {
            hi = mid - 1;
        }
    }
    lo
}

/// The product of two magnitude-bounded factors is within the product of
/// the bounds.
proof fn lemma_mul_range(a: int, b: int, ca: int, cb: int)
    requires
        -ca <= a <= ca,
        -cb <= b <= cb,
        0 <= ca,
        0 <= cb,
    ensures
        -(ca * cb) <= a * b <= ca * cb,
{
    assert(-(ca * cb) <= a * b <= ca * cb) by (nonlinear_arith)
        requires
            -ca <= a <= ca,
            -cb <= b <= cb,
            0 <= ca,
            0 <= cb,
    ;
}

/// In a sequence whose adjacent elements increase, every earlier element
/// is smaller than every later one.
proof fn lemma_strictly_increasing(s: Seq<i64>, j: int, k: int)
    requires
        forall|i: int| 0 <= i < s.len() - 1 ==> #[trigger] s[i] < s[i + 1],
        0 <= j < k < s.len(),
    ensures
        s[j] < s[k],
    decreases k - j,
{
    if j + 1 < k {
        lemma_strictly_increasing(s, j + 1, k);
    }
}

/// A copy of a vector of fixed-point values.
fn copy_vec(v: &Vec<i64>) -> (r: Vec<i64>)
    ensures
        r@ == v@,
{
    let mut r: Vec<i64> = Vec::new();
    let mut i: usize = 0;
    while i < v.len()
        invariant
            i <= v@.len(),
            r@ == v@.subrange(0, i as int),
        decreases v@.len() - i,
    {
        r.push(v[i]);
        proof {
            assert(r@ =~= v@.subrange(0, i + 1));
        }
        i = i + 1;
    }
    proof {
        assert(r@ =~= v@);
    }
    r
}

/// `v` lies between `a` and `b`, whichever order those are in.
pub open spec fn between(a: i64, b: i64, v: i64) -> bool {
    (a <= v <= b) || (b <= v <= a)
}

/// The truncated fixed-point secant of interval `i` of the control-point
/// lists: `(y[i+1] - y[i]) * 65536` divided by `x[i+1] - x[i]`, rounded
/// toward zero.
pub open spec fn spec_secant_of(xs: Seq<i64>, ys: Seq<i64>, i: int) -> int {
    trunc_div((ys[i + 1] - ys[i]) * 65536, xs[i + 1] - xs[i])
}

/// Tangent `m` lies within three times the magnitude of secant `s` — the
/// per-interval bound the Fritsch–Carlson limiting pass enforces.
pub open spec fn tangent_limited(m: int, s: int) -> bool {
    -3 * vstd::math::abs(s) <= m <= 3 * vstd::math::abs(s)
}

/// The exact fixed-point cubic Hermite value on one interval: the value
/// [`MonotonicCubicSpline::hermite`] computes, with every intermediate
/// product scaled back by a truncating division by 65536.  For the
/// parameter `t = trunc((point - x0)·65536 / h)` with `h = x1 - x0`, it
/// is `(y0(1+2t) + h·m0·t)(1-t)² + (y1(3-2t) + h·m1(t-1))t²`, term by
/// term in that arithmetic.
pub open spec fn spec_hermite(point: int, x0: int, x1: int, y0: int, y1: int, m0: int, m1: int) -> int {
    let h = x1 - x0;
    let t = trunc_div((point - x0) * 65536, h);
    let m0h = trunc_div(m0 * h, 65536);
    let m1h = trunc_div(m1 * h, 65536);
    let a1 = trunc_div(y0 * (65536 + 2 * t), 65536) + trunc_div(m0h * t, 65536);
    let u1 = 65536 - t;
    let g1 = trunc_div(a1 * u1, 65536);
    let f1 = trunc_div(g1 * u1, 65536);
    let b1 = trunc_div(y1 * (3 * 65536 - 2 * t), 65536) + trunc_div(m1h * (t - 65536), 65536);
    let g2 = trunc_div(b1 * t, 65536);
    let f2 = trunc_div(g2 * t, 65536);
    f1 + f2
}

/// `v` saturated between `a` and `b`, whichever order those are in.
pub open spec fn spec_clamped(a: i64, b: i64, v: int) -> i64 {
    let lo: i64 = if a <= b {
        a
    } else {
        b
    };
    let hi: i64 = if a <= b {
        b
    } else {
        a
    };
    if v < lo {
        lo
    } else if v > hi {
        hi
    } else {
        v as i64
    }
}

/// The limiting pass has processed the first `upto` intervals: on each,
/// a flat secant forces both tangents to zero, and both tangents lie
/// within three secant magnitudes.
pub open spec fn limit_state_ok(slopes: Seq<i64>, secants: Seq<i64>, upto: int) -> bool {
    forall|j: int| #![trigger secants[j]]
        0 <= j < upto ==> ((secants[j] == 0 ==> slopes[j] == 0 && slopes[j + 1] == 0)
            && tangent_limited(slopes[j] as int, secants[j] as int) && tangent_limited(
            slopes[j + 1] as int,
            secants[j] as int,
        ))
}

/// Rescales the two tangents of one interval back onto the
/// Fritsch–Carlson monotonicity region: each becomes `3·m·|s| / h` for
/// `h = isqrt(m0² + m1²)`.  The result is within three secant magnitudes,
/// never larger in magnitude than the input, and zero stays zero.
fn rescale_pair(m0: i64, m1: i64, s: i64) -> (r: (i64, i64))
    requires
        s != 0,
        -TANGENT_BOUND <= m0 <= TANGENT_BOUND,
        -TANGENT_BOUND <= m1 <= TANGENT_BOUND,
        -SECANT_BOUND <= s <= SECANT_BOUND,
        (m0 as int) * (m0 as int) + (m1 as int) * (m1 as int) > 9 * ((s as int) * (s as int)),
    ensures
        tangent_limited(r.0 as int, s as int),
        tangent_limited(r.1 as int, s as int),
        -vstd::math::abs(m0 as int) <= r.0 as int <= vstd::math::abs(m0 as int),
        -vstd::math::abs(m1 as int) <= r.1 as int <= vstd::math::abs(m1 as int),
{
    let mi = m0 as i128;
    let mi1 = m1 as i128;
    let si = s as i128;
    proof {
        assert(0 <= (mi as int) * (mi as int) <= 0x4000_0000_0000_0000_0000_0000)
            by (nonlinear_arith)
            requires
                -26388279066624 <= mi as int <= 26388279066624,
        ;
        assert(0 <= (mi1 as int) * (mi1 as int) <= 0x4000_0000_0000_0000_0000_0000)
            by (nonlinear_arith)
            requires
                -26388279066624 <= mi1 as int <= 26388279066624,
        ;
        assert(0 <= (si as int) * (si as int) <= 0x4000_0000_0000_0000_0000_0000)
            by (nonlinear_arith)
            requires
                -8796093022208 <= si as int <= 8796093022208,
        ;
    }
    let abs_s: i128 = if si < 0 {
        -si
    } else {
        si
    };
    proof {
        assert(abs_s as int == vstd::math::abs(s as int));
    }
    let lhs = mi * mi + mi1 * mi1;
    let root = isqrt(lhs as u128);
    let ghost rooti = root as int;
    let ghost mi_abs: int = vstd::math::abs(m0 as int) as int;
    let ghost mi1_abs: int = vstd::math::abs(m1 as int) as int;
    proof {
        assert(rooti * rooti <= lhs as int);
        assert((lhs as int) < (rooti + 1) * (rooti + 1));
        assert(rooti >= 1) by (nonlinear_arith)
            requires
                rooti >= 0,
                (rooti + 1) * (rooti + 1) > lhs as int,
                lhs as int > 9 * ((si as int) * (si as int)),
                si as int != 0,
        ;
        assert(rooti <= 0x1_0000_0000_0000);
        // The root is at least three secant magnitudes, so the rescale
        // never grows a tangent.
        assert(rooti >= 3 * abs_s) by (nonlinear_arith)
            requires
                (rooti + 1) * (rooti + 1) > lhs as int,
                lhs as int > 9 * ((si as int) * (si as int)),
                abs_s == (if si < 0 {
                    -(si as int)
                } else {
                    si as int
                }),
                rooti >= 0,
        ;
        assert(-rooti <= mi as int <= rooti) by (nonlinear_arith)
            requires
                (rooti + 1) * (rooti + 1) > (mi as int) * (mi as int) + (mi1 as int) * (
                mi1 as int),
                rooti >= 0,
        ;
        assert(-rooti <= mi1 as int <= rooti) by (nonlinear_arith)
            requires
                (rooti + 1) * (rooti + 1) > (mi as int) * (mi as int) + (mi1 as int) * (
                mi1 as int),
                rooti >= 0,
        ;
        lemma_mul_range(
            (3 * mi) as int,
            abs_s as int,
            3 * TANGENT_BOUND as int,
            SECANT_BOUND as int,
        );
        lemma_mul_range(
            (3 * mi1) as int,
            abs_s as int,
            3 * TANGENT_BOUND as int,
            SECANT_BOUND as int,
        );
        assert(-((3 * abs_s as int) * rooti) <= (3 * mi) * abs_s <= (3 * abs_s as int) * rooti)
            by (nonlinear_arith)
            requires
                -rooti <= mi as int <= rooti,
                abs_s >= 0,
                rooti >= 0,
        ;
        assert(-((3 * abs_s as int) * rooti) <= (3 * mi1) * abs_s <= (3 * abs_s as int) * rooti)
            by (nonlinear_arith)
            requires
                -rooti <= mi1 as int <= rooti,
                abs_s >= 0,
                rooti >= 0,
        ;
        lemma_trunc_div_range(((3 * mi) * abs_s) as int, rooti, 3 * abs_s as int);
        lemma_trunc_div_range(((3 * mi1) * abs_s) as int, rooti, 3 * abs_s as int);
        assert(-(mi_abs * rooti) <= (3 * mi) * abs_s <= mi_abs * rooti) by (nonlinear_arith)
            requires
                3 * abs_s <= rooti,
                mi_abs == (if mi < 0 {
                    -(mi as int)
                } else {
                    mi as int
                }),
                abs_s >= 0,
        ;
        assert(-(mi1_abs * rooti) <= (3 * mi1) * abs_s <= mi1_abs * rooti) by (nonlinear_arith)
            requires
                3 * abs_s <= rooti,
                mi1_abs == (if mi1 < 0 {
                    -(mi1 as int)
                } else {
                    mi1 as int
                }),
                abs_s >= 0,
        ;
        lemma_trunc_div_range(((3 * mi) * abs_s) as int, rooti, mi_abs);
        lemma_trunc_div_range(((3 * mi1) * abs_s) as int, rooti, mi1_abs);
    }
    let new_mi = div_trunc_128((3 * mi) * abs_s, root as i128);
    let new_mi1 = div_trunc_128((3 * mi1) * abs_s, root as i128);
    (new_mi as i64, new_mi1 as i64)
}

/// A shape-preserving (monotonicity-limited) cubic Hermite spline over an
/// ordered control-point set: the x knots, the y values, and the limited
/// tangent at each knot, all in fixed point at scale 65536.
pub struct MonotonicCubicSpline {
    m_x: Vec<i64>,
    m_y: Vec<i64>,
    m_m: Vec<i64>,
}

impl MonotonicCubicSpline {
    /// The x knots.
    pub closed spec fn spec_xs(self) -> Seq<i64> {
        self.m_x@
    }

    /// The y values.
    pub closed spec fn spec_ys(self) -> Seq<i64> {
        self.m_y@
    }

    /// The tangents.
    pub closed spec fn spec_ms(self) -> Seq<i64> {
        self.m_m@
    }

    /// The truncated fixed-point secant of interval `i`.
    pub open spec fn spec_secant(self, i: int) -> int {
        spec_secant_of(self.spec_xs(), self.spec_ys(), i)
    }

    /// Well-formedness: at least two control points, one y value and one
    /// tangent per knot, strictly increasing bounded knots, bounded y
    /// values, and tangents within the limiter's bound.
    pub closed spec fn wf(self) -> bool {
        &&& self.m_x@.len() == self.m_y@.len()
        &&& self.m_x@.len() == self.m_m@.len()
        &&& self.m_x@.len() >= 2
        &&& forall|i: int, j: int| 0 <= i < j < self.m_x@.len() ==> self.m_x@[i] < self.m_x@[j]
        &&& forall|i: int|
            0 <= i < self.m_x@.len() ==> -COORD_BOUND <= #[trigger] self.m_x@[i] <= COORD_BOUND
        &&& forall|i: int|
            0 <= i < self.m_y@.len() ==> -COORD_BOUND <= #[trigger] self.m_y@[i] <= COORD_BOUND
        &&& forall|i: int|
            0 <= i < self.m_m@.len() ==> -TANGENT_BOUND <= #[trigger] self.m_m@[i] <= TANGENT_BOUND
    }

    /// Evaluates the cubic Hermite basis on the interval `[x.0, x.1]` with
    /// endpoint values `y` and endpoint tangents `m`, at scale 65536:
    /// `(y0(1+2t) + h m0 t)(1-t)² + (y1(3-2t) + h m1 (t-1)) t²` for
    /// `t = (point - x0)/h`.  Exact at both interval ends.
    pub fn hermite(point: i64, x: (i64, i64), y: (i64, i64), m: (i64, i64)) -> (r: i64)
        requires
            x.0 < x.1,
            x.0 <= point <= x.1,
            -COORD_BOUND <= x.0 <= COORD_BOUND,
            -COORD_BOUND <= x.1 <= COORD_BOUND,
            -COORD_BOUND <= y.0 <= COORD_BOUND,
            -COORD_BOUND <= y.1 <= COORD_BOUND,
            -TANGENT_BOUND <= m.0 <= TANGENT_BOUND,
            -TANGENT_BOUND <= m.1 <= TANGENT_BOUND,
        ensures
            r == spec_hermite(
                point as int,
                x.0 as int,
                x.1 as int,
                y.0 as int,
                y.1 as int,
                m.0 as int,
                m.1 as int,
            ),
            point == x.0 ==> r == y.0,
            point == x.1 ==> r == y.1,
    {
        let h = x.1 - x.0;
        let tnum = (point - x.0) * 65536;
        let t = div_trunc(tnum, h);
        proof {
            lemma_div_pos_is_pos(tnum as int, h as int);
            lemma_trunc_div_range(tnum as int, h as int, 65536);
            assert(0 <= t <= 65536);
            if point == x.0 {
                lemma_trunc_div_exact(0, h as int);
            }
            if point == x.1 {
                lemma_trunc_div_exact(65536, h as int);
            }
        }

        let hh = h as i128;
        let t1 = t as i128;
        let y0 = y.0 as i128;
        let y1 = y.1 as i128;
        let m0 = m.0 as i128;
        let m1 = m.1 as i128;

        proof {
            lemma_mul_range(m0 as int, hh as int, TANGENT_BOUND as int, 2 * COORD_BOUND as int);
            lemma_mul_range(m1 as int, hh as int, TANGENT_BOUND as int, 2 * COORD_BOUND as int);
        }
        let m0h = div_trunc_128(m0 * hh, 65536);
        let m1h = div_trunc_128(m1 * hh, 65536);
        proof {
            lemma_trunc_div_range(
                (m0 * hh) as int,
                65536,
                (TANGENT_BOUND as int) * (2 * COORD_BOUND as int) / 65536,
            );
            lemma_trunc_div_range(
                (m1 * hh) as int,
                65536,
                (TANGENT_BOUND as int) * (2 * COORD_BOUND as int) / 65536,
            );
            lemma_mul_range(y0 as int, (65536 + 2 * t1) as int, COORD_BOUND as int, 3int * 65536);
            lemma_mul_range(m0h as int, t1 as int, 0x1800_0000_0000_0000, 65536);
            lemma_trunc_div_range((y0 * (65536 + 2 * t1)) as int, 65536, 3 * COORD_BOUND as int);
            lemma_trunc_div_range((m0h * t1) as int, 65536, 0x1800_0000_0000_0000);
        }
        let a1 = div_trunc_128(y0 * (65536 + 2 * t1), 65536) + div_trunc_128(m0h * t1, 65536);

        let u1 = 65536 - t1;
        proof {
            lemma_mul_range(a1 as int, u1 as int, 0x2000_0000_0000_0000, 65536);
            lemma_trunc_div_range((a1 * u1) as int, 65536, 0x2000_0000_0000_0000);
        }
        let g1 = div_trunc_128(a1 * u1, 65536);
        proof {
            lemma_mul_range(g1 as int, u1 as int, 0x2000_0000_0000_0000, 65536);
            lemma_trunc_div_range((g1 * u1) as int, 65536, 0x2000_0000_0000_0000);
        }
        let f1 = div_trunc_128(g1 * u1, 65536);

        proof {
            lemma_mul_range(y1 as int, (3 * 65536 - 2 * t1) as int, COORD_BOUND as int, 3int * 65536);
            lemma_mul_range(m1h as int, (t1 - 65536) as int, 0x1800_0000_0000_0000, 65536);
            lemma_trunc_div_range((y1 * (3 * 65536 - 2 * t1)) as int, 65536, 3 * COORD_BOUND as int);
            lemma_trunc_div_range((m1h * (t1 - 65536)) as int, 65536, 0x1800_0000_0000_0000);
        }
        let b1 = div_trunc_128(y1 * (3 * 65536 - 2 * t1), 65536) + div_trunc_128(
            m1h * (t1 - 65536),
            65536,
        );

        proof {
            lemma_mul_range(b1 as int, t1 as int, 0x2000_0000_0000_0000, 65536);
            lemma_trunc_div_range((b1 * t1) as int, 65536, 0x2000_0000_0000_0000);
        }
        let g2 = div_trunc_128(b1 * t1, 65536);
        proof {
            lemma_mul_range(g2 as int, t1 as int, 0x2000_0000_0000_0000, 65536);
            lemma_trunc_div_range((g2 * t1) as int, 65536, 0x2000_0000_0000_0000);
        }
        let f2 = div_trunc_128(g2 * t1, 65536);

        let total = f1 + f2;
        proof {
            lemma_trunc_div_exact(0, 65536);
            if point == x.0 {
                assert(t1 == 0);
                assert(u1 == 65536);
                lemma_trunc_div_exact(y0 as int, 65536);
                assert(y0 * (65536 + 2 * t1) == y0 * 65536) by (nonlinear_arith)
                    requires
                        t1 == 0,
                ;
                assert(m0h * t1 == 0) by (nonlinear_arith)
                    requires
                        t1 == 0,
                ;
                assert(a1 == y0);
                lemma_trunc_div_exact(a1 as int, 65536);
                assert(a1 * u1 == a1 * 65536) by (nonlinear_arith)
                    requires
                        u1 == 65536,
                ;
                assert(g1 == a1);
                lemma_trunc_div_exact(g1 as int, 65536);
                assert(g1 * u1 == g1 * 65536) by (nonlinear_arith)
                    requires
                        u1 == 65536,
                ;
                assert(f1 == y0);
                assert(b1 * t1 == 0) by (nonlinear_arith)
                    requires
                        t1 == 0,
                ;
                assert(g2 == 0);
                assert(g2 * t1 == 0) by (nonlinear_arith)
                    requires
                        t1 == 0,
                ;
                assert(f2 == 0);
            }
            if point == x.1 {
                assert(t1 == 65536);
                assert(u1 == 0);
                assert(a1 * u1 == 0) by (nonlinear_arith)
                    requires
                        u1 == 0,
                ;
                assert(g1 == 0);
                assert(g1 * u1 == 0) by (nonlinear_arith)
                    requires
                        u1 == 0,
                ;
                assert(f1 == 0);
                lemma_trunc_div_exact(y1 as int, 65536);
                assert(y1 * (3 * 65536 - 2 * t1) == y1 * 65536) by (nonlinear_arith)
                    requires
                        t1 == 65536,
                ;
                assert(m1h * (t1 - 65536) == 0) by (nonlinear_arith)
                    requires
                        t1 == 65536,
                ;
                assert(b1 == y1);
                lemma_trunc_div_exact(b1 as int, 65536);
                assert(b1 * t1 == b1 * 65536) by (nonlinear_arith)
                    requires
                        t1 == 65536,
                ;
                assert(g2 == y1);
                lemma_trunc_div_exact(g2 as int, 65536);
                assert(g2 * t1 == g2 * 65536) by (nonlinear_arith)
                    requires
                        t1 == 65536,
                ;
                assert(f2 == y1);
            }
        }
        total as i64
    }

    /// Builds the spline over the given control points.
    ///
    /// Secants are the slopes between neighbouring control points; the
    /// initial tangent at each endpoint is its adjacent secant and at each
    /// interior point the average of the two adjacent secants.  The
    /// limiting pass then forces both tangents of a flat segment to zero
    /// and, where the combined tangent/secant ratio of a segment leaves
    /// the Fritsch–Carlson monotonicity region (ratio norm above 3),
    /// rescales both tangents back onto it.
    #[verifier::loop_isolation(false)]
    #[verifier::rlimit(100)]
    pub fn new(x: &Vec<i64>, y: &Vec<i64>) -> (r: MonotonicCubicSpline)
        requires
            x@.len() == y@.len(),
            x@.len() >= 2,
            forall|i: int| 0 <= i < x@.len() ==> -COORD_BOUND <= #[trigger] x@[i] <= COORD_BOUND,
            forall|i: int| 0 <= i < y@.len() ==> -COORD_BOUND <= #[trigger] y@[i] <= COORD_BOUND,
            forall|i: int| 0 <= i < x@.len() - 1 ==> #[trigger] x@[i] < x@[i + 1],
        ensures
            r.wf(),
            r.spec_xs() == x@,
            r.spec_ys() == y@,
            forall|i: int|
                0 <= i < x@.len() - 1 && #[trigger] r.spec_secant(i) == 0 ==> r.spec_ms()[i] == 0
                    && r.spec_ms()[i + 1] == 0,
            forall|i: int|
                0 <= i < x@.len() - 1 ==> tangent_limited(
                    (#[trigger] r.spec_ms()[i]) as int,
                    r.spec_secant(i),
                ) && tangent_limited(r.spec_ms()[i + 1] as int, r.spec_secant(i)),
    {
        let n = x.len();

        let mut secants: Vec<i64> = Vec::new();
        let mut i: usize = 0;
        #[verifier::loop_isolation(true)]
        while i < n - 1
            invariant
                i <= n - 1,
                2 <= n == x@.len(),
                x@.len() == y@.len(),
                forall|j: int|
                    0 <= j < x@.len() ==> -COORD_BOUND <= #[trigger] x@[j] <= COORD_BOUND,
                forall|j: int|
                    0 <= j < y@.len() ==> -COORD_BOUND <= #[trigger] y@[j] <= COORD_BOUND,
                forall|j: int| 0 <= j < x@.len() - 1 ==> #[trigger] x@[j] < x@[j + 1],
                secants@.len() == i,
                forall|j: int|
                    0 <= j < i ==> -SECANT_BOUND <= #[trigger] secants@[j] <= SECANT_BOUND,
                forall|j: int| 0 <= j < i ==> #[trigger] secants@[j] == spec_secant_of(x@, y@, j),
            decreases n - 1 - i,
        {
            let h = x[i + 1] - x[i];
            let dy = y[i + 1] - y[i];
            let s = div_trunc(dy * 65536, h);
            proof {
                assert((SECANT_BOUND as int) <= (SECANT_BOUND as int) * (h as int))
                    by (nonlinear_arith)
                    requires
                        1 <= h,
                ;
                lemma_trunc_div_range((dy * 65536) as int, h as int, SECANT_BOUND as int);
            }
            secants.push(s);
            i = i + 1;
        }

        let mut slopes: Vec<i64> = Vec::new();
        slopes.push(secants[0]);
        let mut k: usize = 1;
        #[verifier::loop_isolation(true)]
        while k < n - 1
            invariant
                1 <= k <= n - 1,
                2 <= n,
                secants@.len() == n - 1,
                forall|j: int|
                    0 <= j < n - 1 ==> -SECANT_BOUND <= #[trigger] secants@[j] <= SECANT_BOUND,
                slopes@.len() == k,
                forall|j: int|
                    0 <= j < k ==> -SECANT_BOUND <= #[trigger] slopes@[j] <= SECANT_BOUND,
            decreases n - 1 - k,
        {
            let s = div_trunc(secants[k - 1] + secants[k], 2);
            proof {
                lemma_trunc_div_range(
                    (secants@[k - 1] + secants@[k as int]) as int,
                    2,
                    SECANT_BOUND as int,
                );
            }
            slopes.push(s);
            k = k + 1;
        }
        slopes.push(secants[n - 2]);

        let mut t: usize = 0;
        #[verifier::loop_isolation(true)]
        while t < n - 1
            invariant
                t <= n - 1,
                2 <= n,
                slopes@.len() == n,
                secants@.len() == n - 1,
                forall|j: int|
                    0 <= j < n - 1 ==> -SECANT_BOUND <= #[trigger] secants@[j] <= SECANT_BOUND,
                forall|j: int|
                    0 <= j < n ==> -TANGENT_BOUND <= #[trigger] slopes@[j] <= TANGENT_BOUND,
                limit_state_ok(slopes@, secants@, t as int),
            decreases n - 1 - t,
        {
            let s = secants[t];
            if s == 0 {
                // A flat segment forces flat tangents at both of its ends.
                let ghost pre_slopes = slopes@;
                slopes[t] = 0;
                slopes[t + 1] = 0;
                proof {
                    assert forall|j: int| #![trigger secants@[j]]
                        0 <= j < t + 1 implies ((secants@[j] == 0 ==> slopes@[j] == 0 && slopes@[j
                        + 1] == 0) && tangent_limited(slopes@[j] as int, secants@[j] as int)
                        && tangent_limited(slopes@[j + 1] as int, secants@[j] as int)) by {
                        if j < t {
                            assert(slopes@[j] == pre_slopes[j]);
                            assert((secants@[j] == 0 ==> pre_slopes[j] == 0 && pre_slopes[j + 1]
                                == 0) && tangent_limited(pre_slopes[j] as int, secants@[j] as int)
                                && tangent_limited(pre_slopes[j + 1] as int, secants@[j] as int));
                            if j + 1 < t {
                                assert(slopes@[j + 1] == pre_slopes[j + 1]);
                            } else {
                                assert(slopes@[j + 1] == 0);
                            }
                        } else {
                            assert(slopes@[j] == 0 && slopes@[j + 1] == 0);
                        }
                    }
                }
            } else {
                let m0 = slopes[t];
                let m1 = slopes[t + 1];
                let ghost sabs: int = vstd::math::abs(s as int) as int;
                proof {
                    assert(0 <= (m0 as int) * (m0 as int) <= 0x4000_0000_0000_0000_0000_0000)
                        by (nonlinear_arith)
                        requires
                            -26388279066624 <= m0 as int <= 26388279066624,
                    ;
                    assert(0 <= (m1 as int) * (m1 as int) <= 0x4000_0000_0000_0000_0000_0000)
                        by (nonlinear_arith)
                        requires
                            -26388279066624 <= m1 as int <= 26388279066624,
                    ;
                    assert(0 <= (s as int) * (s as int) <= 0x4000_0000_0000_0000_0000_0000)
                        by (nonlinear_arith)
                        requires
                            -8796093022208 <= s as int <= 8796093022208,
                    ;
                }
                let lhs = (m0 as i128) * (m0 as i128) + (m1 as i128) * (m1 as i128);
                let rhs = 9 * ((s as i128) * (s as i128));
                if lhs <= rhs {
                    // Already inside the monotonicity region: the pair of
                    // squared tangents is within nine squared secants, so
                    // each tangent is within three secant magnitudes.
                    proof {
                        assert(-(3 * sabs) <= m0 as int <= 3 * sabs && -(3 * sabs) <= m1 as int <= 3
                            * sabs) by (nonlinear_arith)
                            requires
                                (m0 as int) * (m0 as int) + (m1 as int) * (m1 as int) <= 9 * ((
                                s as int) * (s as int)),
                                sabs == (if s < 0 {
                                    -(s as int)
                                } else {
                                    s as int
                                }),
                        ;
                        assert forall|j: int| #![trigger secants@[j]]
                            0 <= j < t + 1 implies ((secants@[j] == 0 ==> slopes@[j] == 0
                            && slopes@[j + 1] == 0) && tangent_limited(
                            slopes@[j] as int,
                            secants@[j] as int,
                        ) && tangent_limited(slopes@[j + 1] as int, secants@[j] as int)) by {
                            if j == t {
                                assert(secants@[j] != 0);
                                assert(tangent_limited(m0 as int, s as int));
                                assert(tangent_limited(m1 as int, s as int));
                            } else {
                                assert((secants@[j] == 0 ==> slopes@[j] == 0 && slopes@[j + 1]
                                    == 0) && tangent_limited(slopes@[j] as int, secants@[j] as int)
                                    && tangent_limited(slopes@[j + 1] as int, secants@[j] as int));
                            }
                        }
                    }
                } else {
                    let ghost pre_slopes = slopes@;
                    let limited = rescale_pair(m0, m1, s);
                    slopes[t] = limited.0;
                    slopes[t + 1] = limited.1;
                    proof {
                        assert forall|j: int| #![trigger secants@[j]]
                            0 <= j < t + 1 implies ((secants@[j] == 0 ==> slopes@[j] == 0
                            && slopes@[j + 1] == 0) && tangent_limited(
                            slopes@[j] as int,
                            secants@[j] as int,
                        ) && tangent_limited(slopes@[j + 1] as int, secants@[j] as int)) by {
                            if j == t - 1 {
                                assert(slopes@[j] == pre_slopes[j]);
                                assert((secants@[j] == 0 ==> pre_slopes[j] == 0 && pre_slopes[j
                                    + 1] == 0) && tangent_limited(
                                    pre_slopes[j] as int,
                                    secants@[j] as int,
                                ) && tangent_limited(pre_slopes[j + 1] as int, secants@[j] as int));
                                assert(slopes@[j + 1] as int == limited.0 as int);
                                if secants@[j] == 0 {
                                    assert(m0 == 0);
                                }
                            } else if j == t {
                                assert(secants@[j] != 0);
                                assert(slopes@[j] as int == limited.0 as int);
                                assert(slopes@[j + 1] as int == limited.1 as int);
                            } else if j < t {
                                assert(slopes@[j] == pre_slopes[j] && slopes@[j + 1] == pre_slopes[j
                                    + 1]);
                                assert((secants@[j] == 0 ==> pre_slopes[j] == 0 && pre_slopes[j
                                    + 1] == 0) && tangent_limited(
                                    pre_slopes[j] as int,
                                    secants@[j] as int,
                                ) && tangent_limited(pre_slopes[j + 1] as int, secants@[j] as int));
                            }
                        }
                    }
                }
            }
            t = t + 1;
        }

        let ghost final_slopes = slopes@;
        let spline = MonotonicCubicSpline { m_x: copy_vec(x), m_y: copy_vec(y), m_m: slopes };
        proof {
            assert(spline.spec_ms() == final_slopes);
            assert(limit_state_ok(final_slopes, secants@, n - 1));
            assert forall|j: int|
                0 <= j < x@.len() - 1 implies #[trigger] spline.spec_secant(j) == secants@[j] by {}
            assert forall|j: int|
                0 <= j < x@.len() - 1 && #[trigger] spline.spec_secant(j) == 0 implies
                spline.spec_ms()[j] == 0 && spline.spec_ms()[j + 1] == 0 by {
                assert(secants@[j] == secants@[j]);
            }
            assert forall|j: int|
                0 <= j < x@.len() - 1 implies tangent_limited(
                (#[trigger] spline.spec_ms()[j]) as int,
                spline.spec_secant(j),
            ) && tangent_limited(spline.spec_ms()[j + 1] as int, spline.spec_secant(j)) by {
                assert(secants@[j] == secants@[j]);
            }

            assert forall|i2: int, j2: int|
                0 <= i2 < j2 < spline.m_x@.len() implies spline.m_x@[i2] < spline.m_x@[j2] by {
                lemma_strictly_increasing(x@, i2, j2);
            }
        }
        spline
    }

    /// Evaluates the spline at `point`.
    ///
    /// A point at or before the first knot yields the first y value, one
    /// at or after the last knot the last y value, and one exactly on a
    /// knot that knot's y value.  Between two knots the result is the
    /// cubic Hermite value clamped between the two bracketing y values,
    /// so interpolation never overshoots its control points.
    #[verifier::loop_isolation(false)]
    pub fn interpolate(&mut self, point: i64) -> (r: i64)
        requires
            old(self).wf(),
        ensures
            *final(self) == *old(self),
            point <= old(self).spec_xs()[0] ==> r == old(self).spec_ys()[0],
            point >= old(self).spec_xs().last() ==> r == old(self).spec_ys().last(),
            forall|i: int|
                0 <= i < old(self).spec_xs().len() && old(self).spec_xs()[i] == point ==> r == old(
                    self,
                ).spec_ys()[i],
            old(self).spec_xs()[0] < point < old(self).spec_xs().last() ==> exists|i: int|
                0 <= i < old(self).spec_xs().len() - 1 && (#[trigger] old(self).spec_xs()[i])
                    <= point <= old(self).spec_xs()[i + 1] && between(
                    old(self).spec_ys()[i],
                    old(self).spec_ys()[i + 1],
                    r,
                ),
            forall|i: int|
                0 <= i < old(self).spec_xs().len() - 1 && (#[trigger] old(self).spec_xs()[i])
                    < point < old(self).spec_xs()[i + 1] ==> r == spec_clamped(
                    old(self).spec_ys()[i],
                    old(self).spec_ys()[i + 1],
                    spec_hermite(
                        point as int,
                        old(self).spec_xs()[i] as int,
                        old(self).spec_xs()[i + 1] as int,
                        old(self).spec_ys()[i] as int,
                        old(self).spec_ys()[i + 1] as int,
                        old(self).spec_ms()[i] as int,
                        old(self).spec_ms()[i + 1] as int,
                    ),
                ),
    {
        let n = self.m_x.len();

        if point <= self.m_x[0] {
            return self.m_y[0];
        }
        if point >= self.m_x[n - 1] {
            return self.m_y[n - 1];
        }

        let mut i: usize = 0;
        while point >= self.m_x[i + 1]
            invariant
                0 <= i < n - 1,
                self.m_x@[i as int] < point,
            decreases n - i,
        {
            i = i + 1;
            if point == self.m_x[i] {
                return self.m_y[i];
            }
            proof {
                if i + 1 >= n {
                    assert(self.m_x@[i as int] <= self.m_x@[n - 1]);
                }
            }
        }

        let x0 = self.m_x[i];
        let x1 = self.m_x[i + 1];
        let y0 = self.m_y[i];
        let y1 = self.m_y[i + 1];
        let m0 = self.m_m[i];
        let m1 = self.m_m[i + 1];

        let raw = MonotonicCubicSpline::hermite(point, (x0, x1), (y0, y1), (m0, m1));

        let lo = if y0 <= y1 {
            y0
        } else {
            y1
        };
        let hi = if y0 <= y1 {
            y1
        } else {
            y0
        };
        let clamped = if raw < lo {
            lo
        } else if raw > hi {
            hi
        } else {
            raw
        };
        clamped
    }
}

} // verus!
