//! Recursive spatial partitioning of the pixel grid.
//!
//! A [`Partition`] is a rectangular subset of the image, addressed in pixel
//! units.  The renderer subdivides a partition into four quadrants with
//! disjoint, exhaustive pixel sets (see [`lemma_quadrants_partition`]), which
//! is what makes the recursive rendering write every pixel of the root
//! rectangle exactly once per subtree.

use vstd::prelude::*;
use vstd::arithmetic::div_mod::lemma_fundamental_div_mod_converse;
use crate::ImageInfo;
use crate::math::EscapeOutcome;
use crate::math::Iteration;
use crate::math::escape_time;
use crate::math::pixel_to_point;
use crate::math::spec_escaped_at;
use crate::math::spec_first_escape;
use crate::math::spec_interior;
use crate::math::spec_pixel_point;

verus! {

/// Represents a rectangular subset of the image to be worked on.
/// The primary coordinate system is pixels, with the complex numbers being
/// derived from pixel coordinates; see [`crate::math::pixel_to_point`].
#[derive(Debug, Clone, Copy, PartialEq, Eq, Structural)]
pub struct Partition {
    /// x coordinate of the upper left corner, in pixels.
    pub x_offset: usize,
    /// y coordinate of the upper left corner, in pixels.
    pub y_offset: usize,
    /// Width in pixels.
    pub width: usize,
    /// Height in pixels.
    pub height: usize,
}

impl Partition {
    /// First pixel column of the rectangle.
    pub open spec fn min_x(self) -> int {
        self.x_offset as int
    }

    /// Last pixel column of the rectangle.
    pub open spec fn max_x(self) -> int {
        self.x_offset + self.width - 1
    }

    /// First pixel row of the rectangle.
    pub open spec fn min_y(self) -> int {
        self.y_offset as int
    }

    /// Last pixel row of the rectangle.
    pub open spec fn max_y(self) -> int {
        self.y_offset + self.height - 1
    }

    /// A partition spans at least one pixel in each direction.
    pub open spec fn wf(self) -> bool {
        self.width >= 1 && self.height >= 1
    }

    /// The rectangle lies inside a `w` by `h` pixel image.
    pub open spec fn in_image(self, w: int, h: int) -> bool {
        self.wf() && self.x_offset + self.width <= w && self.y_offset + self.height <= h
    }

    /// Pixel `(x, y)` lies in the rectangle.
    pub open spec fn contains(self, x: int, y: int) -> bool {
        self.min_x() <= x <= self.max_x() && self.min_y() <= y <= self.max_y()
    }

    /// Pixel `(x, y)` lies on one of the rectangle's four edges.
    pub open spec fn on_perimeter(self, x: int, y: int) -> bool {
        self.contains(x, y) && (x == self.min_x() || x == self.max_x() || y == self.min_y()
            || y == self.max_y())
    }

    /// Pixel `(x, y)` lies in the rectangle but not on its edges.
    pub open spec fn strictly_inside(self, x: int, y: int) -> bool {
        self.contains(x, y) && !self.on_perimeter(x, y)
    }

    /// Builds the partition that spans pixels `(x1, y1)` through `(x2, y2)`
    /// inclusive.
    pub fn from_points(x1: usize, y1: usize, x2: usize, y2: usize) -> (r: Self)
        requires
            x1 <= x2 < usize::MAX,
            y1 <= y2 < usize::MAX,
        ensures
            r == (Partition {
                x_offset: x1,
                y_offset: y1,
                width: (x2 - x1 + 1) as usize,
                height: (y2 - y1 + 1) as usize,
            }),
            r.wf(),
            r.min_x() == x1,
            r.max_x() == x2,
            r.min_y() == y1,
            r.max_y() == y2,
    {
        Partition { x_offset: x1, y_offset: y1, width: x2 - x1 + 1, height: y2 - y1 + 1 }
    }

    /// The split column of the subdivision rounding rule,
    /// `min_x + dx/2 + dx%2` for `dx = width - 1`: the midpoint, biased
    /// toward the far edge.
    pub open spec fn spec_x_mid(self) -> int {
        self.min_x() + (self.width - 1) / 2 + (self.width - 1) % 2
    }

    /// The split row; see [`Partition::spec_x_mid`].
    pub open spec fn spec_y_mid(self) -> int {
        self.min_y() + (self.height - 1) / 2 + (self.height - 1) % 2
    }

    /// The rectangle spanning `(x1, y1)` through `(x2, y2)` inclusive.
    pub open spec fn spec_rect(x1: int, y1: int, x2: int, y2: int) -> Partition {
        Partition {
            x_offset: x1 as usize,
            y_offset: y1 as usize,
            width: (x2 - x1 + 1) as usize,
            height: (y2 - y1 + 1) as usize,
        }
    }

    /// Quadrant `k` of the subdivision: 0 is the upper left, 1 the upper
    /// right, 2 the lower left and 3 the lower right.
    pub open spec fn quadrant(self, k: int) -> Partition {
        let xm = self.spec_x_mid();
        let ym = self.spec_y_mid();
        if k == 0 {
            Partition::spec_rect(self.min_x(), self.min_y(), xm, ym)
        } else if k == 1 {
            Partition::spec_rect(xm + 1, self.min_y(), self.max_x(), ym)
        } else if k == 2 {
            Partition::spec_rect(self.min_x(), ym + 1, xm, self.max_y())
        } else {
            Partition::spec_rect(xm + 1, ym + 1, self.max_x(), self.max_y())
        }
    }
}

/// Splits the rectangle into its four quadrants.  The midpoint rule biases
/// the split toward the far edge, which keeps all four quadrants non-empty
/// whenever the rectangle is wider and taller than two pixels — the only
/// case in which the renderer subdivides.
pub fn subdivide_partition(p: &Partition) -> (result: Vec<Partition>)
    requires
        p.width > 2,
        p.height > 2,
        p.x_offset + p.width <= usize::MAX,
        p.y_offset + p.height <= usize::MAX,
    ensures
        result@.len() == 4,
        forall|k: int| 0 <= k < 4 ==> result@[k] == p.quadrant(k),
{
    let mut result: Vec<Partition> = Vec::new();

    let min_x = p.x_offset;
    let max_x = min_x + p.width - 1;

    let min_y = p.y_offset;
    let max_y = min_y + p.height - 1;

    let width = max_x - min_x;
    let height = max_y - min_y;

    let mut x_midpoint = min_x + width / 2 + width % 2;
    if x_midpoint < min_x {
        x_midpoint = min_x;
    }

    let mut y_midpoint = min_y + height / 2 + height % 2;
    if y_midpoint < min_y {
        y_midpoint = min_y;
    }

    let mut x_midpoint_plus_one = x_midpoint + 1;
    if x_midpoint_plus_one > max_x {
        x_midpoint_plus_one = max_x;
    }

    let mut y_midpoint_plus_one = y_midpoint + 1;
    if y_midpoint_plus_one > max_y {
        y_midpoint_plus_one = max_y;
    }

    let upper_left = Partition::from_points(min_x, min_y, x_midpoint, y_midpoint);
    let upper_right = Partition::from_points(x_midpoint_plus_one, min_y, max_x, y_midpoint);
    let lower_left = Partition::from_points(min_x, y_midpoint_plus_one, x_midpoint, max_y);
    let lower_right = Partition::from_points(
        x_midpoint_plus_one,
        y_midpoint_plus_one,
        max_x,
        max_y,
    );

    result.push(upper_left);
    result.push(upper_right);
    result.push(lower_left);
    result.push(lower_right);

    result
}

/// Row-major index arithmetic: the flat index `y*w + x` of an in-range
/// pixel is in range and decomposes back into `x` and `y`.
pub proof fn lemma_pixel_index(x: int, y: int, w: int, h: int)
    requires
        0 <= x < w,
        0 <= y < h,
    ensures
        0 <= y * w + x < w * h,
        (y * w + x) % w == x,
        (y * w + x) / w == y,
{
    lemma_fundamental_div_mod_converse(y * w + x, w, y, x);
    assert(0 <= y * w + x < w * h) by (nonlinear_arith)
        requires
            0 <= x < w,
            0 <= y < h,
    ;
}

/// Allocates the shared pixel buffer: one empty slot per pixel of the
/// image, in row-major order.  The orchestrator builds this once, before
/// rendering.
pub fn new_buffer(img_info: &ImageInfo) -> (buf: Vec<Option<EscapeOutcome>>)
    requires
        img_info.wf(),
    ensures
        buf@.len() == img_info.width * img_info.height,
        forall|i: int| 0 <= i < buf@.len() ==> buf@[i] is None,
{
    let total = img_info.width * img_info.height;
    let mut buf: Vec<Option<EscapeOutcome>> = Vec::new();
    let mut k: usize = 0;
    while k < total
        invariant
            k <= total,
            buf@.len() == k,
            forall|i: int| 0 <= i < k ==> buf@[i] is None,
        decreases total - k,
    {
        buf.push(None);
        k = k + 1;
    }
    buf
}

/// The buffer entry holds exactly what the evaluator yields for pixel
/// `(x, y)`: it is present, it is `Interior` precisely when no orbit step
/// of the pixel's point escapes within the cap, and an `Exterior` entry
/// carries that point's first-escape record.
pub open spec fn entry_correct(info: ImageInfo, x: int, y: int, e: Option<EscapeOutcome>) -> bool {
    let point = spec_pixel_point(info, x as u64, y as u64);
    let prec = info.spec_prec();
    let cap = info.iterations as int;
    &&& e is Some
    &&& (e == Some(EscapeOutcome::Interior) <==> spec_interior(point, prec, cap))
    &&& (e matches Some(EscapeOutcome::Exterior(it)) ==> spec_first_escape(it, point, prec, cap))
}

/// Determinism of rendered entries.  For a pixel whose point passes the
/// whole membership test, any entry the renderer may store is
/// `Interior`; for one that fails it, any two non-`Interior` entries the
/// renderer may store are equal, because a first escape is unique.  Two
/// renders of one geometry therefore agree on every pixel, except that
/// the connectedness shortcut may paint a non-member pixel `Interior`
/// where an evaluated render records its escape — the accepted
/// accuracy trade-off of the shortcut.
pub proof fn lemma_entries_deterministic(
    info: ImageInfo,
    x: int,
    y: int,
    e1: Option<EscapeOutcome>,
    e2: Option<EscapeOutcome>,
)
    requires
        e1 == Some(EscapeOutcome::Interior) || entry_correct(info, x, y, e1),
        e2 == Some(EscapeOutcome::Interior) || entry_correct(info, x, y, e2),
    ensures
        spec_interior(
            spec_pixel_point(info, x as u64, y as u64),
            info.spec_prec(),
            info.iterations as int,
        ) ==> e1 == Some(EscapeOutcome::Interior) && e2 == Some(EscapeOutcome::Interior),
        e1 != Some(EscapeOutcome::Interior) && e2 != Some(EscapeOutcome::Interior) ==> e1 == e2,
{
    let point = spec_pixel_point(info, x as u64, y as u64);
    let prec = info.spec_prec();
    let cap = info.iterations as int;
    if e1 != Some(EscapeOutcome::Interior) && e2 != Some(EscapeOutcome::Interior) {
        let it1 = choose|it1: Iteration| e1 == Some(EscapeOutcome::Exterior(it1));
        let it2 = choose|it2: Iteration| e2 == Some(EscapeOutcome::Exterior(it2));
        assert(e1 == Some(EscapeOutcome::Exterior(it1)) && e2 == Some(
            EscapeOutcome::Exterior(it2),
        )) by {
            assert(e1 is Some && e2 is Some);
            assert(exists|it: Iteration| e1 == Some(EscapeOutcome::Exterior(it))) by {
                let o = e1->0;
                assert(o is Exterior);
                assert(e1 == Some(EscapeOutcome::Exterior(o->0)));
            }
            assert(exists|it: Iteration| e2 == Some(EscapeOutcome::Exterior(it))) by {
                let o = e2->0;
                assert(o is Exterior);
                assert(e2 == Some(EscapeOutcome::Exterior(o->0)));
            }
        }
        assert(spec_first_escape(it1, point, prec, cap));
        assert(spec_first_escape(it2, point, prec, cap));
        if it1.n < it2.n {
            assert(!spec_escaped_at(point, prec, it1.n as nat));
            assert(false);
        }
        if it2.n < it1.n {
            assert(!spec_escaped_at(point, prec, it2.n as nat));
            assert(false);
        }
        assert(it1.n == it2.n);
        assert(it1 == it2);
        assert(e1 == e2);
    }
}

/// The buffer entry an evaluation result stands for: a point with no
/// escape time is in the set.
pub open spec fn outcome_of(value: Option<Iteration>) -> EscapeOutcome {
    match value {
        None => EscapeOutcome::Interior,
        Some(it) => EscapeOutcome::Exterior(it),
    }
}

/// Stores the outcome for pixel `(x, y)` in the shared buffer.
pub fn set_pixel(
    value: Option<Iteration>,
    x: usize,
    y: usize,
    pixels: &mut Vec<Option<EscapeOutcome>>,
    image_info: &ImageInfo,
)
    requires
        image_info.wf(),
        x < image_info.width,
        y < image_info.height,
        old(pixels)@.len() == image_info.width * image_info.height,
    ensures
        final(pixels)@.len() == old(pixels)@.len(),
        forall|j: int|
            0 <= j < old(pixels)@.len() && j != y * image_info.width + x ==> final(pixels)@[j]
                == old(pixels)@[j],
        final(pixels)@[y * image_info.width + x] == Some(outcome_of(value)),
{
    proof {
        lemma_pixel_index(x as int, y as int, image_info.width as int, image_info.height as int);
    }
    let i = y * image_info.width + x;

    let outcome = match value {
        None => EscapeOutcome::Interior,
        Some(it) => EscapeOutcome::Exterior(it),
    };
    pixels[i] = Some(outcome);
}

/// Maps pixel `(x, y)` to its point on the complex plane, evaluates the
/// escape time there, and stores the outcome in the shared buffer.
/// Returns whether the point escaped; the stored entry is `Interior`
/// exactly when it did not.
pub fn process_point(
    x: usize,
    y: usize,
    pixels: &mut Vec<Option<EscapeOutcome>>,
    image_info: &ImageInfo,
) -> (escaped: bool)
    requires
        image_info.wf(),
        x < image_info.width,
        y < image_info.height,
        old(pixels)@.len() == image_info.width * image_info.height,
    ensures
        final(pixels)@.len() == old(pixels)@.len(),
        forall|j: int|
            0 <= j < old(pixels)@.len() && j != y * image_info.width + x ==> final(pixels)@[j]
                == old(pixels)@[j],
        final(pixels)@[y * image_info.width + x] is Some,
        (final(pixels)@[y * image_info.width + x] == Some(EscapeOutcome::Interior)) <==> !escaped,
        entry_correct(
            *image_info,
            x as int,
            y as int,
            final(pixels)@[y * image_info.width + x],
        ),
{
    let point = pixel_to_point((x, y), image_info);
    let result = escape_time(image_info, &point);
    let escaped = result.is_some();

    proof {
        let ghost prec = image_info.spec_prec();
        let ghost cap = image_info.iterations as int;
        assert(point == spec_pixel_point(*image_info, (x as int) as u64, (y as int) as u64));
        if result is Some && spec_interior(point, prec, cap) {
            let itv = choose|itv: Iteration| result == Some(itv);
            assert(spec_first_escape(itv, point, prec, cap));
            assert(!crate::math::spec_escaped_at(point, prec, itv.n as nat));
        }
    }
    set_pixel(result, x, y, pixels, image_info);
    escaped
}

/// Coverage and disjointness of the subdivision: for a rectangle wider and
/// taller than two pixels, every pixel of the parent lies in exactly one of
/// the four quadrants, each quadrant is a well-formed sub-rectangle of the
/// parent that stays inside any image the parent fits in, and each quadrant
/// is strictly smaller than the parent in both directions.
pub proof fn lemma_quadrants_partition(p: Partition)
    requires
        p.width > 2,
        p.height > 2,
        p.x_offset + p.width <= usize::MAX,
        p.y_offset + p.height <= usize::MAX,
    ensures
        forall|x: int, y: int| #[trigger]
            p.contains(x, y) <==> (p.quadrant(0).contains(x, y) || p.quadrant(1).contains(x, y)
                || p.quadrant(2).contains(x, y) || p.quadrant(3).contains(x, y)),
        forall|x: int, y: int, j: int, k: int|
            0 <= j < 4 && 0 <= k < 4 && j != k && #[trigger] p.quadrant(j).contains(x, y)
                ==> !(#[trigger] p.quadrant(k).contains(x, y)),
        forall|k: int| 0 <= k < 4 ==> (#[trigger] p.quadrant(k)).wf(),
        forall|k: int, w: int, h: int|
            0 <= k < 4 && p.in_image(w, h) ==> #[trigger] p.quadrant(k).in_image(w, h),
        forall|k: int|
            0 <= k < 4 ==> #[trigger] p.quadrant(k).width * p.quadrant(k).height < p.width
                * p.height,
{
    let xm = p.spec_x_mid();
    let ym = p.spec_y_mid();
    assert(p.min_x() < xm < p.max_x());
    assert(p.min_y() < ym < p.max_y());
    assert forall|k: int| 0 <= k < 4 implies #[trigger] p.quadrant(k).width * p.quadrant(
        k,
    ).height < p.width * p.height by {
        let q = p.quadrant(k);
        assert(0 < q.width < p.width);
        assert(0 < q.height < p.height);
        assert(q.width * q.height < p.width * p.height) by (nonlinear_arith)
            requires
                0 < q.width < p.width,
                0 < q.height < p.height,
        ;
    }
}

/// A single write at in-range pixel `(x, y)` leaves every other pixel of
/// the row-major buffer unchanged.
proof fn lemma_write_preserves(
    pre: Seq<Option<EscapeOutcome>>,
    post: Seq<Option<EscapeOutcome>>,
    x: int,
    y: int,
    w: int,
    h: int,
)
    requires
        1 <= w,
        1 <= h,
        pre.len() == w * h,
        post.len() == pre.len(),
        0 <= x < w,
        0 <= y < h,
        forall|j: int| 0 <= j < pre.len() && j != y * w + x ==> post[j] == pre[j],
    ensures
        forall|x2: int, y2: int|
            0 <= x2 < w && 0 <= y2 < h && !(x2 == x && y2 == y) ==> post[#[trigger] (y2 * w + x2)]
                == pre[y2 * w + x2],
{
    assert forall|x2: int, y2: int|
        0 <= x2 < w && 0 <= y2 < h && !(x2 == x && y2 == y) implies post[#[trigger] (y2 * w + x2)]
        == pre[y2 * w + x2] by {
        lemma_pixel_index(x2, y2, w, h);
        lemma_pixel_index(x, y, w, h);
        if y2 * w + x2 == y * w + x {
            assert(x2 == x && y2 == y);
        }
    }
}

/// Appends `(x_from, y)` through `(x_to, y)` inclusive to the coordinate
/// list.
fn push_row(coords: &mut Vec<(usize, usize)>, x_from: usize, x_to: usize, y: usize)
    requires
        x_from <= x_to < usize::MAX,
    ensures
        final(coords)@.len() == old(coords)@.len() + (x_to - x_from) + 1,
        forall|j: int| 0 <= j < old(coords)@.len() ==> final(coords)@[j] == old(coords)@[j],
        forall|j: int|
            old(coords)@.len() <= j < final(coords)@.len() ==> final(coords)@[j] == (((x_from + j
                - old(coords)@.len()) as usize, y)),
{
    let ghost base = coords@.len() as int;
    let mut x = x_from;
    while x <= x_to
        invariant
            x_from <= x <= x_to + 1,
            x_to < usize::MAX,
            coords@.len() == base + (x - x_from),
            0 <= base <= coords@.len(),
            forall|j: int| 0 <= j < base ==> coords@[j] == old(coords)@[j],
            forall|j: int|
                base <= j < coords@.len() ==> coords@[j] == (((x_from + j - base) as usize, y)),
        decreases x_to + 1 - x,
    {
        let ghost prev = coords@;
        coords.push((x, y));
        proof {
            assert forall|j: int| base <= j < coords@.len() implies coords@[j] == (((x_from + j
                - base) as usize, y)) by {
                if j == prev.len() {
                    assert(coords@[j] == ((x, y)));
                } else {
                    assert(coords@[j] == prev[j]);
                }
            }
        }
        x = x + 1;
    }
}

/// Appends `(x, y_from)` up to but not including `(x, y_to)` to the
/// coordinate list; appends nothing when the range is empty.
fn push_col(coords: &mut Vec<(usize, usize)>, y_from: usize, y_to: usize, x: usize)
    ensures
        final(coords)@.len() == old(coords)@.len() + (if y_from < y_to {
            y_to - y_from
        } else {
            0
        }),
        forall|j: int| 0 <= j < old(coords)@.len() ==> final(coords)@[j] == old(coords)@[j],
        forall|j: int|
            old(coords)@.len() <= j < final(coords)@.len() ==> final(coords)@[j] == ((x, (y_from + j
                - old(coords)@.len()) as usize)),
{
    let ghost base = coords@.len() as int;
    let mut y = y_from;
    while y < y_to
        invariant
            y_from <= y,
            y <= y_to || y == y_from,
            coords@.len() == base + (if y_from < y_to {
                y - y_from
            } else {
                0
            }),
            0 <= base <= coords@.len(),
            forall|j: int| 0 <= j < base ==> coords@[j] == old(coords)@[j],
            forall|j: int|
                base <= j < coords@.len() ==> coords@[j] == ((x, (y_from + j - base) as usize)),
        decreases y_to - y,
    {
        let ghost prev = coords@;
        coords.push((x, y));
        proof {
            assert forall|j: int| base <= j < coords@.len() implies coords@[j] == ((x, (y_from + j
                - base) as usize)) by {
                if j == prev.len() {
                    assert(coords@[j] == ((x, y)));
                } else {
                    assert(coords@[j] == prev[j]);
                }
            }
        }
        y = y + 1;
    }
}

/// Lists the perimeter pixels of the rectangle, each exactly once: the top
/// row, the bottom row when it is a different row, and the two side
/// columns between them — so corners appear once each.
fn perimeter_coords(p: &Partition, image_info: &ImageInfo) -> (coords: Vec<(usize, usize)>)
    requires
        image_info.wf(),
        p.in_image(image_info.width as int, image_info.height as int),
    ensures
        forall|j: int|
            0 <= j < coords@.len() ==> p.on_perimeter(
                #[trigger] coords@[j].0 as int,
                coords@[j].1 as int,
            ),
        forall|x: int, y: int|
            #[trigger] p.on_perimeter(x, y) ==> exists|j: int|
                0 <= j < coords@.len() && #[trigger] coords@[j] == ((x as usize, y as usize)),
        forall|j1: int, j2: int|
            0 <= j1 < j2 < coords@.len() ==> coords@[j1] != coords@[j2],
{
    let min_x = p.x_offset;
    let max_x = min_x + p.width - 1;
    let min_y = p.y_offset;
    let max_y = min_y + p.height - 1;

    let mut coords: Vec<(usize, usize)> = Vec::new();

    push_row(&mut coords, min_x, max_x, min_y);
    let ghost len_a = coords@.len() as int;

    if max_y > min_y {
        push_row(&mut coords, min_x, max_x, max_y);
    }
    let ghost len_b = coords@.len() as int;

    push_col(&mut coords, min_y + 1, max_y, min_x);
    let ghost len_c = coords@.len() as int;

    if max_x > min_x {
        push_col(&mut coords, min_y + 1, max_y, max_x);
    }

    proof {
        assert forall|x: int, y: int| #[trigger] p.on_perimeter(x, y) implies exists|j: int|
            0 <= j < coords@.len() && #[trigger] coords@[j] == ((x as usize, y as usize)) by {
            if y == p.min_y() {
                let j = x - p.min_x();
                assert(coords@[j] == ((x as usize, y as usize)));
            } else if y == p.max_y() {
                let j = len_a + (x - p.min_x());
                assert(coords@[j] == ((x as usize, y as usize)));
            } else if x == p.min_x() {
                let j = len_b + (y - p.min_y() - 1);
                assert(coords@[j] == ((x as usize, y as usize)));
            } else {
                let j = len_c + (y - p.min_y() - 1);
                assert(coords@[j] == ((x as usize, y as usize)));
            }
        }
    }

    coords
}

/// The flat row-major buffer index of a coordinate pair in an image `w`
/// pixels wide.
pub open spec fn cell_index(c: (usize, usize), w: int) -> int {
    c.1 * w + c.0
}

/// Evaluates the escape time for every pixel on the rectangle's four
/// edges, writing each outcome into the buffer immediately, and reports
/// whether the whole perimeter is interior: the result is true exactly
/// when afterwards every perimeter entry of the buffer is `Interior`.
#[verifier::loop_isolation(false)]
pub fn evaluate_perimeter(
    image_info: &ImageInfo,
    p: &Partition,
    pixels: &mut Vec<Option<EscapeOutcome>>,
) -> (all_interior: bool)
    requires
        image_info.wf(),
        p.in_image(image_info.width as int, image_info.height as int),
        old(pixels)@.len() == image_info.width * image_info.height,
    ensures
        final(pixels)@.len() == old(pixels)@.len(),
        forall|x: int, y: int|
            0 <= x < image_info.width && 0 <= y < image_info.height && !(#[trigger] p.on_perimeter(
                x,
                y,
            )) ==> final(pixels)@[y * image_info.width + x] == old(pixels)@[y * image_info.width
                + x],
        forall|x: int, y: int|
            #[trigger] p.on_perimeter(x, y) ==> final(pixels)@[y * image_info.width + x] is Some,
        forall|x: int, y: int|
            #[trigger] p.on_perimeter(x, y) ==> entry_correct(
                *image_info,
                x,
                y,
                final(pixels)@[y * image_info.width + x],
            ),
        all_interior <==> (forall|x: int, y: int|
            #[trigger] p.on_perimeter(x, y) ==> final(pixels)@[y * image_info.width + x] == Some(
                EscapeOutcome::Interior,
            )),
{
    let ghost w = image_info.width as int;
    let ghost h = image_info.height as int;
    let ghost buf0 = pixels@;

    let coords = perimeter_coords(p, image_info);

    let mut all_interior = true;
    let mut k: usize = 0;
    while k < coords.len()
        invariant
            k <= coords@.len(),
            pixels@.len() == buf0.len(),
            forall|x: int, y: int|
                0 <= x < w && 0 <= y < h && !(#[trigger] p.on_perimeter(x, y)) ==> pixels@[y * w
                    + x] == buf0[y * w + x],
            forall|j: int|
                0 <= j < k ==> entry_correct(
                    *image_info,
                    coords@[j].0 as int,
                    coords@[j].1 as int,
                    pixels@[#[trigger] cell_index(coords@[j], w)],
                ),
            all_interior ==> (forall|j: int|
                0 <= j < k ==> pixels@[#[trigger] cell_index(coords@[j], w)] == Some(
                    EscapeOutcome::Interior,
                )),
            !all_interior ==> (exists|j: int|
                0 <= j < k && pixels@[#[trigger] cell_index(coords@[j], w)] != Some(
                    EscapeOutcome::Interior,
                )),
        decreases coords@.len() - k,
    {
        let c = coords[k];
        let cx = c.0;
        let cy = c.1;
        proof {
            assert(p.on_perimeter(cx as int, cy as int));
            assert(cx < image_info.width && cy < image_info.height);
        }
        let ghost pre = pixels@;
        let ghost was_all_interior = all_interior;

        let escaped = process_point(cx, cy, pixels, image_info);
        if escaped {
            all_interior = false;
        }
        proof {
            lemma_write_preserves(pre, pixels@, cx as int, cy as int, w, h);
            assert forall|j: int| 0 <= j < k implies pixels@[#[trigger] cell_index(coords@[j], w)]
                == pre[cell_index(coords@[j], w)] by {
                assert(p.on_perimeter(coords@[j].0 as int, coords@[j].1 as int));
                assert(coords@[j] != coords@[k as int]);
            }
            assert(cell_index(coords@[k as int], w) == cy * w + cx);
            if !was_all_interior {
                let j0 = choose|j: int|
                    0 <= j < k && pre[cell_index(coords@[j], w)] != Some(EscapeOutcome::Interior);
                assert(pixels@[cell_index(coords@[j0], w)] != Some(EscapeOutcome::Interior));
            }
        }
        k = k + 1;
    }

    proof {
        assert forall|x: int, y: int| #[trigger] p.on_perimeter(x, y) implies pixels@[y * w + x]
            is Some && entry_correct(*image_info, x, y, pixels@[y * w + x]) by {
            let j = choose|j: int|
                0 <= j < coords@.len() && #[trigger] coords@[j] == ((x as usize, y as usize));
            assert(entry_correct(
                *image_info,
                coords@[j].0 as int,
                coords@[j].1 as int,
                pixels@[cell_index(coords@[j], w)],
            ));
        }
        if all_interior {
            assert forall|x: int, y: int| #[trigger] p.on_perimeter(x, y) implies pixels@[y * w
                + x] == Some(EscapeOutcome::Interior) by {
                let j = choose|j: int|
                    0 <= j < coords@.len() && #[trigger] coords@[j] == ((x as usize, y as usize));
                assert(pixels@[cell_index(coords@[j], w)] == Some(EscapeOutcome::Interior));
            }
        } else {
            let j0 = choose|j: int|
                0 <= j < coords@.len() && pixels@[#[trigger] cell_index(coords@[j], w)] != Some(
                    EscapeOutcome::Interior,
                );
            assert(p.on_perimeter(coords@[j0].0 as int, coords@[j0].1 as int));
        }
    }
    all_interior
}

/// Lists every pixel of the rectangle, row by row in row-major order.
#[verifier::loop_isolation(false)]
fn rect_coords(p: &Partition, image_info: &ImageInfo) -> (coords: Vec<(usize, usize)>)
    requires
        image_info.wf(),
        p.in_image(image_info.width as int, image_info.height as int),
    ensures
        forall|j: int|
            0 <= j < coords@.len() ==> p.contains(
                #[trigger] coords@[j].0 as int,
                coords@[j].1 as int,
            ),
        forall|x: int, y: int|
            #[trigger] p.contains(x, y) ==> exists|j: int|
                0 <= j < coords@.len() && #[trigger] coords@[j] == ((x as usize, y as usize)),
        forall|j1: int, j2: int|
            0 <= j1 < j2 < coords@.len() ==> coords@[j1] != coords@[j2],
{
    let min_x = p.x_offset;
    let max_x = min_x + p.width - 1;
    let min_y = p.y_offset;
    let max_y = min_y + p.height - 1;
    let ghost wd = p.width as int;

    let mut coords: Vec<(usize, usize)> = Vec::new();
    let mut y = min_y;
    while y <= max_y
        invariant
            min_y <= y <= max_y + 1,
            coords@.len() == (y - min_y) * wd,
            forall|j: int|
                0 <= j < coords@.len() ==> (#[trigger] coords@[j]).0 == min_x + (j % wd)
                    && coords@[j].1 == min_y + (j / wd),
        decreases max_y + 1 - y,
    {
        let ghost base = coords@.len() as int;
        push_row(&mut coords, min_x, max_x, y);
        proof {
            assert forall|j: int|
                0 <= j < coords@.len() implies (#[trigger] coords@[j]).0 == min_x + (j % wd)
                    && coords@[j].1 == min_y + (j / wd) by {
                if base <= j {
                    lemma_fundamental_div_mod_converse(j, wd, y - min_y, j - base);
                    assert(coords@[j] == (((min_x + (j - base)) as usize, y)));
                }
            }
            assert((y - min_y) * wd + wd == (y + 1 - min_y) * wd) by (nonlinear_arith);
        }
        y = y + 1;
    }

    proof {
        vstd::arithmetic::div_mod::lemma_mod_bound(0, wd);
        assert forall|j: int|
            0 <= j < coords@.len() implies p.contains(
            #[trigger] coords@[j].0 as int,
            coords@[j].1 as int,
        ) by {
            vstd::arithmetic::div_mod::lemma_mod_bound(j, wd);
            vstd::arithmetic::mul::lemma_mul_is_commutative(p.height as int, wd);
            vstd::arithmetic::div_mod::lemma_multiply_divide_lt(j, wd, p.height as int);
            vstd::arithmetic::div_mod::lemma_div_is_ordered(0, j, wd);
        }
        assert forall|x: int, y2: int| #[trigger] p.contains(x, y2) implies exists|j: int|
            0 <= j < coords@.len() && #[trigger] coords@[j] == ((x as usize, y2 as usize)) by {
            let j = (y2 - p.min_y()) * wd + (x - p.min_x());
            assert(0 <= j < (p.height as int) * wd) by (nonlinear_arith)
                requires
                    0 <= y2 - p.min_y() < p.height as int,
                    0 <= x - p.min_x() < wd,
                    j == (y2 - p.min_y()) * wd + (x - p.min_x()),
            ;
            lemma_fundamental_div_mod_converse(j, wd, y2 - p.min_y(), x - p.min_x());
            assert(coords@[j].0 == x && coords@[j].1 == y2);
            assert(coords@[j] == ((x as usize, y2 as usize)));
        }
        assert forall|j1: int, j2: int| 0 <= j1 < j2 < coords@.len() implies coords@[j1]
            != coords@[j2] by {
            if coords@[j1] == coords@[j2] {
                vstd::arithmetic::div_mod::lemma_fundamental_div_mod(j1, wd);
                vstd::arithmetic::div_mod::lemma_fundamental_div_mod(j2, wd);
            }
        }
    }
    coords
}

/// Fills every pixel strictly inside the rectangle with `Interior`
/// directly, without further evaluation.  The renderer takes this shortcut
/// when the whole perimeter is interior: the Mandelbrot set is connected,
/// so an entirely interior boundary strongly implies an interior inside.
/// This is a heuristic acceleration, not a proof about the set — it can
/// occasionally misclassify a thin exterior filament that crosses the
/// rectangle without touching its perimeter pixels; that is the accepted
/// accuracy/performance trade-off of the renderer.
#[verifier::loop_isolation(false)]
pub fn fill_interior(
    image_info: &ImageInfo,
    p: &Partition,
    pixels: &mut Vec<Option<EscapeOutcome>>,
)
    requires
        image_info.wf(),
        p.in_image(image_info.width as int, image_info.height as int),
        old(pixels)@.len() == image_info.width * image_info.height,
    ensures
        final(pixels)@.len() == old(pixels)@.len(),
        forall|x: int, y: int|
            0 <= x < image_info.width && 0 <= y < image_info.height && !(
            #[trigger] p.strictly_inside(x, y)) ==> final(pixels)@[y * image_info.width + x]
                == old(pixels)@[y * image_info.width + x],
        forall|x: int, y: int|
            #[trigger] p.strictly_inside(x, y) ==> final(pixels)@[y * image_info.width + x]
                == Some(EscapeOutcome::Interior),
{
    let ghost w = image_info.width as int;
    let ghost h = image_info.height as int;
    let ghost buf0 = pixels@;

    if p.width <= 2 || p.height <= 2 {
        // Nothing lies strictly inside a rectangle two pixels or thinner.
        return ;
    }
    let inner = Partition {
        x_offset: p.x_offset + 1,
        y_offset: p.y_offset + 1,
        width: p.width - 2,
        height: p.height - 2,
    };
    proof {
        assert(inner.in_image(w, h));
        assert(forall|x: int, y: int|
            #[trigger] inner.contains(x, y) <==> p.strictly_inside(x, y));
    }

    let coords = rect_coords(&inner, image_info);
    let mut k: usize = 0;
    while k < coords.len()
        invariant
            k <= coords@.len(),
            pixels@.len() == buf0.len(),
            forall|x: int, y: int|
                0 <= x < w && 0 <= y < h && !(#[trigger] p.strictly_inside(x, y)) ==> pixels@[y * w
                    + x] == buf0[y * w + x],
            forall|j: int|
                0 <= j < k ==> pixels@[#[trigger] cell_index(coords@[j], w)] == Some(
                    EscapeOutcome::Interior,
                ),
        decreases coords@.len() - k,
    {
        let c = coords[k];
        let cx = c.0;
        let cy = c.1;
        proof {
            assert(inner.contains(cx as int, cy as int));
            assert(cx < image_info.width && cy < image_info.height);
        }
        let ghost pre = pixels@;
        set_pixel(None, cx, cy, pixels, image_info);
        proof {
            lemma_write_preserves(pre, pixels@, cx as int, cy as int, w, h);
            assert(cell_index(coords@[k as int], w) == cy * w + cx);
            assert(pixels@[cy * w + cx] == Some(outcome_of(None)));
            assert forall|j: int| 0 <= j < k implies pixels@[#[trigger] cell_index(coords@[j], w)]
                == pre[cell_index(coords@[j], w)] by {
                assert(inner.contains(coords@[j].0 as int, coords@[j].1 as int));
                assert(coords@[j] != coords@[k as int]);
            }
        }
        k = k + 1;
    }

    proof {
        assert forall|x: int, y: int| #[trigger] p.strictly_inside(x, y) implies pixels@[y * w + x]
            == Some(EscapeOutcome::Interior) by {
            assert(inner.contains(x, y));
            let j = choose|j: int|
                0 <= j < coords@.len() && #[trigger] coords@[j] == ((x as usize, y as usize));
            assert(pixels@[cell_index(coords@[j], w)] == Some(EscapeOutcome::Interior));
        }
    }
}

/// Evaluates every pixel of the rectangle individually — the brute-force
/// base case for rectangles two pixels or thinner, which subdividing
/// further would not speed up.
#[verifier::loop_isolation(false)]
pub fn evaluate_all(
    image_info: &ImageInfo,
    p: &Partition,
    pixels: &mut Vec<Option<EscapeOutcome>>,
)
    requires
        image_info.wf(),
        p.in_image(image_info.width as int, image_info.height as int),
        old(pixels)@.len() == image_info.width * image_info.height,
    ensures
        final(pixels)@.len() == old(pixels)@.len(),
        forall|x: int, y: int|
            0 <= x < image_info.width && 0 <= y < image_info.height && !(#[trigger] p.contains(
                x,
                y,
            )) ==> final(pixels)@[y * image_info.width + x] == old(pixels)@[y * image_info.width
                + x],
        forall|x: int, y: int|
            #[trigger] p.contains(x, y) ==> final(pixels)@[y * image_info.width + x] is Some,
        forall|x: int, y: int|
            #[trigger] p.contains(x, y) ==> entry_correct(
                *image_info,
                x,
                y,
                final(pixels)@[y * image_info.width + x],
            ),
{
    let ghost w = image_info.width as int;
    let ghost h = image_info.height as int;
    let ghost buf0 = pixels@;

    let coords = rect_coords(p, image_info);
    let mut k: usize = 0;
    while k < coords.len()
        invariant
            k <= coords@.len(),
            pixels@.len() == buf0.len(),
            forall|x: int, y: int|
                0 <= x < w && 0 <= y < h && !(#[trigger] p.contains(x, y)) ==> pixels@[y * w + x]
                    == buf0[y * w + x],
            forall|j: int|
                0 <= j < k ==> entry_correct(
                    *image_info,
                    coords@[j].0 as int,
                    coords@[j].1 as int,
                    pixels@[#[trigger] cell_index(coords@[j], w)],
                ),
        decreases coords@.len() - k,
    {
        let c = coords[k];
        let cx = c.0;
        let cy = c.1;
        proof {
            assert(p.contains(cx as int, cy as int));
            assert(cx < image_info.width && cy < image_info.height);
        }
        let ghost pre = pixels@;
        process_point(cx, cy, pixels, image_info);
        proof {
            lemma_write_preserves(pre, pixels@, cx as int, cy as int, w, h);
            assert(cell_index(coords@[k as int], w) == cy * w + cx);
            assert forall|j: int| 0 <= j < k implies pixels@[#[trigger] cell_index(coords@[j], w)]
                == pre[cell_index(coords@[j], w)] by {
                assert(p.contains(coords@[j].0 as int, coords@[j].1 as int));
                assert(coords@[j] != coords@[k as int]);
            }
        }
        k = k + 1;
    }

    proof {
        assert forall|x: int, y: int| #[trigger] p.contains(x, y) implies pixels@[y * w + x]
            is Some && entry_correct(*image_info, x, y, pixels@[y * w + x]) by {
            let j = choose|j: int|
                0 <= j < coords@.len() && #[trigger] coords@[j] == ((x as usize, y as usize));
            assert(entry_correct(
                *image_info,
                coords@[j].0 as int,
                coords@[j].1 as int,
                pixels@[cell_index(coords@[j], w)],
            ));
        }
    }
}


/// Renders one partition of the image into the shared pixel buffer.
///
/// The rectangle's perimeter is evaluated first.  If every perimeter pixel
/// is interior, the inside is filled with `Interior` directly (the
/// connectedness shortcut).  Otherwise a rectangle two pixels or thinner
/// is evaluated pixel by pixel, and anything larger is split into four
/// disjoint quadrants that are rendered recursively, each quadrant
/// strictly smaller than the parent.
///
/// Afterwards every pixel of the rectangle holds an outcome, and no pixel
/// outside the rectangle has changed — the disjointness that makes
/// sibling partitions safe to render concurrently over one shared buffer.
pub fn process_partition(
    image_info: &ImageInfo,
    p: &Partition,
    pixels: &mut Vec<Option<EscapeOutcome>>,
)
    requires
        image_info.wf(),
        p.in_image(image_info.width as int, image_info.height as int),
        old(pixels)@.len() == image_info.width * image_info.height,
    ensures
        final(pixels)@.len() == old(pixels)@.len(),
        forall|x: int, y: int|
            0 <= x < image_info.width && 0 <= y < image_info.height && !(#[trigger] p.contains(
                x,
                y,
            )) ==> final(pixels)@[y * image_info.width + x] == old(pixels)@[y * image_info.width
                + x],
        forall|x: int, y: int|
            #[trigger] p.contains(x, y) ==> final(pixels)@[y * image_info.width + x] is Some,
        forall|x: int, y: int|
            #[trigger] p.contains(x, y) ==> (final(pixels)@[y * image_info.width + x] == Some(
                EscapeOutcome::Interior,
            ) || entry_correct(*image_info, x, y, final(pixels)@[y * image_info.width + x])),
    decreases p.width * p.height,
{
    let ghost w = image_info.width as int;
    let ghost h = image_info.height as int;

    let perimeter_in_set = evaluate_perimeter(image_info, p, pixels);

    /* Since the Mandelbrot set is a connected set, if the perimeter of the
       rectangle is in the set, then the inside of the rectangle must also
       be in the set.  When this happens, we fill in the entire inside of
       the rectangle with `Interior` and exit without doing any further
       work. */
    if perimeter_in_set {
        let ghost mid = pixels@;
        fill_interior(image_info, p, pixels);
        proof {
            assert forall|x: int, y: int| #[trigger] p.contains(x, y) implies pixels@[y * w + x]
                is Some && (pixels@[y * w + x] == Some(EscapeOutcome::Interior) || entry_correct(
                *image_info,
                x,
                y,
                pixels@[y * w + x],
            )) by {
                if p.on_perimeter(x, y) {
                    assert(!p.strictly_inside(x, y));
                    assert(pixels@[y * w + x] == mid[y * w + x]);
                    assert(entry_correct(*image_info, x, y, mid[y * w + x]));
                } else {
                    assert(p.strictly_inside(x, y));
                    assert(pixels@[y * w + x] == Some(EscapeOutcome::Interior));
                }
            }
            assert forall|x: int, y: int|
                0 <= x < w && 0 <= y < h && !(#[trigger] p.contains(x, y)) implies pixels@[y * w
                + x] == old(pixels)@[y * w + x] by {
                assert(!p.on_perimeter(x, y));
                assert(!p.strictly_inside(x, y));
                assert(mid[y * w + x] == old(pixels)@[y * w + x]);
            }
        }
        // If we encounter these little rectangles, we just compute their
        // points individually.
    } else if p.width <= 2 || p.height <= 2 {
        let ghost mid = pixels@;
        evaluate_all(image_info, p, pixels);
        proof {
            assert forall|x: int, y: int|
                0 <= x < w && 0 <= y < h && !(#[trigger] p.contains(x, y)) implies pixels@[y * w
                + x] == old(pixels)@[y * w + x] by {
                assert(!p.on_perimeter(x, y));
                assert(mid[y * w + x] == old(pixels)@[y * w + x]);
            }
        }
        // Split the current rectangle into four quadrants and render each.
    } else {
        let ghost mid = pixels@;
        let sub_partitions = subdivide_partition(p);
        proof {
            lemma_quadrants_partition(*p);
        }

        let q0 = sub_partitions[0];
        let q1 = sub_partitions[1];
        let q2 = sub_partitions[2];
        let q3 = sub_partitions[3];

        proof {
            assert(q0 == p.quadrant(0) && q1 == p.quadrant(1) && q2 == p.quadrant(2) && q3
                == p.quadrant(3));
            assert(p.quadrant(0).in_image(w, h) && p.quadrant(1).in_image(w, h) && p.quadrant(
                2,
            ).in_image(w, h) && p.quadrant(3).in_image(w, h));
            assert(p.quadrant(0).width * p.quadrant(0).height < p.width * p.height);
            assert(p.quadrant(1).width * p.quadrant(1).height < p.width * p.height);
            assert(p.quadrant(2).width * p.quadrant(2).height < p.width * p.height);
            assert(p.quadrant(3).width * p.quadrant(3).height < p.width * p.height);
        }

        process_partition(image_info, &q0, pixels);
        let ghost t0 = pixels@;
        process_partition(image_info, &q1, pixels);
        let ghost t1 = pixels@;
        process_partition(image_info, &q2, pixels);
        let ghost t2 = pixels@;
        process_partition(image_info, &q3, pixels);

        proof {
            assert forall|x: int, y: int| #[trigger] p.contains(x, y) implies pixels@[y * w + x]
                is Some && (pixels@[y * w + x] == Some(EscapeOutcome::Interior) || entry_correct(
                *image_info,
                x,
                y,
                pixels@[y * w + x],
            )) by {
                assert(p.quadrant(0).contains(x, y) || p.quadrant(1).contains(x, y) || p.quadrant(
                    2,
                ).contains(x, y) || p.quadrant(3).contains(x, y));
                if q3.contains(x, y) {
                } else if q2.contains(x, y) {
                    assert(!q3.contains(x, y));
                    assert(pixels@[y * w + x] == t2[y * w + x]);
                } else if q1.contains(x, y) {
                    assert(!q2.contains(x, y) && !q3.contains(x, y));
                    assert(t2[y * w + x] == t1[y * w + x]);
                    assert(pixels@[y * w + x] == t2[y * w + x]);
                } else {
                    assert(q0.contains(x, y));
                    assert(!q1.contains(x, y) && !q2.contains(x, y) && !q3.contains(x, y));
                    assert(t1[y * w + x] == t0[y * w + x]);
                    assert(t2[y * w + x] == t1[y * w + x]);
                    assert(pixels@[y * w + x] == t2[y * w + x]);
                }
            }
            assert forall|x: int, y: int|
                0 <= x < w && 0 <= y < h && !(#[trigger] p.contains(x, y)) implies pixels@[y * w
                + x] == old(pixels)@[y * w + x] by {
                assert(!p.on_perimeter(x, y));
                assert(mid[y * w + x] == old(pixels)@[y * w + x]);
                assert(!q0.contains(x, y) && !q1.contains(x, y) && !q2.contains(x, y)
                    && !q3.contains(x, y));
                assert(t0[y * w + x] == mid[y * w + x]);
                assert(t1[y * w + x] == t0[y * w + x]);
                assert(t2[y * w + x] == t1[y * w + x]);
            }
        }
    }
}

} // verus!
