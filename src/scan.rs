//! The boundary scanner: from an origin, walk pixel by pixel towards an image
//! edge and stop at the first step whose colour change exceeds the threshold.

use vstd::prelude::*;
use crate::raster::{Image, ImageModel, Rgb};
use crate::threshold::Threshold;

verus! {

/// The squared difference of one channel.
pub open spec fn channel_gap2(a: u8, b: u8) -> int {
    (a - b) * (a - b)
}

/// The squared Euclidean distance between two colours in RGB space.
pub open spec fn distance2(p: Rgb, q: Rgb) -> int {
    channel_gap2(p.r, q.r) + channel_gap2(p.g, q.g) + channel_gap2(p.b, q.b)
}

/// Whether going from `p` to `q` crosses an edge: their Euclidean distance is
/// strictly greater than the threshold. Both sides are non-negative, so
/// `sqrt(distance2) > millionths / 1000000` is the same as the comparison of
/// squares below, which involves no rounding.
pub open spec fn is_edge(p: Rgb, q: Rgb, t: Threshold) -> bool {
    1000000000000 * distance2(p, q) > t.millionths * t.millionths
}

/// The number of steps between two coordinates.
pub open spec fn gap(a: int, b: int) -> nat {
    if a <= b {
        (b - a) as nat
    } else {
        (a - b) as nat
    }
}

/// The pixel at `pos` on the line through `fixed`: on column `fixed` when
/// `vertical`, on row `fixed` otherwise.
pub open spec fn line_pixel(m: ImageModel, vertical: bool, fixed: int, pos: int) -> Rgb {
    if vertical {
        m.pixel(fixed, pos)
    } else {
        m.pixel(pos, fixed)
    }
}

/// Where a walk along a line, now at `pos`, stops on its way to `end`: at the
/// first position whose pixel is an edge away from the pixel before it, or at
/// `end` where there is none.
pub open spec fn walk_from(
    m: ImageModel,
    vertical: bool,
    fixed: int,
    pos: int,
    end: int,
    t: Threshold,
) -> int
    decreases gap(pos, end),
{
    if pos == end {
        end
    } else {
        let next = if pos < end {
            pos + 1
        } else {
            pos - 1
        };
        if is_edge(line_pixel(m, vertical, fixed, pos), line_pixel(m, vertical, fixed, next), t) {
            next
        } else {
            walk_from(m, vertical, fixed, next, end, t)
        }
    }
}

/// The limit of one scan from `(x, y)` towards `end`, along the column through
/// `x` when `vertical`, along the row through `y` otherwise.
pub open spec fn scan_limit(
    m: ImageModel,
    x: int,
    y: int,
    end: int,
    vertical: bool,
    t: Threshold,
) -> int {
    if vertical {
        walk_from(m, true, x, y, end, t)
    } else {
        walk_from(m, false, y, x, end, t)
    }
}

/// Which axes a query scans.
#[derive(Clone, Copy, Debug, PartialEq, Eq, Structural)]
pub enum ScanMode {
    /// Both axes: a full crosshair.
    Both,
    /// Only along the row: left and right.
    HorizontalOnly,
    /// Only along the column: up and down.
    VerticalOnly,
}

impl ScanMode {
    pub open spec fn spec_scans_vertical(self) -> bool {
        !(self is HorizontalOnly)
    }

    pub open spec fn spec_scans_horizontal(self) -> bool {
        !(self is VerticalOnly)
    }

    /// Whether the top and bottom limits are scanned.
    pub fn scans_vertical(&self) -> (r: bool)
        ensures
            r == self.spec_scans_vertical(),
    {
        match self {
            ScanMode::HorizontalOnly => false,
            _ => true,
        }
    }

    /// Whether the left and right limits are scanned.
    pub fn scans_horizontal(&self) -> (r: bool)
        ensures
            r == self.spec_scans_horizontal(),
    {
        match self {
            ScanMode::VerticalOnly => false,
            _ => true,
        }
    }
}

/// The four limits `(top, bottom, left, right)` of a query at `(x, y)`; an axis
/// that `mode` leaves out keeps the origin's coordinate on both sides.
pub open spec fn line_limits(m: ImageModel, x: int, y: int, mode: ScanMode, t: Threshold) -> (
    int,
    int,
    int,
    int,
) {
    (
        if mode.spec_scans_vertical() {
            scan_limit(m, x, y, 0, true, t)
        } else {
            y
        },
        if mode.spec_scans_vertical() {
            scan_limit(m, x, y, m.height - 1, true, t)
        } else {
            y
        },
        if mode.spec_scans_horizontal() {
            scan_limit(m, x, y, 0, false, t)
        } else {
            x
        },
        if mode.spec_scans_horizontal() {
            scan_limit(m, x, y, m.width - 1, false, t)
        } else {
            x
        },
    )
}

proof fn lemma_channel_gap(a: u8, b: u8, d: u64)
    requires
        d == (if a >= b {
            a - b
        } else {
            b - a
        }),
    ensures
        d * d == channel_gap2(a, b),
        d * d <= 65025,
{
    assert(d * d == (a - b) * (a - b)) by (nonlinear_arith)
        requires
            d == a - b || d == b - a,
    ;
    assert(d * d <= 255 * 255) by (nonlinear_arith)
        requires
            0 <= d <= 255,
    ;
}

fn channel_gap(a: u8, b: u8) -> (r: u64)
    ensures
        r * r == channel_gap2(a, b),
        r * r <= 65025,
{
    let d: u64 = if a >= b {
        (a - b) as u64
    } else {
        (b - a) as u64
    };
    proof {
        lemma_channel_gap(a, b, d);
    }
    d
}

/// Whether going from colour `p` to colour `q` crosses an edge at threshold `t`.
pub fn crosses_edge(p: Rgb, q: Rgb, t: Threshold) -> (r: bool)
    ensures
        r == is_edge(p, q, t),
{
    let dr = channel_gap(p.r, q.r);
    let dg = channel_gap(p.g, q.g);
    let db = channel_gap(p.b, q.b);
    let squared: u64 = dr * dr + dg * dg + db * db;
    let limit: u64 = t.millionths as u64;
    assert(limit * limit <= u32::MAX * u32::MAX) by (nonlinear_arith)
        requires
            limit <= u32::MAX,
    ;
    1000000000000 * squared > limit * limit
}

fn pixel_on_line(img: &Image, vertical: bool, fixed: u32, pos: u32) -> (r: Rgb)
    requires
        vertical ==> img@.contains(fixed as int, pos as int),
        !vertical ==> img@.contains(pos as int, fixed as int),
    ensures
        r == line_pixel(img@, vertical, fixed as int, pos as int),
{
    if vertical {
        img.get_pixel(fixed, pos)
    } else {
        img.get_pixel(pos, fixed)
    }
}

/// Whether every position from `a` to `b` (inclusive, in either order) on the
/// line through `fixed` lies inside the image.
pub open spec fn line_in_bounds(m: ImageModel, vertical: bool, fixed: int, a: int, b: int) -> bool {
    forall|k: int|
        #![trigger line_pixel(m, vertical, fixed, k)]
        (a <= k <= b || b <= k <= a) ==> if vertical {
            m.contains(fixed, k)
        } else {
            m.contains(k, fixed)
        }
}

/// The limit of one scan from `(x, y)` towards `end`: along the column through
/// `x` when `vertical` (with `end` a row), along the row through `y` otherwise
/// (with `end` a column). The result lies between the origin's coordinate and
/// `end`.
pub fn calculate_limit(
    img: &Image,
    x: u32,
    y: u32,
    end: u32,
    vertical: bool,
    threshold: Threshold,
) -> (r: u32)
    requires
        img@.contains(x as int, y as int),
        vertical ==> end < img@.height,
        !vertical ==> end < img@.width,
    ensures
        r == scan_limit(img@, x as int, y as int, end as int, vertical, threshold),
        vertical ==> (y <= r <= end || end <= r <= y),
        !vertical ==> (x <= r <= end || end <= r <= x),
{
    let start: u32 = if vertical {
        y
    } else {
        x
    };
    let fixed: u32 = if vertical {
        x
    } else {
        y
    };
    let ghost m = img@;
    assert(line_in_bounds(m, vertical, fixed as int, start as int, end as int));
    let mut last = pixel_on_line(img, vertical, fixed, start);
    let mut pos: u32 = start;
    if start <= end {
        while pos < end
            invariant
                start <= pos <= end,
                m == img@,
                start == (if vertical {
                    y
                } else {
                    x
                }),
                fixed == (if vertical {
                    x
                } else {
                    y
                }),
                line_in_bounds(m, vertical, fixed as int, start as int, end as int),
                last == line_pixel(m, vertical, fixed as int, pos as int),
                walk_from(m, vertical, fixed as int, start as int, end as int, threshold)
                    == walk_from(m, vertical, fixed as int, pos as int, end as int, threshold),
            decreases end - pos,
        {
            let next: u32 = pos + 1;
            let current = pixel_on_line(img, vertical, fixed, next);
            if crosses_edge(last, current, threshold) {
                return next;
            }
            last = current;
            pos = next;
        }
    } else {
        while pos > end
            invariant
                end <= pos <= start,
                m == img@,
                start == (if vertical {
                    y
                } else {
                    x
                }),
                fixed == (if vertical {
                    x
                } else {
                    y
                }),
                line_in_bounds(m, vertical, fixed as int, start as int, end as int),
                last == line_pixel(m, vertical, fixed as int, pos as int),
                walk_from(m, vertical, fixed as int, start as int, end as int, threshold)
                    == walk_from(m, vertical, fixed as int, pos as int, end as int, threshold),
            decreases pos - end,
        {
            let next: u32 = pos - 1;
            let current = pixel_on_line(img, vertical, fixed, next);
            if crosses_edge(last, current, threshold) {
                return next;
            }
            last = current;
            pos = next;
        }
    }
    end
}

/// The four limits `(top, bottom, left, right)` of a query at `(x, y)`, which
/// must lie inside the image. Each scanned limit is on its own side of the
/// origin and inside the image; an axis that `mode` leaves out keeps the
/// origin's coordinate.
pub fn calculate_line_limits(
    img: &Image,
    x: u32,
    y: u32,
    mode: ScanMode,
    threshold: Threshold,
) -> (r: (u32, u32, u32, u32))
    requires
        img@.contains(x as int, y as int),
    ensures
        (r.0 as int, r.1 as int, r.2 as int, r.3 as int) == line_limits(
            img@,
            x as int,
            y as int,
            mode,
            threshold,
        ),
        r.0 <= y <= r.1 < img@.height,
        r.2 <= x <= r.3 < img@.width,
        mode is HorizontalOnly ==> r.0 == y && r.1 == y,
        mode is VerticalOnly ==> r.2 == x && r.3 == x,
{
    let (width, height) = img.dimensions();
    let mut top_limit: u32 = y;
    let mut bottom_limit: u32 = y;
    let mut left_limit: u32 = x;
    let mut right_limit: u32 = x;
    if mode.scans_vertical() {
        top_limit = calculate_limit(img, x, y, 0, true, threshold);
        bottom_limit = calculate_limit(img, x, y, height - 1, true, threshold);
    }
    if mode.scans_horizontal() {
        left_limit = calculate_limit(img, x, y, 0, false, threshold);
        right_limit = calculate_limit(img, x, y, width - 1, false, threshold);
    }
    (top_limit, bottom_limit, left_limit, right_limit)
}

/// A walk stops between where it is and where it is going.
pub proof fn lemma_walk_bounded(
    m: ImageModel,
    vertical: bool,
    fixed: int,
    pos: int,
    end: int,
    t: Threshold,
)
    ensures
        pos <= end ==> pos <= walk_from(m, vertical, fixed, pos, end, t) <= end,
        end <= pos ==> end <= walk_from(m, vertical, fixed, pos, end, t) <= pos,
    decreases gap(pos, end),
{
    if pos != end {
        let next = if pos < end {
            pos + 1
        } else {
            pos - 1
        };
        lemma_walk_bounded(m, vertical, fixed, next, end, t);
    }
}

/// Every limit of a query lies inside the image and on its own side of the
/// origin: `0 <= top <= y <= bottom <= height - 1` and
/// `0 <= left <= x <= right <= width - 1`.
pub proof fn lemma_limits_bounded(m: ImageModel, x: int, y: int, mode: ScanMode, t: Threshold)
    requires
        m.contains(x, y),
    ensures
        0 <= line_limits(m, x, y, mode, t).0 <= y,
        y <= line_limits(m, x, y, mode, t).1 <= m.height - 1,
        0 <= line_limits(m, x, y, mode, t).2 <= x,
        x <= line_limits(m, x, y, mode, t).3 <= m.width - 1,
{
    lemma_walk_bounded(m, true, x, y, 0, t);
    lemma_walk_bounded(m, true, x, y, m.height - 1, t);
    lemma_walk_bounded(m, false, y, x, 0, t);
    lemma_walk_bounded(m, false, y, x, m.width - 1, t);
}

/// A change that is an edge at a threshold is an edge at every lower one.
pub proof fn lemma_edge_at_lower_threshold(p: Rgb, q: Rgb, low: Threshold, high: Threshold)
    requires
        low.millionths <= high.millionths,
        is_edge(p, q, high),
    ensures
        is_edge(p, q, low),
{
    let a = low.millionths as int;
    let b = high.millionths as int;
    assert(a * a <= b * b) by (nonlinear_arith)
        requires
            0 <= a <= b,
    ;
}

/// A higher threshold never stops a walk sooner.
pub proof fn lemma_walk_threshold_monotonic(
    m: ImageModel,
    vertical: bool,
    fixed: int,
    pos: int,
    end: int,
    low: Threshold,
    high: Threshold,
)
    requires
        low.millionths <= high.millionths,
    ensures
        gap(pos, walk_from(m, vertical, fixed, pos, end, low)) <= gap(
            pos,
            walk_from(m, vertical, fixed, pos, end, high),
        ),
    decreases gap(pos, end),
{
    if pos != end {
        let next = if pos < end {
            pos + 1
        } else {
            pos - 1
        };
        let p = line_pixel(m, vertical, fixed, pos);
        let q = line_pixel(m, vertical, fixed, next);
        lemma_walk_bounded(m, vertical, fixed, next, end, low);
        lemma_walk_bounded(m, vertical, fixed, next, end, high);
        if is_edge(p, q, high) {
            lemma_edge_at_lower_threshold(p, q, low, high);
        } else if !is_edge(p, q, low) {
            lemma_walk_threshold_monotonic(m, vertical, fixed, next, end, low, high);
        }
    }
}

/// Raising the threshold never brings a limit closer to the origin: with
/// `low <= high`, each limit at `high` is at least as far from `(x, y)` as at
/// `low`.
pub proof fn lemma_limits_threshold_monotonic(
    m: ImageModel,
    x: int,
    y: int,
    mode: ScanMode,
    low: Threshold,
    high: Threshold,
)
    requires
        m.contains(x, y),
        low.millionths <= high.millionths,
    ensures
        line_limits(m, x, y, mode, high).0 <= line_limits(m, x, y, mode, low).0,
        line_limits(m, x, y, mode, low).1 <= line_limits(m, x, y, mode, high).1,
        line_limits(m, x, y, mode, high).2 <= line_limits(m, x, y, mode, low).2,
        line_limits(m, x, y, mode, low).3 <= line_limits(m, x, y, mode, high).3,
{
    lemma_limits_bounded(m, x, y, mode, low);
    lemma_limits_bounded(m, x, y, mode, high);
    lemma_walk_threshold_monotonic(m, true, x, y, 0, low, high);
    lemma_walk_threshold_monotonic(m, true, x, y, m.height - 1, low, high);
    lemma_walk_threshold_monotonic(m, false, y, x, 0, low, high);
    lemma_walk_threshold_monotonic(m, false, y, x, m.width - 1, low, high);
}

/// A walk over a stretch of one colour runs to its end.
proof fn lemma_walk_uniform(
    m: ImageModel,
    vertical: bool,
    fixed: int,
    pos: int,
    end: int,
    t: Threshold,
    c: Rgb,
)
    requires
        forall|k: int|
            #![trigger line_pixel(m, vertical, fixed, k)]
            (pos <= k <= end || end <= k <= pos) ==> line_pixel(m, vertical, fixed, k) == c,
    ensures
        walk_from(m, vertical, fixed, pos, end, t) == end,
    decreases gap(pos, end),
{
    if pos != end {
        let next = if pos < end {
            pos + 1
        } else {
            pos - 1
        };
        assert(line_pixel(m, vertical, fixed, pos) == c);
        assert(line_pixel(m, vertical, fixed, next) == c);
        assert(distance2(c, c) == 0);
        assert(t.millionths * t.millionths >= 0) by (nonlinear_arith);
        lemma_walk_uniform(m, vertical, fixed, next, end, t, c);
    }
}

/// On an image whose pixels all have one colour, every scan reaches the image
/// edge, whatever the threshold: the limits are `(0, height - 1, 0, width - 1)`.
pub proof fn lemma_uniform_image_reaches_edges(m: ImageModel, x: int, y: int, t: Threshold)
    requires
        m.contains(x, y),
        forall|i: int, j: int| #[trigger] m.contains(i, j) ==> m.pixel(i, j) == m.pixel(x, y),
    ensures
        line_limits(m, x, y, ScanMode::Both, t) == (0int, m.height - 1, 0int, m.width - 1),
{
    let c = m.pixel(x, y);
    assert forall|k: int|
        #![trigger line_pixel(m, true, x, k)]
        (0 <= k <= y || y <= k <= m.height - 1) implies line_pixel(m, true, x, k) == c by {
        assert(m.contains(x, k));
    }
    assert forall|k: int|
        #![trigger line_pixel(m, false, y, k)]
        (0 <= k <= x || x <= k <= m.width - 1) implies line_pixel(m, false, y, k) == c by {
        assert(m.contains(k, y));
    }
    lemma_walk_uniform(m, true, x, y, 0, t, c);
    lemma_walk_uniform(m, true, x, y, m.height - 1, t, c);
    lemma_walk_uniform(m, false, y, x, 0, t, c);
    lemma_walk_uniform(m, false, y, x, m.width - 1, t, c);
}

} // verus!
