//! The state of one measuring session: where the pointer is, the limits found
//! there, and the threshold in use. The host feeds it pointer and scroll events.

use vstd::prelude::*;
use crate::raster::Image;
use crate::scan::{calculate_line_limits, line_limits, ScanMode};
use crate::threshold::{adjust_threshold, adjusted, Scroll, Threshold, INITIAL_MILLIONTHS};

verus! {

/// The crosshair: its origin, the four limits of the last scan, whether a scan
/// has happened yet, and the threshold that scans use.
#[derive(Clone, Copy, Debug, PartialEq, Eq, Structural)]
pub struct Crosshair {
    pub x: u32,
    pub y: u32,
    pub top_limit: u32,
    pub bottom_limit: u32,
    pub left_limit: u32,
    pub right_limit: u32,
    pub initialized: bool,
    pub threshold: Threshold,
}

/// `v`, or `bound - 1` where `v` does not lie below `bound`.
pub open spec fn clamp_below(v: u32, bound: u32) -> u32 {
    if v >= bound {
        (bound - 1) as u32
    } else {
        v
    }
}

impl Crosshair {
    /// Whether the limits are those of a scan at the origin with the current
    /// threshold.
    pub open spec fn limits_match(self, img: &Image, mode: ScanMode) -> bool {
        line_limits(img@, self.x as int, self.y as int, mode, self.threshold) == (
            self.top_limit as int,
            self.bottom_limit as int,
            self.left_limit as int,
            self.right_limit as int,
        )
    }

    /// A session before the pointer has been seen: nothing scanned yet, and the
    /// initial threshold of 20.0.
    pub fn new() -> (r: Crosshair)
        ensures
            !r.initialized,
            r.threshold.millionths == INITIAL_MILLIONTHS,
            r.x == 0 && r.y == 0,
            r.top_limit == 0 && r.bottom_limit == 0 && r.left_limit == 0 && r.right_limit == 0,
    {
        Crosshair {
            x: 0,
            y: 0,
            top_limit: 0,
            bottom_limit: 0,
            left_limit: 0,
            right_limit: 0,
            initialized: false,
            threshold: Threshold::initial(),
        }
    }

    /// The pointer is over image pixel `(x, y)`, which may lie past the right
    /// or bottom edge: the origin moves there, clamped into the image, and the
    /// limits are scanned anew.
    pub fn pointer_moved(&mut self, img: &Image, x: u32, y: u32, mode: ScanMode)
        ensures
            final(self).x == clamp_below(x, img@.width as u32),
            final(self).y == clamp_below(y, img@.height as u32),
            final(self).initialized,
            final(self).threshold == old(self).threshold,
            final(self).limits_match(img, mode),
    {
        let (width, height) = img.dimensions();
        let cx: u32 = if x >= width {
            width - 1
        } else {
            x
        };
        let cy: u32 = if y >= height {
            height - 1
        } else {
            y
        };
        let (top, bottom, left, right) = calculate_line_limits(img, cx, cy, mode, self.threshold);
        self.x = cx;
        self.y = cy;
        self.top_limit = top;
        self.bottom_limit = bottom;
        self.left_limit = left;
        self.right_limit = right;
        self.initialized = true;
    }

    /// The wheel turned: the threshold takes one step, and where a scan has
    /// happened the limits are scanned anew at the same origin.
    pub fn scrolled(&mut self, img: &Image, scroll: Scroll, mode: ScanMode)
        requires
            old(self).initialized ==> img@.contains(old(self).x as int, old(self).y as int),
        ensures
            final(self).threshold.millionths == adjusted(
                old(self).threshold.millionths as int,
                scroll,
            ),
            final(self).x == old(self).x && final(self).y == old(self).y,
            final(self).initialized == old(self).initialized,
            final(self).initialized ==> final(self).limits_match(img, mode),
            !final(self).initialized ==> (final(self).top_limit == old(self).top_limit
                && final(self).bottom_limit == old(self).bottom_limit
                && final(self).left_limit == old(self).left_limit
                && final(self).right_limit == old(self).right_limit),
    {
        let threshold = adjust_threshold(self.threshold, scroll);
        self.threshold = threshold;
        if self.initialized {
            let (top, bottom, left, right) = calculate_line_limits(
                img,
                self.x,
                self.y,
                mode,
                threshold,
            );
            self.top_limit = top;
            self.bottom_limit = bottom;
            self.left_limit = left;
            self.right_limit = right;
        }
    }

    /// The measured width in pixels: both limits count.
    pub fn horizontal_span(&self) -> (r: u64)
        requires
            self.left_limit <= self.right_limit,
        ensures
            r == self.right_limit - self.left_limit + 1,
    {
        (self.right_limit - self.left_limit) as u64 + 1
    }

    /// The measured height in pixels: both limits count.
    pub fn vertical_span(&self) -> (r: u64)
        requires
            self.top_limit <= self.bottom_limit,
        ensures
            r == self.bottom_limit - self.top_limit + 1,
    {
        (self.bottom_limit - self.top_limit) as u64 + 1
    }
}

} // verus!
