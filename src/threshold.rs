//! The colour sensitivity of a scan, kept in millionths of a unit of Euclidean
//! RGB distance, and its proportional adjustment by scrolling.

use vstd::prelude::*;

verus! {

/// The least threshold that scrolling leads to: 1.0.
pub const MIN_MILLIONTHS: u32 = 1000000;

/// The greatest threshold that scrolling leads to: 255.0.
pub const MAX_MILLIONTHS: u32 = 255000000;

/// The threshold a session starts with: 20.0.
pub const INITIAL_MILLIONTHS: u32 = 20000000;

/// A colour distance above which two neighbouring pixels count as an edge,
/// in millionths: `Threshold { millionths: 20000000 }` stands for 20.0.
#[derive(Clone, Copy, Debug, PartialEq, Eq, Structural)]
pub struct Threshold {
    pub millionths: u32,
}

/// A turn of the scroll wheel.
#[derive(Clone, Copy, Debug, PartialEq, Eq, Structural)]
pub enum Scroll {
    /// Away from the user: the threshold falls.
    Up,
    /// Towards the user: the threshold rises.
    Down,
}

pub open spec fn clamp_millionths(v: int) -> int {
    if v < MIN_MILLIONTHS {
        MIN_MILLIONTHS as int
    } else if v > MAX_MILLIONTHS {
        MAX_MILLIONTHS as int
    } else {
        v
    }
}

/// The size of one scroll step relative to the threshold, in units of
/// 1/400000000: five hundredths of `max(t / 20, 0.5)`, so that a step is a fixed
/// share of the threshold at low values and grows with it at high ones.
pub open spec fn step_weight(t: int) -> int {
    if t > 10000000 {
        t
    } else {
        10000000
    }
}

/// The threshold after one step down the wheel: multiplied by
/// `1 + step_weight / 400000000`, rounded down, then clamped.
pub open spec fn raised(t: int) -> int {
    clamp_millionths(t * (400000000 + step_weight(t)) / 400000000)
}

/// The threshold after one step up the wheel: divided by
/// `1 + step_weight / 400000000`, rounded down, then clamped.
pub open spec fn lowered(t: int) -> int {
    clamp_millionths(t * 400000000 / (400000000 + step_weight(t)))
}

pub open spec fn adjusted(t: int, scroll: Scroll) -> int {
    match scroll {
        Scroll::Down => raised(t),
        Scroll::Up => lowered(t),
    }
}

impl Threshold {
    /// The threshold of a fresh session, 20.0.
    pub fn initial() -> (r: Threshold)
        ensures
            r.millionths == INITIAL_MILLIONTHS,
    {
        Threshold { millionths: INITIAL_MILLIONTHS }
    }
}

/// `a / b` brackets `a` between two multiples of `b`.
proof fn lemma_div_bracket(a: int, b: int)
    requires
        0 <= a,
        0 < b,
    ensures
        (a / b) * b <= a < (a / b) * b + b,
        0 <= a / b,
{
    vstd::arithmetic::div_mod::lemma_fundamental_div_mod(a, b);
    vstd::arithmetic::div_mod::lemma_mod_bound(a, b);
    vstd::arithmetic::div_mod::lemma_div_pos_is_pos(a, b);
    assert((a / b) * b == b * (a / b)) by (nonlinear_arith);
}

/// Scrolling moves the threshold by one proportional step and keeps it within
/// `[1.0, 255.0]`: down never lowers it, and raises it unless it is at the top;
/// up never raises it, and lowers it unless it is at the bottom.
pub fn adjust_threshold(current: Threshold, scroll: Scroll) -> (r: Threshold)
    ensures
        r.millionths == adjusted(current.millionths as int, scroll),
        MIN_MILLIONTHS <= r.millionths <= MAX_MILLIONTHS,
        scroll == Scroll::Down && current.millionths < MAX_MILLIONTHS ==> r.millionths
            > current.millionths,
        scroll == Scroll::Up && current.millionths > MIN_MILLIONTHS ==> r.millionths
            < current.millionths,
{
    let t: u128 = current.millionths as u128;
    let weight: u128 = if t > 10000000 {
        t
    } else {
        10000000
    };
    let stepped: u128 = match scroll {
        Scroll::Down => {
            assert(t * (400000000 + weight) <= 0x1_0000_0000 * 0x2_0000_0000) by (nonlinear_arith)
                requires
                    t < 0x1_0000_0000,
                    weight < 0x1_0000_0000,
            ;
            proof {
                lemma_div_bracket(t * (400000000 + weight), 400000000);
                assert(t * (400000000 + weight) == t * 400000000 + t * weight) by (nonlinear_arith);
                if t >= 1000000 {
                    assert(t * weight >= 1000000 * 10000000) by (nonlinear_arith)
                        requires
                            t >= 1000000,
                            weight >= 10000000,
                    ;
                }
            }
            t * (400000000 + weight) / 400000000
        },
        Scroll::Up => {
            proof {
                lemma_div_bracket(t * 400000000, 400000000 + weight);
                if t > 1000000 {
                    let q = t * 400000000 / (400000000 + weight);
                    assert(q < t) by (nonlinear_arith)
                        requires
                            q * (400000000 + weight) <= t * 400000000,
                            weight > 0,
                            t > 0,
                    ;
                }
            }
            t * 400000000 / (400000000 + weight)
        },
    };
    let clamped: u128 = if stepped < MIN_MILLIONTHS as u128 {
        MIN_MILLIONTHS as u128
    } else if stepped > MAX_MILLIONTHS as u128 {
        MAX_MILLIONTHS as u128
    } else {
        stepped
    };
    Threshold { millionths: clamped as u32 }
}

/// One step down the wheel followed by one step up, or the other way round,
/// comes back close to where it started: never above it (but for the 25000
/// millionths that a step from the floor of the range adds), and never below
/// three fifths of it. The steps are proportional to the threshold they start
/// from, and the range is clamped, so the two are not exact inverses.
pub proof fn lemma_scroll_round_trip(t: int)
    requires
        MIN_MILLIONTHS <= t <= MAX_MILLIONTHS,
    ensures
        lowered(raised(t)) <= t,
        5 * lowered(raised(t)) >= 3 * t,
        raised(lowered(t)) <= t + 25000,
        5 * raised(lowered(t)) >= 3 * t,
{
    let w = step_weight(t);
    // Down, then up.
    let d_raw = t * (400000000 + w) / 400000000;
    lemma_div_bracket(t * (400000000 + w), 400000000);
    assert(t * (400000000 + w) == t * 400000000 + t * w) by (nonlinear_arith);
    assert(t * w >= 0) by (nonlinear_arith)
        requires
            t >= 0,
            w >= 0,
    ;
    assert(d_raw >= t);
    let d = raised(t);
    assert(t <= d <= MAX_MILLIONTHS);
    assert(d * 400000000 <= t * (400000000 + w));
    let wd = step_weight(d);
    let q = d * 400000000 / (400000000 + wd);
    lemma_div_bracket(d * 400000000, 400000000 + wd);
    assert(t * (400000000 + w) <= t * (400000000 + wd)) by (nonlinear_arith)
        requires
            t >= 0,
            w <= wd,
    ;
    assert(q <= t) by (nonlinear_arith)
        requires
            q * (400000000 + wd) <= t * (400000000 + wd),
            wd > 0,
    ;
    assert((q + 1) * (400000000 + wd) == q * (400000000 + wd) + (400000000 + wd)) by (nonlinear_arith);
    assert((q + 1) * (400000000 + wd) <= (q + 1) * 655000000) by (nonlinear_arith)
        requires
            q >= 0,
            wd <= 255000000,
    ;
    assert(5 * q >= 3 * t) by (nonlinear_arith)
        requires
            (q + 1) * 655000000 > d * 400000000,
            d >= t,
            t >= 1000000,
    ;
    assert(lowered(d) == clamp_millionths(q));
    // Up, then down.
    let u_raw = t * 400000000 / (400000000 + w);
    lemma_div_bracket(t * 400000000, 400000000 + w);
    assert(u_raw <= t) by (nonlinear_arith)
        requires
            u_raw * (400000000 + w) <= t * 400000000,
            w > 0,
            t > 0,
    ;
    assert((u_raw + 1) * (400000000 + w) == u_raw * (400000000 + w) + (400000000 + w)) by (nonlinear_arith);
    assert((u_raw + 1) * (400000000 + w) <= (u_raw + 1) * 655000000) by (nonlinear_arith)
        requires
            u_raw >= 0,
            w <= 255000000,
    ;
    assert(5 * u_raw >= 3 * t) by (nonlinear_arith)
        requires
            (u_raw + 1) * 655000000 > t * 400000000,
            t >= 1000000,
    ;
    let u = lowered(t);
    if u_raw >= MIN_MILLIONTHS {
        assert(u == u_raw);
        let wu = step_weight(u);
        let r_raw = u * (400000000 + wu) / 400000000;
        lemma_div_bracket(u * (400000000 + wu), 400000000);
        assert(u * (400000000 + wu) <= u * (400000000 + w)) by (nonlinear_arith)
            requires
                u >= 0,
                wu <= w,
        ;
        assert(u * (400000000 + wu) == u * 400000000 + u * wu) by (nonlinear_arith);
        assert(u * wu >= 0) by (nonlinear_arith)
            requires
                u >= 0,
                wu >= 0,
        ;
        assert(u <= r_raw <= t);
    } else {
        assert((u_raw + 1) * (400000000 + w) <= 1000000 * (400000000 + w)) by (nonlinear_arith)
            requires
                0 <= u_raw < 1000000,
                w >= 0,
        ;
        assert(t < 1025000);
        assert(u == 1000000);
        assert(raised(1000000) == 1025000);
    }
}

} // verus!
