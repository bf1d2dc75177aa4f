use rustyruler::threshold::{adjust_threshold, Scroll, Threshold};

fn step(t: u32, scroll: Scroll) -> u32 {
    adjust_threshold(Threshold { millionths: t }, scroll).millionths
}

#[test]
fn initial_threshold_is_twenty() {
    assert_eq!(Threshold::initial(), Threshold { millionths: 20000000 });
}

#[test]
fn scrolling_down_raises_and_up_lowers() {
    assert_eq!(step(20000000, Scroll::Down), 21000000);
    assert_eq!(step(20000000, Scroll::Up), 19047619);
    assert!((step(20000000, Scroll::Up) as f64 / 1e6 - 20.0 / 1.05).abs() < 1e-4);
    assert!(step(20000000, Scroll::Down) > 20000000);
    assert!(step(20000000, Scroll::Up) < 20000000);
}

#[test]
fn small_thresholds_step_by_a_fortieth() {
    assert_eq!(step(4000000, Scroll::Down), 4100000);
    assert_eq!(step(4100000, Scroll::Up), 4000000);
    assert_eq!(step(1000000, Scroll::Down), 1025000);
}

#[test]
fn adjustment_is_clamped() {
    assert_eq!(step(255000000, Scroll::Down), 255000000);
    assert_eq!(step(250000000, Scroll::Down), 255000000);
    assert_eq!(step(1000000, Scroll::Up), 1000000);
    assert_eq!(step(1010000, Scroll::Up), 1000000);
    assert_eq!(step(0, Scroll::Down), 1000000);
    assert_eq!(step(u32::MAX, Scroll::Up), 255000000);
    assert_eq!(step(u32::MAX, Scroll::Down), 255000000);
}

#[test]
fn opposite_steps_nearly_cancel() {
    for t in [1000000u32, 1010000, 5000000, 20000000, 100000000, 200000000, 255000000] {
        let down_up = step(step(t, Scroll::Down), Scroll::Up);
        let up_down = step(step(t, Scroll::Up), Scroll::Down);
        assert!(down_up <= t && 5 * down_up >= 3 * t);
        assert!(up_down <= t + 25000 && 5 * up_down >= 3 * t);
    }
    assert_eq!(step(step(20000000, Scroll::Down), Scroll::Up), 19952494);
    assert_eq!(step(step(20000000, Scroll::Up), Scroll::Down), 19954648);
}
