use rustyruler::raster::{Image, Rgb};
use rustyruler::scan::{calculate_limit, calculate_line_limits, crosses_edge, ScanMode};
use rustyruler::threshold::Threshold;

const BLACK: Rgb = Rgb { r: 0, g: 0, b: 0 };
const WHITE: Rgb = Rgb { r: 255, g: 255, b: 255 };

fn image_of(width: u32, height: u32, pixels: &[Rgb]) -> Image {
    let mut samples = Vec::new();
    for p in pixels {
        samples.push(p.r);
        samples.push(p.g);
        samples.push(p.b);
    }
    Image::from_raw(width, height, samples).expect("layout matches")
}

fn twenty() -> Threshold {
    Threshold { millionths: 20000000 }
}

fn half_black_row() -> Image {
    let mut pixels = vec![BLACK; 5];
    pixels.extend(vec![WHITE; 5]);
    image_of(10, 1, &pixels)
}

#[test]
fn black_to_white_row_stops_at_first_white() {
    let img = half_black_row();
    let (top, bottom, left, right) =
        calculate_line_limits(&img, 2, 0, ScanMode::HorizontalOnly, twenty());
    assert_eq!(right, 5);
    assert_eq!(left, 0);
    assert_eq!(top, 0);
    assert_eq!(bottom, 0);
}

#[test]
fn scanning_back_from_white_stops_at_last_black() {
    let img = half_black_row();
    assert_eq!(calculate_limit(&img, 8, 0, 0, false, twenty()), 4);
    assert_eq!(calculate_limit(&img, 8, 0, 9, false, twenty()), 9);
}

#[test]
fn single_pixel_image_gives_zero_limits() {
    let img = image_of(1, 1, &[Rgb { r: 10, g: 20, b: 30 }]);
    assert_eq!(calculate_line_limits(&img, 0, 0, ScanMode::Both, twenty()), (0, 0, 0, 0));
}

#[test]
fn uniform_image_reaches_every_edge() {
    let img = image_of(4, 3, &vec![Rgb { r: 7, g: 7, b: 7 }; 12]);
    for threshold in [0u32, 1, 1000000, 20000000, 255000000] {
        let t = Threshold { millionths: threshold };
        assert_eq!(calculate_line_limits(&img, 1, 1, ScanMode::Both, t), (0, 2, 0, 3));
        assert_eq!(calculate_line_limits(&img, 3, 2, ScanMode::Both, t), (0, 2, 0, 3));
    }
}

#[test]
fn horizontal_mode_keeps_vertical_limits_at_origin() {
    let img = image_of(3, 3, &vec![BLACK; 9]);
    let (top, bottom, left, right) =
        calculate_line_limits(&img, 1, 1, ScanMode::HorizontalOnly, twenty());
    assert_eq!((top, bottom), (1, 1));
    assert_eq!((left, right), (0, 2));
}

#[test]
fn vertical_mode_keeps_horizontal_limits_at_origin() {
    let img = image_of(3, 3, &vec![BLACK; 9]);
    let (top, bottom, left, right) =
        calculate_line_limits(&img, 1, 1, ScanMode::VerticalOnly, twenty());
    assert_eq!((left, right), (1, 1));
    assert_eq!((top, bottom), (0, 2));
}

#[test]
fn vertical_scan_finds_edges_above_and_below() {
    // One column: black, black, white, white, black.
    let img = image_of(1, 5, &[BLACK, BLACK, WHITE, WHITE, BLACK]);
    let (top, bottom, left, right) = calculate_line_limits(&img, 0, 2, ScanMode::Both, twenty());
    assert_eq!(top, 1);
    assert_eq!(bottom, 4);
    assert_eq!((left, right), (0, 0));
}

#[test]
fn change_equal_to_threshold_is_no_edge() {
    // A red difference of exactly 20 has distance 20.0.
    let a = Rgb { r: 100, g: 50, b: 50 };
    let b = Rgb { r: 120, g: 50, b: 50 };
    assert!(!crosses_edge(a, b, Threshold { millionths: 20000000 }));
    assert!(crosses_edge(a, b, Threshold { millionths: 19999999 }));
    let img = image_of(3, 1, &[a, a, b]);
    assert_eq!(calculate_limit(&img, 0, 0, 2, false, twenty()), 2);
    assert_eq!(calculate_limit(&img, 0, 0, 2, false, Threshold { millionths: 19999999 }), 2);
    let img = image_of(4, 1, &[a, a, b, b]);
    assert_eq!(calculate_limit(&img, 0, 0, 3, false, twenty()), 3);
    assert_eq!(calculate_limit(&img, 0, 0, 3, false, Threshold { millionths: 19999999 }), 2);
}

#[test]
fn distance_combines_all_three_channels() {
    // (12, 9, 8) away: distance sqrt(144 + 81 + 64) = 17.0.
    let a = Rgb { r: 0, g: 20, b: 8 };
    let b = Rgb { r: 12, g: 11, b: 0 };
    assert!(!crosses_edge(a, b, Threshold { millionths: 17000000 }));
    assert!(crosses_edge(a, b, Threshold { millionths: 16999999 }));
    assert!(crosses_edge(b, a, Threshold { millionths: 16999999 }));
}

#[test]
fn higher_threshold_reaches_further() {
    // Steps of distance 10, 30 and 300 to the right of the origin.
    let img = image_of(
        4,
        1,
        &[
            Rgb { r: 0, g: 0, b: 0 },
            Rgb { r: 10, g: 0, b: 0 },
            Rgb { r: 40, g: 0, b: 0 },
            Rgb { r: 40, g: 0, b: 255 },
        ],
    );
    let mut previous = 0;
    for t in [5000000u32, 20000000, 100000000, 300000000] {
        let right = calculate_limit(&img, 0, 0, 3, false, Threshold { millionths: t });
        assert!(right >= previous);
        previous = right;
    }
    assert_eq!(calculate_limit(&img, 0, 0, 3, false, Threshold { millionths: 5000000 }), 1);
    assert_eq!(calculate_limit(&img, 0, 0, 3, false, Threshold { millionths: 20000000 }), 2);
    assert_eq!(calculate_limit(&img, 0, 0, 3, false, Threshold { millionths: 100000000 }), 3);
    assert_eq!(calculate_limit(&img, 0, 0, 3, false, Threshold { millionths: 300000000 }), 3);
}

#[test]
fn scanning_is_deterministic() {
    let img = half_black_row();
    let first = calculate_line_limits(&img, 3, 0, ScanMode::Both, twenty());
    let second = calculate_line_limits(&img, 3, 0, ScanMode::Both, twenty());
    assert_eq!(first, second);
}

#[test]
fn mode_reports_its_axes() {
    assert!(ScanMode::Both.scans_vertical() && ScanMode::Both.scans_horizontal());
    assert!(!ScanMode::HorizontalOnly.scans_vertical());
    assert!(ScanMode::HorizontalOnly.scans_horizontal());
    assert!(ScanMode::VerticalOnly.scans_vertical());
    assert!(!ScanMode::VerticalOnly.scans_horizontal());
}
