use auto_shake::sample::{PixelSample, Rgb};
use auto_shake::signal::{extract, matches_target, Signal, Thresholds};

const RED: Rgb = Rgb { r: 255, g: 0, b: 0 };
const WHITE: Rgb = Rgb { r: 255, g: 255, b: 255 };
const BLACK: Rgb = Rgb { r: 0, g: 0, b: 0 };

fn thresholds(target: Rgb, tolerance: i32) -> Thresholds {
    Thresholds { target, tolerance, debounce_ticks: 3, cooldown_ms: 0, max_hold_ms: 1000 }
}

fn nothing(total: u64) -> Signal {
    Signal {
        marker_found: false,
        matched: 0,
        total,
        left: 0,
        top: 0,
        right: 0,
        bottom: 0,
        centroid_x: 0,
        centroid_y: 0,
        marker_offset: 0,
        fill_ppm: 0,
    }
}

#[test]
fn empty_sample_reads_as_nothing_found() {
    let sample = PixelSample::from_pixels(0, 0, vec![]).unwrap();
    assert_eq!(extract(&sample, &thresholds(RED, 0)), nothing(0));
    let flat = PixelSample::from_pixels(5, 0, vec![]).unwrap();
    assert_eq!(extract(&flat, &thresholds(RED, 255)), nothing(0));
}

#[test]
fn sample_without_the_marker_reads_as_nothing_found() {
    let sample = PixelSample::from_pixels(3, 2, vec![WHITE; 6]).unwrap();
    assert_eq!(extract(&sample, &thresholds(RED, 0)), nothing(6));
}

#[test]
fn all_red_sample_is_all_marker() {
    let sample = PixelSample::from_pixels(100, 100, vec![RED; 10_000]).unwrap();
    let signal = extract(&sample, &thresholds(RED, 0));
    assert_eq!(
        signal,
        Signal {
            marker_found: true,
            matched: 10_000,
            total: 10_000,
            left: 0,
            top: 0,
            right: 99,
            bottom: 99,
            centroid_x: 49,
            centroid_y: 49,
            marker_offset: -1,
            fill_ppm: 1_000_000,
        }
    );
}

#[test]
fn scattered_marker_pixels_give_box_centroid_and_fill() {
    let mut pixels = vec![BLACK; 12];
    pixels[1] = RED;
    pixels[7] = RED;
    pixels[10] = RED;
    let sample = PixelSample::from_pixels(4, 3, pixels).unwrap();
    let signal = extract(&sample, &thresholds(RED, 0));
    assert_eq!(
        signal,
        Signal {
            marker_found: true,
            matched: 3,
            total: 12,
            left: 1,
            top: 0,
            right: 3,
            bottom: 2,
            centroid_x: 2,
            centroid_y: 1,
            marker_offset: 0,
            fill_ppm: 250_000,
        }
    );
}

#[test]
fn centroid_and_fill_round_down() {
    let mut pixels = vec![BLACK; 9];
    pixels[0] = RED;
    pixels[1] = RED;
    pixels[5] = RED;
    let sample = PixelSample::from_pixels(3, 3, pixels).unwrap();
    let signal = extract(&sample, &thresholds(RED, 0));
    assert_eq!(signal.matched, 3);
    assert_eq!((signal.left, signal.right, signal.top, signal.bottom), (0, 2, 0, 1));
    assert_eq!(signal.centroid_x, 1);
    assert_eq!(signal.centroid_y, 0);
    assert_eq!(signal.marker_offset, 0);
    assert_eq!(signal.fill_ppm, 333_333);
}

#[test]
fn single_marker_pixel_left_of_the_middle() {
    let mut pixels = vec![WHITE; 10];
    pixels[1] = RED;
    let sample = PixelSample::from_pixels(10, 1, pixels).unwrap();
    let signal = extract(&sample, &thresholds(RED, 0));
    assert!(signal.marker_found);
    assert_eq!((signal.left, signal.right, signal.top, signal.bottom), (1, 1, 0, 0));
    assert_eq!((signal.centroid_x, signal.centroid_y), (1, 0));
    assert_eq!(signal.marker_offset, -4);
    assert_eq!(signal.fill_ppm, 100_000);
}

#[test]
fn tolerance_is_per_channel_and_inclusive() {
    let target = Rgb::new(100, 100, 100);
    assert!(matches_target(Rgb::new(105, 95, 100), target, 5));
    assert!(!matches_target(Rgb::new(106, 100, 100), target, 5));
    assert!(!matches_target(Rgb::new(100, 94, 100), target, 5));
    assert!(!matches_target(Rgb::new(100, 100, 106), target, 5));
    assert!(matches_target(target, target, 0));
    assert!(!matches_target(Rgb::new(101, 100, 100), target, 0));
    assert!(matches_target(Rgb::new(0, 255, 17), target, 255));
    assert!(matches_target(Rgb::new(0, 255, 17), target, i32::MAX));
    let pixels = vec![Rgb::new(105, 95, 100), Rgb::new(106, 100, 100)];
    let sample = PixelSample::from_pixels(2, 1, pixels).unwrap();
    let signal = extract(&sample, &thresholds(target, 5));
    assert_eq!(signal.matched, 1);
    assert_eq!((signal.left, signal.right), (0, 0));
}

#[test]
fn negative_tolerance_never_matches() {
    assert!(!matches_target(RED, RED, -1));
    assert!(!matches_target(RED, RED, i32::MIN));
    let sample = PixelSample::from_pixels(4, 4, vec![RED; 16]).unwrap();
    assert_eq!(extract(&sample, &thresholds(RED, -1)), nothing(16));
}

#[test]
fn extract_gives_the_same_signal_every_time() {
    let mut pixels = vec![WHITE; 64];
    pixels[3] = RED;
    pixels[40] = Rgb::new(250, 3, 2);
    pixels[63] = RED;
    let kept = pixels.clone();
    let sample = PixelSample::from_pixels(8, 8, pixels).unwrap();
    let t = thresholds(RED, 5);
    let first = extract(&sample, &t);
    for _ in 0..5 {
        assert_eq!(extract(&sample, &t), first);
    }
    assert_eq!(sample.pixels(), &kept);
    assert_eq!(first.matched, 3);
    let again = PixelSample::from_pixels(8, 8, kept).unwrap();
    assert_eq!(extract(&again, &t), first);
}
