use mchose_tray::battery::Status;
use mchose_tray::icons::{battery_color, face, gauge, neutral, Canvas, Face, ICON_BYTES, SIZE};
use mchose_tray::settings::DisplayMode;

#[test]
fn colors_change_at_documented_thresholds() {
    assert_ne!(battery_color(20, true), battery_color(21, true));
    assert_ne!(battery_color(50, true), battery_color(51, true));
    assert_eq!(battery_color(51, true), battery_color(100, true));
}

#[test]
fn light_taskbar_colors() {
    assert_eq!(battery_color(0, false), [185, 28, 46]);
    assert_eq!(battery_color(21, false), [155, 98, 0]);
    assert_eq!(battery_color(83, false), [16, 122, 67]);
    assert_eq!(battery_color(83, true), [94, 224, 153]);
    assert_eq!(neutral(true), [224, 229, 237]);
    assert_eq!(neutral(false), [47, 57, 71]);
}

fn alpha(pixels: &[u8], x: usize, y: usize) -> u8 {
    pixels[(y * SIZE + x) * 4 + 3]
}

#[test]
fn every_gauge_fits_the_icon() {
    for dark in [false, true] {
        for percent in 0..=100 {
            let pixels = gauge(percent, dark);
            assert_eq!(pixels.len(), SIZE * SIZE * 4);
            assert!(pixels.chunks(4).any(|p| p[3] > 0));
            assert!(pixels.chunks(4).any(|p| p[3] == 0));
        }
    }
}

#[test]
fn gauge_fills_from_the_bottom() {
    let pixels = gauge(50, true);
    // 50% fills ten rows, 17 to 26, in columns 10 to 19.
    assert_eq!(alpha(&pixels, 10, 26), 255);
    assert_eq!(alpha(&pixels, 19, 17), 255);
    assert_eq!(alpha(&pixels, 15, 16), 0);
    assert_eq!(alpha(&pixels, 20, 20), 0);
    assert_eq!(&pixels[(20 * SIZE + 12) * 4..(20 * SIZE + 12) * 4 + 3], &[255, 196, 76]);
    // The outline is neutral above 0%.
    assert_eq!(&pixels[(1 * SIZE + 12) * 4..(1 * SIZE + 12) * 4 + 3], &[224, 229, 237]);
    let empty = gauge(0, false);
    assert_eq!(&empty[(1 * SIZE + 12) * 4..(1 * SIZE + 12) * 4 + 3], &[185, 28, 46]);
    assert_eq!(alpha(&empty, 15, 26), 0);
    let one = gauge(1, false);
    assert_eq!(alpha(&one, 15, 26), 255);
    assert_eq!(alpha(&one, 15, 25), 0);
}

#[test]
fn pixels_outside_the_icon_are_ignored() {
    let mut canvas = Canvas::new();
    canvas.pixel(-1, 0, [1, 2, 3], 255);
    canvas.pixel(0, 32, [1, 2, 3], 255);
    canvas.pixel(3, 4, [1, 2, 3], 0);
    canvas.pixel(31, 31, [9, 8, 7], 6);
    let pixels = canvas.into_pixels();
    assert_eq!(pixels.len(), ICON_BYTES);
    assert_eq!(&pixels[ICON_BYTES - 4..], &[9, 8, 7, 6]);
    assert_eq!(pixels.iter().filter(|b| **b != 0).count(), 4);
}

#[test]
fn faces_for_readings() {
    let battery = Status::Battery {
        percent: 83,
        charging: true,
    };
    match face(battery, DisplayMode::Percentage, false) {
        Face::Text { text, color } => {
            assert_eq!(text, "83");
            assert_eq!(color, [16, 122, 67]);
        }
        Face::Gauge { .. } => panic!("expected text"),
    }
    assert!(matches!(
        face(battery, DisplayMode::Battery, false),
        Face::Gauge { percent: 83 }
    ));
    for (status, sign) in [
        (Status::Checking, "…"),
        (Status::Disconnected, "–"),
        (Status::Unavailable, "?"),
    ] {
        match face(status, DisplayMode::Battery, true) {
            Face::Text { text, color } => {
                assert_eq!(text, sign);
                assert_eq!(color, [224, 229, 237]);
            }
            Face::Gauge { .. } => panic!("expected text"),
        }
    }
}
