use mchose_tray::icons::{gauge, ICON_BYTES};
use mchose_tray::preview::{cell, preview_png, sheet, SHEET_BYTES, SHEET_HEIGHT, SHEET_WIDTH};
use mchose_tray::battery::Status;
use mchose_tray::settings::DisplayMode;

fn icons() -> Vec<Vec<u8>> {
    let mut icons = Vec::new();
    for row in 0..4 {
        for column in 0..6 {
            let (status, _mode, dark) = cell(row, column);
            let percent = match status {
                Status::Battery { percent, .. } => percent,
                _ => unreachable!(),
            };
            icons.push(gauge(percent, dark));
        }
    }
    icons
}

#[test]
fn cells_follow_rows_and_columns() {
    assert_eq!(
        cell(0, 0),
        (
            Status::Battery {
                percent: 100,
                charging: false
            },
            DisplayMode::Percentage,
            true
        )
    );
    assert_eq!(
        cell(3, 5),
        (
            Status::Battery {
                percent: 0,
                charging: false
            },
            DisplayMode::Battery,
            false
        )
    );
    assert_eq!(cell(1, 1).1, DisplayMode::Battery);
    assert_eq!(cell(2, 3).0, Status::Battery { percent: 20, charging: false });
}

#[test]
fn sheet_blends_icons_over_the_background() {
    let icons = icons();
    let pixels = sheet(&icons);
    assert_eq!(pixels.len(), SHEET_BYTES);
    // Top-left corner: dark background, opaque.
    assert_eq!(&pixels[0..4], &[26, 30, 37, 255]);
    // Bottom-right corner: light background.
    assert_eq!(&pixels[SHEET_BYTES - 4..], &[242, 244, 247, 255]);
    // Cell (0, 0) shows icon pixel (12, 1), the outline, at sheet pixel (40, 18).
    let at = (18 * SHEET_WIDTH + 40) * 4;
    let icon = &icons[0];
    let src = (1 * 32 + 12) * 4;
    assert_eq!(icon[src + 3], 255);
    assert_eq!(&pixels[at..at + 3], &icon[src..src + 3]);
}

#[test]
fn preview_is_a_png_of_the_sheet() {
    let icons = icons();
    let bytes = preview_png(&icons).unwrap();
    assert_eq!(&bytes[..8], &[0x89, b'P', b'N', b'G', 0x0d, 0x0a, 0x1a, 0x0a]);
    let decoder = png::Decoder::new(std::io::Cursor::new(bytes));
    let mut reader = decoder.read_info().unwrap();
    let mut decoded = vec![0; reader.output_buffer_size().unwrap()];
    let info = reader.next_frame(&mut decoded).unwrap();
    assert_eq!(info.width as usize, SHEET_WIDTH);
    assert_eq!(info.height as usize, SHEET_HEIGHT);
    assert_eq!(decoded, sheet(&icons));
    assert!(icons.iter().all(|i| i.len() == ICON_BYTES));
}

#[test]
fn preview_is_produced_for_every_sheet() {
    let icons: Vec<Vec<u8>> = (0..24).map(|_| vec![0u8; ICON_BYTES]).collect();
    let bytes = preview_png(&icons).unwrap();
    assert_eq!(&bytes[1..4], b"PNG");
}
