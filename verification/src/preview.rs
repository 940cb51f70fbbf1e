//! The icon preview sheet: every display mode on both taskbar themes at a
//! range of charge levels, each icon drawn at twice its size.
use vstd::prelude::*;
use vstd::arithmetic::div_mod::lemma_fundamental_div_mod_converse;
use crate::battery::Status;
use crate::icons::ICON_BYTES;
use crate::settings::DisplayMode;

verus! {

/// Sheet width in pixels: six cells of 96.
pub const SHEET_WIDTH: usize = 576;

/// Sheet height in pixels: four cells of 96.
pub const SHEET_HEIGHT: usize = 384;

/// Number of icons on the sheet.
pub const SHEET_ICONS: usize = 24;

/// Bytes of the RGBA sheet.
pub const SHEET_BYTES: usize = 884736;

/// The charge level shown in each column.
pub open spec fn level_spec(column: int) -> u8 {
    if column == 0 {
        100
    } else if column == 1 {
        83
    } else if column == 2 {
        50
    } else if column == 3 {
        20
    } else if column == 4 {
        5
    } else {
        0
    }
}

/// Rows 0 and 1 are on a dark taskbar, rows 2 and 3 on a light one.
pub open spec fn row_dark(row: int) -> bool {
    row < 2
}

/// Even rows show the percentage, odd rows the gauge.
pub open spec fn row_mode(row: int) -> DisplayMode {
    if row % 2 == 0 {
        DisplayMode::Percentage
    } else {
        DisplayMode::Battery
    }
}

/// The taskbar colour behind a row.
pub open spec fn background_spec(dark: bool) -> [u8; 3] {
    if dark {
        [26u8, 30, 37]
    } else {
        [242u8, 244, 247]
    }
}

/// A channel of an icon pixel laid over the background with its opacity.
pub open spec fn blend(fg: u8, bg: u8, alpha: u8) -> u8 {
    ((fg * alpha + bg * (255 - alpha)) / 255) as u8
}

/// Byte `i` of the sheet for the icons given row by row: each 96-pixel
/// cell is the row's background, opaque, with its icon doubled in size
/// 16 pixels in from the cell's top-left corner.
pub open spec fn sheet_byte(icons: Seq<Seq<u8>>, i: int) -> u8 {
    let p = i / 4;
    let ch = i % 4;
    let x = p % (SHEET_WIDTH as int);
    let y = p / (SHEET_WIDTH as int);
    let row = y / 96;
    let bg = background_spec(row_dark(row));
    let ix = x % 96 - 16;
    let iy = y % 96 - 16;
    if ch == 3 {
        255
    } else if 0 <= ix < 64 && 0 <= iy < 64 {
        let icon = icons[row * 6 + x / 96];
        let s = ((iy / 2) * 32 + ix / 2) * 4;
        blend(icon[s + ch], bg[ch], icon[s + 3])
    } else {
        bg[ch]
    }
}

/// The whole sheet.
pub open spec fn sheet_spec(icons: Seq<Seq<u8>>) -> Seq<u8> {
    Seq::new(SHEET_BYTES as nat, |i: int| sheet_byte(icons, i))
}

/// What the PNG encoder writes for 8-bit RGBA pixels of the given size.
pub uninterp spec fn png_rgba8(pixels: Seq<u8>, width: u32, height: u32) -> Seq<u8>;

/// The reading drawn in a cell of the sheet, with its mode and theme.
pub fn cell(row: usize, column: usize) -> (drawn: (Status, DisplayMode, bool))
    requires
        row < 4,
        column < 6,
    ensures
        drawn == (Status::Battery { percent: level_spec(column as int), charging: false }, row_mode(
            row as int,
        ), row_dark(row as int)),
{
    let percent: u8 = if column == 0 {
        100
    } else if column == 1 {
        83
    } else if column == 2 {
        50
    } else if column == 3 {
        20
    } else if column == 4 {
        5
    } else {
        0
    };
    let mode = if row % 2 == 0 {
        DisplayMode::Percentage
    } else {
        DisplayMode::Battery
    };
    (Status::Battery { percent, charging: false }, mode, row < 2)
}

fn blend_channel(fg: u8, bg: u8, alpha: u8) -> (c: u8)
    ensures
        c == blend(fg, bg, alpha),
{
    let fg16 = fg as u16;
    let bg16 = bg as u16;
    let a16 = alpha as u16;
    assert(fg16 * a16 + bg16 * (255 - a16) <= 255 * 255) by (nonlinear_arith)
        requires
            fg16 <= 255,
            bg16 <= 255,
            a16 <= 255,
    ;
    let mixed: u16 = fg16 * a16 + bg16 * (255 - a16);
    (mixed / 255) as u8
}

proof fn lemma_byte_of_pixel(p: int, c: int)
    requires
        0 <= p,
        0 <= c < 4,
    ensures
        (p * 4 + c) / 4 == p,
        (p * 4 + c) % 4 == c,
{
    lemma_fundamental_div_mod_converse(p * 4 + c, 4, p, c);
}

/// Lays the icons, given row by row, out on the sheet.
pub fn sheet(icons: &Vec<Vec<u8>>) -> (pixels: Vec<u8>)
    requires
        icons.len() == SHEET_ICONS,
        forall|k: int| 0 <= k < SHEET_ICONS ==> (#[trigger] icons@[k])@.len() == ICON_BYTES,
    ensures
        pixels@ == sheet_spec(icons@.map_values(|icon: Vec<u8>| icon@)),
{
    let ghost views = icons@.map_values(|icon: Vec<u8>| icon@);
    let mut pixels: Vec<u8> = Vec::new();
    let total: usize = SHEET_WIDTH * SHEET_HEIGHT;
    let mut p: usize = 0;
    while p < total
        invariant
            total == SHEET_WIDTH * SHEET_HEIGHT,
            p <= total,
            views == icons@.map_values(|icon: Vec<u8>| icon@),
            icons.len() == SHEET_ICONS,
            forall|k: int| 0 <= k < SHEET_ICONS ==> (#[trigger] icons@[k])@.len() == ICON_BYTES,
            pixels@.len() == p * 4,
            forall|i: int| 0 <= i < p * 4 ==> pixels@[i] == #[trigger] sheet_byte(views, i),
        decreases total - p,
    {
        let x = p % SHEET_WIDTH;
        let y = p / SHEET_WIDTH;
        let row = y / 96;
        let dark = row < 2;
        let bg: [u8; 3] = if dark {
            [26, 30, 37]
        } else {
            [242, 244, 247]
        };
        let cx = x % 96;
        let cy = y % 96;
        let mut rgb: [u8; 3] = bg;
        if 16 <= cx && cx < 80 && 16 <= cy && cy < 80 {
            let ix = cx - 16;
            let iy = cy - 16;
            let index = row * 6 + x / 96;
            assert(index < 24);
            let icon = &icons[index];
            assert(icon@ == views[index as int]);
            let s = ((iy / 2) * 32 + ix / 2) * 4;
            assert(s + 3 < ICON_BYTES);
            let alpha = icon[s + 3];
            rgb = [
                blend_channel(icon[s], bg[0], alpha),
                blend_channel(icon[s + 1], bg[1], alpha),
                blend_channel(icon[s + 2], bg[2], alpha),
            ];
        }
        pixels.push(rgb[0]);
        pixels.push(rgb[1]);
        pixels.push(rgb[2]);
        pixels.push(255);
        proof {
            assert forall|c: int| 0 <= c < 4 implies pixels@[p * 4 + c] == #[trigger] sheet_byte(
                views,
                p * 4 + c,
            ) by {
                lemma_byte_of_pixel(p as int, c);
            }
            assert forall|i: int| 0 <= i < (p + 1) * 4 implies pixels@[i] == #[trigger] sheet_byte(
                views,
                i,
            ) by {
                if i >= p * 4 {
                    assert(pixels@[p * 4 + (i - p * 4)] == sheet_byte(views, p * 4 + (i - p * 4)));
                }
            }
        }
        p = p + 1;
    }
    assert(pixels@ =~= sheet_spec(views));
    pixels
}

/// Encodes 8-bit RGBA pixels as a PNG image (`png::Encoder`) into memory.
/// With a non-zero size and exactly four bytes per pixel, the encoder's
/// only failures (zero size, a length mismatch, a failed write) cannot
/// occur, so it succeeds; its bytes are what `png_rgba8` names.
#[verifier::external_body]
fn encode_rgba_png(pixels: &[u8], width: u32, height: u32) -> (encoded: Result<Vec<u8>, String>)
    requires
        width > 0,
        height > 0,
        pixels@.len() == width * height * 4,
    ensures
        encoded is Ok,
        encoded matches Ok(bytes) ==> bytes@ == png_rgba8(pixels@, width, height),
{
    let mut bytes = Vec::new();
    let mut encoder = png::Encoder::new(&mut bytes, width, height);
    encoder.set_color(png::ColorType::Rgba);
    encoder.set_depth(png::BitDepth::Eight);
    let mut writer = match encoder.write_header() {
        Ok(writer) => writer,
        Err(error) => return Err(error.to_string()),
    };
    if let Err(error) = writer.write_image_data(pixels) {
        return Err(error.to_string());
    }
    match writer.finish() {
        Ok(()) => Ok(bytes),
        Err(error) => Err(error.to_string()),
    }
}

/// The preview sheet for the icons, given row by row, as a PNG image; it
/// is always produced.
pub fn preview_png(icons: &Vec<Vec<u8>>) -> (encoded: Result<Vec<u8>, String>)
    requires
        icons.len() == SHEET_ICONS,
        forall|k: int| 0 <= k < SHEET_ICONS ==> (#[trigger] icons@[k])@.len() == ICON_BYTES,
    ensures
        encoded is Ok,
        encoded matches Ok(bytes) ==> bytes@ == png_rgba8(
            sheet_spec(icons@.map_values(|icon: Vec<u8>| icon@)),
            SHEET_WIDTH as u32,
            SHEET_HEIGHT as u32,
        ),
{
    let pixels = sheet(icons);
    encode_rgba_png(pixels.as_slice(), SHEET_WIDTH as u32, SHEET_HEIGHT as u32)
}

} // verus!
