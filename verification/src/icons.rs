//! Drawing the 32x32 tray icon: battery colours, the battery gauge, and
//! the choice between text and gauge for each reading.
use vstd::prelude::*;
use vstd::string::*;
use crate::battery::Status;
use crate::settings::DisplayMode;
use crate::text::{decimal, push_decimal};
use vstd::arithmetic::div_mod::{lemma_fundamental_div_mod, lemma_fundamental_div_mod_converse};

verus! {

/// Icon width and height in pixels.
pub const SIZE: usize = 32;

/// Bytes in one icon: RGBA, row by row.
pub const ICON_BYTES: usize = 4096;

/// An RGB colour.
pub type Color = [u8; 3];

/// Column of the pixel that byte `i` of an icon belongs to.
pub open spec fn byte_x(i: int) -> int {
    (i / 4) % 32
}

/// Row of the pixel that byte `i` of an icon belongs to.
pub open spec fn byte_y(i: int) -> int {
    (i / 4) / 32
}

/// Channel (red, green, blue, alpha) that byte `i` holds.
pub open spec fn channel(i: int) -> int {
    i % 4
}

/// The byte for channel `ch` of a pixel of colour `color` and opacity `alpha`.
pub open spec fn color_byte(color: Color, alpha: u8, ch: int) -> u8 {
    if ch < 3 {
        color[ch]
    } else {
        alpha
    }
}

/// An icon with every pixel transparent black.
pub open spec fn blank_icon() -> Seq<u8> {
    Seq::new(ICON_BYTES as nat, |i: int| 0u8)
}

/// `px` with the pixel at (`x`, `y`) set, when it lies on the icon and is
/// not fully transparent.
pub open spec fn with_pixel(px: Seq<u8>, x: int, y: int, color: Color, alpha: u8) -> Seq<u8> {
    if 0 <= x < SIZE && 0 <= y < SIZE && alpha != 0 {
        Seq::new(
            px.len(),
            |i: int|
                if byte_x(i) == x && byte_y(i) == y {
                    color_byte(color, alpha, channel(i))
                } else {
                    px[i]
                },
        )
    } else {
        px
    }
}

/// Byte `i` belongs to a pixel inside the rectangle.
pub open spec fn in_rect(i: int, x: int, y: int, width: int, height: int) -> bool {
    x <= byte_x(i) < x + width && y <= byte_y(i) < y + height
}

/// `px` with the part of the rectangle that lies on the icon filled opaque.
pub open spec fn with_rect(px: Seq<u8>, x: int, y: int, width: int, height: int, color: Color) -> Seq<
    u8,
> {
    Seq::new(
        px.len(),
        |i: int|
            if in_rect(i, x, y, width, height) {
                color_byte(color, 255, channel(i))
            } else {
                px[i]
            },
    )
}

/// `px` with the battery outline drawn: terminal, shoulders, sides, bottom.
pub open spec fn with_outline(px: Seq<u8>, color: Color) -> Seq<u8> {
    with_rect(
        with_rect(
            with_rect(with_rect(with_rect(px, 12, 1, 8, 2, color), 8, 3, 14, 2, color), 6, 5, 2, 24, color),
            22,
            5,
            2,
            24,
            color,
        ),
        8,
        29,
        14,
        2,
        color,
    )
}

proof fn lemma_position(i: int, x: int, y: int)
    requires
        0 <= i,
        0 <= x < 32,
        0 <= y,
    ensures
        (byte_x(i) == x && byte_y(i) == y) <==> ((y * 32 + x) * 4 <= i < (y * 32 + x) * 4 + 4),
        (byte_x(i) == x && byte_y(i) == y) ==> channel(i) == i - (y * 32 + x) * 4,
        byte_x(i) < 32,
        0 <= byte_x(i),
        0 <= byte_y(i),
        0 <= channel(i) < 4,
        i < ICON_BYTES ==> byte_y(i) < 32,
{
    let p = i / 4;
    lemma_fundamental_div_mod(i, 4);
    lemma_fundamental_div_mod(p, 32);
    let k = y * 32 + x;
    if (k * 4 <= i < k * 4 + 4) {
        lemma_fundamental_div_mod_converse(i, 4, k, i - k * 4);
        lemma_fundamental_div_mod_converse(k, 32, y, x);
    }
}

proof fn lemma_bounds(i: int)
    requires
        0 <= i < ICON_BYTES,
    ensures
        0 <= byte_x(i) < 32,
        0 <= byte_y(i) < 32,
        0 <= channel(i) < 4,
{
    lemma_position(i, 0, 0);
}

proof fn lemma_pixel_extends_row(px: Seq<u8>, x: int, yy: int, xx: int, color: Color)
    requires
        px.len() == ICON_BYTES,
        0 <= x <= xx,
        0 <= yy,
    ensures
        with_pixel(with_rect(px, x, yy, xx - x, 1, color), xx, yy, color, 255) == with_rect(
            px,
            x,
            yy,
            xx + 1 - x,
            1,
            color,
        ),
{
    let a = with_rect(px, x, yy, xx - x, 1, color);
    let b = with_rect(px, x, yy, xx + 1 - x, 1, color);
    assert forall|i: int| 0 <= i < ICON_BYTES implies #[trigger] with_pixel(a, xx, yy, color, 255)[i]
        == b[i] by {
        lemma_bounds(i);
        if xx < 32 && yy < 32 {
            lemma_position(i, xx, yy);
        }
    }
    assert(with_pixel(a, xx, yy, color, 255) =~= b);
}

proof fn lemma_row_extends_rect(px: Seq<u8>, x: int, y: int, width: int, yy: int, color: Color)
    requires
        px.len() == ICON_BYTES,
        y <= yy,
    ensures
        with_rect(with_rect(px, x, y, width, yy - y, color), x, yy, width, 1, color) == with_rect(
            px,
            x,
            y,
            width,
            yy + 1 - y,
            color,
        ),
{
    assert(with_rect(with_rect(px, x, y, width, yy - y, color), x, yy, width, 1, color) =~= with_rect(
        px,
        x,
        y,
        width,
        yy + 1 - y,
        color,
    ));
}

/// The pixels of a tray icon being drawn.
pub struct Canvas {
    pixels: Vec<u8>,
}

impl View for Canvas {
    type V = Seq<u8>;

    closed spec fn view(&self) -> Seq<u8> {
        self.pixels@
    }
}

impl Canvas {
    /// The canvas holds one icon.
    pub open spec fn wf(&self) -> bool {
        self@.len() == ICON_BYTES
    }

    /// A fully transparent icon.
    pub fn new() -> (canvas: Self)
        ensures
            canvas.wf(),
            canvas@ == blank_icon(),
    {
        let canvas = Canvas { pixels: vec![0u8; ICON_BYTES] };
        assert(canvas@ =~= blank_icon());
        canvas
    }

    /// The finished pixels.
    pub fn into_pixels(self) -> (pixels: Vec<u8>)
        ensures
            pixels@ == self@,
    {
        self.pixels
    }

    /// Sets one pixel; pixels off the icon and fully transparent ones are
    /// ignored.
    pub fn pixel(&mut self, x: i32, y: i32, color: Color, alpha: u8)
        requires
            old(self).wf(),
        ensures
            final(self).wf(),
            final(self)@ == with_pixel(old(self)@, x as int, y as int, color, alpha),
    {
        if x < 0 || y < 0 || x >= SIZE as i32 || y >= SIZE as i32 || alpha == 0 {
            return;
        }
        let offset = (y as usize * SIZE + x as usize) * 4;
        let ghost before = self@;
        self.pixels.set(offset, color[0]);
        self.pixels.set(offset + 1, color[1]);
        self.pixels.set(offset + 2, color[2]);
        self.pixels.set(offset + 3, alpha);
        assert forall|i: int| 0 <= i < ICON_BYTES implies #[trigger] self@[i] == with_pixel(
            before,
            x as int,
            y as int,
            color,
            alpha,
        )[i] by {
            lemma_position(i, x as int, y as int);
        }
        assert(self@ =~= with_pixel(before, x as int, y as int, color, alpha));
    }

    /// Fills a rectangle with an opaque colour, clipped to the icon.
    fn rect(&mut self, x: usize, y: usize, width: usize, height: usize, color: Color)
        requires
            old(self).wf(),
            x + width <= i32::MAX,
            y + height <= i32::MAX,
        ensures
            final(self).wf(),
            final(self)@ == with_rect(old(self)@, x as int, y as int, width as int, height as int, color),
    {
        let ghost start = self@;
        let mut yy = y;
        assert(start =~= with_rect(start, x as int, y as int, width as int, 0, color));
        while yy < y + height
            invariant
                self.wf(),
                x + width <= i32::MAX,
                y + height <= i32::MAX,
                y <= yy <= y + height,
                start.len() == ICON_BYTES,
                self@ == with_rect(start, x as int, y as int, width as int, yy - y, color),
            decreases y + height - yy,
        {
            let ghost row_start = self@;
            let mut xx = x;
            assert(row_start =~= with_rect(row_start, x as int, yy as int, 0, 1, color));
            while xx < x + width
                invariant
                    self.wf(),
                    x + width <= i32::MAX,
                    y + height <= i32::MAX,
                    yy < y + height,
                    x <= xx <= x + width,
                    row_start.len() == ICON_BYTES,
                    self@ == with_rect(row_start, x as int, yy as int, xx - x, 1, color),
                decreases x + width - xx,
            {
                self.pixel(xx as i32, yy as i32, color, 255);
                proof {
                    lemma_pixel_extends_row(row_start, x as int, yy as int, xx as int, color);
                }
                xx = xx + 1;
            }
            proof {
                lemma_row_extends_rect(start, x as int, y as int, width as int, yy as int, color);
            }
            yy = yy + 1;
        }
    }
}

/// The colour of a charge level: red at 20% or below, amber at 21–50%,
/// green above; lighter shades on a dark taskbar.
pub open spec fn battery_color_spec(percent: u8, dark: bool) -> Color {
    if dark {
        if percent <= 20 {
            [255u8, 102, 115]
        } else if percent <= 50 {
            [255u8, 196, 76]
        } else {
            [94u8, 224, 153]
        }
    } else {
        if percent <= 20 {
            [185u8, 28, 46]
        } else if percent <= 50 {
            [155u8, 98, 0]
        } else {
            [16u8, 122, 67]
        }
    }
}

/// The colour of text and outlines that do not show a charge level.
pub open spec fn neutral_spec(dark: bool) -> Color {
    if dark {
        [224u8, 229, 237]
    } else {
        [47u8, 57, 71]
    }
}

/// Rows of the gauge filled at a charge level: 20 rows at 100%, rounded up.
pub open spec fn fill_height(percent: u8) -> int {
    (percent * 20 + 99) / 100
}

/// The battery gauge icon: the outline (in the charge colour when empty)
/// and, from the bottom up, as many filled rows as the charge level needs.
pub open spec fn gauge_spec(percent: u8, dark: bool) -> Seq<u8> {
    let color = battery_color_spec(percent, dark);
    let outline = with_outline(blank_icon(), if percent == 0 { color } else { neutral_spec(dark) });
    let h = fill_height(percent);
    if h > 0 {
        with_rect(outline, 10, 27 - h, 10, h, color)
    } else {
        outline
    }
}

/// The colour of a charge level.
pub fn battery_color(percent: u8, dark: bool) -> (color: Color)
    ensures
        color == battery_color_spec(percent, dark),
{
    if dark {
        if percent <= 20 {
            [255, 102, 115]
        } else if percent <= 50 {
            [255, 196, 76]
        } else {
            [94, 224, 153]
        }
    } else {
        if percent <= 20 {
            [185, 28, 46]
        } else if percent <= 50 {
            [155, 98, 0]
        } else {
            [16, 122, 67]
        }
    }
}

/// The colour of text and outlines that do not show a charge level.
pub fn neutral(dark: bool) -> (color: Color)
    ensures
        color == neutral_spec(dark),
{
    if dark {
        [224, 229, 237]
    } else {
        [47, 57, 71]
    }
}

impl Canvas {
    /// Draws the battery outline.
    fn battery_outline(&mut self, color: Color)
        requires
            old(self).wf(),
        ensures
            final(self).wf(),
            final(self)@ == with_outline(old(self)@, color),
    {
        self.rect(12, 1, 8, 2, color);
        self.rect(8, 3, 14, 2, color);
        self.rect(6, 5, 2, 24, color);
        self.rect(22, 5, 2, 24, color);
        self.rect(8, 29, 14, 2, color);
    }
}

/// The icon of the battery display mode. Above 135% the fill would start
/// above the icon's top row.
pub fn gauge(percent: u8, dark: bool) -> (pixels: Vec<u8>)
    requires
        percent <= 135,
    ensures
        pixels@ == gauge_spec(percent, dark),
{
    let mut canvas = Canvas::new();
    let color = battery_color(percent, dark);
    canvas.battery_outline(if percent == 0 { color } else { neutral(dark) });
    let height = (percent as usize * 20 + 99) / 100;
    if height > 0 {
        canvas.rect(10, 27 - height, 10, height, color);
    }
    canvas.into_pixels()
}

/// Charge levels in the same band (at most 20, 21 to 50, above 50) share a
/// colour and levels in different bands do not, on either taskbar.
pub proof fn lemma_colors_follow_bands(p: u8, q: u8, dark: bool)
    ensures
        ((p <= 20) == (q <= 20) && (p <= 50) == (q <= 50)) <==> battery_color_spec(p, dark)
            == battery_color_spec(q, dark),
{
    let a = battery_color_spec(p, dark);
    let b = battery_color_spec(q, dark);
    if a == b {
        assert(a[0] == b[0] && a[1] == b[1] && a[2] == b[2]);
    }
}

/// The fill never shrinks as the charge grows; it is empty only at 0% and
/// fills all 20 rows at 100%.
pub proof fn lemma_fill_grows_with_charge(p: u8, q: u8)
    ensures
        p <= q ==> fill_height(p) <= fill_height(q),
        fill_height(p) == 0 <==> p == 0,
        fill_height(100) == 20,
        p <= 100 ==> fill_height(p) <= 20,
{
}

/// Every gauge icon has an opaque pixel (the top of the outline, pixel
/// (12, 1), whose alpha is byte 179) and a
/// transparent one (the top-left corner).
pub proof fn lemma_gauge_is_visible(percent: u8, dark: bool)
    requires
        percent <= 135,
    ensures
        gauge_spec(percent, dark).len() == ICON_BYTES,
        gauge_spec(percent, dark)[179] == 255,
        gauge_spec(percent, dark)[3] == 0,
{
    lemma_position(179, 12, 1);
    lemma_position(3, 0, 0);
}

/// The fill is the charge scaled to 20 rows and rounded up: the smallest
/// number of rows whose share of 20 is at least the charge.
pub proof fn lemma_fill_rounds_charge_up(p: u8)
    ensures
        fill_height(p) * 100 >= p * 20,
        (fill_height(p) - 1) * 100 < p * 20,
{
    let n = p * 20 + 99;
    lemma_fundamental_div_mod(n as int, 100);
}

/// In the gauge for a charge of at most 100%, the pixel in the middle
/// column (15) on row `y` between 7 and 26 is filled, opaque and in the
/// charge colour, exactly when the rows below it cover less than the
/// charge, five percent per row; otherwise it is transparent.
pub proof fn lemma_gauge_column(percent: u8, dark: bool, y: int)
    requires
        percent <= 100,
        7 <= y <= 26,
    ensures
        ({
            let at = (y * 32 + 15) * 4;
            let g = gauge_spec(percent, dark);
            let color = battery_color_spec(percent, dark);
            if (26 - y) * 5 < percent {
                g[at] == color[0] && g[at + 1] == color[1] && g[at + 2] == color[2] && g[at + 3]
                    == 255
            } else {
                g[at + 3] == 0
            }
        }),
{
    let at = (y * 32 + 15) * 4;
    lemma_fill_rounds_charge_up(percent);
    lemma_position(at, 15, y);
    lemma_position(at + 1, 15, y);
    lemma_position(at + 2, 15, y);
    lemma_position(at + 3, 15, y);
}

/// The charge colours mean what they show: red dominates at 20% or below,
/// amber (red over green over blue) from 21% to 50%, green dominates above
/// 50%; every channel is at least as light on a dark taskbar as on a light one.
pub proof fn lemma_color_meaning(p: u8)
    ensures
        forall|dark: bool|
            {
                let c = #[trigger] battery_color_spec(p, dark);
                &&& p <= 20 ==> c[0] > c[1] && c[0] > c[2]
                &&& 20 < p <= 50 ==> c[0] > c[1] && c[1] > c[2]
                &&& 50 < p ==> c[1] > c[0] && c[1] > c[2]
            },
        battery_color_spec(p, true)[0] >= battery_color_spec(p, false)[0],
        battery_color_spec(p, true)[1] >= battery_color_spec(p, false)[1],
        battery_color_spec(p, true)[2] >= battery_color_spec(p, false)[2],
{
}

/// A reading without a percentage shows the same neutral sign in both
/// display modes: `…` while checking, `–` (en dash) without a receiver, and
/// `?` without a usable reading. A reading with a percentage never shows a
/// neutral sign: in the percentage mode its text is its decimal value.
pub proof fn lemma_signs_for_readings(face: Face, status: Status, mode: DisplayMode, dark: bool)
    requires
        face_for(face, status, mode, dark),
    ensures
        status == Status::Checking ==> shows_text(face, seq!['\u{2026}'], neutral_spec(dark)),
        status == Status::Disconnected ==> shows_text(face, seq!['\u{2013}'], neutral_spec(dark)),
        status == Status::Unavailable ==> shows_text(face, seq!['?'], neutral_spec(dark)),
        status matches Status::Battery { percent, .. } ==> (mode == DisplayMode::Percentage
            ==> shows_text(face, decimal(percent as nat), battery_color_spec(percent, dark))) && (
        mode == DisplayMode::Battery ==> face == Face::Gauge { percent }),
{
    reveal_strlit("…");
    reveal_strlit("–");
    reveal_strlit("?");
    assert("…"@ =~= seq!['\u{2026}']);
    assert("–"@ =~= seq!['\u{2013}']);
    assert("?"@ =~= seq!['?']);
}

/// What an icon shows.
pub enum Face {
    /// Text in a colour, fitted to the icon.
    Text { text: String, color: Color },
    /// The battery gauge at a charge level.
    Gauge { percent: u8 },
}

/// The text an icon shows with its colour.
pub open spec fn shows_text(face: Face, text: Seq<char>, color: Color) -> bool {
    face matches Face::Text { text: t, color: c } && t@ == text && c == color
}

/// What the icon shows for a reading in a display mode.
pub open spec fn face_for(face: Face, status: Status, mode: DisplayMode, dark: bool) -> bool {
    match status {
        Status::Battery { percent, .. } => match mode {
            DisplayMode::Percentage => shows_text(
                face,
                decimal(percent as nat),
                battery_color_spec(percent, dark),
            ),
            DisplayMode::Battery => face == Face::Gauge { percent },
        },
        Status::Checking => shows_text(face, "…"@, neutral_spec(dark)),
        Status::Disconnected => shows_text(face, "–"@, neutral_spec(dark)),
        Status::Unavailable => shows_text(face, "?"@, neutral_spec(dark)),
    }
}

/// Chooses what the icon shows: the percentage in its colour, the gauge,
/// or a neutral sign for a reading without a percentage.
pub fn face(status: Status, mode: DisplayMode, dark: bool) -> (face: Face)
    ensures
        face_for(face, status, mode, dark),
{
    match status {
        Status::Battery { percent, .. } => match mode {
            DisplayMode::Percentage => {
                let mut text = String::new();
                push_decimal(&mut text, percent as u64);
                Face::Text { text, color: battery_color(percent, dark) }
            },
            DisplayMode::Battery => Face::Gauge { percent },
        },
        Status::Checking => Face::Text { text: String::from_str("…"), color: neutral(dark) },
        Status::Disconnected => Face::Text { text: String::from_str("–"), color: neutral(dark) },
        Status::Unavailable => Face::Text { text: String::from_str("?"), color: neutral(dark) },
    }
}

} // verus!
