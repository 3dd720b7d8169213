//! Rasterisation of a logo description into an RGBA image.

use vstd::prelude::*;
use vstd::arithmetic::div_mod::lemma_fundamental_div_mod;
use vstd::arithmetic::div_mod::lemma_fundamental_div_mod_converse;
use vstd::arithmetic::div_mod::lemma_mod_bound;
use vstd::utf8::encode_utf8;
use crate::color::parse_color;
use crate::color::token_color;
use crate::description::DescriptionView;
use crate::description::PanelView;
pub use crate::description::LogoResponse;

verus! {

/// The number of cells in one row of the logo.
pub const CELLS_ACROSS: usize = 152;

/// The number of rows of cells in the logo.
pub const CELLS_DOWN: usize = 32;

/// The number of cells in one row of a panel.
pub const PANEL_SIDE: usize = 8;

/// Why a description could not be turned into an image.
#[derive(Clone, Copy, Debug, PartialEq, Eq, Structural)]
pub enum RenderError {
    /// A token of six or seven bytes does not hold three channels.
    MalformedColor,
    /// A cell belongs to a panel for which the logo has no place.
    MissingPanel,
    /// A cell lies below the last row of the logo.
    OutsideImage,
    /// The raster could not be encoded.
    Encoding,
}

/// The cell at which a panel starts, as column and row, for each panel that
/// the logo has a place for.
pub open spec fn panel_origin(character: int, panel: int) -> Option<(int, int)> {
    if character == 0 {
        if panel == 0 { Some((0, 0)) }
        else if panel == 1 { Some((0, 16)) }
        else if panel == 2 { Some((0, 24)) }
        else if panel == 3 { Some((0, 32)) }
        else { None }
    } else if character == 1 {
        if panel == 0 { Some((8, 0)) }
        else if panel == 1 { Some((8, 8)) }
        else if panel == 2 { Some((16, 8)) }
        else if panel == 3 { Some((8, 16)) }
        else if panel == 4 { Some((8, 24)) }
        else if panel == 5 { Some((16, 24)) }
        else if panel == 6 { Some((24, 24)) }
        else { None }
    } else if character == 2 {
        if panel == 0 { Some((32, 8)) }
        else if panel == 1 { Some((40, 8)) }
        else if panel == 2 { Some((48, 8)) }
        else if panel == 3 { Some((32, 16)) }
        else if panel == 4 { Some((48, 16)) }
        else if panel == 5 { Some((32, 24)) }
        else if panel == 6 { Some((40, 24)) }
        else if panel == 7 { Some((48, 24)) }
        else { None }
    } else if character == 3 {
        if panel == 0 { Some((56, 8)) }
        else if panel == 1 { Some((64, 8)) }
        else if panel == 2 { Some((72, 8)) }
        else if panel == 3 { Some((56, 16)) }
        else if panel == 4 { Some((56, 24)) }
        else { None }
    } else if character == 4 {
        if panel == 0 { Some((88, 8)) }
        else if panel == 1 { Some((96, 8)) }
        else if panel == 2 { Some((80, 16)) }
        else if panel == 3 { Some((96, 16)) }
        else if panel == 4 { Some((80, 24)) }
        else if panel == 5 { Some((88, 24)) }
        else if panel == 6 { Some((96, 24)) }
        else { None }
    } else if character == 5 {
        if panel == 0 { Some((104, 0)) }
        else if panel == 1 { Some((104, 8)) }
        else if panel == 2 { Some((112, 8)) }
        else if panel == 3 { Some((104, 16)) }
        else if panel == 4 { Some((104, 24)) }
        else if panel == 5 { Some((112, 24)) }
        else if panel == 6 { Some((120, 24)) }
        else { None }
    } else if character == 6 {
        if panel == 0 { Some((128, 8)) }
        else if panel == 1 { Some((136, 8)) }
        else if panel == 2 { Some((144, 8)) }
        else if panel == 3 { Some((128, 16)) }
        else if panel == 4 { Some((144, 16)) }
        else if panel == 5 { Some((128, 24)) }
        else if panel == 6 { Some((136, 24)) }
        else { None }
    } else {
        None
    }
}

/// Every panel starts in the first 145 columns, so that its eight columns lie
/// inside the logo, and no panel starts below row 32.
pub proof fn lemma_panel_origin_bounds(character: int, panel: int)
    ensures
        match panel_origin(character, panel) {
            Some((column, row)) => 0 <= column <= CELLS_ACROSS - PANEL_SIDE && 0 <= row <= CELLS_DOWN,
            None => true,
        },
{
}

/// Looks up the cell at which a panel starts.
pub fn find_panel_origin(character: usize, panel: usize) -> (r: Option<(usize, usize)>)
    ensures
        match r {
            Some((column, row)) => panel_origin(character as int, panel as int) == Some(
                (column as int, row as int),
            ),
            None => panel_origin(character as int, panel as int) is None,
        },
{
    match (character, panel) {
        (0, 0) => Some((0, 0)),
        (0, 1) => Some((0, 16)),
        (0, 2) => Some((0, 24)),
        (0, 3) => Some((0, 32)),
        (1, 0) => Some((8, 0)),
        (1, 1) => Some((8, 8)),
        (1, 2) => Some((16, 8)),
        (1, 3) => Some((8, 16)),
        (1, 4) => Some((8, 24)),
        (1, 5) => Some((16, 24)),
        (1, 6) => Some((24, 24)),
        (2, 0) => Some((32, 8)),
        (2, 1) => Some((40, 8)),
        (2, 2) => Some((48, 8)),
        (2, 3) => Some((32, 16)),
        (2, 4) => Some((48, 16)),
        (2, 5) => Some((32, 24)),
        (2, 6) => Some((40, 24)),
        (2, 7) => Some((48, 24)),
        (3, 0) => Some((56, 8)),
        (3, 1) => Some((64, 8)),
        (3, 2) => Some((72, 8)),
        (3, 3) => Some((56, 16)),
        (3, 4) => Some((56, 24)),
        (4, 0) => Some((88, 8)),
        (4, 1) => Some((96, 8)),
        (4, 2) => Some((80, 16)),
        (4, 3) => Some((96, 16)),
        (4, 4) => Some((80, 24)),
        (4, 5) => Some((88, 24)),
        (4, 6) => Some((96, 24)),
        (5, 0) => Some((104, 0)),
        (5, 1) => Some((104, 8)),
        (5, 2) => Some((112, 8)),
        (5, 3) => Some((104, 16)),
        (5, 4) => Some((104, 24)),
        (5, 5) => Some((112, 24)),
        (5, 6) => Some((120, 24)),
        (6, 0) => Some((128, 8)),
        (6, 1) => Some((136, 8)),
        (6, 2) => Some((144, 8)),
        (6, 3) => Some((128, 16)),
        (6, 4) => Some((144, 16)),
        (6, 5) => Some((128, 24)),
        (6, 6) => Some((136, 24)),
        _ => None,
    }
}

/// The number of bytes of the image at `scale` pixels to the side of a cell:
/// four bytes for each pixel.
pub open spec fn image_len(scale: int) -> int {
    (CELLS_ACROSS * scale) * (CELLS_DOWN * scale) * 4
}

/// The column of the pixel that byte `i` of the image belongs to.
pub open spec fn pixel_column(scale: int, i: int) -> int {
    (i / 4) % (CELLS_ACROSS * scale)
}

/// The row of the pixel that byte `i` of the image belongs to.
pub open spec fn pixel_row(scale: int, i: int) -> int {
    (i / 4) / (CELLS_ACROSS * scale)
}

/// Whether byte `i` of the image belongs to a pixel of the cell at column `x`
/// and row `y`: a square of `scale` pixels to the side.
pub open spec fn in_cell(scale: int, x: int, y: int, i: int) -> bool {
    &&& x * scale <= pixel_column(scale, i) < x * scale + scale
    &&& y * scale <= pixel_row(scale, i) < y * scale + scale
}

/// Byte `k` of an opaque pixel of the given colour: red, green, blue, alpha.
pub open spec fn pixel_byte(color: (u8, u8, u8), k: int) -> u8 {
    if k == 0 {
        color.0
    } else if k == 1 {
        color.1
    } else if k == 2 {
        color.2
    } else {
        255
    }
}

/// The image with the cell at column `x` and row `y` painted in `color`:
/// every pixel of the cell is opaque and of that colour, every other byte is
/// as it was.
pub open spec fn paint_cell(image: Seq<u8>, scale: int, x: int, y: int, color: (u8, u8, u8)) -> Seq<u8> {
    Seq::new(
        image.len(),
        |i: int|
            if in_cell(scale, x, y, i) {
                pixel_byte(color, i % 4)
            } else {
                image[i]
            },
    )
}

proof fn lemma_pixel_bounds(scale: int, x: int, y: int, ex: int, ey: int)
    requires
        1 <= scale,
        0 <= x < CELLS_ACROSS,
        0 <= y < CELLS_DOWN,
        0 <= ex < scale,
        0 <= ey < scale,
    ensures
        0 <= x * scale <= x * scale + ex < CELLS_ACROSS * scale,
        0 <= y * scale <= y * scale + ey < CELLS_DOWN * scale,
        0 <= (y * scale + ey) * (CELLS_ACROSS * scale),
        ((x * scale + ex) + (y * scale + ey) * (CELLS_ACROSS * scale)) * 4 + 3 < image_len(scale),
{
    let w = CELLS_ACROSS * scale;
    let h = CELLS_DOWN * scale;
    let px = x * scale + ex;
    let py = y * scale + ey;
    assert(0 <= x * scale && (x + 1) * scale <= 152 * scale) by (nonlinear_arith)
        requires
            0 <= x < 152,
            1 <= scale,
    ;
    assert(0 <= y * scale && (y + 1) * scale <= 32 * scale) by (nonlinear_arith)
        requires
            0 <= y < 32,
            1 <= scale,
    ;
    assert((x + 1) * scale == x * scale + scale) by (nonlinear_arith);
    assert((y + 1) * scale == y * scale + scale) by (nonlinear_arith);
    assert(0 <= py * w && px + py * w + 1 <= w * h) by (nonlinear_arith)
        requires
            0 <= px < w,
            0 <= py < h,
    ;
    assert(w * h * 4 == image_len(scale));
}

/// The bytes of the pixel at column `px` and row `py` are the four that
/// start at four times the pixel's place in the image, counted row by row.
proof fn lemma_pixel_of_byte(scale: int, px: int, py: int, i: int)
    requires
        1 <= scale,
        0 <= px < CELLS_ACROSS * scale,
        0 <= py,
        0 <= i,
    ensures
        (pixel_column(scale, i) == px && pixel_row(scale, i) == py) <==> (px + py * (CELLS_ACROSS
            * scale)) * 4 <= i < (px + py * (CELLS_ACROSS * scale)) * 4 + 4,
{
    let w = CELLS_ACROSS * scale;
    let p = px + py * w;
    lemma_fundamental_div_mod(i / 4, w);
    lemma_mod_bound(i / 4, w);
    lemma_fundamental_div_mod_converse(p, w, py, px);
    assert(w * py == py * w) by (nonlinear_arith);
    if pixel_column(scale, i) == px && pixel_row(scale, i) == py {
        assert(w * ((i / 4) / w) == w * py);
        assert(i / 4 == p);
    }
    if p * 4 <= i < p * 4 + 4 {
        assert(i / 4 == p);
    }
}

/// Paints the cell at column `x` and row `y` of the image.
fn paint_block(image: &mut Vec<u8>, scale: usize, width: usize, x: usize, y: usize, color: (u8, u8, u8))
    requires
        1 <= scale,
        width == CELLS_ACROSS * scale,
        x < CELLS_ACROSS,
        y < CELLS_DOWN,
        old(image)@.len() == image_len(scale as int),
    ensures
        final(image)@ == paint_cell(old(image)@, scale as int, x as int, y as int, color),
{
    let ghost before = image@;
    let ghost s = scale as int;
    proof {
        lemma_pixel_bounds(s, x as int, y as int, 0, 0);
    }
    let total = image.len();
    let left = x * scale;
    let top = y * scale;
    let mut ex: usize = 0;
    while ex < scale
        invariant
            1 <= scale,
            s == scale,
            width == CELLS_ACROSS * scale,
            x < CELLS_ACROSS,
            y < CELLS_DOWN,
            left == x * scale,
            top == y * scale,
            ex <= scale,
            before.len() == image_len(s),
            total == before.len(),
            image@.len() == before.len(),
            forall|i: int|
                0 <= i < before.len() ==> #[trigger] image@[i] == if in_cell(s, x as int, y as int, i)
                    && pixel_column(s, i) < left + ex {
                    pixel_byte(color, i % 4)
                } else {
                    before[i]
                },
        decreases scale - ex,
    {
        let mut ey: usize = 0;
        while ey < scale
            invariant
                1 <= scale,
                s == scale,
                width == CELLS_ACROSS * scale,
                x < CELLS_ACROSS,
                y < CELLS_DOWN,
                left == x * scale,
                top == y * scale,
                ex < scale,
                ey <= scale,
                before.len() == image_len(s),
                total == before.len(),
                image@.len() == before.len(),
                forall|i: int|
                    0 <= i < before.len() ==> #[trigger] image@[i] == if in_cell(s, x as int, y as int, i)
                        && (pixel_column(s, i) < left + ex || (pixel_column(s, i) == left + ex
                        && pixel_row(s, i) < top + ey)) {
                        pixel_byte(color, i % 4)
                    } else {
                        before[i]
                    },
            decreases scale - ey,
        {
            proof {
                lemma_pixel_bounds(s, x as int, y as int, ex as int, ey as int);
                assert((top + ey) * width == (y * s + ey) * (CELLS_ACROSS * s));
            }
            let px = left + ex;
            let py = top + ey;
            let at = (px + py * width) * 4;
            let ghost prior = image@;
            image.set(at, color.0);
            image.set(at + 1, color.1);
            image.set(at + 2, color.2);
            image.set(at + 3, 255);
            proof {
                assert forall|i: int| 0 <= i < before.len() implies #[trigger] image@[i] == if in_cell(
                    s,
                    x as int,
                    y as int,
                    i,
                ) && (pixel_column(s, i) < left + ex || (pixel_column(s, i) == left + ex
                    && pixel_row(s, i) < top + ey + 1)) {
                    pixel_byte(color, i % 4)
                } else {
                    before[i]
                } by {
                    lemma_pixel_of_byte(s, px as int, py as int, i);
                    if at <= i < at + 4 {
                        assert(i % 4 == i - at);
                    } else {
                        assert(image@[i] == prior[i]);
                    }
                }
            }
            ey += 1;
        }
        ex += 1;
    }
    assert(image@ =~= paint_cell(before, s, x as int, y as int, color));
}

/// An image in the making: the bytes painted so far and, where painting
/// stopped early, the reason.
pub struct Painted {
    pub image: Seq<u8>,
    pub failure: Option<RenderError>,
}

/// The image after the token at place `cell` of a panel has been painted, or
/// the reason why it cannot be.
///
/// The cell lies `cell % 8` columns right of the panel's origin and
/// `cell / 8` rows below it. It needs a panel that the logo has a place for,
/// a token that holds a colour, and a row inside the logo, asked in this
/// order.
pub open spec fn paint_token(
    image: Seq<u8>,
    scale: int,
    character: int,
    panel: int,
    cell: int,
    token: Seq<char>,
) -> Result<Seq<u8>, RenderError> {
    match panel_origin(character, panel) {
        None => Err(RenderError::MissingPanel),
        Some((column, row)) => match token_color(encode_utf8(token)) {
            None => Err(RenderError::MalformedColor),
            Some(color) => if row + cell / (PANEL_SIDE as int) >= CELLS_DOWN {
                Err(RenderError::OutsideImage)
            } else {
                Ok(
                    paint_cell(
                        image,
                        scale,
                        column + cell % (PANEL_SIDE as int),
                        row + cell / (PANEL_SIDE as int),
                        color,
                    ),
                )
            },
        },
    }
}

/// The image after the tokens of a panel from place `from` on have been
/// painted in order. Painting stops at the first token that cannot be
/// painted; what was painted before it stays.
pub open spec fn paint_panel(
    image: Seq<u8>,
    scale: int,
    character: int,
    panel: int,
    tokens: PanelView,
    from: int,
) -> Painted
    decreases tokens.len() - from,
{
    if from < 0 || from >= tokens.len() {
        Painted { image, failure: None }
    } else {
        match paint_token(image, scale, character, panel, from, tokens[from]) {
            Err(e) => Painted { image, failure: Some(e) },
            Ok(next) => paint_panel(next, scale, character, panel, tokens, from + 1),
        }
    }
}

/// The image after the panels of a character from place `from` on have been
/// painted in order, stopping at the first failure.
pub open spec fn paint_character(
    image: Seq<u8>,
    scale: int,
    character: int,
    panels: Seq<PanelView>,
    from: int,
) -> Painted
    decreases panels.len() - from,
{
    if from < 0 || from >= panels.len() {
        Painted { image, failure: None }
    } else {
        let painted = paint_panel(image, scale, character, from, panels[from], 0);
        if painted.failure is Some {
            painted
        } else {
            paint_character(painted.image, scale, character, panels, from + 1)
        }
    }
}

/// The image after the characters of a description from place `from` on have
/// been painted in order, stopping at the first failure.
pub open spec fn paint_logo(image: Seq<u8>, scale: int, characters: DescriptionView, from: int) -> Painted
    decreases characters.len() - from,
{
    if from < 0 || from >= characters.len() {
        Painted { image, failure: None }
    } else {
        let painted = paint_character(image, scale, from, characters[from], 0);
        if painted.failure is Some {
            painted
        } else {
            paint_logo(painted.image, scale, characters, from + 1)
        }
    }
}

/// The image before anything is painted: every pixel transparent black.
pub open spec fn blank_image(scale: int) -> Seq<u8> {
    Seq::new(image_len(scale) as nat, |i: int| 0u8)
}

/// The raster of a description at `scale` pixels to the side of a cell, or
/// the reason why it has none.
pub open spec fn rendered(description: DescriptionView, scale: int) -> Result<Seq<u8>, RenderError> {
    let painted = paint_logo(blank_image(scale), scale, description, 0);
    match painted.failure {
        Some(e) => Err(e),
        None => Ok(painted.image),
    }
}

/// Paints one character of the logo into the image.
///
/// On success every token of the character has been painted, in order. On
/// failure the image holds what was painted before the token that failed.
pub fn write_character(
    chr: &Vec<Vec<String>>,
    char_index: usize,
    pixel_size: usize,
    width: usize,
    image: &mut Vec<u8>,
) -> (r: Result<(), RenderError>)
    requires
        1 <= pixel_size,
        width == CELLS_ACROSS * pixel_size,
        old(image)@.len() == image_len(pixel_size as int),
    ensures
        final(image)@ == paint_character(
            old(image)@,
            pixel_size as int,
            char_index as int,
            chr.deep_view(),
            0,
        ).image,
        final(image)@.len() == old(image)@.len(),
        match r {
            Ok(()) => paint_character(
                old(image)@,
                pixel_size as int,
                char_index as int,
                chr.deep_view(),
                0,
            ).failure is None,
            Err(e) => paint_character(
                old(image)@,
                pixel_size as int,
                char_index as int,
                chr.deep_view(),
                0,
            ).failure == Some(e),
        },
{
    let ghost before = image@;
    let ghost s = pixel_size as int;
    let ghost c = char_index as int;
    let ghost panels = chr.deep_view();
    let mut panel_index: usize = 0;
    while panel_index < chr.len()
        invariant
            1 <= pixel_size,
            s == pixel_size,
            c == char_index,
            panels == chr.deep_view(),
            width == CELLS_ACROSS * pixel_size,
            panel_index <= chr.len(),
            image@.len() == image_len(s),
            before.len() == image_len(s),
            before == old(image)@,
            paint_character(before, s, c, panels, 0) == paint_character(
                image@,
                s,
                c,
                panels,
                panel_index as int,
            ),
        decreases chr.len() - panel_index,
    {
        let panel = &chr[panel_index];
        let ghost start = image@;
        let ghost tokens = panel.deep_view();
        assert(tokens == panels[panel_index as int]);
        let mut pixel_index: usize = 0;
        while pixel_index < panel.len()
            invariant
                1 <= pixel_size,
                s == pixel_size,
                c == char_index,
                tokens == panel.deep_view(),
                width == CELLS_ACROSS * pixel_size,
                pixel_index <= panel.len(),
                image@.len() == image_len(s),
                before.len() == image_len(s),
                before == old(image)@,
                panels == chr.deep_view(),
                0 <= panel_index < panels.len(),
                tokens == panels[panel_index as int],
                paint_character(before, s, c, panels, 0) == paint_character(
                    start,
                    s,
                    c,
                    panels,
                    panel_index as int,
                ),
                paint_panel(start, s, c, panel_index as int, tokens, 0) == paint_panel(
                    image@,
                    s,
                    c,
                    panel_index as int,
                    tokens,
                    pixel_index as int,
                ),
            decreases panel.len() - pixel_index,
        {
            assert(tokens[pixel_index as int] == panel[pixel_index as int]@);
            let origin = find_panel_origin(char_index, panel_index);
            let (column, row) = match origin {
                Some(at) => at,
                None => {
                    return Err(RenderError::MissingPanel);
                },
            };
            proof {
                lemma_panel_origin_bounds(c, panel_index as int);
            }
            let color = match parse_color(panel[pixel_index].as_str().as_bytes()) {
                Some(color) => color,
                None => {
                    return Err(RenderError::MalformedColor);
                },
            };
            let x = column + pixel_index % PANEL_SIDE;
            let down = pixel_index / PANEL_SIDE;
            if down >= CELLS_DOWN - row {
                return Err(RenderError::OutsideImage);
            }
            let y = row + down;
            paint_block(image, pixel_size, width, x, y, color);
            pixel_index += 1;
        }
        panel_index += 1;
    }
    Ok(())
}

/// How an image is asked for.
#[derive(Debug, Copy, Clone)]
pub struct LogoOptions {
    /// The number of pixels to the side of one cell; one where absent.
    pub size: Option<u32>,
    /// The character variant that was asked for. Rasterisation does not read it.
    pub character: Option<u32>,
}

impl LogoOptions {
    /// The number of pixels to the side of one cell.
    pub open spec fn scale(&self) -> int {
        match self.size {
            Some(size) => size as int,
            None => 1,
        }
    }

    /// Whether an image can be made at this scale: a cell is at least one
    /// pixel wide, a row of the image can be counted in 32 bits, and the
    /// image with one byte per row more can be counted in a `usize`.
    pub open spec fn renderable(&self) -> bool {
        &&& 1 <= self.scale()
        &&& CELLS_ACROSS * self.scale() <= u32::MAX
        &&& image_len(self.scale()) + CELLS_DOWN * self.scale() <= usize::MAX
    }

    /// Options with the given scale and character variant.
    pub fn new(size: Option<u32>, character: Option<u32>) -> (r: Self)
        ensures
            r.size == size,
            r.character == character,
    {
        LogoOptions { size, character }
    }

    /// The number of pixels to the side of one cell.
    pub fn pixel_size(&self) -> (r: usize)
        ensures
            r == self.scale(),
    {
        match self.size {
            Some(size) => size as usize,
            None => 1,
        }
    }

    /// Tells whether an image can be made at this scale.
    pub fn is_renderable(&self) -> (r: bool)
        ensures
            r == self.renderable(),
    {
        let scale = self.pixel_size();
        if scale < 1 || scale > (u32::MAX as usize) / CELLS_ACROSS {
            return false;
        }
        let width = CELLS_ACROSS * scale;
        let height = CELLS_DOWN * scale;
        let pixels = match width.checked_mul(height) {
            Some(pixels) => pixels,
            None => {
                return false;
            },
        };
        let bytes = match pixels.checked_mul(4) {
            Some(bytes) => bytes,
            None => {
                return false;
            },
        };
        bytes.checked_add(height).is_some()
    }
}

impl Default for LogoOptions {
    fn default() -> (r: Self)
        ensures
            r.size is None,
            r.character is None,
    {
        LogoOptions { size: None, character: None }
    }
}

/// A raster: rows of pixels from the top, each pixel four bytes.
#[derive(Debug)]
pub struct Logo {
    width: usize,
    height: usize,
    data: Vec<u8>,
}

impl Logo {
    /// The number of pixels in a row.
    pub closed spec fn spec_width(&self) -> int {
        self.width as int
    }

    /// The number of rows.
    pub closed spec fn spec_height(&self) -> int {
        self.height as int
    }

    /// The bytes of the pixels.
    pub closed spec fn pixels(&self) -> Seq<u8> {
        self.data@
    }

    /// The number of pixels in a row.
    pub fn width(&self) -> (r: usize)
        ensures
            r == self.spec_width(),
    {
        self.width
    }

    /// The number of rows.
    pub fn height(&self) -> (r: usize)
        ensures
            r == self.spec_height(),
    {
        self.height
    }

    /// The bytes of the pixels.
    pub fn data(&self) -> (r: &Vec<u8>)
        ensures
            r@ == self.pixels(),
    {
        &self.data
    }
}

/// Rasterises a description at the scale that the options give.
///
/// The image is 152 cells wide and 32 cells high and starts out transparent
/// black; the characters are painted in order. The first token that cannot
/// be painted fails the whole rasterisation.
pub fn get_logo_data(logo: &LogoResponse, options: LogoOptions) -> (r: Result<Logo, RenderError>)
    requires
        options.renderable(),
    ensures
        match r {
            Ok(image) => {
                &&& rendered(logo@, options.scale()) == Ok::<Seq<u8>, RenderError>(image.pixels())
                &&& image.spec_width() == CELLS_ACROSS * options.scale()
                &&& image.spec_height() == CELLS_DOWN * options.scale()
                &&& image.pixels().len() == image_len(options.scale())
            },
            Err(e) => rendered(logo@, options.scale()) == Err::<Seq<u8>, RenderError>(e),
        },
{
    let pixel_size = options.pixel_size();
    let ghost s = pixel_size as int;
    assert(CELLS_ACROSS * s <= usize::MAX && CELLS_DOWN * s <= usize::MAX && (CELLS_ACROSS * s) * (
    CELLS_DOWN * s) <= usize::MAX) by (nonlinear_arith)
        requires
            1 <= s,
            (CELLS_ACROSS * s) * (CELLS_DOWN * s) * 4 <= usize::MAX,
    ;
    let width = CELLS_ACROSS * pixel_size;
    let height = CELLS_DOWN * pixel_size;
    let mut image = vec![0u8; width * height * 4];
    assert(image@ =~= blank_image(s));
    let characters = logo.logo();
    let mut char_index: usize = 0;
    while char_index < characters.len()
        invariant
            1 <= pixel_size,
            s == pixel_size,
            s == options.scale(),
            width == CELLS_ACROSS * pixel_size,
            characters.deep_view() == logo@,
            char_index <= characters.len(),
            image@.len() == image_len(s),
            paint_logo(blank_image(s), s, logo@, 0) == paint_logo(image@, s, logo@, char_index as int),
        decreases characters.len() - char_index,
    {
        assert(logo@[char_index as int] == characters[char_index as int].deep_view());
        match write_character(&characters[char_index], char_index, pixel_size, width, &mut image) {
            Ok(()) => {},
            Err(e) => {
                return Err(e);
            },
        }
        char_index += 1;
    }
    Ok(Logo { width, height, data: image })
}

/// The PNG file that holds an image of the given width and height, eight
/// bits to the channel, with the given bytes as its pixels; `None` where the
/// encoder refuses them.
pub uninterp spec fn png_rgba(width: u32, height: u32, data: Seq<u8>) -> Option<Seq<u8>>;

/// Encodes a raster as a PNG file.
///
/// Calls `png::Encoder::new` on an empty buffer, sets the colour type to RGBA
/// and the depth to eight bits, then `write_header` and
/// `Writer::write_image_data`. The contract only names what the encoder
/// hands back: the bytes that it wrote, or nothing where one of its steps
/// reported an error. The sizes asked for keep the encoder's own row and
/// image lengths inside a `usize`.
#[verifier::external_body]
fn encode_png(width: u32, height: u32, data: &Vec<u8>) -> (r: Option<Vec<u8>>)
    requires
        32 * width + 8 <= usize::MAX,
        (4 * width + 1) * height <= usize::MAX,
    ensures
        match r {
            Some(bytes) => png_rgba(width, height, data@) == Some(bytes@),
            None => png_rgba(width, height, data@) is None,
        },
{
    let mut out = Vec::new();
    let mut encoder = png::Encoder::new(&mut out, width, height);
    encoder.set_color(png::ColorType::RGBA);
    encoder.set_depth(png::BitDepth::Eight);
    let written = encoder.write_header().and_then(|mut writer| writer.write_image_data(data));
    written.ok().map(|_| out)
}

/// What `get_logo_png` returns for a description at a scale, given what
/// the encoder makes of every raster.
pub open spec fn rendered_png(description: DescriptionView, scale: int) -> Result<Seq<u8>, RenderError> {
    match rendered(description, scale) {
        Err(e) => Err(e),
        Ok(pixels) => match png_rgba(
            (CELLS_ACROSS * scale) as u32,
            (CELLS_DOWN * scale) as u32,
            pixels,
        ) {
            Some(bytes) => Ok(bytes),
            None => Err(RenderError::Encoding),
        },
    }
}

/// The result of rendering, once the encoder has answered: the file where it
/// made one, an error where it made none.
pub fn png_or_error(encoded: Option<Vec<u8>>) -> (r: Result<Vec<u8>, RenderError>)
    ensures
        match encoded {
            Some(bytes) => r == Ok::<Vec<u8>, RenderError>(bytes),
            None => r == Err::<Vec<u8>, RenderError>(RenderError::Encoding),
        },
{
    match encoded {
        Some(bytes) => Ok(bytes),
        None => Err(RenderError::Encoding),
    }
}

/// Renders a description as a PNG file at the scale that the options give.
pub fn get_logo_png(logo: &LogoResponse, options: LogoOptions) -> (r: Result<Vec<u8>, RenderError>)
    requires
        options.renderable(),
    ensures
        match r {
            Ok(bytes) => rendered_png(logo@, options.scale()) == Ok::<Seq<u8>, RenderError>(bytes@),
            Err(e) => rendered_png(logo@, options.scale()) == Err::<Seq<u8>, RenderError>(e),
        },
{
    let image = match get_logo_data(logo, options) {
        Ok(image) => image,
        Err(e) => {
            return Err(e);
        },
    };
    let ghost s = options.scale();
    assert(32 * (CELLS_ACROSS * s) + 8 <= usize::MAX && (4 * (CELLS_ACROSS * s) + 1) * (CELLS_DOWN * s)
        <= usize::MAX) by (nonlinear_arith)
        requires
            1 <= s,
            (CELLS_ACROSS * s) * (CELLS_DOWN * s) * 4 + CELLS_DOWN * s <= usize::MAX,
    ;
    png_or_error(encode_png(image.width as u32, image.height as u32, &image.data))
}

/// What is served to one who asks for the image of a description: its PNG
/// file at the scale asked for, or the placeholder where the scale is out of
/// range or the description has no image.
pub open spec fn served(description: DescriptionView, options: LogoOptions, placeholder: Seq<u8>) -> Seq<u8> {
    if options.renderable() {
        match rendered_png(description, options.scale()) {
            Ok(bytes) => bytes,
            Err(_) => placeholder,
        }
    } else {
        placeholder
    }
}

/// Answers a request for the image of a description. A request is never
/// answered with an error: where no image can be made, the placeholder is
/// served in its place.
pub fn logo_route(logo: &LogoResponse, options: LogoOptions, placeholder: &Vec<u8>) -> (body: Vec<u8>)
    ensures
        body@ == served(logo@, options, placeholder@),
{
    if !options.is_renderable() {
        return copy_bytes(placeholder);
    }
    match get_logo_png(logo, options) {
        Ok(bytes) => bytes,
        Err(_) => copy_bytes(placeholder),
    }
}

/// A copy of a byte sequence.
fn copy_bytes(bytes: &Vec<u8>) -> (r: Vec<u8>)
    ensures
        r@ == bytes@,
{
    let r = bytes.clone();
    assert(r@ =~= bytes@);
    r
}

} // verus!
