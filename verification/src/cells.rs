//! What a description decides of each byte of its image.
//!
//! The image is defined by painting token after token. The laws of this
//! module say what that comes to byte by byte: a byte that lies in no
//! token's cell stays as it was, and, where no panel holds more than the 64
//! tokens that fill its square, a byte in a token's cell takes that token's
//! colour.

use vstd::prelude::*;
use vstd::utf8::encode_utf8;
use crate::color::token_color;
use crate::description::DescriptionView;
use crate::description::PanelView;
use crate::logo::blank_image;
use crate::logo::image_len;
use crate::logo::in_cell;
use crate::logo::paint_character;
use crate::logo::paint_logo;
use crate::logo::paint_panel;
use crate::logo::paint_token;
use crate::logo::panel_origin;
use crate::logo::pixel_byte;
use crate::logo::pixel_column;
use crate::logo::pixel_row;
use crate::logo::rendered;
use crate::logo::PANEL_SIDE;

verus! {

/// Painting leaves the image as long as it was.
pub proof fn lemma_paint_len(image: Seq<u8>, scale: int, characters: DescriptionView, from: int)
    ensures
        paint_logo(image, scale, characters, from).image.len() == image.len(),
    decreases characters.len() - from,
{
    if 0 <= from < characters.len() {
        lemma_paint_character_len(image, scale, from, characters[from], 0);
        let painted = paint_character(image, scale, from, characters[from], 0);
        if painted.failure is None {
            lemma_paint_len(painted.image, scale, characters, from + 1);
        }
    }
}

/// Painting the panels of a character leaves the image as long as it was.
pub proof fn lemma_paint_character_len(image: Seq<u8>, scale: int, character: int, panels: Seq<PanelView>, from: int)
    ensures
        paint_character(image, scale, character, panels, from).image.len() == image.len(),
    decreases panels.len() - from,
{
    if 0 <= from < panels.len() {
        lemma_paint_panel_len(image, scale, character, from, panels[from], 0);
        let painted = paint_panel(image, scale, character, from, panels[from], 0);
        if painted.failure is None {
            lemma_paint_character_len(painted.image, scale, character, panels, from + 1);
        }
    }
}

/// Painting the tokens of a panel leaves the image as long as it was.
pub proof fn lemma_paint_panel_len(image: Seq<u8>, scale: int, character: int, panel: int, tokens: PanelView, from: int)
    ensures
        paint_panel(image, scale, character, panel, tokens, from).image.len() == image.len(),
    decreases tokens.len() - from,
{
    if 0 <= from < tokens.len() {
        match paint_token(image, scale, character, panel, from, tokens[from]) {
            Err(e) => {},
            Ok(next) => {
                lemma_paint_panel_len(next, scale, character, panel, tokens, from + 1);
            },
        }
    }
}

/// Whether byte `i` of the image belongs to the cell of the token at place
/// `cell` of a panel that the logo has a place for.
pub open spec fn in_token_cell(scale: int, character: int, panel: int, cell: int, i: int) -> bool {
    match panel_origin(character, panel) {
        Some((column, row)) => in_cell(
            scale,
            column + cell % (PANEL_SIDE as int),
            row + cell / (PANEL_SIDE as int),
            i,
        ),
        None => false,
    }
}

/// Two cells that share a byte of the image are one cell.
pub proof fn lemma_cells_are_disjoint(scale: int, x: int, y: int, other_x: int, other_y: int, i: int)
    requires
        1 <= scale,
        in_cell(scale, x, y, i),
        in_cell(scale, other_x, other_y, i),
    ensures
        x == other_x,
        y == other_y,
{
    assert(x == other_x) by (nonlinear_arith)
        requires
            1 <= scale,
            x * scale <= pixel_column(scale, i) < x * scale + scale,
            other_x * scale <= pixel_column(scale, i) < other_x * scale + scale,
    ;
    assert(y == other_y) by (nonlinear_arith)
        requires
            1 <= scale,
            y * scale <= pixel_row(scale, i) < y * scale + scale,
            other_y * scale <= pixel_row(scale, i) < other_y * scale + scale,
    ;
}

/// Painting the tokens of a panel from place `from` on leaves the cell of
/// every earlier token as it is.
proof fn lemma_panel_keeps_earlier_cells(
    image: Seq<u8>,
    scale: int,
    character: int,
    panel: int,
    tokens: PanelView,
    from: int,
    k: int,
    i: int,
)
    requires
        1 <= scale,
        0 <= k < from,
        0 <= i < image.len(),
        in_token_cell(scale, character, panel, k, i),
    ensures
        paint_panel(image, scale, character, panel, tokens, from).image[i] == image[i],
        paint_panel(image, scale, character, panel, tokens, from).image.len() == image.len(),
    decreases tokens.len() - from,
{
    if from < tokens.len() {
        let (column, row) = panel_origin(character, panel)->0;
        match paint_token(image, scale, character, panel, from, tokens[from]) {
            Err(e) => {},
            Ok(next) => {
                let x = column + from % (PANEL_SIDE as int);
                let y = row + from / (PANEL_SIDE as int);
                if in_cell(scale, x, y, i) {
                    lemma_cells_are_disjoint(
                        scale,
                        x,
                        y,
                        column + k % (PANEL_SIDE as int),
                        row + k / (PANEL_SIDE as int),
                        i,
                    );
                }
                assert(next[i] == image[i]);
                lemma_panel_keeps_earlier_cells(next, scale, character, panel, tokens, from + 1, k, i);
            },
        }
    }
}

/// Within a panel no cell is painted twice: where the tokens of a panel from
/// place `from` on can all be painted, every pixel of the cell of each of
/// them ends up opaque and in that token's colour.
pub proof fn lemma_panel_paints_each_cell(
    image: Seq<u8>,
    scale: int,
    character: int,
    panel: int,
    tokens: PanelView,
    from: int,
    k: int,
    i: int,
)
    requires
        1 <= scale,
        0 <= from <= k < tokens.len(),
        0 <= i < image.len(),
        paint_panel(image, scale, character, panel, tokens, from).failure is None,
        in_token_cell(scale, character, panel, k, i),
    ensures
        token_color(encode_utf8(tokens[k])) is Some,
        paint_panel(image, scale, character, panel, tokens, from).image[i] == pixel_byte(
            token_color(encode_utf8(tokens[k]))->0,
            i % 4,
        ),
    decreases tokens.len() - from,
{
    match paint_token(image, scale, character, panel, from, tokens[from]) {
        Err(e) => {},
        Ok(next) => {
            if from == k {
                lemma_panel_keeps_earlier_cells(next, scale, character, panel, tokens, from + 1, k, i);
            } else {
                lemma_panel_paints_each_cell(next, scale, character, panel, tokens, from + 1, k, i);
            }
        },
    }
}

/// The number of tokens that fill the square of a panel.
pub const PANEL_CELLS: usize = 64;

/// Whether no panel of the description holds more tokens than fill its
/// square.
pub open spec fn fits_panels(description: DescriptionView) -> bool {
    forall|character: int, panel: int|
        0 <= character < description.len() && 0 <= panel < description[character].len() ==> (
        #[trigger] description[character][panel]).len() <= PANEL_CELLS
}

/// Whether byte `i` of the image lies in the cell of some token of the panel
/// from place `from` on.
pub open spec fn in_panel_cells(scale: int, character: int, panel: int, tokens: PanelView, from: int, i: int) -> bool {
    exists|cell: int| from <= cell < tokens.len() && #[trigger] in_token_cell(scale, character, panel, cell, i)
}

/// Whether byte `i` of the image lies in the cell of some token of the
/// character, in a panel from place `from` on.
pub open spec fn in_character_cells(
    scale: int,
    character: int,
    panels: Seq<PanelView>,
    from: int,
    i: int,
) -> bool {
    exists|panel: int|
        from <= panel < panels.len() && #[trigger] in_panel_cells(scale, character, panel, panels[panel], 0, i)
}

/// Whether byte `i` of the image lies in the cell of some token of the
/// description, in a character from place `from` on.
pub open spec fn in_logo_cells(scale: int, description: DescriptionView, from: int, i: int) -> bool {
    exists|character: int|
        from <= character < description.len() && #[trigger] in_character_cells(
            scale,
            character,
            description[character],
            0,
            i,
        )
}

/// Every panel starts at a multiple of eight, across and down.
pub proof fn lemma_origins_are_aligned(character: int, panel: int)
    ensures
        match panel_origin(character, panel) {
            Some((column, row)) => column % 8 == 0 && row % 8 == 0 && 0 <= column && 0 <= row,
            None => true,
        },
{
}

/// No two panels start at the same cell.
pub proof fn lemma_origins_differ(character: int, panel: int, other_character: int, other_panel: int)
    requires
        panel_origin(character, panel) is Some,
        panel_origin(character, panel) == panel_origin(other_character, other_panel),
    ensures
        character == other_character,
        panel == other_panel,
{
    let (column, row) = panel_origin(character, panel)->0;
    if column < 8 {
        assert(character == 0 && other_character == 0);
    } else if column < 32 {
        assert(character == 1 && other_character == 1);
    } else if column < 56 {
        assert(character == 2 && other_character == 2);
    } else if column < 80 {
        assert(character == 3 && other_character == 3);
    } else if column < 104 {
        assert(character == 4 && other_character == 4);
    } else if column < 128 {
        assert(character == 5 && other_character == 5);
    } else {
        assert(character == 6 && other_character == 6);
    }
}

/// Two tokens, each among the first 64 of its panel, whose cells share a
/// byte of the image are one token.
pub proof fn lemma_token_cells_are_disjoint(
    scale: int,
    character: int,
    panel: int,
    cell: int,
    other_character: int,
    other_panel: int,
    other_cell: int,
    i: int,
)
    requires
        1 <= scale,
        0 <= cell < PANEL_CELLS,
        0 <= other_cell < PANEL_CELLS,
        in_token_cell(scale, character, panel, cell, i),
        in_token_cell(scale, other_character, other_panel, other_cell, i),
    ensures
        character == other_character,
        panel == other_panel,
        cell == other_cell,
{
    let (column, row) = panel_origin(character, panel)->0;
    let (other_column, other_row) = panel_origin(other_character, other_panel)->0;
    let side = PANEL_SIDE as int;
    lemma_cells_are_disjoint(
        scale,
        column + cell % side,
        row + cell / side,
        other_column + other_cell % side,
        other_row + other_cell / side,
        i,
    );
    lemma_origins_are_aligned(character, panel);
    lemma_origins_are_aligned(other_character, other_panel);
    assert(column == other_column && row == other_row);
    lemma_origins_differ(character, panel, other_character, other_panel);
}

/// Painting the tokens of a panel leaves every byte outside their cells as
/// it was.
pub proof fn lemma_panel_keeps_other_bytes(
    image: Seq<u8>,
    scale: int,
    character: int,
    panel: int,
    tokens: PanelView,
    from: int,
    i: int,
)
    requires
        0 <= from,
        0 <= i < image.len(),
        !in_panel_cells(scale, character, panel, tokens, from, i),
    ensures
        paint_panel(image, scale, character, panel, tokens, from).image[i] == image[i],
        paint_panel(image, scale, character, panel, tokens, from).image.len() == image.len(),
    decreases tokens.len() - from,
{
    if from < tokens.len() {
        assert(!in_token_cell(scale, character, panel, from, i));
        match paint_token(image, scale, character, panel, from, tokens[from]) {
            Err(e) => {},
            Ok(next) => {
                assert(!in_panel_cells(scale, character, panel, tokens, from + 1, i)) by {
                    if in_panel_cells(scale, character, panel, tokens, from + 1, i) {
                        let cell = choose|cell: int|
                            from + 1 <= cell < tokens.len() && #[trigger] in_token_cell(
                                scale,
                                character,
                                panel,
                                cell,
                                i,
                            );
                        assert(from <= cell < tokens.len() && in_token_cell(scale, character, panel, cell, i));
                    }
                }
                lemma_panel_keeps_other_bytes(next, scale, character, panel, tokens, from + 1, i);
            },
        }
    }
}

/// Painting the panels of a character leaves every byte outside the cells
/// of their tokens as it was.
pub proof fn lemma_character_keeps_other_bytes(
    image: Seq<u8>,
    scale: int,
    character: int,
    panels: Seq<PanelView>,
    from: int,
    i: int,
)
    requires
        0 <= from,
        0 <= i < image.len(),
        !in_character_cells(scale, character, panels, from, i),
    ensures
        paint_character(image, scale, character, panels, from).image[i] == image[i],
        paint_character(image, scale, character, panels, from).image.len() == image.len(),
    decreases panels.len() - from,
{
    if from < panels.len() {
        assert(!in_panel_cells(scale, character, from, panels[from], 0, i));
        lemma_panel_keeps_other_bytes(image, scale, character, from, panels[from], 0, i);
        let painted = paint_panel(image, scale, character, from, panels[from], 0);
        if painted.failure is None {
            assert(!in_character_cells(scale, character, panels, from + 1, i)) by {
                if in_character_cells(scale, character, panels, from + 1, i) {
                    let panel = choose|panel: int|
                        from + 1 <= panel < panels.len() && #[trigger] in_panel_cells(
                            scale,
                            character,
                            panel,
                            panels[panel],
                            0,
                            i,
                        );
                    assert(from <= panel < panels.len() && in_panel_cells(
                        scale,
                        character,
                        panel,
                        panels[panel],
                        0,
                        i,
                    ));
                }
            }
            lemma_character_keeps_other_bytes(painted.image, scale, character, panels, from + 1, i);
        }
    }
}

/// Painting the characters of a description leaves every byte outside the
/// cells of their tokens as it was.
pub proof fn lemma_logo_keeps_other_bytes(image: Seq<u8>, scale: int, description: DescriptionView, from: int, i: int)
    requires
        0 <= from,
        0 <= i < image.len(),
        !in_logo_cells(scale, description, from, i),
    ensures
        paint_logo(image, scale, description, from).image[i] == image[i],
        paint_logo(image, scale, description, from).image.len() == image.len(),
    decreases description.len() - from,
{
    if from < description.len() {
        assert(!in_character_cells(scale, from, description[from], 0, i));
        lemma_character_keeps_other_bytes(image, scale, from, description[from], 0, i);
        let painted = paint_character(image, scale, from, description[from], 0);
        if painted.failure is None {
            assert(!in_logo_cells(scale, description, from + 1, i)) by {
                if in_logo_cells(scale, description, from + 1, i) {
                    let character = choose|character: int|
                        from + 1 <= character < description.len() && #[trigger] in_character_cells(
                            scale,
                            character,
                            description[character],
                            0,
                            i,
                        );
                    assert(from <= character < description.len() && in_character_cells(
                        scale,
                        character,
                        description[character],
                        0,
                        i,
                    ));
                }
            }
            lemma_logo_keeps_other_bytes(painted.image, scale, description, from + 1, i);
        }
    }
}

/// A byte in the cell of one of the first 64 tokens of a panel lies in no
/// cell of another panel's first 64 tokens.
proof fn lemma_not_in_other_panels(
    scale: int,
    character: int,
    panel: int,
    cell: int,
    other_character: int,
    panels: Seq<PanelView>,
    from: int,
    i: int,
)
    requires
        1 <= scale,
        0 <= cell < PANEL_CELLS,
        in_token_cell(scale, character, panel, cell, i),
        forall|q: int| 0 <= q < panels.len() ==> (#[trigger] panels[q]).len() <= PANEL_CELLS,
        0 <= from,
        other_character != character || panel < from,
    ensures
        !in_character_cells(scale, other_character, panels, from, i),
{
    if in_character_cells(scale, other_character, panels, from, i) {
        let q = choose|q: int|
            from <= q < panels.len() && #[trigger] in_panel_cells(scale, other_character, q, panels[q], 0, i);
        let j = choose|j: int|
            0 <= j < panels[q].len() && #[trigger] in_token_cell(scale, other_character, q, j, i);
        assert(panels[q].len() <= PANEL_CELLS);
        lemma_token_cells_are_disjoint(scale, character, panel, cell, other_character, q, j, i);
    }
}

/// Where the panels of a character from place `from` on can all be painted
/// and none holds more than 64 tokens, every pixel of the cell of each of
/// their tokens ends up opaque and in that token's colour.
pub proof fn lemma_character_paints_each_cell(
    image: Seq<u8>,
    scale: int,
    character: int,
    panels: Seq<PanelView>,
    from: int,
    panel: int,
    cell: int,
    i: int,
)
    requires
        1 <= scale,
        0 <= from <= panel < panels.len(),
        0 <= cell < panels[panel].len(),
        0 <= i < image.len(),
        forall|q: int| 0 <= q < panels.len() ==> (#[trigger] panels[q]).len() <= PANEL_CELLS,
        paint_character(image, scale, character, panels, from).failure is None,
        in_token_cell(scale, character, panel, cell, i),
    ensures
        token_color(encode_utf8(panels[panel][cell])) is Some,
        paint_character(image, scale, character, panels, from).image[i] == pixel_byte(
            token_color(encode_utf8(panels[panel][cell]))->0,
            i % 4,
        ),
    decreases panels.len() - from,
{
    let painted = paint_panel(image, scale, character, from, panels[from], 0);
    lemma_paint_panel_len(image, scale, character, from, panels[from], 0);
    if from == panel {
        lemma_panel_paints_each_cell(image, scale, character, panel, panels[panel], 0, cell, i);
        lemma_not_in_other_panels(scale, character, panel, cell, character, panels, from + 1, i);
        lemma_character_keeps_other_bytes(painted.image, scale, character, panels, from + 1, i);
    } else {
        lemma_character_paints_each_cell(painted.image, scale, character, panels, from + 1, panel, cell, i);
    }
}

/// A byte in the cell of one of the first 64 tokens of a panel lies in no
/// cell of a later character whose panels hold at most 64 tokens each.
proof fn lemma_not_in_later_characters(
    scale: int,
    description: DescriptionView,
    character: int,
    panel: int,
    cell: int,
    from: int,
    i: int,
)
    requires
        1 <= scale,
        fits_panels(description),
        0 <= cell < PANEL_CELLS,
        in_token_cell(scale, character, panel, cell, i),
        character < from,
    ensures
        !in_logo_cells(scale, description, from, i),
{
    if in_logo_cells(scale, description, from, i) {
        let other = choose|other: int|
            from <= other < description.len() && #[trigger] in_character_cells(
                scale,
                other,
                description[other],
                0,
                i,
            );
        assert forall|q: int| 0 <= q < description[other].len() implies (
        #[trigger] description[other][q]).len() <= PANEL_CELLS by {}
        lemma_not_in_other_panels(scale, character, panel, cell, other, description[other], 0, i);
    }
}

/// Where the characters of a description from place `from` on can all be
/// painted and no panel holds more than 64 tokens, every pixel of the cell
/// of each of their tokens ends up opaque and in that token's colour.
pub proof fn lemma_logo_paints_each_cell(
    image: Seq<u8>,
    scale: int,
    description: DescriptionView,
    from: int,
    character: int,
    panel: int,
    cell: int,
    i: int,
)
    requires
        1 <= scale,
        fits_panels(description),
        0 <= from <= character < description.len(),
        0 <= panel < description[character].len(),
        0 <= cell < description[character][panel].len(),
        0 <= i < image.len(),
        paint_logo(image, scale, description, from).failure is None,
        in_token_cell(scale, character, panel, cell, i),
    ensures
        token_color(encode_utf8(description[character][panel][cell])) is Some,
        paint_logo(image, scale, description, from).image[i] == pixel_byte(
            token_color(encode_utf8(description[character][panel][cell]))->0,
            i % 4,
        ),
    decreases description.len() - from,
{
    let painted = paint_character(image, scale, from, description[from], 0);
    lemma_paint_character_len(image, scale, from, description[from], 0);
    if from == character {
        assert forall|q: int| 0 <= q < description[character].len() implies (
        #[trigger] description[character][q]).len() <= PANEL_CELLS by {}
        lemma_character_paints_each_cell(image, scale, character, description[character], 0, panel, cell, i);
        lemma_not_in_later_characters(scale, description, character, panel, cell, from + 1, i);
        lemma_logo_keeps_other_bytes(painted.image, scale, description, from + 1, i);
    } else {
        lemma_logo_paints_each_cell(painted.image, scale, description, from + 1, character, panel, cell, i);
    }
}

/// The image of a description, byte by byte. Where a description whose
/// panels hold at most 64 tokens each has an image, the image is as long as
/// the scale asks, a byte in the cell of a token is that of an opaque pixel
/// in the token's colour, and a byte in no token's cell is zero.
pub proof fn lemma_rendered_bytes(description: DescriptionView, scale: int, i: int)
    requires
        1 <= scale,
        fits_panels(description),
        rendered(description, scale) is Ok,
        0 <= i < image_len(scale),
    ensures
        rendered(description, scale)->Ok_0.len() == image_len(scale),
        !in_logo_cells(scale, description, 0, i) ==> rendered(description, scale)->Ok_0[i] == 0,
        forall|character: int, panel: int, cell: int|
            0 <= character < description.len() && 0 <= panel < description[character].len() && 0 <= cell
                < description[character][panel].len() && #[trigger] in_token_cell(
                scale,
                character,
                panel,
                cell,
                i,
            ) ==> token_color(encode_utf8(description[character][panel][cell])) is Some && rendered(
                description,
                scale,
            )->Ok_0[i] == pixel_byte(
                token_color(encode_utf8(description[character][panel][cell]))->0,
                i % 4,
            ),
{
    let blank = blank_image(scale);
    assert(image_len(scale) >= 0) by (nonlinear_arith)
        requires
            1 <= scale,
            image_len(scale) == (152 * scale) * (32 * scale) * 4,
    ;
    lemma_paint_len(blank, scale, description, 0);
    if !in_logo_cells(scale, description, 0, i) {
        lemma_logo_keeps_other_bytes(blank, scale, description, 0, i);
    }
    assert forall|character: int, panel: int, cell: int|
        0 <= character < description.len() && 0 <= panel < description[character].len() && 0 <= cell
            < description[character][panel].len() && #[trigger] in_token_cell(
            scale,
            character,
            panel,
            cell,
            i,
        ) implies token_color(encode_utf8(description[character][panel][cell])) is Some && rendered(
        description,
        scale,
    )->Ok_0[i] == pixel_byte(token_color(encode_utf8(description[character][panel][cell]))->0, i % 4) by {
        lemma_logo_paints_each_cell(blank, scale, description, 0, character, panel, cell, i);
    }
}

} // verus!
