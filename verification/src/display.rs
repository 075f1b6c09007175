//! The emulator's side of the text-mode display: decoding the character
//! buffer that the guest writes, and the colours it is drawn in.
use vstd::prelude::*;
use crate::vga::{Colour, colour_code, glyph_cell};

verus! {

/// Where the emulator maps the text buffer.
pub const VGA_BASE: usize = 0xb8000;
/// Columns of the text screen.
pub const COLS: usize = 80;
/// Rows of the text screen.
pub const ROWS: usize = 25;
/// Width of a glyph in pixels.
pub const CHAR_WIDTH: u32 = 8;
/// Height of a glyph in pixels.
pub const CHAR_HEIGHT: u32 = 16;
/// Size of the emulated memory.
pub const MEMORY_SIZE: usize = 0x1000000;

/// One decoded cell of the text buffer.
#[derive(Clone, Copy, Debug, PartialEq, Eq, Structural)]
pub struct TextCell {
    pub glyph: u8,
    pub fg: u8,
    pub bg: u8,
    pub col: usize,
    pub row: usize,
}

/// Cell `i` of a text buffer of two bytes per cell (character, then
/// attribute with the foreground in the low and the background in the high
/// nibble), on a screen of `cols` columns.
pub open spec fn cell_at(buf: Seq<u8>, i: int, cols: int) -> TextCell {
    TextCell {
        glyph: buf[2 * i],
        fg: buf[2 * i + 1] & 0x0fu8,
        bg: (buf[2 * i + 1] & 0xf0u8) >> 4u8,
        col: (i % cols) as usize,
        row: (i / cols) as usize,
    }
}

/// Decodes every cell of a text buffer laid out `COLS` cells to a row.
pub fn text_cells(vga_buffer: &[u8]) -> (cells: Vec<TextCell>)
    requires
        vga_buffer@.len() % 2 == 0,
    ensures
        cells@.len() == vga_buffer@.len() / 2,
        forall|i: int| 0 <= i < cells@.len() ==> #[trigger] cells@[i] == cell_at(vga_buffer@, i, COLS as int),
{
    let n = vga_buffer.len() / 2;
    let mut cells: Vec<TextCell> = Vec::new();
    for i in 0..n
        invariant
            n == vga_buffer@.len() / 2,
            vga_buffer@.len() == vga_buffer.len(),
            vga_buffer@.len() % 2 == 0,
            cells@.len() == i,
            forall|j: int| 0 <= j < i ==> #[trigger] cells@[j] == cell_at(vga_buffer@, j, COLS as int),
    {
        let glyph = vga_buffer[2 * i];
        let attr = vga_buffer[2 * i + 1];
        cells.push(TextCell {
            glyph,
            fg: attr & 0x0F,
            bg: (attr & 0xF0) >> 4,
            col: i % COLS,
            row: i / COLS,
        });
    }
    cells
}

/// The pixel origin, in a font sheet of sixteen glyphs to a row, of `glyph`.
pub fn glyph_origin(glyph: u8) -> (p: (i32, i32))
    ensures
        p.0 == (glyph % 16) * CHAR_WIDTH,
        p.1 == (glyph / 16) * CHAR_HEIGHT,
{
    (((glyph % 16) as i32) * (CHAR_WIDTH as i32), ((glyph / 16) as i32) * (CHAR_HEIGHT as i32))
}

/// The pixel origin on screen of a decoded cell.
pub fn cell_origin(cell: &TextCell) -> (p: (i32, i32))
    requires
        cell.col < COLS,
        cell.row < ROWS,
    ensures
        p.0 == cell.col * CHAR_WIDTH,
        p.1 == cell.row * CHAR_HEIGHT,
{
    ((cell.col as i32) * (CHAR_WIDTH as i32), (cell.row as i32) * (CHAR_HEIGHT as i32))
}

/// The sixteen colours of the display palette, as red, green and blue.
pub open spec fn palette_rgb(idx: u8) -> (u8, u8, u8) {
    if idx == 0 { (0, 0, 0) }
    else if idx == 1 { (0, 0, 170) }
    else if idx == 2 { (0, 170, 0) }
    else if idx == 3 { (0, 170, 170) }
    else if idx == 4 { (170, 0, 0) }
    else if idx == 5 { (170, 0, 170) }
    else if idx == 6 { (170, 85, 0) }
    else if idx == 7 { (170, 170, 170) }
    else if idx == 8 { (85, 85, 85) }
    else if idx == 9 { (85, 85, 255) }
    else if idx == 10 { (85, 255, 85) }
    else if idx == 11 { (85, 255, 255) }
    else if idx == 12 { (255, 85, 85) }
    else if idx == 13 { (255, 85, 255) }
    else if idx == 14 { (255, 255, 85) }
    else { (255, 255, 255) }
}

/// The palette colour of index `idx`.
pub fn palette_colour(idx: u8) -> (rgb: (u8, u8, u8))
    requires
        idx < 16,
    ensures
        rgb == palette_rgb(idx),
{
    match idx {
        0 => (0, 0, 0),
        1 => (0, 0, 170),
        2 => (0, 170, 0),
        3 => (0, 170, 170),
        4 => (170, 0, 0),
        5 => (170, 0, 170),
        6 => (170, 85, 0),
        7 => (170, 170, 170),
        8 => (85, 85, 85),
        9 => (85, 85, 255),
        10 => (85, 255, 85),
        11 => (85, 255, 255),
        12 => (255, 85, 85),
        13 => (255, 85, 255),
        14 => (255, 255, 85),
        _ => (255, 255, 255),
    }
}

/// The colour the terminal front end gives a 4-bit palette index: the
/// palette colour; any wider index is drawn dark grey.
pub fn u8_to_cp437_color(idx: u8) -> (rgb: (u8, u8, u8))
    ensures
        rgb == (if idx < 16 { palette_rgb(idx) } else { (85u8, 85u8, 85u8) }),
{
    if idx < 16 {
        palette_colour(idx)
    } else {
        (85, 85, 85)
    }
}

/// The two bytes in which a little-endian guest stores a 16-bit cell: the
/// low byte first.
pub open spec fn cell_bytes(word: u16) -> (u8, u8) {
    ((word & 0xff) as u8, (word >> 8u16) as u8)
}

/// A cell that the guest console writes for character `c` in `fg` on `bg`
/// is shown by the emulator as that character in those colours.
pub proof fn lemma_written_cell_displayed(c: u8, fg: Colour, bg: Colour)
    ensures
        ({
            let (lo, hi) = cell_bytes(glyph_cell(c, fg, bg));
            let cell = cell_at(seq![lo, hi], 0, COLS as int);
            &&& cell.glyph == c
            &&& cell.fg == colour_code(fg)
            &&& cell.bg == colour_code(bg)
        }),
{
    let f = colour_code(fg);
    let b = colour_code(bg);
    let w = glyph_cell(c, fg, bg);
    assert(((w & 0xff) as u8) == c && (((w >> 8u16) as u8) & 0x0fu8) == f && ((((w >> 8u16) as u8)
        & 0xf0u8) >> 4u8) == b) by (bit_vector)
        requires
            f < 16,
            b < 16,
            w == (c as u16) | (b << 12u16) | (f << 8u16),
    ;
}

/// The display palette is the standard 16-colour VGA table.
pub proof fn lemma_palette_table()
    ensures
        palette_rgb(0) == (0u8, 0u8, 0u8),
        palette_rgb(1) == (0u8, 0u8, 170u8),
        palette_rgb(2) == (0u8, 170u8, 0u8),
        palette_rgb(3) == (0u8, 170u8, 170u8),
        palette_rgb(4) == (170u8, 0u8, 0u8),
        palette_rgb(5) == (170u8, 0u8, 170u8),
        palette_rgb(6) == (170u8, 85u8, 0u8),
        palette_rgb(7) == (170u8, 170u8, 170u8),
        palette_rgb(8) == (85u8, 85u8, 85u8),
        palette_rgb(9) == (85u8, 85u8, 255u8),
        palette_rgb(10) == (85u8, 255u8, 85u8),
        palette_rgb(11) == (85u8, 255u8, 255u8),
        palette_rgb(12) == (255u8, 85u8, 85u8),
        palette_rgb(13) == (255u8, 85u8, 255u8),
        palette_rgb(14) == (255u8, 255u8, 85u8),
        palette_rgb(15) == (255u8, 255u8, 255u8),
{
}

/// A decoded cell takes the glyph from the first byte of its pair and
/// splits the second into two palette indices, the background in the high
/// and the foreground in the low nibble; cell `i` lies at column `i % COLS`
/// of row `i / COLS`.
pub proof fn lemma_cell_at_layout(buf: Seq<u8>, i: int)
    requires
        0 <= i,
        2 * i + 1 < buf.len(),
        buf.len() <= usize::MAX,
    ensures
        ({
            let cell = cell_at(buf, i, COLS as int);
            &&& cell.glyph == buf[2 * i]
            &&& cell.fg < 16
            &&& cell.bg < 16
            &&& cell.bg * 16 + cell.fg == buf[2 * i + 1]
            &&& cell.col < COLS
            &&& cell.row * COLS + cell.col == i
        }),
{
    let a = buf[2 * i + 1];
    assert((a & 0x0fu8) < 16 && ((a & 0xf0u8) >> 4u8) < 16 && ((a & 0xf0u8) >> 4u8) * 16 + (a
        & 0x0fu8) == a) by (bit_vector);
}

} // verus!
