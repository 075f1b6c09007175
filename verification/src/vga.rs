//! The text-mode console of the guest payload: a grid of 16-bit cells, each
//! holding a character in its low byte, the foreground colour in bits 8..12
//! and the background colour in bits 12..16.
use vstd::prelude::*;
use vstd::string::StringSliceAdditionalSpecFns;

verus! {

/// The error type of formatted writing.
#[verifier::external_type_specification]
#[verifier::external_body]
pub struct ExFmtError(core::fmt::Error);

/// The newline character.
pub const NEWLINE: u8 = 10;

/// The sixteen colours of the text-mode palette.
#[derive(Clone, Copy, Debug, PartialEq, Eq, Structural)]
pub enum Colour {
    Black,
    Blue,
    Green,
    Cyan,
    Red,
    Magenta,
    Brown,
    LightGrey,
    DarkGrey,
    LightBlue,
    LightGreen,
    LightCyan,
    LightRed,
    LightMagneta,
    Yellow,
    White,
}

/// The palette index of a colour.
pub open spec fn colour_code(c: Colour) -> u16 {
    match c {
        Colour::Black => 0,
        Colour::Blue => 1,
        Colour::Green => 2,
        Colour::Cyan => 3,
        Colour::Red => 4,
        Colour::Magenta => 5,
        Colour::Brown => 6,
        Colour::LightGrey => 7,
        Colour::DarkGrey => 8,
        Colour::LightBlue => 9,
        Colour::LightGreen => 10,
        Colour::LightCyan => 11,
        Colour::LightRed => 12,
        Colour::LightMagneta => 13,
        Colour::Yellow => 14,
        Colour::White => 15,
    }
}

impl Colour {
    /// The palette index of the colour.
    pub fn code(self) -> (v: u16)
        ensures
            v == colour_code(self),
    {
        match self {
            Colour::Black => 0,
            Colour::Blue => 1,
            Colour::Green => 2,
            Colour::Cyan => 3,
            Colour::Red => 4,
            Colour::Magenta => 5,
            Colour::Brown => 6,
            Colour::LightGrey => 7,
            Colour::DarkGrey => 8,
            Colour::LightBlue => 9,
            Colour::LightGreen => 10,
            Colour::LightCyan => 11,
            Colour::LightRed => 12,
            Colour::LightMagneta => 13,
            Colour::Yellow => 14,
            Colour::White => 15,
        }
    }
}

/// The cell that shows character `c` in colours `fg` on `bg`.
pub open spec fn glyph_cell(c: u8, fg: Colour, bg: Colour) -> u16 {
    (c as u16) | (colour_code(bg) << 12u16) | (colour_code(fg) << 8u16)
}

/// The cell left where a newline is written: no character, colours `fg` on `bg`.
pub open spec fn newline_cell(fg: Colour, bg: Colour) -> u16 {
    (colour_code(bg) << 12u16) | (colour_code(fg) << 8u16)
}

/// The cell that marks the cursor.
pub open spec fn cursor_cell(cursor: Colour) -> u16 {
    colour_code(cursor) << 12u16
}

/// The fixed parameters of a console.
pub struct Console {
    pub width: int,
    pub height: int,
    pub fg: Colour,
    pub bg: Colour,
    pub cursor: Colour,
}

/// What a console shows: the cursor position and the cells, row after row.
pub struct Screen {
    pub col: int,
    pub row: int,
    pub cells: Seq<u16>,
}

/// The cells after every row moves up by one and the last row is blanked;
/// a console of fewer than two rows is left as it is.
pub open spec fn scrolled(cells: Seq<u16>, width: int, height: int) -> Seq<u16> {
    if height < 2 {
        cells
    } else {
        Seq::new(
            cells.len(),
            |k: int|
                if k < (height - 1) * width {
                    cells[k + width]
                } else {
                    0u16
                },
        )
    }
}

/// The screen after character `c` is written: the cell under the cursor
/// takes the character (a newline leaves it blank); the cursor moves right,
/// or to the start of the next line after the last column or a newline,
/// scrolling when it leaves the last row; the new cursor cell is marked.
pub open spec fn put_char(con: Console, s: Screen, c: u8) -> Screen {
    let drawn = s.cells.update(
        s.col + s.row * con.width,
        if c != NEWLINE { glyph_cell(c, con.fg, con.bg) } else { newline_cell(con.fg, con.bg) },
    );
    let wrap = s.col == con.width - 1 || c == NEWLINE;
    let last_row = s.row == con.height - 1;
    let cells = if wrap && last_row { scrolled(drawn, con.width, con.height) } else { drawn };
    let row = if wrap && !last_row { s.row + 1 } else { s.row };
    let col = if wrap { 0 } else { s.col + 1 };
    Screen { col, row, cells: cells.update(col + row * con.width, cursor_cell(con.cursor)) }
}

/// The screen after the bytes of `text` are written one after another.
pub open spec fn put_bytes(con: Console, s: Screen, text: Seq<u8>) -> Screen
    decreases text.len(),
{
    if text.len() == 0 {
        s
    } else {
        put_char(con, put_bytes(con, s, text.drop_last()), text.last())
    }
}

/// Writing `a` and then `b` leaves a console as writing `a + b` does.
pub proof fn lemma_put_bytes_append(con: Console, s: Screen, a: Seq<u8>, b: Seq<u8>)
    ensures
        put_bytes(con, s, a + b) == put_bytes(con, put_bytes(con, s, a), b),
    decreases b.len(),
{
    if b.len() == 0 {
        assert(a + b =~= a);
    } else {
        lemma_put_bytes_append(con, s, a, b.drop_last());
        assert((a + b).drop_last() =~= a + b.drop_last());
        assert((a + b).last() == b.last());
    }
}

/// The palette index of each colour is its position in the standard VGA
/// order, so the sixteen colours have the sixteen distinct codes `0..16`.
pub proof fn lemma_colour_codes()
    ensures
        colour_code(Colour::Black) == 0,
        colour_code(Colour::Blue) == 1,
        colour_code(Colour::Green) == 2,
        colour_code(Colour::Cyan) == 3,
        colour_code(Colour::Red) == 4,
        colour_code(Colour::Magenta) == 5,
        colour_code(Colour::Brown) == 6,
        colour_code(Colour::LightGrey) == 7,
        colour_code(Colour::DarkGrey) == 8,
        colour_code(Colour::LightBlue) == 9,
        colour_code(Colour::LightGreen) == 10,
        colour_code(Colour::LightCyan) == 11,
        colour_code(Colour::LightRed) == 12,
        colour_code(Colour::LightMagneta) == 13,
        colour_code(Colour::Yellow) == 14,
        colour_code(Colour::White) == 15,
        forall|c: Colour| #[trigger] colour_code(c) < 16,
        forall|a: Colour, b: Colour| colour_code(a) == colour_code(b) ==> a == b,
{
}

/// A character cell holds the character in its low byte, the foreground
/// code in bits 8..12 and the background code in bits 12..16; a newline
/// cell holds only the colours, and the cursor cell only its colour in the
/// top four bits.
pub proof fn lemma_cell_layout(c: u8, fg: Colour, bg: Colour, cursor: Colour)
    ensures
        glyph_cell(c, fg, bg) as int == c + 0x100 * colour_code(fg) + 0x1000 * colour_code(bg),
        newline_cell(fg, bg) as int == 0x100 * colour_code(fg) + 0x1000 * colour_code(bg),
        cursor_cell(cursor) as int == 0x1000 * colour_code(cursor),
{
    lemma_colour_codes();
    let f = colour_code(fg);
    let b = colour_code(bg);
    let k = colour_code(cursor);
    assert(((c as u16) | (b << 12u16) | (f << 8u16)) as int == c + 0x100 * f + 0x1000 * b
        && ((b << 12u16) | (f << 8u16)) as int == 0x100 * f + 0x1000 * b && (k << 12u16) as int
        == 0x1000 * k) by (bit_vector)
        requires
            f < 16,
            b < 16,
            k < 16,
    ;
}

/// Writing a string is writing its bytes unchanged, one after another: the
/// empty string leaves the console as it is, and one more byte is one more
/// character written.
pub proof fn lemma_put_bytes_push(con: Console, s: Screen, text: Seq<u8>, c: u8)
    ensures
        put_bytes(con, s, Seq::empty()) == s,
        put_bytes(con, s, text.push(c)) == put_char(con, put_bytes(con, s, text), c),
{
    assert(text.push(c).drop_last() =~= text);
}

/// What writing one character does to a console whose cursor lies on its
/// grid. The cell under the cursor takes the character (a newline leaves
/// its colours only), the cursor moves one column right, or to the start of
/// the next row after the last column or a newline; leaving the last row
/// scrolls every row up and blanks the last; the new cursor cell is marked
/// and every other cell is kept.
pub proof fn lemma_put_char_effect(con: Console, s: Screen, c: u8)
    requires
        con.width > 0,
        con.height > 0,
        0 <= s.col < con.width,
        0 <= s.row < con.height,
        s.cells.len() == con.width * con.height,
    ensures
        ({
            let w = con.width;
            let h = con.height;
            let t = put_char(con, s, c);
            let here = s.col + s.row * w;
            let written = if c == NEWLINE {
                newline_cell(con.fg, con.bg)
            } else {
                glyph_cell(c, con.fg, con.bg)
            };
            let wraps = c == NEWLINE || s.col + 1 == w;
            &&& t.cells.len() == s.cells.len()
            &&& 0 <= t.col < w
            &&& 0 <= t.row < h
            &&& t.cells[t.col + t.row * w] == cursor_cell(con.cursor)
            &&& !wraps ==> {
                &&& t.col == s.col + 1
                &&& t.row == s.row
                &&& t.cells[here] == written
                &&& forall|k: int|
                    0 <= k < s.cells.len() && k != here && k != here + 1 ==> #[trigger] t.cells[k]
                        == s.cells[k]
            }
            &&& wraps && s.row + 1 < h ==> {
                &&& t.col == 0
                &&& t.row == s.row + 1
                &&& t.cells[here] == written
                &&& forall|k: int|
                    0 <= k < s.cells.len() && k != here && k != (s.row + 1) * w ==> #[trigger] t.cells[k]
                        == s.cells[k]
            }
            &&& wraps && s.row + 1 == h && h == 1 ==> {
                &&& t.col == 0
                &&& t.row == 0
                &&& forall|k: int|
                    0 < k < s.cells.len() ==> #[trigger] t.cells[k] == (if k == here {
                        written
                    } else {
                        s.cells[k]
                    })
            }
            &&& wraps && s.row + 1 == h && h >= 2 ==> {
                &&& t.col == 0
                &&& t.row == s.row
                &&& forall|k: int|
                    0 <= k < (h - 1) * w ==> #[trigger] t.cells[k] == (if k + w == here {
                        written
                    } else {
                        s.cells[k + w]
                    })
                &&& forall|k: int|
                    (h - 1) * w < k < w * h ==> #[trigger] t.cells[k] == 0u16
            }
        }),
{
    let w = con.width;
    let h = con.height;
    lemma_row_bounds(s.row, w, h);
    if s.row + 1 < h {
        lemma_row_bounds(s.row + 1, w, h);
    }
    if h >= 2 {
        lemma_row_bounds(h - 2, w, h);
        lemma_row_bounds(h - 1, w, h);
    }
    let t = put_char(con, s, c);
    let here = s.col + s.row * w;
    let written = if c == NEWLINE {
        newline_cell(con.fg, con.bg)
    } else {
        glyph_cell(c, con.fg, con.bg)
    };
    let drawn = s.cells.update(here, written);
    let wraps = c == NEWLINE || s.col + 1 == w;
    if wraps && s.row + 1 == h {
        if h == 1 {
            assert(s.row * w == 0 * w);
            assert(t.cells == drawn.update(0, cursor_cell(con.cursor)));
        }
        if h >= 2 {
            let sc = scrolled(drawn, w, h);
            assert(sc.len() == w * h);
            assert(t.cells == sc.update(0 + s.row * w, cursor_cell(con.cursor)));
            assert(s.row * w == (h - 1) * w);
            assert forall|k: int| 0 <= k < (h - 1) * w implies #[trigger] t.cells[k] == (if k + w == here {
                written
            } else {
                s.cells[k + w]
            }) by {
                assert(sc[k] == drawn[k + w]);
            }
            assert forall|k: int| (h - 1) * w < k < w * h implies #[trigger] t.cells[k] == 0u16 by {
                assert(sc[k] == 0u16);
            }
        }
    }
}

proof fn lemma_row_bounds(y: int, w: int, h: int)
    requires
        0 <= y < h,
        0 <= w,
    ensures
        0 <= y * w,
        (y + 1) * w == y * w + w,
        y * w + w <= w * h,
        y + 1 == h ==> y * w + w == w * h,
        h * w == w * h,
{
    assert(h * w == w * h) by (nonlinear_arith);
    assert(0 <= y * w) by (nonlinear_arith)
        requires
            0 <= y,
            0 <= w,
    ;
    assert((y + 1) * w == y * w + w) by (nonlinear_arith);
    assert(y * w + w <= w * h) by (nonlinear_arith)
        requires
            0 <= y < h,
            0 <= w,
    ;
}

/// A console over a grid of `width * height` cells.
pub struct Buffer {
    width: usize,
    height: usize,
    x: usize,
    y: usize,
    slice: Vec<u16>,
    fg_colour: Colour,
    bg_colour: Colour,
    cursor_colour: Colour,
}

impl View for Buffer {
    type V = Screen;

    closed spec fn view(&self) -> Screen {
        Screen { col: self.x as int, row: self.y as int, cells: self.slice@ }
    }
}

impl Buffer {
    /// The fixed parameters of the console.
    pub closed spec fn console(&self) -> Console {
        Console {
            width: self.width as int,
            height: self.height as int,
            fg: self.fg_colour,
            bg: self.bg_colour,
            cursor: self.cursor_colour,
        }
    }

    /// The grid has `width * height` cells and the cursor lies on it (at the
    /// origin when the grid is empty).
    pub open spec fn wf(&self) -> bool {
        let con = self.console();
        &&& self@.cells.len() == con.width * con.height
        &&& if con.width > 0 && con.height > 0 {
            0 <= self@.col < con.width && 0 <= self@.row < con.height
        } else {
            self@.col == 0 && self@.row == 0
        }
    }

    /// A console over `slice`, the `width * height` cells of the screen; the
    /// cursor starts at the top left and the cells are left as they are.
    pub fn new(
        width: usize,
        height: usize,
        slice: Vec<u16>,
        fg_colour: Colour,
        bg_colour: Colour,
        cursor_colour: Colour,
    ) -> (b: Self)
        requires
            slice@.len() == width * height,
        ensures
            b.wf(),
            b.console() == (Console {
                width: width as int,
                height: height as int,
                fg: fg_colour,
                bg: bg_colour,
                cursor: cursor_colour,
            }),
            b@ == (Screen { col: 0, row: 0, cells: slice@ }),
    {
        Self { width, height, x: 0, y: 0, slice, fg_colour, bg_colour, cursor_colour }
    }

    /// The console that the guest's print functions create over the text
    /// buffer: 80 columns by 25 rows, green on black with a cyan cursor.
    pub fn print_console(slice: Vec<u16>) -> (b: Self)
        requires
            slice@.len() == 80 * 25,
        ensures
            b.wf(),
            b.console() == (Console {
                width: 80,
                height: 25,
                fg: Colour::Green,
                bg: Colour::Black,
                cursor: Colour::Cyan,
            }),
            b@ == (Screen { col: 0, row: 0, cells: slice@ }),
    {
        Self::new(80, 25, slice, Colour::Green, Colour::Black, Colour::Cyan)
    }

    /// The cells of the screen, row after row.
    pub fn cells(&self) -> (s: &[u16])
        ensures
            s@ == self@.cells,
    {
        self.slice.as_slice()
    }

    /// The cursor position as `(column, row)`.
    pub fn cursor(&self) -> (p: (usize, usize))
        ensures
            p.0 == self@.col,
            p.1 == self@.row,
    {
        (self.x, self.y)
    }

    /// Writes one character at the cursor (see `put_char`).
    pub fn write_ascii(&mut self, c: u8)
        requires
            old(self).wf(),
            old(self).console().width > 0,
            old(self).console().height > 0,
        ensures
            final(self).wf(),
            final(self).console() == old(self).console(),
            final(self)@ == put_char(old(self).console(), old(self)@, c),
    {
        proof {
            assert(self.slice@.len() == self.slice.len());
            lemma_row_bounds(self.y as int, self.width as int, self.height as int);
        }
        let idx = self.x + self.y * self.width;
        if c != NEWLINE {
            self.slice[idx] = c as u16 | self.bg_colour.code() << 12 | self.fg_colour.code() << 8;
        } else {
            self.slice[idx] = self.bg_colour.code() << 12 | self.fg_colour.code() << 8;
        }
        if self.x == self.width - 1 || c == NEWLINE {
            if self.y == self.height - 1 {
                self.scroll();
            } else {
                self.y += 1;
            }
            self.x = 0;
        } else {
            self.x += 1;
        }
        proof {
            assert(self.slice@.len() == self.slice.len());
            lemma_row_bounds(self.y as int, self.width as int, self.height as int);
        }
        let idx = self.x + self.y * self.width;
        self.slice[idx] = self.cursor_colour.code() << 12;
    }

    /// Moves every row up by one and blanks the last row.
    pub fn scroll(&mut self)
        requires
            old(self).wf(),
        ensures
            final(self).wf(),
            final(self).console() == old(self).console(),
            final(self)@ == (Screen {
                col: old(self)@.col,
                row: old(self)@.row,
                cells: scrolled(old(self)@.cells, old(self).console().width, old(self).console().height),
            }),
    {
        let ghost old_cells = self.slice@;
        let ghost w = self.width as int;
        let ghost h = self.height as int;
        let width = self.width;
        let height = self.height;
        proof {
            assert(self.slice@.len() == self.slice.len());
        }
        if height < 2 {
            assert(self.slice@ =~= scrolled(old_cells, w, h));
            return;
        }
        for y in 1..height
            invariant
                width == w,
                height == h,
                h >= 2,
                w * h <= usize::MAX,
                self.width == w,
                self.height == h,
                self.x == old(self).x,
                self.y == old(self).y,
                self.fg_colour == old(self).fg_colour,
                self.bg_colour == old(self).bg_colour,
                self.cursor_colour == old(self).cursor_colour,
                old_cells == old(self).slice@,
                old(self).wf(),
                self.slice@.len() == w * h,
                1 <= y <= h,
                forall|k: int| 0 <= k < (y - 1) * w ==> #[trigger] self.slice@[k] == old_cells[k + w],
                forall|k: int|
                    (y - 1) * w <= k < w * h ==> #[trigger] self.slice@[k] == (if y == h && k >= (h
                        - 1) * w {
                        0u16
                    } else {
                        old_cells[k]
                    }),
        {
            proof {
                lemma_row_bounds(y - 1, w, h);
                lemma_row_bounds(y as int, w, h);
            }
            let row = (y - 1) * width;
            let next = y * width;
            for x in 0..width
                invariant
                    width == w,
                    height == h,
                    w * h <= usize::MAX,
                    self.width == w,
                    self.height == h,
                    self.x == old(self).x,
                    self.y == old(self).y,
                    self.fg_colour == old(self).fg_colour,
                    self.bg_colour == old(self).bg_colour,
                    self.cursor_colour == old(self).cursor_colour,
                    old_cells == old(self).slice@,
                    old(self).wf(),
                    self.slice@.len() == w * h,
                    1 <= y < h,
                    row == (y - 1) * w,
                    next == y * w,
                    next == row + w,
                    next + w <= w * h,
                    forall|k: int| 0 <= k < row + x ==> #[trigger] self.slice@[k] == old_cells[k + w],
                    forall|k: int| row + x <= k < next ==> #[trigger] self.slice@[k] == old_cells[k],
                    forall|k: int|
                        next <= k < next + x ==> #[trigger] self.slice@[k] == (if y == h - 1 {
                            0u16
                        } else {
                            old_cells[k]
                        }),
                    forall|k: int| next + x <= k < w * h ==> #[trigger] self.slice@[k] == old_cells[k],
            {
                let v = self.slice[x + next];
                self.slice[x + row] = v;
                if y == height - 1 {
                    self.slice[x + next] = 0;
                }
            }
            assert((y + 1 - 1) * w == y * w);
        }
        assert(self.slice@ =~= scrolled(old_cells, w, h));
    }

    /// Blanks every cell and moves the cursor to the top left.
    pub fn clear(&mut self)
        requires
            old(self).wf(),
        ensures
            final(self).wf(),
            final(self).console() == old(self).console(),
            final(self)@ == (Screen {
                col: 0,
                row: 0,
                cells: Seq::new(old(self)@.cells.len(), |k: int| 0u16),
            }),
    {
        let ghost w = self.width as int;
        let ghost h = self.height as int;
        let width = self.width;
        let height = self.height;
        proof {
            assert(self.slice@.len() == self.slice.len());
        }
        for y in 0..height
            invariant
                width == w,
                height == h,
                w * h <= usize::MAX,
                self.width == w,
                self.height == h,
                self.fg_colour == old(self).fg_colour,
                self.bg_colour == old(self).bg_colour,
                self.cursor_colour == old(self).cursor_colour,
                self.slice@.len() == w * h,
                0 <= y <= h,
                0 <= y * w <= w * h,
                forall|k: int| 0 <= k < y * w ==> #[trigger] self.slice@[k] == 0u16,
        {
            proof {
                lemma_row_bounds(y as int, w, h);
            }
            let row = y * width;
            for x in 0..width
                invariant
                    width == w,
                    height == h,
                    w * h <= usize::MAX,
                    self.width == w,
                    self.height == h,
                    self.fg_colour == old(self).fg_colour,
                    self.bg_colour == old(self).bg_colour,
                    self.cursor_colour == old(self).cursor_colour,
                    self.slice@.len() == w * h,
                    0 <= y < h,
                    row == y * w,
                    row + w <= w * h,
                    forall|k: int| 0 <= k < row + x ==> #[trigger] self.slice@[k] == 0u16,
            {
                self.slice[x + row] = 0;
            }
            proof {
                lemma_row_bounds(y as int, w, h);
            }
        }
        self.x = 0;
        self.y = 0;
        proof {
            assert(h * w == w * h) by (nonlinear_arith);
            if h > 0 {
                lemma_row_bounds(h - 1, w, h);
            }
            assert(self.slice@ =~= Seq::new(old(self)@.cells.len(), |k: int| 0u16));
        }
    }

    /// Writes the bytes of `s` one after another (see `put_bytes`); writing
    /// never fails.
    pub fn write_str(&mut self, s: &str) -> (r: Result<(), core::fmt::Error>)
        requires
            old(self).wf(),
            old(self).console().width > 0,
            old(self).console().height > 0,
        ensures
            r is Ok,
            final(self).wf(),
            final(self).console() == old(self).console(),
            final(self)@ == put_bytes(old(self).console(), old(self)@, s.spec_bytes()),
    {
        let bytes = s.as_bytes();
        for i in 0..bytes.len()
            invariant
                bytes@ == s.spec_bytes(),
                self.wf(),
                self.console() == old(self).console(),
                old(self).console().width > 0,
                old(self).console().height > 0,
                self@ == put_bytes(old(self).console(), old(self)@, bytes@.take(i as int)),
        {
            self.write_ascii(bytes[i]);
            assert(bytes@.take(i + 1).drop_last() =~= bytes@.take(i as int));
        }
        assert(bytes@.take(bytes@.len() as int) =~= bytes@);
        Ok(())
    }
}

} // verus!
