use cv_fry::display::{
    cell_origin, glyph_origin, palette_colour, text_cells, u8_to_cp437_color, TextCell, COLS,
};
use cv_fry::dut::{DutComb, DutStep, DutSync, DUT};
use cv_fry::keyboard::{post_keypress, Keyboard, KEYBOARD_BASE};
use cv_fry::vga::{Buffer, Colour};

fn console(width: usize, height: usize) -> Buffer {
    Buffer::new(width, height, vec![0xFFFF; width * height], Colour::Green, Colour::Black, Colour::Cyan)
}

#[test]
fn colour_codes() {
    assert_eq!(Colour::Black.code(), 0);
    assert_eq!(Colour::Green.code(), 2);
    assert_eq!(Colour::LightGrey.code(), 7);
    assert_eq!(Colour::White.code(), 15);
}

#[test]
fn new_console_keeps_cells_and_starts_top_left() {
    let b = console(3, 2);
    assert_eq!(b.cursor(), (0, 0));
    assert_eq!(b.cells(), &[0xFFFF; 6]);
}

#[test]
fn write_ascii_draws_char_and_cursor() {
    let mut b = console(3, 2);
    b.write_ascii(b'A');
    assert_eq!(b.cursor(), (1, 0));
    assert_eq!(b.cells()[0], 0x0241);
    assert_eq!(b.cells()[1], 0x3000);
}

#[test]
fn write_ascii_wraps_at_last_column() {
    let mut b = console(2, 2);
    b.write_ascii(b'a');
    b.write_ascii(b'b');
    assert_eq!(b.cursor(), (0, 1));
    assert_eq!(b.cells(), &[0x0261, 0x0262, 0x3000, 0xFFFF]);
}

#[test]
fn newline_moves_to_next_row() {
    let mut b = console(3, 2);
    b.write_ascii(b'x');
    b.write_ascii(b'\n');
    assert_eq!(b.cursor(), (0, 1));
    assert_eq!(b.cells(), &[0x0278, 0x0200, 0xFFFF, 0x3000, 0xFFFF, 0xFFFF]);
}

#[test]
fn newline_on_last_row_scrolls() {
    let mut b = console(2, 2);
    assert!(b.write_str("ab\ncd").is_ok());
    // "ab" wrapped to row 1; '\n' on row 1 scrolled; "cd" then wrapped again and scrolled
    assert_eq!(b.cursor(), (0, 1));
    assert_eq!(b.cells(), &[0x0263, 0x0264, 0x3000, 0]);
}

#[test]
fn print_console_is_80_by_25() {
    let mut b = Buffer::print_console(vec![0; 80 * 25]);
    assert_eq!(b.cursor(), (0, 0));
    b.write_ascii(b'x');
    assert_eq!(b.cells()[0], 0x0278);
    assert_eq!(b.cells()[1], 0x3000);
}

#[test]
fn write_str_in_two_parts_equals_whole() {
    let mut one = console(3, 2);
    let mut two = console(3, 2);
    assert!(one.write_str("ab
cdefg").is_ok());
    assert!(two.write_str("ab
cd").is_ok());
    assert!(two.write_str("efg").is_ok());
    assert_eq!(one.cells(), two.cells());
    assert_eq!(one.cursor(), two.cursor());
}

#[test]
fn scroll_moves_rows_up() {
    let mut b = Buffer::new(2, 3, vec![1, 2, 3, 4, 5, 6], Colour::Green, Colour::Black, Colour::Cyan);
    b.scroll();
    assert_eq!(b.cells(), &[3, 4, 5, 6, 0, 0]);
    assert_eq!(b.cursor(), (0, 0));
}

#[test]
fn scroll_single_row_keeps_cells() {
    let mut b = Buffer::new(3, 1, vec![1, 2, 3], Colour::Green, Colour::Black, Colour::Cyan);
    b.scroll();
    assert_eq!(b.cells(), &[1, 2, 3]);
}

#[test]
fn clear_blanks_everything() {
    let mut b = console(4, 3);
    assert!(b.write_str("hello").is_ok());
    b.clear();
    assert_eq!(b.cursor(), (0, 0));
    assert_eq!(b.cells(), &[0u16; 12]);
}

#[test]
fn clear_empty_console() {
    let mut b = console(0, 0);
    b.clear();
    assert_eq!(b.cursor(), (0, 0));
    assert!(b.cells().is_empty());
}

#[test]
fn keyboard_reads_posted_key_once() {
    let mut mem = vec![0u8; KEYBOARD_BASE + 8];
    let mut kb = Keyboard::new(KEYBOARD_BASE);
    assert_eq!(kb.read_keycode(&mut mem), None);
    post_keypress(&mut mem, 0x161);
    assert_eq!(mem[KEYBOARD_BASE], 1);
    assert_eq!(mem[KEYBOARD_BASE + 4], 0x61);
    assert_eq!(kb.read_keycode(&mut mem), Some('a'));
    assert_eq!(mem[KEYBOARD_BASE], 0);
    assert_eq!(kb.read_keycode(&mut mem), None);
}

#[test]
fn keyboard_keeps_other_control_bits() {
    let mut mem = vec![0b110u8, 0, 0, 0, b'z', 0];
    let mut kb = Keyboard::new(0);
    assert_eq!(kb.read_keycode(&mut mem), None);
    mem[0] = 0b111;
    assert_eq!(kb.read_keycode(&mut mem), Some('z'));
    assert_eq!(mem[0], 0b110);
}

#[test]
fn text_cells_decode_characters_and_colours() {
    let mut buf = vec![0u8; 2 * 82];
    buf[0] = b'H';
    buf[1] = 0x1E;
    buf[2 * 81] = b'!';
    buf[2 * 81 + 1] = 0x02;
    let cells = text_cells(&buf);
    assert_eq!(cells.len(), 82);
    assert_eq!(cells[0], TextCell { glyph: b'H', fg: 0xE, bg: 0x1, col: 0, row: 0 });
    assert_eq!(cells[81], TextCell { glyph: b'!', fg: 2, bg: 0, col: 1, row: 1 });
    assert_eq!(COLS, 80);
}

#[test]
fn console_cells_decode_to_what_was_written() {
    let mut b = Buffer::new(80, 1, vec![0; 80], Colour::Yellow, Colour::Blue, Colour::Cyan);
    b.write_ascii(b'Q');
    let bytes: Vec<u8> = b.cells().iter().flat_map(|w| w.to_le_bytes()).collect();
    let cells = text_cells(&bytes);
    assert_eq!(cells[0].glyph, b'Q');
    assert_eq!(cells[0].fg, 14);
    assert_eq!(cells[0].bg, 1);
}

#[test]
fn origins() {
    assert_eq!(glyph_origin(b'A'), (8, 64));
    assert_eq!(glyph_origin(0xFF), (120, 240));
    let cell = TextCell { glyph: 0, fg: 0, bg: 0, col: 79, row: 24 };
    assert_eq!(cell_origin(&cell), (632, 384));
}

#[test]
fn palettes() {
    assert_eq!(palette_colour(0), (0, 0, 0));
    assert_eq!(palette_colour(6), (170, 85, 0));
    assert_eq!(palette_colour(9), (85, 85, 255));
    assert_eq!(palette_colour(15), (255, 255, 255));
    assert_eq!(u8_to_cp437_color(2), (0, 170, 0));
    assert_eq!(u8_to_cp437_color(8), (85, 85, 85));
    assert_eq!(u8_to_cp437_color(9), (85, 85, 255));
    assert_eq!(u8_to_cp437_color(14), (255, 255, 85));
    assert_eq!(u8_to_cp437_color(15), (255, 255, 255));
    assert_eq!(u8_to_cp437_color(200), (85, 85, 85));
}

struct Recorder {
    log: Vec<DutStep>,
}

impl DutComb for Recorder {
    fn steps(&self) -> vstd::seq::Seq<DutStep> {
        unreachable!()
    }
    fn eval(&mut self) {
        self.log.push(DutStep::Eval);
    }
}

impl DutSync for Recorder {
    fn trace_init(&mut self, _filename: &str) {}
    fn trace_dump(&mut self) {
        self.log.push(DutStep::TraceDump);
    }
    fn trace_close(&mut self) {}
    fn set_clk(&mut self, val: u8) {
        self.log.push(DutStep::SetClk(val));
    }
    fn reset(&mut self) {}
    fn timestep(&mut self) {
        self.log.push(DutStep::Timestep);
    }
}

#[test]
fn sync_tick_drives_falling_then_rising_edge() {
    let mut r = Recorder { log: Vec::new() };
    r.tick();
    assert_eq!(
        r.log,
        vec![
            DutStep::SetClk(0),
            DutStep::Eval,
            DutStep::TraceDump,
            DutStep::Timestep,
            DutStep::SetClk(1),
            DutStep::Eval,
            DutStep::TraceDump,
            DutStep::Timestep
        ]
    );
}

struct HarnessRecorder {
    log: Vec<DutStep>,
}

impl DUT for HarnessRecorder {
    fn steps(&self) -> vstd::seq::Seq<DutStep> {
        unreachable!()
    }
    fn set_clk(&mut self, val: u8) {
        self.log.push(DutStep::SetClk(val));
    }
    fn reset(&mut self) {}
    fn eval(&mut self) {
        self.log.push(DutStep::Eval);
    }
    fn timestep(&mut self) {
        self.log.push(DutStep::Timestep);
    }
    fn dump_trace(&self) {}
}

#[test]
fn harness_tick_settles_then_clocks() {
    let mut r = HarnessRecorder { log: Vec::new() };
    r.tick();
    assert_eq!(
        r.log,
        vec![
            DutStep::Eval,
            DutStep::SetClk(0),
            DutStep::Eval,
            DutStep::Timestep,
            DutStep::SetClk(1),
            DutStep::Eval,
            DutStep::Timestep
        ]
    );
}
