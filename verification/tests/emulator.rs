use cv_fry::c2c_data::{AMO_ADD, NO_DATA};
use cv_fry::display::{text_cells, MEMORY_SIZE, VGA_BASE};
use cv_fry::emulator::{CoreReplies, CoreRequests, EmulatorState, CYCLES_PER_REFRESH};
use cv_fry::keyboard::{Keyboard, KEYBOARD_BASE};

fn idle() -> CoreRequests {
    CoreRequests {
        instr_re: false,
        instr_sel: 0,
        instr_addr: 0,
        data_we: false,
        data_re: false,
        atomic: false,
        amo_op: 0,
        data_sel: 0,
        data_addr: 0,
        data_w: 0,
    }
}

#[test]
fn memory_image_is_padded() {
    let emu = EmulatorState::new(&[1, 2, 3]);
    assert_eq!(emu.memory().len(), MEMORY_SIZE);
    assert_eq!(&emu.memory()[0..4], &[1, 2, 3, 0]);
    assert_eq!(emu.cycles_per_refresh(), CYCLES_PER_REFRESH);
}

#[test]
fn memory_image_is_cut() {
    let binary = vec![9u8; MEMORY_SIZE + 5];
    let emu = EmulatorState::new(&binary);
    assert_eq!(emu.memory().len(), MEMORY_SIZE);
    assert_eq!(emu.memory()[MEMORY_SIZE - 1], 9);
}

#[test]
fn bus_cycle_fetches_and_stores() {
    let mut emu = EmulatorState::new(&[0x13, 0x00, 0x00, 0x00]);
    let mut req = idle();
    req.instr_re = true;
    req.instr_sel = 0xF;
    req.data_we = true;
    req.data_sel = 0xFF;
    req.data_addr = 0x2000;
    req.data_w = 0xDEADBEEFDEADBEEF;
    let rep = emu.bus_cycle(req);
    assert_eq!(rep, CoreReplies { instr_ack: true, instr: 0x13, data_ack: true, data_r: NO_DATA });
    assert_eq!(
        u64::from_le_bytes(emu.memory()[0x2000..0x2008].try_into().unwrap()),
        0xDEADBEEFDEADBEEF
    );
}

#[test]
fn bus_cycle_atomic_add() {
    let mut emu = EmulatorState::new(&[]);
    let mut req = idle();
    req.atomic = true;
    req.amo_op = AMO_ADD;
    req.data_sel = 0x0F;
    req.data_addr = 0x100;
    req.data_w = 5;
    assert_eq!(emu.bus_cycle(req).data_r, 0);
    assert_eq!(emu.bus_cycle(req).data_r, 5);
    assert_eq!(emu.memory()[0x100], 10);
}

#[test]
fn bus_cycle_idle() {
    let mut emu = EmulatorState::new(&[]);
    let rep = emu.bus_cycle(idle());
    assert_eq!(rep, CoreReplies { instr_ack: false, instr: 0xDEADBEEF, data_ack: false, data_r: NO_DATA });
}

#[test]
fn host_key_reaches_guest_keyboard() {
    let mut emu = EmulatorState::new(&[]);
    emu.post_keypress(b'k' as i32);
    let mut mem = emu.memory().to_vec();
    let mut kb = Keyboard::new(KEYBOARD_BASE);
    assert_eq!(kb.read_keycode(&mut mem), Some('k'));
    assert_eq!(kb.read_keycode(&mut mem), None);
}

#[test]
fn text_buffer_is_shown() {
    let mut emu = EmulatorState::new(&[]);
    let mut req = idle();
    req.data_we = true;
    req.data_sel = 0b11;
    req.data_addr = (VGA_BASE + 2 * 81) as u64;
    req.data_w = 0x1E41;
    emu.bus_cycle(req);
    let cells = text_cells(emu.text_buffer());
    assert_eq!(cells.len(), 2000);
    assert_eq!((cells[81].glyph, cells[81].fg, cells[81].bg), (b'A', 0xE, 0x1));
    assert_eq!((cells[81].col, cells[81].row), (1, 1));
}
