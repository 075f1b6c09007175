use cv_fry::c2c_data::{
    write_buffer, C2cData, AMO_ADD, AMO_AND, AMO_LR, AMO_MAX, AMO_MAXU, AMO_MIN, AMO_MINU, AMO_OR,
    AMO_SC, AMO_SWAP, AMO_XOR, NO_DATA,
};
use cv_fry::c2c_instr::C2cInstr;
use cv_fry::c2c_w::C2cW;

fn program() -> Vec<u8> {
    vec![
        0x13, 0x00, 0x00, 0x00, 0x37, 0xC5, 0xAD, 0xDE, 0x13, 0x05, 0xF5, 0xEE, 0x33, 0x86, 0xA5,
        0x40,
    ]
}

#[test]
fn instr_fetch_waits_for_delay_then_serves() {
    let mem = program();
    let mut bus = C2cInstr::new(3);
    for _ in 0..3 {
        assert_eq!(bus.respond(&mem, true, 0xF, 4), (false, 0xDEADBEEF));
    }
    assert_eq!(bus.respond(&mem, true, 0xF, 4), (true, 0xDEADC537));
    // the counter is reloaded after a served fetch
    assert_eq!(bus.respond(&mem, true, 0xF, 8), (false, 0xDEADBEEF));
}

#[test]
fn instr_fetch_zero_delay_serves_every_cycle() {
    let mem = program();
    let mut bus = C2cInstr::new(0);
    assert_eq!(bus.respond(&mem, true, 0xF, 0), (true, 0x00000013));
    assert_eq!(bus.respond(&mem, true, 0xF, 12), (true, 0x40A58633));
}

#[test]
fn instr_fetch_partial_lanes() {
    let mem = program();
    let mut bus = C2cInstr::new(0);
    assert_eq!(bus.respond(&mem, true, 0b0101, 4), (true, 0x00AD0037));
    assert_eq!(bus.respond(&mem, true, 0, 4), (true, 0));
}

#[test]
fn instr_idle_cycle_reloads_counter() {
    let mem = program();
    let mut bus = C2cInstr::new(2);
    assert_eq!(bus.respond(&mem, true, 0xF, 0), (false, 0xDEADBEEF));
    assert_eq!(bus.respond(&mem, false, 0xF, 0), (false, 0xDEADBEEF));
    assert_eq!(bus.respond(&mem, true, 0xF, 0), (false, 0xDEADBEEF));
    assert_eq!(bus.respond(&mem, true, 0xF, 0), (false, 0xDEADBEEF));
    assert_eq!(bus.respond(&mem, true, 0xF, 0), (true, 0x13));
}

#[test]
fn data_write_then_read_back() {
    let mut mem = vec![0u8; 32];
    let mut bus = C2cData::new(1);
    let v = 0x8877665544332211u64;
    assert_eq!(bus.respond(&mut mem, true, false, false, 0, 0xFF, 8, v), (false, NO_DATA));
    assert_eq!(mem[8], 0);
    assert_eq!(bus.respond(&mut mem, true, false, false, 0, 0xFF, 8, v), (true, NO_DATA));
    assert_eq!(&mem[8..16], &[0x11, 0x22, 0x33, 0x44, 0x55, 0x66, 0x77, 0x88]);
    assert_eq!(bus.respond(&mut mem, false, true, false, 0, 0xFF, 8, 0), (false, NO_DATA));
    assert_eq!(bus.respond(&mut mem, false, true, false, 0, 0xFF, 8, 0), (true, v));
}

#[test]
fn data_read_after_write_keeps_only_selected_lanes() {
    let mut mem = vec![0xAAu8; 16];
    let mut bus = C2cData::new(0);
    let v = 0x8877665544332211u64;
    assert_eq!(bus.respond(&mut mem, true, false, false, 0, 0b0000_1111, 0, v), (true, NO_DATA));
    assert_eq!(&mem[0..8], &[0x11, 0x22, 0x33, 0x44, 0xAA, 0xAA, 0xAA, 0xAA]);
    assert_eq!(bus.respond(&mut mem, false, true, false, 0, 0b0000_1111, 0, 0), (true, 0x44332211));
    assert_eq!(bus.respond(&mut mem, false, true, false, 0, 0xFF, 0, 0), (true, 0xAAAAAAAA44332211));
}

#[test]
fn data_read_takes_precedence_over_write() {
    let mut mem = vec![7u8; 16];
    let mut bus = C2cData::new(0);
    assert_eq!(bus.respond(&mut mem, true, true, false, 0, 0x01, 0, 0xFF), (true, 7));
    assert_eq!(mem[0], 7);
}

#[test]
fn data_idle_cycle() {
    let mut mem = vec![7u8; 16];
    let mut bus = C2cData::new(0);
    assert_eq!(bus.respond(&mut mem, false, false, false, 0, 0xFF, 0, 0), (false, NO_DATA));
    assert_eq!(mem, vec![7u8; 16]);
}

fn amo(op: u8, old: u64, data: u64) -> (u64, u64) {
    let mut mem = old.to_le_bytes().to_vec();
    let mut bus = C2cData::new(0);
    let (ack, reply) = bus.respond(&mut mem, true, true, true, op, 0xFF, 0, data);
    assert!(ack);
    (reply, u64::from_le_bytes(mem[0..8].try_into().unwrap()))
}

#[test]
fn amo_operations() {
    assert_eq!(amo(AMO_LR, 5, 9), (5, 5));
    assert_eq!(amo(AMO_SC, 5, 9), (0, 9));
    assert_eq!(amo(AMO_SWAP, 5, 9), (5, 9));
    assert_eq!(amo(AMO_ADD, 5, 9), (5, 14));
    assert_eq!(amo(AMO_XOR, 0b1100, 0b1010), (0b1100, 0b0110));
    assert_eq!(amo(AMO_AND, 0b1100, 0b1010), (0b1100, 0b1000));
    assert_eq!(amo(AMO_OR, 0b1100, 0b1010), (0b1100, 0b1110));
    let minus_one = u64::MAX;
    assert_eq!(amo(AMO_MIN, 3, minus_one), (3, minus_one));
    assert_eq!(amo(AMO_MAX, 3, minus_one), (3, 3));
    assert_eq!(amo(AMO_MINU, 3, minus_one), (3, 3));
    assert_eq!(amo(AMO_MAXU, 3, minus_one), (3, minus_one));
}

#[test]
fn amo_stalls_like_other_requests() {
    let mut mem = vec![1u8; 8];
    let mut bus = C2cData::new(2);
    assert_eq!(bus.respond(&mut mem, false, false, true, AMO_ADD, 0x01, 0, 1), (false, NO_DATA));
    assert_eq!(bus.respond(&mut mem, false, false, true, AMO_ADD, 0x01, 0, 1), (false, NO_DATA));
    assert_eq!(bus.respond(&mut mem, false, false, true, AMO_ADD, 0x01, 0, 1), (true, 1));
    assert_eq!(mem[0], 2);
    assert_eq!(mem[1], 1);
}

#[test]
fn write_buffer_stores_selected_lanes() {
    let mut mem = vec![0u8; 12];
    write_buffer(&mut mem, 0b1000_0001, 2, 0x0102030405060708);
    assert_eq!(mem, vec![0, 0, 0x08, 0, 0, 0, 0, 0, 0, 0x01, 0, 0]);
}

#[test]
fn write_bus_stores_byte_lanes() {
    let mut mem = vec![0u8; 8];
    let mut bus = C2cW::new(0);
    assert!(bus.respond(&mut mem, true, 0xF, 2, 0x4433_2211));
    assert_eq!(mem, vec![0, 0, 0x11, 0x22, 0x33, 0x44, 0, 0]);
    assert!(bus.respond(&mut mem, true, 0b1010, 0, 0xAABB_CCDD));
    assert_eq!(mem, vec![0, 0xCC, 0x11, 0xAA, 0x33, 0x44, 0, 0]);
}

#[test]
fn write_bus_always_acknowledges() {
    let mut mem = vec![0u8; 8];
    let mut bus = C2cW::new(1);
    assert!(bus.respond(&mut mem, true, 0x1, 0, 0xFF));
    assert_eq!(mem[0], 0);
    assert!(bus.respond(&mut mem, true, 0x1, 0, 0xFF));
    assert_eq!(mem[0], 0xFF);
    assert!(bus.respond(&mut mem, false, 0x1, 0, 0xFF));
}

#[test]
fn instr_fetch_ignores_upper_select_bits() {
    let mem = program();
    let mut a = C2cInstr::new(0);
    let mut b = C2cInstr::new(0);
    assert_eq!(a.respond(&mem, true, 0xF5, 4), b.respond(&mem, true, 0x05, 4));
    // a fetch that selects only the last byte of memory stays in bounds
    assert_eq!(a.respond(&mem, true, 0xF8, 12), (true, 0x40000000));
}

#[test]
fn data_read_held_is_served_after_delay() {
    let mut mem = vec![0x11u8, 0x22, 0, 0, 0, 0, 0, 0];
    let mut bus = C2cData::new(2);
    assert_eq!(bus.respond(&mut mem, false, true, false, 0, 0x03, 0, 0), (false, NO_DATA));
    assert_eq!(bus.respond(&mut mem, false, true, false, 0, 0x03, 0, 0), (false, NO_DATA));
    assert_eq!(bus.respond(&mut mem, false, true, false, 0, 0x03, 0, 0), (true, 0x2211));
    assert_eq!(mem, vec![0x11u8, 0x22, 0, 0, 0, 0, 0, 0]);
}
