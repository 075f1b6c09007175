//! The emulator's memory system: the memory image and the two buses that
//! serve the simulated core, cycle by cycle. The core itself is a hardware
//! model outside this library; each cycle it drives its bus requests, which
//! `bus_cycle` answers.
use vstd::prelude::*;
use crate::c2c_data::{data_cycle, data_request_ok, C2cData};
use crate::c2c_instr::{fetch_ok, instr_cycle, C2cInstr};
use crate::display::{COLS, MEMORY_SIZE, ROWS, VGA_BASE};
use crate::keyboard::{key_posted, KEYBOARD_BASE};
use crate::timing::next_latency;

verus! {

/// Bus cycles simulated between two screen refreshes.
pub const CYCLES_PER_REFRESH: usize = 2000;

/// What the core drives onto its buses in one cycle.
#[derive(Clone, Copy, Debug, PartialEq, Eq, Structural)]
pub struct CoreRequests {
    pub instr_re: bool,
    pub instr_sel: u8,
    pub instr_addr: u64,
    pub data_we: bool,
    pub data_re: bool,
    pub atomic: bool,
    pub amo_op: u8,
    pub data_sel: u8,
    pub data_addr: u64,
    pub data_w: u64,
}

/// What the buses hand back to the core for one cycle.
#[derive(Clone, Copy, Debug, PartialEq, Eq, Structural)]
pub struct CoreReplies {
    pub instr_ack: bool,
    pub instr: u32,
    pub data_ack: bool,
    pub data_r: u64,
}

/// The memory image made from a program binary: the binary, cut or padded
/// with zeros to `MEMORY_SIZE` bytes.
pub open spec fn memory_image(binary: Seq<u8>) -> Seq<u8> {
    if binary.len() >= MEMORY_SIZE {
        binary.subrange(0, MEMORY_SIZE as int)
    } else {
        binary + Seq::new((MEMORY_SIZE - binary.len()) as nat, |i: int| 0u8)
    }
}

/// The memory and the buses of the emulated machine.
pub struct EmulatorState {
    memory: Vec<u8>,
    instr_bus: C2cInstr,
    data_bus: C2cData,
    cycles_per_refresh: usize,
}

impl EmulatorState {
    /// The memory image.
    pub closed spec fn mem(&self) -> Seq<u8> {
        self.memory@
    }

    /// The latency counter of the instruction bus.
    pub closed spec fn instr_latency(&self) -> u64 {
        self.instr_bus.latency()
    }

    /// The latency counter of the data bus.
    pub closed spec fn data_latency(&self) -> u64 {
        self.data_bus.latency()
    }

    /// The delays of the two buses.
    pub closed spec fn delays(&self) -> (u64, u64) {
        (self.instr_bus.delay(), self.data_bus.delay())
    }

    /// A machine whose memory holds `binary` (see `memory_image`), with
    /// buses that serve every request on the cycle it is made.
    pub fn new(binary: &[u8]) -> (s: Self)
        ensures
            s.mem() == memory_image(binary@),
            s.delays() == (0u64, 0u64),
            s.instr_latency() == 0,
            s.data_latency() == 0,
            s.cycles() == CYCLES_PER_REFRESH,
    {
        let mut memory = vstd::slice::slice_to_vec(binary);
        memory.resize(MEMORY_SIZE, 0);
        assert(memory@ =~= memory_image(binary@));
        Self {
            memory,
            instr_bus: C2cInstr::new(0),
            data_bus: C2cData::new(0),
            cycles_per_refresh: CYCLES_PER_REFRESH,
        }
    }

    /// Bus cycles to simulate between two screen refreshes.
    pub closed spec fn cycles(&self) -> usize {
        self.cycles_per_refresh
    }

    /// Bus cycles to simulate between two screen refreshes.
    pub fn cycles_per_refresh(&self) -> (n: usize)
        ensures
            n == self.cycles(),
    {
        self.cycles_per_refresh
    }

    /// The memory image.
    pub fn memory(&self) -> (m: &[u8])
        ensures
            m@ == self.mem(),
    {
        self.memory.as_slice()
    }

    /// The text buffer the display shows: `COLS * ROWS` cells of two bytes
    /// at `VGA_BASE`.
    pub fn text_buffer(&self) -> (b: &[u8])
        requires
            VGA_BASE + COLS * ROWS * 2 <= self.mem().len(),
        ensures
            b@ == self.mem().subrange(VGA_BASE as int, VGA_BASE + COLS * ROWS * 2),
    {
        vstd::slice::slice_subrange(self.memory.as_slice(), VGA_BASE, VGA_BASE + COLS * ROWS * 2)
    }

    /// Posts a key press from the host to the emulated keyboard.
    pub fn post_keypress(&mut self, keycode: i32)
        requires
            KEYBOARD_BASE + 4 < old(self).mem().len(),
        ensures
            final(self).mem() == key_posted(old(self).mem(), keycode),
            final(self).instr_latency() == old(self).instr_latency(),
            final(self).data_latency() == old(self).data_latency(),
            final(self).delays() == old(self).delays(),
            final(self).cycles() == old(self).cycles(),
    {
        crate::keyboard::post_keypress(self.memory.as_mut_slice(), keycode);
    }

    /// Answers the core's requests for one cycle: the instruction bus serves
    /// the fetch (see `instr_cycle`), then the data bus serves the data
    /// request (see `data_cycle`).
    pub fn bus_cycle(&mut self, req: CoreRequests) -> (rep: CoreReplies)
        requires
            fetch_ok(old(self).mem(), old(self).instr_latency(), req.instr_re, req.instr_sel, req.instr_addr),
            data_request_ok(
                old(self).mem(),
                old(self).data_latency(),
                req.data_we,
                req.data_re,
                req.atomic,
                req.amo_op,
                req.data_sel,
                req.data_addr,
                req.data_w,
            ),
        ensures
            (rep.instr_ack, rep.instr) == instr_cycle(
                old(self).mem(),
                old(self).instr_latency(),
                req.instr_re,
                req.instr_sel,
                req.instr_addr,
            ),
            (final(self).mem(), (rep.data_ack, rep.data_r)) == data_cycle(
                old(self).mem(),
                old(self).data_latency(),
                req.data_we,
                req.data_re,
                req.atomic,
                req.amo_op,
                req.data_sel,
                req.data_addr,
                req.data_w,
            ),
            final(self).instr_latency() == next_latency(
                old(self).instr_latency(),
                old(self).delays().0,
                req.instr_re,
            ),
            final(self).data_latency() == next_latency(
                old(self).data_latency(),
                old(self).delays().1,
                req.atomic || req.data_re || req.data_we,
            ),
            final(self).delays() == old(self).delays(),
            final(self).cycles() == old(self).cycles(),
    {
        let (instr_ack, instr) = self.instr_bus.respond(
            self.memory.as_slice(),
            req.instr_re,
            req.instr_sel,
            req.instr_addr,
        );
        let (data_ack, data_r) = self.data_bus.respond(
            self.memory.as_mut_slice(),
            req.data_we,
            req.data_re,
            req.atomic,
            req.amo_op,
            req.data_sel,
            req.data_addr,
            req.data_w,
        );
        CoreReplies { instr_ack, instr, data_ack, data_r }
    }
}

/// The memory image holds exactly `MEMORY_SIZE` bytes: the binary's bytes
/// first, as far as they fit, then zeros.
pub proof fn lemma_memory_image_layout(binary: Seq<u8>)
    ensures
        memory_image(binary).len() == MEMORY_SIZE,
        forall|k: int|
            0 <= k < MEMORY_SIZE && k < binary.len() ==> #[trigger] memory_image(binary)[k] == binary[k],
        forall|k: int| binary.len() <= k < MEMORY_SIZE ==> #[trigger] memory_image(binary)[k] == 0u8,
{
}

} // verus!
