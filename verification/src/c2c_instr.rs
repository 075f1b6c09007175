//! The instruction bus: serves 32-bit fetches from a memory image.
use vstd::prelude::*;
use crate::lanes::{lane_byte, lane_enabled, lane_is_enabled, lanes_in_bounds, load_u32_lanes, lemma_or_zero_shift_u32};
use crate::timing::{latency_after_held, lemma_held_request_served_after_delay, next_latency, served};

verus! {

/// The reply of one instruction bus cycle whose latency counter stood at
/// `latency`: when the fetch is served, `(true, word)` with the word
/// assembled little endian from the enabled ones of the first four lanes;
/// otherwise `(false, 0xDEADBEEF)`.
pub open spec fn instr_cycle(mem: Seq<u8>, latency: u64, re: bool, sel: u8, addr: u64) -> (bool, u32) {
    if served(latency, re) {
        (true, load_u32_lanes(mem, sel, addr as int, 4))
    } else {
        (false, 0xDEADBEEFu32)
    }
}

/// Whether an instruction bus cycle can be carried out: a fetch that the
/// cycle serves addresses memory on its enabled lanes.
pub open spec fn fetch_ok(mem: Seq<u8>, latency: u64, re: bool, sel: u8, addr: u64) -> bool {
    served(latency, re) ==> lanes_in_bounds(mem.len() as int, sel, addr as int, 4)
}

/// A read-only bus that answers a fetch after a fixed number of stall cycles.
pub struct C2cInstr {
    delay: u64,
    request_latency: u64,
}

impl C2cInstr {
    #[verifier::type_invariant]
    spec fn inv(self) -> bool {
        self.request_latency <= self.delay
    }

    /// The number of stall cycles before a request is served.
    pub closed spec fn delay(self) -> u64 {
        self.delay
    }

    /// The stall cycles left before the current request is served.
    pub closed spec fn latency(self) -> u64 {
        self.request_latency
    }

    pub fn new(delay: u64) -> (bus: Self)
        ensures
            bus.delay() == delay,
            bus.latency() == delay,
    {
        Self { delay: delay, request_latency: delay }
    }

    /// One bus cycle (see `instr_cycle`).
    pub fn respond(&mut self, memory: &[u8], re: bool, sel: u8, addr: u64) -> (reply: (bool, u32))
        requires
            fetch_ok(memory@, old(self).latency(), re, sel, addr),
        ensures
            final(self).delay() == old(self).delay(),
            final(self).latency() <= final(self).delay(),
            final(self).latency() == next_latency(old(self).latency(), old(self).delay(), re),
            reply == instr_cycle(memory@, old(self).latency(), re, sel, addr),
    {
        proof { use_type_invariant(&*self); }
        if re {
            if self.request_latency == 0 {
                let mut response: u32 = 0;
                for i in 0..4
                    invariant
                        lanes_in_bounds(memory@.len() as int, sel, addr as int, 4),
                        response == load_u32_lanes(memory@, sel, addr as int, i as nat),
                {
                    if lane_is_enabled(sel, i) {
                        assert(addr + i < memory@.len() && memory@.len() == memory.len());
                        response |= (memory[addr as usize + i] as u32) << ((i * 8) as u32);
                    } else {
                        proof { lemma_or_zero_shift_u32(response, (8 * i) as u32); }
                    }
                    assert(response == load_u32_lanes(memory@, sel, addr as int, (i + 1) as nat));
                }
                self.request_latency = self.delay;
                (true, response)
            } else {
                self.request_latency -= 1;
                (false, 0xDEADBEEF)
            }
        } else {
            self.request_latency = self.delay;
            (false, 0xDEADBEEF)
        }
    }
}

/// A fetch held on an idle instruction bus (its counter at the delay)
/// stalls for `delay` cycles, each replying `(false, 0xDEADBEEF)`, and is
/// served on the next cycle with the fetched word.
pub proof fn lemma_held_fetch_served_after_delay(mem: Seq<u8>, delay: u64, sel: u8, addr: u64)
    ensures
        forall|k: nat|
            k < delay ==> instr_cycle(mem, #[trigger] latency_after_held(delay, delay, k), true, sel, addr)
                == (false, 0xDEADBEEFu32),
        instr_cycle(mem, latency_after_held(delay, delay, delay as nat), true, sel, addr) == (
            true,
            load_u32_lanes(mem, sel, addr as int, 4),
        ),
{
    lemma_held_request_served_after_delay(delay);
}

/// A fetch reads only the four bytes at `addr` that lanes 0 to 3 select:
/// the upper four bits of `sel` play no part, and memories that agree on the
/// selected bytes give the same reply.
pub proof fn lemma_fetch_reads_low_lanes(
    mem1: Seq<u8>,
    mem2: Seq<u8>,
    latency: u64,
    re: bool,
    sel: u8,
    addr: u64,
)
    requires
        forall|i: int| 0 <= i < 4 && #[trigger] lane_enabled(sel, i) ==> mem1[addr + i] == mem2[addr + i],
    ensures
        instr_cycle(mem1, latency, re, sel, addr) == instr_cycle(mem2, latency, re, sel & 0x0f, addr),
        fetch_ok(mem1, latency, re, sel, addr) == fetch_ok(mem1, latency, re, sel & 0x0f, addr),
{
    assert forall|i: int| 0 <= i < 4 implies lane_enabled(sel & 0x0f, i) == #[trigger] lane_enabled(sel, i) by {
        let k = i as u8;
        assert(((sel & 0x0fu8) >> k) & 1u8 == (sel >> k) & 1u8) by (bit_vector)
            requires
                k < 4,
        ;
    }
    assert forall|i: int| 0 <= i < 4 implies #[trigger] lane_byte(mem1, sel, addr as int, i) == lane_byte(
        mem2,
        sel & 0x0f,
        addr as int,
        i,
    ) by {
        assert(lane_enabled(sel, i) == lane_enabled(sel & 0x0f, i));
    }
    assert(lane_byte(mem1, sel, addr as int, 0) == lane_byte(mem2, sel & 0x0f, addr as int, 0));
    assert(lane_byte(mem1, sel, addr as int, 1) == lane_byte(mem2, sel & 0x0f, addr as int, 1));
    assert(lane_byte(mem1, sel, addr as int, 2) == lane_byte(mem2, sel & 0x0f, addr as int, 2));
    assert(lane_byte(mem1, sel, addr as int, 3) == lane_byte(mem2, sel & 0x0f, addr as int, 3));
    assert(load_u32_lanes(mem1, sel, addr as int, 4) == load_u32_lanes(mem2, sel & 0x0f, addr as int, 4)) by {
        reveal_with_fuel(load_u32_lanes, 5);
    }
    assert(lanes_in_bounds(mem1.len() as int, sel, addr as int, 4) == lanes_in_bounds(
        mem1.len() as int,
        sel & 0x0f,
        addr as int,
        4,
    ));
}

/// A served fetch with every lane enabled returns the four bytes at `addr`
/// assembled little endian.
pub proof fn lemma_full_fetch_little_endian(mem: Seq<u8>, addr: u64)
    requires
        addr + 4 <= mem.len(),
    ensures
        instr_cycle(mem, 0, true, 0x0f, addr).0,
        instr_cycle(mem, 0, true, 0x0f, addr).1 as int == mem[addr as int] + 0x100 * mem[addr + 1]
            + 0x1_0000 * mem[addr + 2] + 0x100_0000 * mem[addr + 3],
{
    let a = addr as int;
    let b0 = mem[a];
    let b1 = mem[a + 1];
    let b2 = mem[a + 2];
    let b3 = mem[a + 3];
    assert forall|i: int| 0 <= i < 4 implies #[trigger] lane_enabled(0x0f, i) by {
        let k = i as u8;
        assert((0x0fu8 >> k) & 1u8 == 1u8) by (bit_vector)
            requires
                k < 4,
        ;
    }
    assert(lane_byte(mem, 0x0f, a, 0) == b0 && lane_byte(mem, 0x0f, a, 1) == b1 && lane_byte(mem, 0x0f, a, 2) == b2
        && lane_byte(mem, 0x0f, a, 3) == b3);
    assert(load_u32_lanes(mem, 0x0f, a, 4) == (((((0u32 | ((b0 as u32) << 0u32)) | ((b1 as u32)
        << 8u32)) | ((b2 as u32) << 16u32)) | ((b3 as u32) << 24u32)))) by {
        reveal_with_fuel(load_u32_lanes, 5);
    }
    assert((((((0u32 | ((b0 as u32) << 0u32)) | ((b1 as u32) << 8u32)) | ((b2 as u32) << 16u32))
        | ((b3 as u32) << 24u32))) == b0 + 0x100 * b1 + 0x1_0000 * b2 + 0x100_0000 * b3)
        by (bit_vector);
}

} // verus!
