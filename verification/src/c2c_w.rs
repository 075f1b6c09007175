//! The write-only bus of the unit-test harness.
use vstd::prelude::*;
use crate::lanes::{lane_enabled, lane_is_enabled, lanes_in_bounds};
use crate::timing::next_latency;

verus! {

/// Byte `i` of a 32-bit word (little endian), which this bus writes into
/// lane `i`.
pub open spec fn word_byte_u32(data: u32, i: int) -> u8 {
    ((data >> ((8 * i) as u32)) & 0xff) as u8
}

/// Memory after the enabled ones of the first `n` of four lanes of a write
/// of the word `data` are written, lane `i` receiving byte `i` of `data`;
/// every other byte keeps its value.
pub open spec fn store_u32_lanes(mem: Seq<u8>, sel: u8, addr: int, data: u32, n: int) -> Seq<u8> {
    Seq::new(
        mem.len(),
        |k: int|
            if addr <= k < addr + n && lane_enabled(sel, k - addr) {
                word_byte_u32(data, k - addr)
            } else {
                mem[k]
            },
    )
}

/// A write-only bus whose counter follows the shared bus timing, and which
/// acknowledges every cycle.
pub struct C2cW {
    delay: u32,
    request_latency: u32,
}

impl C2cW {
    #[verifier::type_invariant]
    spec fn inv(self) -> bool {
        self.request_latency <= self.delay
    }

    /// The number of stall cycles before a write is performed.
    pub closed spec fn delay(self) -> u32 {
        self.delay
    }

    /// The stall cycles left before the current write is performed.
    pub closed spec fn latency(self) -> u32 {
        self.request_latency
    }

    pub fn new(delay: u32) -> (bus: Self)
        ensures
            bus.delay() == delay,
            bus.latency() == delay,
    {
        Self { delay: delay, request_latency: delay }
    }

    /// One bus cycle. A write is performed on the cycle that finds the
    /// counter at zero; the reply is `true` on every cycle.
    pub fn respond(&mut self, memory: &mut [u8], we: bool, sel: u8, addr: u32, data: u32) -> (ack: bool)
        requires
            we && old(self).latency() == 0 ==> lanes_in_bounds(
                old(memory)@.len() as int,
                sel,
                addr as int,
                4,
            ),
        ensures
            final(self).delay() == old(self).delay(),
            final(self).latency() <= final(self).delay(),
            final(self).latency() as u64 == next_latency(
                old(self).latency() as u64,
                old(self).delay() as u64,
                we,
            ),
            ack,
            final(memory)@ == (if we && old(self).latency() == 0 {
                store_u32_lanes(old(memory)@, sel, addr as int, data, 4)
            } else {
                old(memory)@
            }),
    {
        proof { use_type_invariant(&*self); }
        if we {
            if self.request_latency == 0 {
                for i in 0..4
                    invariant
                        lanes_in_bounds(old(memory)@.len() as int, sel, addr as int, 4),
                        memory@ == store_u32_lanes(old(memory)@, sel, addr as int, data, i as int),
                {
                    if lane_is_enabled(sel, i) {
                        assert(addr + i < memory@.len() && memory@.len() == memory.len());
                        memory[addr as usize + i] = ((data >> ((8 * i) as u32)) & 0xFF) as u8;
                    }
                    assert(memory@ =~= store_u32_lanes(old(memory)@, sel, addr as int, data, i + 1));
                }
                self.request_latency = self.delay;
                true
            } else {
                self.request_latency -= 1;
                true
            }
        } else {
            self.request_latency = self.delay;
            true
        }
    }
}

/// With every lane enabled, a write leaves `data` little endian in the four
/// bytes at `addr` and changes no other byte.
pub proof fn lemma_full_write_little_endian(mem: Seq<u8>, addr: int, data: u32)
    requires
        0 <= addr,
        addr + 4 <= mem.len(),
    ensures
        ({
            let m = store_u32_lanes(mem, 0x0f, addr, data, 4);
            &&& m.len() == mem.len()
            &&& m[addr] + 0x100 * m[addr + 1] + 0x1_0000 * m[addr + 2] + 0x100_0000 * m[addr + 3] == data
            &&& forall|k: int| 0 <= k < mem.len() && !(addr <= k < addr + 4) ==> #[trigger] m[k] == mem[k]
        }),
{
    assert forall|i: int| 0 <= i < 4 implies #[trigger] lane_enabled(0x0f, i) by {
        let k = i as u8;
        assert((0x0fu8 >> k) & 1u8 == 1u8) by (bit_vector)
            requires
                k < 4,
        ;
    }
    let m = store_u32_lanes(mem, 0x0f, addr, data, 4);
    assert(m[addr] == ((data >> 0u32) & 0xff) as u8);
    assert(m[addr + 1] == ((data >> 8u32) & 0xff) as u8);
    assert(m[addr + 2] == ((data >> 16u32) & 0xff) as u8);
    assert(m[addr + 3] == ((data >> 24u32) & 0xff) as u8);
    assert(((data >> 0u32) & 0xff) as u8 + 0x100 * (((data >> 8u32) & 0xff) as u8) + 0x1_0000 * (((
        data >> 16u32) & 0xff) as u8) + 0x100_0000 * (((data >> 24u32) & 0xff) as u8) == data)
        by (bit_vector);
}

} // verus!
