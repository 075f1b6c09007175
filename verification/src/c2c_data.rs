//! The data bus: 64-bit loads, stores and atomic memory operations on a
//! memory image.
use vstd::prelude::*;
use crate::lanes::{
    lane_byte, lane_enabled, lane_is_enabled, lane_mask, lanes_in_bounds, lemma_or_zero_shift_u64,
    load_u64, load_u64_lanes, store_u64, store_u64_lanes, word_byte,
};
use crate::timing::{latency_after_held, lemma_held_request_served_after_delay, next_latency, served};

verus! {

/// Load-reserved.
pub const AMO_LR: u8 = 0b00010;
/// Store-conditional.
pub const AMO_SC: u8 = 0b00011;
/// Atomic swap.
pub const AMO_SWAP: u8 = 0b00001;
/// Atomic add.
pub const AMO_ADD: u8 = 0b00000;
/// Atomic exclusive or.
pub const AMO_XOR: u8 = 0b00100;
/// Atomic and.
pub const AMO_AND: u8 = 0b01100;
/// Atomic or.
pub const AMO_OR: u8 = 0b01000;
/// Atomic signed minimum.
pub const AMO_MIN: u8 = 0b10000;
/// Atomic signed maximum.
pub const AMO_MAX: u8 = 0b10100;
/// Atomic unsigned minimum.
pub const AMO_MINU: u8 = 0b11000;
/// Atomic unsigned maximum.
pub const AMO_MAXU: u8 = 0b11100;

/// The reply word the bus gives on a cycle that serves no read.
pub const NO_DATA: u64 = 0xDEADBEEF;

/// Whether `op` is one of the atomic operations the bus implements.
pub open spec fn is_amo_op(op: u8) -> bool {
    op == AMO_LR || op == AMO_SC || op == AMO_SWAP || op == AMO_ADD || op == AMO_XOR || op
        == AMO_AND || op == AMO_OR || op == AMO_MIN || op == AMO_MAX || op == AMO_MINU || op
        == AMO_MAXU
}

/// Whether the atomic operation `op` writes memory (all but load-reserved do).
pub open spec fn amo_writes(op: u8) -> bool {
    op != AMO_LR
}

/// Whether applying `op` to `data` and the loaded word stays within 64 bits
/// (only the add can overflow).
pub open spec fn amo_fits(op: u8, data: u64, loaded: u64) -> bool {
    op == AMO_ADD ==> data + loaded <= u64::MAX
}

/// The word an atomic operation writes back, from the request's `data` and
/// the word `loaded` from memory.
pub open spec fn amo_stored_value(op: u8, data: u64, loaded: u64) -> u64 {
    if op == AMO_ADD {
        (data + loaded) as u64
    } else if op == AMO_XOR {
        data ^ loaded
    } else if op == AMO_AND {
        data & loaded
    } else if op == AMO_OR {
        data | loaded
    } else if op == AMO_MIN {
        if (data as i64) <= (loaded as i64) { data } else { loaded }
    } else if op == AMO_MAX {
        if (data as i64) >= (loaded as i64) { data } else { loaded }
    } else if op == AMO_MINU {
        if data <= loaded { data } else { loaded }
    } else if op == AMO_MAXU {
        if data >= loaded { data } else { loaded }
    } else {
        data
    }
}

/// The word an atomic operation replies with: zero for a store-conditional
/// (which always succeeds), the loaded word otherwise.
pub open spec fn amo_reply(op: u8, loaded: u64) -> u64 {
    if op == AMO_SC { 0 } else { loaded }
}

/// Whether a data bus cycle can be carried out: a request that the cycle
/// serves names an implemented atomic operation (when atomic), addresses
/// memory on its enabled lanes, and an atomic add does not overflow.
pub open spec fn data_request_ok(
    mem: Seq<u8>,
    latency: u64,
    we: bool,
    re: bool,
    atomic: bool,
    amo_op: u8,
    sel: u8,
    addr: u64,
    data: u64,
) -> bool {
    &&& atomic && latency == 0 ==> {
        &&& is_amo_op(amo_op)
        &&& lanes_in_bounds(mem.len() as int, sel, addr as int, 8)
        &&& amo_fits(amo_op, data, load_u64(mem, sel, addr as int))
    }
    &&& !atomic && (re || we) && latency == 0 ==> lanes_in_bounds(mem.len() as int, sel, addr as int, 8)
}

/// Memory and reply after one data bus cycle whose latency counter stood at
/// `latency`. An atomic request takes precedence over a read, and a read
/// over a write. A served atomic operation loads the word at the lanes of
/// `sel`, writes back `amo_stored_value` (not for load-reserved) and replies
/// `amo_reply`; a served read replies the loaded word; a served write stores
/// `data`. A cycle that serves nothing leaves memory unchanged and replies
/// `(false, NO_DATA)`.
pub open spec fn data_cycle(
    mem: Seq<u8>,
    latency: u64,
    we: bool,
    re: bool,
    atomic: bool,
    amo_op: u8,
    sel: u8,
    addr: u64,
    data: u64,
) -> (Seq<u8>, (bool, u64)) {
    let loaded = load_u64(mem, sel, addr as int);
    if !served(latency, atomic || re || we) {
        (mem, (false, NO_DATA))
    } else if atomic {
        (
            if amo_writes(amo_op) {
                store_u64(mem, sel, addr as int, amo_stored_value(amo_op, data, loaded))
            } else {
                mem
            },
            (true, amo_reply(amo_op, loaded)),
        )
    } else if re {
        (mem, (true, loaded))
    } else {
        (store_u64(mem, sel, addr as int, data), (true, NO_DATA))
    }
}

/// Writes the 64-bit word `data` through the lanes of `sel` at `addr`.
pub fn write_buffer(memory: &mut [u8], sel: u8, addr: u64, data: u64)
    requires
        lanes_in_bounds(old(memory)@.len() as int, sel, addr as int, 8),
    ensures
        final(memory)@ == store_u64(old(memory)@, sel, addr as int, data),
{
    for i in 0..8
        invariant
            lanes_in_bounds(old(memory)@.len() as int, sel, addr as int, 8),
            memory@ == store_u64_lanes(old(memory)@, sel, addr as int, data, i as int),
    {
        if lane_is_enabled(sel, i) {
            assert(addr + i < memory@.len() && memory@.len() == memory.len());
            memory[addr as usize + i] = ((data >> ((8 * i) as u64)) & 0xFF) as u8;
        }
        assert(memory@ =~= store_u64_lanes(old(memory)@, sel, addr as int, data, i + 1));
    }
}

/// Reads the 64-bit word carried by the lanes of `sel` at `addr`.
fn read_lanes(memory: &[u8], sel: u8, addr: u64) -> (word: u64)
    requires
        lanes_in_bounds(memory@.len() as int, sel, addr as int, 8),
    ensures
        word == load_u64(memory@, sel, addr as int),
{
    let mut response: u64 = 0;
    for i in 0..8
        invariant
            lanes_in_bounds(memory@.len() as int, sel, addr as int, 8),
            response == load_u64_lanes(memory@, sel, addr as int, i as nat),
    {
        if lane_is_enabled(sel, i) {
            assert(addr + i < memory@.len() && memory@.len() == memory.len());
            response |= (memory[addr as usize + i] as u64) << ((i * 8) as u64);
        } else {
            proof { lemma_or_zero_shift_u64(response, (8 * i) as u64); }
        }
        assert(response == load_u64_lanes(memory@, sel, addr as int, (i + 1) as nat));
    }
    response
}

/// A read-write bus with atomic memory operations that answers a request
/// after a fixed number of stall cycles.
pub struct C2cData {
    delay: u64,
    request_latency: u64,
}

impl C2cData {
    #[verifier::type_invariant]
    spec fn inv(self) -> bool {
        self.request_latency <= self.delay
    }

    /// The number of stall cycles before a request is served.
    pub closed spec fn delay(self) -> u64 {
        self.delay
    }

    /// The stall cycles left before the current request is served.
    pub closed spec fn latency(self) -> u64 {
        self.request_latency
    }

    pub fn new(delay: u64) -> (bus: Self)
        ensures
            bus.delay() == delay,
            bus.latency() == delay,
    {
        Self { delay: delay, request_latency: delay }
    }

    /// One bus cycle (see `data_cycle`).
    pub fn respond(
        &mut self,
        memory: &mut [u8],
        we: bool,
        re: bool,
        atomic: bool,
        amo_op: u8,
        sel: u8,
        addr: u64,
        data: u64,
    ) -> (reply: (bool, u64))
        requires
            data_request_ok(old(memory)@, old(self).latency(), we, re, atomic, amo_op, sel, addr, data),
        ensures
            final(self).delay() == old(self).delay(),
            final(self).latency() <= final(self).delay(),
            final(self).latency() == next_latency(
                old(self).latency(),
                old(self).delay(),
                atomic || re || we,
            ),
            (final(memory)@, reply) == data_cycle(
                old(memory)@,
                old(self).latency(),
                we,
                re,
                atomic,
                amo_op,
                sel,
                addr,
                data,
            ),
    {
        proof { use_type_invariant(&*self); }
        if atomic {
            if self.request_latency == 0 {
                let response = read_lanes(memory, sel, addr);
                self.request_latency = self.delay;
                if amo_op == AMO_LR {
                    (true, response)
                } else if amo_op == AMO_SC {
                    write_buffer(memory, sel, addr, data);
                    (true, 0)
                } else if amo_op == AMO_SWAP {
                    write_buffer(memory, sel, addr, data);
                    (true, response)
                } else if amo_op == AMO_ADD {
                    write_buffer(memory, sel, addr, data + response);
                    (true, response)
                } else if amo_op == AMO_XOR {
                    write_buffer(memory, sel, addr, data ^ response);
                    (true, response)
                } else if amo_op == AMO_AND {
                    write_buffer(memory, sel, addr, data & response);
                    (true, response)
                } else if amo_op == AMO_OR {
                    write_buffer(memory, sel, addr, data | response);
                    (true, response)
                } else if amo_op == AMO_MIN {
                    let v = if (data as i64) <= (response as i64) { data } else { response };
                    write_buffer(memory, sel, addr, v);
                    (true, response)
                } else if amo_op == AMO_MAX {
                    let v = if (data as i64) >= (response as i64) { data } else { response };
                    write_buffer(memory, sel, addr, v);
                    (true, response)
                } else if amo_op == AMO_MINU {
                    let v = if data <= response { data } else { response };
                    write_buffer(memory, sel, addr, v);
                    (true, response)
                } else {
                    let v = if data >= response { data } else { response };
                    write_buffer(memory, sel, addr, v);
                    (true, response)
                }
            } else {
                self.request_latency -= 1;
                (false, 0xDEADBEEF)
            }
        } else if re {
            if self.request_latency == 0 {
                let response = read_lanes(memory, sel, addr);
                self.request_latency = self.delay;
                (true, response)
            } else {
                self.request_latency -= 1;
                (false, 0xDEADBEEF)
            }
        } else if we {
            if self.request_latency == 0 {
                write_buffer(memory, sel, addr, data);
                self.request_latency = self.delay;
                (true, 0xDEADBEEF)
            } else {
                self.request_latency -= 1;
                (false, 0xDEADBEEF)
            }
        } else {
            self.request_latency = self.delay;
            (false, 0xDEADBEEF)
        }
    }
}

/// A read served after a served write, with the same lanes and address,
/// returns the written word restricted to those lanes.
pub proof fn lemma_read_after_write(mem: Seq<u8>, sel: u8, addr: int, data: u64)
    requires
        0 <= addr,
        lanes_in_bounds(mem.len() as int, sel, addr, 8),
    ensures
        load_u64(store_u64(mem, sel, addr, data), sel, addr) == data & lane_mask(sel),
{
    let m = store_u64(mem, sel, addr, data);
    let l0 = lane_byte(m, sel, addr, 0);
    let l1 = lane_byte(m, sel, addr, 1);
    let l2 = lane_byte(m, sel, addr, 2);
    let l3 = lane_byte(m, sel, addr, 3);
    let l4 = lane_byte(m, sel, addr, 4);
    let l5 = lane_byte(m, sel, addr, 5);
    let l6 = lane_byte(m, sel, addr, 6);
    let l7 = lane_byte(m, sel, addr, 7);
    assert forall|i: int| 0 <= i < 8 implies #[trigger] lane_byte(m, sel, addr, i) == (if lane_enabled(sel, i) {
        word_byte(data, i)
    } else {
        0u8
    }) by {
        if lane_enabled(sel, i) {
            assert(addr + i < mem.len());
        }
    }
    assert(load_u64(m, sel, addr) == (((((((((0u64 | ((l0 as u64) << 0u64)) | ((l1 as u64)
        << 8u64)) | ((l2 as u64) << 16u64)) | ((l3 as u64) << 24u64)) | ((l4 as u64) << 32u64))
        | ((l5 as u64) << 40u64)) | ((l6 as u64) << 48u64)) | ((l7 as u64) << 56u64)))) by {
        reveal_with_fuel(load_u64_lanes, 9);
    }
    assert(((((((((0u64 | ((l0 as u64) << 0u64)) | ((l1 as u64) << 8u64)) | ((l2 as u64)
        << 16u64)) | ((l3 as u64) << 24u64)) | ((l4 as u64) << 32u64)) | ((l5 as u64) << 40u64))
        | ((l6 as u64) << 48u64)) | ((l7 as u64) << 56u64)) == data & lane_mask(sel)) by (bit_vector)
        requires
            l0 == (if (sel >> 0u8) & 1 == 1 { ((data >> 0u64) & 0xff) as u8 } else { 0u8 }),
            l1 == (if (sel >> 1u8) & 1 == 1 { ((data >> 8u64) & 0xff) as u8 } else { 0u8 }),
            l2 == (if (sel >> 2u8) & 1 == 1 { ((data >> 16u64) & 0xff) as u8 } else { 0u8 }),
            l3 == (if (sel >> 3u8) & 1 == 1 { ((data >> 24u64) & 0xff) as u8 } else { 0u8 }),
            l4 == (if (sel >> 4u8) & 1 == 1 { ((data >> 32u64) & 0xff) as u8 } else { 0u8 }),
            l5 == (if (sel >> 5u8) & 1 == 1 { ((data >> 40u64) & 0xff) as u8 } else { 0u8 }),
            l6 == (if (sel >> 6u8) & 1 == 1 { ((data >> 48u64) & 0xff) as u8 } else { 0u8 }),
            l7 == (if (sel >> 7u8) & 1 == 1 { ((data >> 56u64) & 0xff) as u8 } else { 0u8 }),
    ;
}

/// A read held on an idle data bus (its counter at the delay) stalls for
/// `delay` cycles, each replying `(false, NO_DATA)` and leaving memory
/// alone, and is served on the next cycle with the loaded word; each cycle
/// of `respond` moves the counter on by `next_latency`, so the `k`-th cycle
/// finds it at `latency_after_held(delay, delay, k)`.
pub proof fn lemma_held_read_served_after_delay(
    mem: Seq<u8>,
    delay: u64,
    amo_op: u8,
    sel: u8,
    addr: u64,
    data: u64,
)
    ensures
        forall|k: nat|
            k < delay ==> data_cycle(
                mem,
                #[trigger] latency_after_held(delay, delay, k),
                false,
                true,
                false,
                amo_op,
                sel,
                addr,
                data,
            ) == (mem, (false, NO_DATA)),
        data_cycle(mem, latency_after_held(delay, delay, delay as nat), false, true, false, amo_op, sel, addr, data)
            == (mem, (true, load_u64(mem, sel, addr as int))),
{
    lemma_held_request_served_after_delay(delay);
}

/// A served atomic operation replies with the word memory held before it
/// (zero for a store-conditional), whatever the request's data, and
/// whatever the read and write flags say.
pub proof fn lemma_amo_replies_old_word(
    mem: Seq<u8>,
    we: bool,
    re: bool,
    op: u8,
    sel: u8,
    addr: u64,
    data: u64,
)
    requires
        is_amo_op(op),
    ensures
        data_cycle(mem, 0, we, re, true, op, sel, addr, data).1 == (
            true,
            if op == AMO_SC { 0u64 } else { load_u64(mem, sel, addr as int) },
        ),
{
}

/// The word each atomic operation stores, as a relation on the request's
/// data and the loaded word.
pub proof fn lemma_amo_stored_value(op: u8, data: u64, loaded: u64)
    requires
        is_amo_op(op),
        amo_fits(op, data, loaded),
    ensures
        ({
            let v = amo_stored_value(op, data, loaded);
            &&& op == AMO_SC || op == AMO_SWAP ==> v == data
            &&& op == AMO_ADD ==> v == data + loaded
            &&& op == AMO_XOR ==> v ^ loaded == data
            &&& op == AMO_AND ==> v & data == v && v & loaded == v && v | !(data & loaded) == !0u64
            &&& op == AMO_OR ==> v | data == v && v | loaded == v && v & (data | loaded) == v
            &&& op == AMO_MINU ==> v <= data && v <= loaded && (v == data || v == loaded)
            &&& op == AMO_MAXU ==> v >= data && v >= loaded && (v == data || v == loaded)
            &&& op == AMO_MIN ==> (v as i64) <= (data as i64) && (v as i64) <= (loaded as i64) && (v
                == data || v == loaded)
            &&& op == AMO_MAX ==> (v as i64) >= (data as i64) && (v as i64) >= (loaded as i64) && (v
                == data || v == loaded)
        }),
{
    let v = amo_stored_value(op, data, loaded);
    if op == AMO_XOR {
        assert((data ^ loaded) ^ loaded == data) by (bit_vector);
    }
    if op == AMO_AND {
        assert((data & loaded) & data == (data & loaded) && (data & loaded) & loaded == (data
            & loaded) && (data & loaded) | !(data & loaded) == !0u64) by (bit_vector);
    }
    if op == AMO_OR {
        assert((data | loaded) | data == (data | loaded) && (data | loaded) | loaded == (data
            | loaded) && (data | loaded) & (data | loaded) == (data | loaded)) by (bit_vector);
    }
}

/// After a served atomic operation, load-reserved leaves memory as it was,
/// and every other operation leaves its stored word in the selected lanes:
/// reading them back gives the stored word restricted to those lanes.
pub proof fn lemma_amo_then_read(
    mem: Seq<u8>,
    we: bool,
    re: bool,
    op: u8,
    sel: u8,
    addr: u64,
    data: u64,
)
    requires
        is_amo_op(op),
        lanes_in_bounds(mem.len() as int, sel, addr as int, 8),
    ensures
        ({
            let m2 = data_cycle(mem, 0, we, re, true, op, sel, addr, data).0;
            let loaded = load_u64(mem, sel, addr as int);
            &&& op == AMO_LR ==> m2 == mem
            &&& op != AMO_LR ==> load_u64(m2, sel, addr as int) == amo_stored_value(op, data, loaded)
                & lane_mask(sel)
        }),
{
    let loaded = load_u64(mem, sel, addr as int);
    lemma_read_after_write(mem, sel, addr as int, amo_stored_value(op, data, loaded));
}

/// A served read replies with the word in the selected lanes and leaves
/// memory as it was; a served write leaves `data` in the selected lanes, so
/// that reading them back gives `data` restricted to those lanes.
pub proof fn lemma_read_and_write_cycles(mem: Seq<u8>, we: bool, sel: u8, addr: u64, data: u64)
    requires
        lanes_in_bounds(mem.len() as int, sel, addr as int, 8),
    ensures
        data_cycle(mem, 0, we, true, false, 0, sel, addr, data) == (
            mem,
            (true, load_u64(mem, sel, addr as int)),
        ),
        data_cycle(mem, 0, true, false, false, 0, sel, addr, data).1 == (true, NO_DATA),
        load_u64(data_cycle(mem, 0, true, false, false, 0, sel, addr, data).0, sel, addr as int)
            == data & lane_mask(sel),
{
    lemma_read_after_write(mem, sel, addr as int, data);
}

/// A write changes only the bytes of its enabled lanes, and no others; the
/// memory keeps its length.
pub proof fn lemma_write_frame(mem: Seq<u8>, sel: u8, addr: int, data: u64, k: int)
    requires
        0 <= k < mem.len(),
    ensures
        store_u64(mem, sel, addr, data).len() == mem.len(),
        !(addr <= k < addr + 8 && lane_enabled(sel, k - addr)) ==> store_u64(mem, sel, addr, data)[k]
            == mem[k],
        addr <= k < addr + 8 && lane_enabled(sel, k - addr) ==> store_u64(mem, sel, addr, data)[k]
            == ((data >> ((8 * (k - addr)) as u64)) & 0xff) as u8,
{
}

/// With every lane enabled, a read assembles the eight bytes at `addr`
/// little endian: the word is the sum of byte `i` times `256^i`.
pub proof fn lemma_full_read_little_endian(mem: Seq<u8>, addr: int)
    requires
        0 <= addr,
        addr + 8 <= mem.len(),
    ensures
        load_u64(mem, 0xff, addr) as int == mem[addr] + 0x100 * mem[addr + 1] + 0x1_0000 * mem[addr
            + 2] + 0x100_0000 * mem[addr + 3] + 0x1_0000_0000 * mem[addr + 4] + 0x100_0000_0000
            * mem[addr + 5] + 0x1_0000_0000_0000 * mem[addr + 6] + 0x100_0000_0000_0000 * mem[addr
            + 7],
{
    let b0 = mem[addr];
    let b1 = mem[addr + 1];
    let b2 = mem[addr + 2];
    let b3 = mem[addr + 3];
    let b4 = mem[addr + 4];
    let b5 = mem[addr + 5];
    let b6 = mem[addr + 6];
    let b7 = mem[addr + 7];
    assert forall|i: int| 0 <= i < 8 implies #[trigger] lane_enabled(0xff, i) by {
        let k = i as u8;
        assert((0xffu8 >> k) & 1u8 == 1u8) by (bit_vector)
            requires
                k < 8,
        ;
    }
    assert(lane_byte(mem, 0xff, addr, 0) == b0 && lane_byte(mem, 0xff, addr, 1) == b1 && lane_byte(mem, 0xff, addr, 2) == b2
        && lane_byte(mem, 0xff, addr, 3) == b3 && lane_byte(mem, 0xff, addr, 4) == b4 && lane_byte(mem, 0xff, addr, 5) == b5
        && lane_byte(mem, 0xff, addr, 6) == b6 && lane_byte(mem, 0xff, addr, 7) == b7);
    assert(load_u64(mem, 0xff, addr) == (((((((((0u64 | ((b0 as u64) << 0u64)) | ((b1 as u64)
        << 8u64)) | ((b2 as u64) << 16u64)) | ((b3 as u64) << 24u64)) | ((b4 as u64) << 32u64))
        | ((b5 as u64) << 40u64)) | ((b6 as u64) << 48u64)) | ((b7 as u64) << 56u64)))) by {
        reveal_with_fuel(load_u64_lanes, 9);
    }
    assert(((((((((0u64 | ((b0 as u64) << 0u64)) | ((b1 as u64) << 8u64)) | ((b2 as u64)
        << 16u64)) | ((b3 as u64) << 24u64)) | ((b4 as u64) << 32u64)) | ((b5 as u64) << 40u64))
        | ((b6 as u64) << 48u64)) | ((b7 as u64) << 56u64)) == b0 + 0x100 * b1 + 0x1_0000 * b2
        + 0x100_0000 * b3 + 0x1_0000_0000 * b4 + 0x100_0000_0000 * b5 + 0x1_0000_0000_0000 * b6
        + 0x100_0000_0000_0000 * b7) by (bit_vector);
}

} // verus!
