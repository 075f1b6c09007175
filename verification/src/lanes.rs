//! Byte lanes of the memory buses.
//!
//! A bus request carries a lane-select mask: bit `i` of `sel` enables byte
//! lane `i`, that is the byte at `addr + i`, which travels in bits
//! `8 * i .. 8 * i + 8` of the bus word (little endian).
use vstd::prelude::*;

verus! {

/// Whether byte lane `i` is enabled by the select mask `sel`.
pub open spec fn lane_enabled(sel: u8, i: int) -> bool {
    (sel >> (i as u8)) & 1u8 == 1u8
}

/// Every enabled lane among the first `width` lanes addresses a byte of a
/// memory of `len` bytes.
pub open spec fn lanes_in_bounds(len: int, sel: u8, addr: int, width: int) -> bool {
    forall|i: int| 0 <= i < width && #[trigger] lane_enabled(sel, i) ==> addr + i < len
}

/// The byte that lane `i` carries on a read: the memory byte when the lane
/// is enabled, zero otherwise.
pub open spec fn lane_byte(mem: Seq<u8>, sel: u8, addr: int, i: int) -> u8 {
    if lane_enabled(sel, i) {
        mem[addr + i]
    } else {
        0
    }
}

/// The 64-bit word assembled from the first `n` lanes of a read.
pub open spec fn load_u64_lanes(mem: Seq<u8>, sel: u8, addr: int, n: nat) -> u64
    decreases n,
{
    if n == 0 {
        0
    } else {
        load_u64_lanes(mem, sel, addr, (n - 1) as nat) | ((lane_byte(mem, sel, addr, n - 1) as u64)
            << ((8 * (n - 1)) as u64))
    }
}

/// The 32-bit word assembled from the first `n` lanes of a read.
pub open spec fn load_u32_lanes(mem: Seq<u8>, sel: u8, addr: int, n: nat) -> u32
    decreases n,
{
    if n == 0 {
        0
    } else {
        load_u32_lanes(mem, sel, addr, (n - 1) as nat) | ((lane_byte(mem, sel, addr, n - 1) as u32)
            << ((8 * (n - 1)) as u32))
    }
}

/// Byte `i` of a 64-bit word (little endian).
pub open spec fn word_byte(data: u64, i: int) -> u8 {
    ((data >> ((8 * i) as u64)) & 0xff) as u8
}

/// Memory after the enabled ones of the first `n` lanes of a write of the
/// 64-bit word `data`: lane `i` receives byte `i` of `data`; every other byte
/// keeps its value.
pub open spec fn store_u64_lanes(mem: Seq<u8>, sel: u8, addr: int, data: u64, n: int) -> Seq<u8> {
    Seq::new(
        mem.len(),
        |k: int|
            if addr <= k < addr + n && lane_enabled(sel, k - addr) {
                word_byte(data, k - addr)
            } else {
                mem[k]
            },
    )
}

/// Memory after a 64-bit word is written through the lanes of `sel`.
pub open spec fn store_u64(mem: Seq<u8>, sel: u8, addr: int, data: u64) -> Seq<u8> {
    store_u64_lanes(mem, sel, addr, data, 8)
}

/// The 64-bit word assembled from the eight lanes of a read.
pub open spec fn load_u64(mem: Seq<u8>, sel: u8, addr: int) -> u64 {
    load_u64_lanes(mem, sel, addr, 8)
}

/// The mask of the bits of a 64-bit word that the lanes of `sel` carry.
pub open spec fn lane_mask(sel: u8) -> u64 {
    (if sel & 1 == 1 { 0xffu64 } else { 0 }) | (if (sel >> 1u8) & 1 == 1 {
        0xff00u64
    } else {
        0
    }) | (if (sel >> 2u8) & 1 == 1 { 0xff_0000u64 } else { 0 }) | (if (sel >> 3u8) & 1 == 1 {
        0xff00_0000u64
    } else {
        0
    }) | (if (sel >> 4u8) & 1 == 1 { 0xff_0000_0000u64 } else { 0 }) | (if (sel >> 5u8) & 1
        == 1 {
        0xff00_0000_0000u64
    } else {
        0
    }) | (if (sel >> 6u8) & 1 == 1 { 0xff_0000_0000_0000u64 } else { 0 }) | (if (sel >> 7u8)
        & 1 == 1 {
        0xff00_0000_0000_0000u64
    } else {
        0
    })
}

/// Whether byte lane `i` is enabled by `sel`; `i` must name one of the
/// eight lanes.
pub fn lane_is_enabled(sel: u8, i: usize) -> (b: bool)
    requires
        i < 8,
    ensures
        b == lane_enabled(sel, i as int),
{
    (sel >> (i as u8)) & 1 == 1
}

/// Or-ing in a zero byte leaves a word unchanged.
pub(crate) proof fn lemma_or_zero_shift_u64(r: u64, k: u64)
    ensures
        r | ((0u8 as u64) << k) == r,
{
    assert(r | ((0u8 as u64) << k) == r) by (bit_vector);
}

/// Or-ing in a zero byte leaves a word unchanged.
pub(crate) proof fn lemma_or_zero_shift_u32(r: u32, k: u32)
    ensures
        r | ((0u8 as u32) << k) == r,
{
    assert(r | ((0u8 as u32) << k) == r) by (bit_vector);
}

} // verus!
