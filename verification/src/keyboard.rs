//! The memory-mapped keyboard: a control register whose bit 0 flags a
//! pending key, and a keycode register four bytes above it.
use vstd::prelude::*;

verus! {

/// Where the emulator maps the keyboard's control register.
pub const KEYBOARD_BASE: usize = 0xb0000;

/// Whether a key is pending at the keyboard mapped at `offset`.
pub open spec fn key_pending(mem: Seq<u8>, offset: int) -> bool {
    mem[offset] & 1u8 == 1u8
}

/// Memory and result after the guest reads the keyboard mapped at `offset`:
/// a pending key is returned and its flag cleared; otherwise nothing changes.
pub open spec fn keyboard_read(mem: Seq<u8>, offset: int) -> (Seq<u8>, Option<char>) {
    if key_pending(mem, offset) {
        (mem.update(offset, mem[offset] ^ 1u8), Some((mem[offset + 4] as u8) as char))
    } else {
        (mem, None)
    }
}

/// Memory after the emulator posts a key press: the pending flag of the
/// keyboard at `KEYBOARD_BASE` is set and the keycode's low byte stored.
pub open spec fn key_posted(mem: Seq<u8>, keycode: i32) -> Seq<u8> {
    mem.update(KEYBOARD_BASE as int, mem[KEYBOARD_BASE as int] | 1u8).update(
        KEYBOARD_BASE + 4,
        keycode as u8,
    )
}

/// The guest's view of a keyboard mapped at a fixed address.
pub struct Keyboard {
    offset: usize,
}

impl Keyboard {
    /// The address of the control register.
    pub closed spec fn offset(&self) -> usize {
        self.offset
    }

    pub fn new(offset: usize) -> (k: Self)
        ensures
            k.offset() == offset,
    {
        Self { offset }
    }

    /// Takes the pending key, if any, from the keyboard's registers in `memory`.
    pub fn read_keycode(&mut self, memory: &mut [u8]) -> (key: Option<char>)
        requires
            old(self).offset() + 4 < old(memory)@.len(),
        ensures
            final(self).offset() == old(self).offset(),
            (final(memory)@, key) == keyboard_read(old(memory)@, old(self).offset() as int),
    {
        let control = memory[self.offset];
        if control & 0b1 == 1 {
            memory[self.offset] = control ^ 0b1;
            Some(memory[self.offset + 4] as char)
        } else {
            None
        }
    }
}

/// Posts a key press to the keyboard at `KEYBOARD_BASE`, as the emulator does
/// when the host reports one.
pub fn post_keypress(memory: &mut [u8], keycode: i32)
    requires
        KEYBOARD_BASE + 4 < old(memory)@.len(),
    ensures
        final(memory)@ == key_posted(old(memory)@, keycode),
{
    memory[KEYBOARD_BASE] = memory[KEYBOARD_BASE] | 1;
    memory[KEYBOARD_BASE + 4] = keycode as u8;
}

/// A key posted by the emulator is read by the guest exactly once: the first
/// read returns it and clears the pending flag, so the next read returns
/// nothing.
pub proof fn lemma_posted_key_read_once(mem: Seq<u8>, keycode: i32)
    requires
        KEYBOARD_BASE + 4 < mem.len(),
    ensures
        keyboard_read(key_posted(mem, keycode), KEYBOARD_BASE as int).1 == Some(
            (keycode as u8) as char,
        ),
        keyboard_read(keyboard_read(key_posted(mem, keycode), KEYBOARD_BASE as int).0, KEYBOARD_BASE as int).1
            is None,
{
    let b = mem[KEYBOARD_BASE as int];
    assert((b | 1u8) & 1u8 == 1u8) by (bit_vector);
    assert(((b | 1u8) ^ 1u8) & 1u8 == 0u8) by (bit_vector);
}

/// Reading a keyboard: when bit 0 of its control register is set, the read
/// returns the keycode register as a character and clears that bit; when it
/// is clear, the read returns nothing and changes nothing. No other byte
/// ever changes.
pub proof fn lemma_keyboard_read_effect(mem: Seq<u8>, offset: int)
    requires
        0 <= offset,
        offset + 4 < mem.len(),
    ensures
        ({
            let (m2, key) = keyboard_read(mem, offset);
            &&& m2.len() == mem.len()
            &&& forall|k: int| 0 <= k < mem.len() && k != offset ==> #[trigger] m2[k] == mem[k]
            &&& mem[offset] % 2 == 1 ==> key == Some(mem[offset + 4] as char) && m2[offset] == mem[offset] - 1
            &&& mem[offset] % 2 == 0 ==> key is None && m2 == mem
        }),
{
    let b = mem[offset];
    assert(((b & 1u8) == 1u8) == (b % 2 == 1)) by (bit_vector);
    assert(b % 2 == 1 ==> (b ^ 1u8) == b - 1) by (bit_vector);
}

/// Posting a key sets bit 0 of the control register (adding one when it was
/// clear), stores the keycode's low byte in the keycode register, and
/// changes no other byte.
pub proof fn lemma_key_posted_effect(mem: Seq<u8>, keycode: i32)
    requires
        KEYBOARD_BASE + 4 < mem.len(),
    ensures
        ({
            let m2 = key_posted(mem, keycode);
            let b = KEYBOARD_BASE as int;
            &&& m2.len() == mem.len()
            &&& m2[b] == mem[b] + (if mem[b] % 2 == 0 { 1int } else { 0int })
            &&& m2[b + 4] as int == keycode % 256
            &&& forall|k: int| 0 <= k < mem.len() && k != b && k != b + 4 ==> #[trigger] m2[k] == mem[k]
        }),
{
    let x = mem[KEYBOARD_BASE as int];
    assert((x | 1u8) as int == x + (if x % 2 == 0 { 1int } else { 0int })) by (bit_vector);
    assert((keycode as u8) as int == keycode % 256) by (bit_vector);
}

} // verus!
