# cv_fry

Verified Rust (Verus) models of the memory system and devices around the
fry RISC-V core: the instruction, data and test-harness buses with their
byte lanes, request timing and atomic memory operations; the emulated
machine's memory image; the guest's text console and keyboard; the
emulator's decoding of the text buffer; and the clocking protocol of
simulated hardware blocks.

- `src/` is the verified library.
- `tests/` exercises it on concrete values.
- `app/` is a terminal front end that renders a text buffer with
  `bracket-lib`, decoding it with the library.
