//! Verified bus models and device logic of the fry RISC-V simulator.
//!
//! - `lanes`, `timing`: byte lanes and request timing shared by the buses.
//! - `c2c_instr`, `c2c_data`, `c2c_w`: the buses that serve the simulated
//!   core from a memory image.
//! - `emulator`: the memory system of the emulated machine.
//! - `vga`, `keyboard`: the guest's console and keyboard.
//! - `display`: the emulator's decoding of the guest's text buffer.
//! - `dut`: the clocking protocol of simulated hardware blocks.
pub mod lanes;
pub mod timing;
pub mod c2c_instr;
pub mod c2c_data;
pub mod c2c_w;
pub mod emulator;
pub mod vga;
pub mod keyboard;
pub mod display;
pub mod dut;
