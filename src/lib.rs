//! An interpreter core for a small 8-bit virtual machine: 4 KiB of memory,
//! sixteen byte registers, a 64 by 32 monochrome display, two countdown
//! timers and a sixteen-key keypad.
//!
//! `model` states what a machine state is and what every instruction does to
//! it; `decode` turns instruction words into operations; `hardware` holds the
//! machine and executes operations, proved against `model`; `instructions`
//! decodes and runs one word; `laws` proves properties across calls.
//!
//! Conventions of this machine:
//! - Register 15 is both a general register and the flag output. Where an
//!   instruction writes a result and a flag, the flag is written last.
//! - The shift instructions read their operand from `Vy` and store into `Vx`.
//! - The display is a grid of its own, not a region of memory. Sprite
//!   coordinates wrap modulo 64 columns and 32 rows.
//! - The glyph table in memory is read-only: a write that touches it fails
//!   with `MemoryOutOfBounds`, as does any access past the end of memory.
//! - The program counter and the address register are 16-bit and wrap; an
//!   out-of-range value fails only when it is used to fetch or access memory.
//! - The wait-for-key instruction suspends the machine and leaves the
//!   program counter on itself. Until `key_down`, `step` (and running a word
//!   directly) does nothing. `key_down` puts the key in the target register
//!   and ends the wait; the next step moves the program counter past the
//!   wait-for-key instruction, and the step after that runs the following
//!   instruction.
//! - A key value above 15 in a register names no key and is never down.
pub mod decode;
pub mod model;
pub mod hardware;
pub mod instructions;
pub mod laws;
