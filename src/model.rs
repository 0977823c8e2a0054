//! The abstract machine: what a machine state is, and what each instruction
//! does to it, written as spec functions over `CpuView`.
use vstd::prelude::*;

use crate::decode::{decode_spec, Instruction};

verus! {

/// Size of the flat, byte-addressed memory.
pub const MEMORY_SIZE: usize = 4096;

/// Number of general-purpose registers.
pub const REGISTER_COUNT: usize = 16;

/// The register that several instructions overwrite with a carry, borrow,
/// shifted-out bit or draw collision.
pub const FLAG_REGISTER: usize = 15;

/// Capacity of the call stack.
pub const STACK_DEPTH: usize = 24;

/// Display width in pixels.
pub const DISPLAY_WIDTH: usize = 64;

/// Display height in pixels.
pub const DISPLAY_HEIGHT: usize = 32;

/// Number of pixels on the display.
pub const PIXEL_COUNT: usize = 2048;

/// Number of keys on the keypad.
pub const KEY_COUNT: usize = 16;

/// Address at which programs are loaded and execution starts.
pub const PROGRAM_START: u16 = 0x200;

/// Address of the built-in hexadecimal digit glyphs.
pub const FONT_START: usize = 0x50;

/// Bytes per digit glyph.
pub const GLYPH_SIZE: usize = 5;

/// Bytes taken by the whole glyph table.
pub const FONT_SIZE: usize = 80;

/// Width of one instruction in bytes.
pub const OPCODE_SIZE: u16 = 2;

/// The ways a step of the machine can fail. On each of them the machine
/// state is left as it was.
#[derive(Clone, Copy, Debug, PartialEq, Eq, Structural)]
pub enum ExecutionError {
    /// The instruction word is not one of the instruction set's encodings.
    UnrecognizedOpcode,
    /// A call was made with the call stack at capacity.
    StackOverflow,
    /// A return was made with an empty call stack.
    StackUnderflow,
    /// An access, through the program counter or the address register,
    /// falls outside memory or writes into the glyph table.
    MemoryOutOfBounds,
}

/// The mathematical state of a machine.
pub struct CpuView {
    pub memory: Seq<u8>,
    pub v: Seq<u8>,
    pub i: u16,
    pub pc: u16,
    /// Active return addresses, the most recent last.
    pub stack: Seq<u16>,
    pub keypad: Seq<bool>,
    /// A wait-for-key instruction is suspended, waiting for a key.
    pub waiting: bool,
    /// The register that the awaited key goes into.
    pub wait_register: nat,
    /// A key ended the wait; the next step finishes the wait-for-key
    /// instruction by moving the program counter past it.
    pub resumed: bool,
    /// Row-major pixels: the pixel at column `c`, row `r` is at `r * 64 + c`.
    pub pixels: Seq<bool>,
    pub dirty: bool,
    pub delay: u8,
    pub sound: u8,
}

/// The glyphs of the hexadecimal digits 0 to F, five rows each.
pub open spec fn font() -> Seq<u8> {
    seq![
        0xF0u8, 0x90, 0x90, 0x90, 0xF0, 0x20, 0x60, 0x20, 0x20, 0x70,
        0xF0, 0x10, 0xF0, 0x80, 0xF0, 0xF0, 0x10, 0xF0, 0x10, 0xF0,
        0x90, 0x90, 0xF0, 0x10, 0x10, 0xF0, 0x80, 0xF0, 0x10, 0xF0,
        0xF0, 0x80, 0xF0, 0x90, 0xF0, 0xF0, 0x10, 0x20, 0x40, 0x40,
        0xF0, 0x90, 0xF0, 0x90, 0xF0, 0xF0, 0x90, 0xF0, 0x10, 0xF0,
        0xF0, 0x90, 0xF0, 0x90, 0x90, 0xE0, 0x90, 0xE0, 0x90, 0xE0,
        0xF0, 0x80, 0x80, 0x80, 0xF0, 0xE0, 0x90, 0x90, 0x90, 0xE0,
        0xF0, 0x80, 0xF0, 0x80, 0xF0, 0xF0, 0x80, 0xF0, 0x80, 0x80,
    ]
}

impl CpuView {
    /// Sizes of the components, and the glyph table in place.
    pub open spec fn wf(self) -> bool {
        &&& self.memory.len() == MEMORY_SIZE
        &&& self.v.len() == REGISTER_COUNT
        &&& self.stack.len() <= STACK_DEPTH
        &&& self.keypad.len() == KEY_COUNT
        &&& self.wait_register < REGISTER_COUNT
        &&& self.pixels.len() == PIXEL_COUNT
        &&& self.memory.subrange(FONT_START as int, FONT_START + FONT_SIZE) == font()
    }

    /// The program counter moved forward by `k` bytes, modulo 2^16.
    pub open spec fn advanced(self, k: int) -> CpuView {
        CpuView { pc: pc_plus(self.pc, k), ..self }
    }

    /// Register `x` set to `val`.
    pub open spec fn with_reg(self, x: int, val: u8) -> CpuView {
        CpuView { v: self.v.update(x, val), ..self }
    }
}

/// `pc + k`, wrapped to 16 bits.
pub open spec fn pc_plus(pc: u16, k: int) -> u16 {
    ((pc + k) % 0x10000) as u16
}

/// The state of a freshly built machine.
pub open spec fn initial_state() -> CpuView {
    CpuView {
        memory: Seq::new(
            MEMORY_SIZE as nat,
            |a: int|
                if FONT_START <= a < FONT_START + FONT_SIZE {
                    font()[a - FONT_START]
                } else {
                    0u8
                },
        ),
        v: Seq::new(REGISTER_COUNT as nat, |k: int| 0u8),
        i: 0,
        pc: PROGRAM_START,
        stack: Seq::empty(),
        keypad: Seq::new(KEY_COUNT as nat, |k: int| false),
        waiting: false,
        wait_register: 0,
        resumed: false,
        pixels: Seq::new(PIXEL_COUNT as nat, |k: int| false),
        dirty: false,
        delay: 0,
        sound: 0,
    }
}

/// May `len` bytes from `start` be written: inside memory, and clear of
/// the glyph table.
pub open spec fn writable(start: int, len: int) -> bool {
    &&& start + len <= MEMORY_SIZE
    &&& (start + len <= FONT_START || start >= FONT_START + FONT_SIZE)
}

/// May `len` bytes from `start` be read.
pub open spec fn readable(start: int, len: int) -> bool {
    start + len <= MEMORY_SIZE
}

/// Bit `b` of a sprite row, counted from the most significant bit.
pub open spec fn row_bit(byte: u8, b: int) -> bool {
    (byte >> ((7 - b) as u8)) & 1u8 == 1u8
}

/// Whether the sprite of `n` rows at address `i`, drawn with its top-left
/// corner at column `vx` and row `vy`, has a set bit over pixel `cell`.
/// Columns wrap modulo 64 and rows modulo 32.
pub open spec fn sprite_covers(memory: Seq<u8>, i: int, n: int, vx: int, vy: int, cell: int) -> bool {
    let r = (cell / 64 - vy) % 32;
    let b = (cell % 64 - vx) % 64;
    r < n && b < 8 && row_bit(memory[i + r], b)
}

/// The display after XOR-ing the sprite onto it.
pub open spec fn drawn_pixels(s: CpuView, n: int, vx: int, vy: int) -> Seq<bool> {
    Seq::new(
        PIXEL_COUNT as nat,
        |c: int| s.pixels[c] != sprite_covers(s.memory, s.i as int, n, vx, vy, c),
    )
}

/// Whether drawing the sprite turns some lit pixel off.
pub open spec fn collides(s: CpuView, n: int, vx: int, vy: int) -> bool {
    exists|c: int|
        0 <= c < PIXEL_COUNT && s.pixels[c] && #[trigger] sprite_covers(
            s.memory,
            s.i as int,
            n,
            vx,
            vy,
            c,
        )
}

/// The state after a draw that succeeded.
pub open spec fn draw_result(s: CpuView, x: int, y: int, n: int) -> CpuView {
    let vx = s.v[x] as int;
    let vy = s.v[y] as int;
    let flag: u8 = if collides(s, n, vx, vy) { 1 } else { 0 };
    CpuView {
        pixels: drawn_pixels(s, n, vx, vy),
        dirty: true,
        ..s.with_reg(FLAG_REGISTER as int, flag)
    }.advanced(2)
}

/// Whether key `k` is held down; values that name no key are never down.
pub open spec fn key_pressed(s: CpuView, k: u8) -> bool {
    k < KEY_COUNT && s.keypad[k as int]
}

/// The program counter moved past the next instruction when `cond` holds,
/// else to the next instruction.
pub open spec fn skip_if(s: CpuView, cond: bool) -> CpuView {
    s.advanced(if cond { 4 } else { 2 })
}

/// An arithmetic result in register `x`, then the flag register set to `flag`.
pub open spec fn with_result_and_flag(s: CpuView, x: int, val: u8, flag: u8) -> CpuView {
    s.with_reg(x, val).with_reg(FLAG_REGISTER as int, flag).advanced(2)
}

/// Memory after writing the decimal digits of `val` at `i`, `i + 1`, `i + 2`.
pub open spec fn bcd_memory(memory: Seq<u8>, i: int, val: u8) -> Seq<u8> {
    memory.update(i, (val / 100) as u8).update(i + 1, ((val / 10) % 10) as u8).update(i + 2, (val % 10) as u8)
}

/// Memory after storing registers `0..=x` from address `i` on.
pub open spec fn stored_memory(memory: Seq<u8>, v: Seq<u8>, i: int, x: int) -> Seq<u8> {
    Seq::new(memory.len(), |a: int| if i <= a <= i + x { v[a - i] } else { memory[a] })
}

/// Registers after loading `0..=x` from memory at address `i` on.
pub open spec fn loaded_registers(memory: Seq<u8>, v: Seq<u8>, i: int, x: int) -> Seq<u8> {
    Seq::new(v.len(), |k: int| if k <= x { memory[i + k] } else { v[k] })
}

/// What one instruction does to a state; `rnd` is the random byte that the
/// random instruction masks.
pub open spec fn execute(s: CpuView, op: Instruction, rnd: u8) -> Result<CpuView, ExecutionError> {
    match op {
        Instruction::ClearScreen => Ok(
            CpuView { pixels: Seq::new(PIXEL_COUNT as nat, |c: int| false), dirty: true, ..s }.advanced(2),
        ),
        Instruction::Return => if s.stack.len() == 0 {
            Err(ExecutionError::StackUnderflow)
        } else {
            Ok(CpuView { pc: s.stack.last(), stack: s.stack.drop_last(), ..s })
        },
        Instruction::System(addr) => Ok(CpuView { pc: addr, ..s }),
        Instruction::Jump(addr) => Ok(CpuView { pc: addr, ..s }),
        Instruction::Call(addr) => if s.stack.len() >= STACK_DEPTH {
            Err(ExecutionError::StackOverflow)
        } else {
            Ok(CpuView { pc: addr, stack: s.stack.push(pc_plus(s.pc, 2)), ..s })
        },
        Instruction::SkipEqImm(x, kk) => Ok(skip_if(s, s.v[x as int] == kk)),
        Instruction::SkipNeImm(x, kk) => Ok(skip_if(s, s.v[x as int] != kk)),
        Instruction::SkipEqReg(x, y) => Ok(skip_if(s, s.v[x as int] == s.v[y as int])),
        Instruction::LoadImm(x, kk) => Ok(s.with_reg(x as int, kk).advanced(2)),
        Instruction::AddImm(x, kk) => Ok(
            s.with_reg(x as int, ((s.v[x as int] + kk) % 256) as u8).advanced(2),
        ),
        Instruction::Copy(x, y) => Ok(s.with_reg(x as int, s.v[y as int]).advanced(2)),
        Instruction::Or(x, y) => Ok(s.with_reg(x as int, s.v[x as int] | s.v[y as int]).advanced(2)),
        Instruction::And(x, y) => Ok(s.with_reg(x as int, s.v[x as int] & s.v[y as int]).advanced(2)),
        Instruction::Xor(x, y) => Ok(s.with_reg(x as int, s.v[x as int] ^ s.v[y as int]).advanced(2)),
        Instruction::AddReg(x, y) => {
            let a = s.v[x as int];
            let b = s.v[y as int];
            Ok(with_result_and_flag(s, x as int, ((a + b) % 256) as u8, if a + b > 255 { 1 } else { 0 }))
        },
        Instruction::Sub(x, y) => {
            let a = s.v[x as int];
            let b = s.v[y as int];
            Ok(with_result_and_flag(s, x as int, ((a - b) % 256) as u8, if a >= b { 1 } else { 0 }))
        },
        Instruction::ShiftRight(x, y) => {
            let a = s.v[y as int];
            Ok(with_result_and_flag(s, x as int, (a / 2) as u8, (a % 2) as u8))
        },
        Instruction::SubReverse(x, y) => {
            let a = s.v[x as int];
            let b = s.v[y as int];
            Ok(with_result_and_flag(s, x as int, ((b - a) % 256) as u8, if b >= a { 1 } else { 0 }))
        },
        Instruction::ShiftLeft(x, y) => {
            let a = s.v[y as int];
            Ok(with_result_and_flag(s, x as int, ((a * 2) % 256) as u8, (a / 128) as u8))
        },
        Instruction::SkipNeReg(x, y) => Ok(skip_if(s, s.v[x as int] != s.v[y as int])),
        Instruction::SetIndex(addr) => Ok(CpuView { i: addr, ..s }.advanced(2)),
        Instruction::JumpOffset(addr) => Ok(CpuView { pc: (addr + s.v[0]) as u16, ..s }),
        Instruction::Random(x, kk) => Ok(s.with_reg(x as int, rnd & kk).advanced(2)),
        Instruction::Draw(x, y, n) => if !readable(s.i as int, n as int) {
            Err(ExecutionError::MemoryOutOfBounds)
        } else {
            Ok(draw_result(s, x as int, y as int, n as int))
        },
        Instruction::SkipKey(x) => Ok(skip_if(s, key_pressed(s, s.v[x as int]))),
        Instruction::SkipNoKey(x) => Ok(skip_if(s, !key_pressed(s, s.v[x as int]))),
        Instruction::LoadDelay(x) => Ok(s.with_reg(x as int, s.delay).advanced(2)),
        Instruction::WaitKey(x) => Ok(
            CpuView { waiting: true, wait_register: x as nat, ..s },
        ),
        Instruction::SetDelay(x) => Ok(CpuView { delay: s.v[x as int], ..s }.advanced(2)),
        Instruction::SetSound(x) => Ok(CpuView { sound: s.v[x as int], ..s }.advanced(2)),
        Instruction::AddIndex(x) => Ok(
            CpuView { i: ((s.i + s.v[x as int]) % 0x10000) as u16, ..s }.advanced(2),
        ),
        Instruction::FontSprite(x) => Ok(
            CpuView { i: (FONT_START + GLYPH_SIZE * (s.v[x as int] % 16)) as u16, ..s }.advanced(2),
        ),
        Instruction::Bcd(x) => if !writable(s.i as int, 3) {
            Err(ExecutionError::MemoryOutOfBounds)
        } else {
            Ok(CpuView { memory: bcd_memory(s.memory, s.i as int, s.v[x as int]), ..s }.advanced(2))
        },
        Instruction::StoreRegs(x) => if !writable(s.i as int, x + 1) {
            Err(ExecutionError::MemoryOutOfBounds)
        } else {
            Ok(CpuView { memory: stored_memory(s.memory, s.v, s.i as int, x as int), ..s }.advanced(2))
        },
        Instruction::LoadRegs(x) => if !readable(s.i as int, x + 1) {
            Err(ExecutionError::MemoryOutOfBounds)
        } else {
            Ok(CpuView { v: loaded_registers(s.memory, s.v, s.i as int, x as int), ..s }.advanced(2))
        },
    }
}

} // verus!

verus! {

/// Whether a run of `op` on `s` that returned `r` and left `s2` behaved as
/// `execute` says: on success the new state, on failure the error and the
/// state unchanged.
pub open spec fn effect(
    s: CpuView,
    op: Instruction,
    rnd: u8,
    s2: CpuView,
    r: Result<(), ExecutionError>,
) -> bool {
    match execute(s, op, rnd) {
        Ok(t) => r is Ok && s2 == t,
        Err(e) => r == Err::<(), ExecutionError>(e) && s2 == s,
    }
}

/// `(a + m - v % m) % m` is `(a - v) % m`: the offset of `a` from `v`,
/// wrapped to `m`.
pub proof fn lemma_wrapped_offset(a: int, v: int, m: int)
    requires
        0 <= a < m,
        0 <= v,
        0 < m,
    ensures
        (a + m - v % m) % m == (a - v) % m,
{
    vstd::arithmetic::div_mod::lemma_fundamental_div_mod(v, m);
    vstd::arithmetic::div_mod::lemma_mod_multiples_vanish(v / m + 1, a - v, m);
    assert(a + m - v % m == m * (v / m + 1) + (a - v)) by (nonlinear_arith)
        requires
            v == m * (v / m) + v % m,
    ;
}

} // verus!

verus! {

/// What one successful call of `step` did.
#[derive(Clone, Copy, Debug, PartialEq, Eq, Structural)]
pub enum StepOutcome {
    /// This instruction ran.
    Executed(Instruction),
    /// The machine waits for a key; nothing ran.
    WaitingForKey,
}

/// Whether a run of `op` that returned `r` and left `s2` behaved as
/// `execute` says, reporting `op` on success.
pub open spec fn outcome(
    s: CpuView,
    op: Instruction,
    rnd: u8,
    s2: CpuView,
    r: Result<StepOutcome, ExecutionError>,
) -> bool {
    match execute(s, op, rnd) {
        Ok(t) => r == Ok::<StepOutcome, ExecutionError>(StepOutcome::Executed(op)) && s2 == t,
        Err(e) => r == Err::<StepOutcome, ExecutionError>(e) && s2 == s,
    }
}

/// What a step does while a wait-for-key instruction is unfinished, if one
/// is: while the wait lasts nothing happens and the wait is reported; once a
/// key has ended it, the program counter moves past the wait-for-key
/// instruction, which is then reported as run. No word is fetched or run.
pub open spec fn unfinished_wait(s: CpuView) -> Option<(CpuView, Result<StepOutcome, ExecutionError>)> {
    if s.waiting {
        Some((s, Ok(StepOutcome::WaitingForKey)))
    } else if s.resumed {
        Some(
            (
                CpuView { resumed: false, ..s }.advanced(2),
                Ok(StepOutcome::Executed(Instruction::WaitKey(s.wait_register as u8))),
            ),
        )
    } else {
        None
    }
}

/// Whether running instruction word `w` behaved as specified: while a
/// wait-for-key instruction is unfinished, as `unfinished_wait` says;
/// otherwise as the word's decoding says, an unrecognized word failing and
/// changing nothing.
pub open spec fn runs_word(
    s: CpuView,
    w: u16,
    rnd: u8,
    s2: CpuView,
    r: Result<StepOutcome, ExecutionError>,
) -> bool {
    match unfinished_wait(s) {
        Some(done) => s2 == done.0 && r == done.1,
        None => runs_decoded(s, w, rnd, s2, r),
    }
}

/// Whether running word `w` behaved as its decoding says.
pub open spec fn runs_decoded(
    s: CpuView,
    w: u16,
    rnd: u8,
    s2: CpuView,
    r: Result<StepOutcome, ExecutionError>,
) -> bool {
    match decode_spec(w) {
        None => r == Err::<StepOutcome, ExecutionError>(ExecutionError::UnrecognizedOpcode) && s2
            == s,
        Some(op) => outcome(s, op, rnd, s2, r),
    }
}

/// The big-endian word at the program counter, if both of its bytes lie
/// in memory.
pub open spec fn fetch(s: CpuView) -> Option<u16> {
    if s.pc + 1 < MEMORY_SIZE {
        Some((s.memory[s.pc as int] * 256 + s.memory[s.pc + 1]) as u16)
    } else {
        None
    }
}

/// Whether a call of `step` that returned `r` and left `s2` behaved as
/// specified, `rnd` being the random byte it drew: while a wait-for-key
/// instruction is unfinished, as `unfinished_wait` says; otherwise the word at
/// the program counter is fetched, decoded and run.
pub open spec fn steps(s: CpuView, rnd: u8, s2: CpuView, r: Result<StepOutcome, ExecutionError>) -> bool {
    match unfinished_wait(s) {
        Some(done) => s2 == done.0 && r == done.1,
        None => match fetch(s) {
            None => r == Err::<StepOutcome, ExecutionError>(ExecutionError::MemoryOutOfBounds) && s2
                == s,
            Some(w) => runs_decoded(s, w, rnd, s2, r),
        },
    }
}

/// The state after key `key` goes down: it is marked down and, when the
/// machine waits for a key, its value lands in the waiting register and the
/// wait ends, leaving the wait-for-key instruction to be finished by the
/// next step.
pub open spec fn key_down_result(s: CpuView, key: u8) -> CpuView {
    let pressed = CpuView { keypad: s.keypad.update(key as int, true), ..s };
    if s.waiting {
        CpuView { waiting: false, resumed: true, ..pressed.with_reg(s.wait_register as int, key) }
    } else {
        pressed
    }
}

/// One timer tick: both timers count down by one and stop at zero.
pub open spec fn tick_result(s: CpuView) -> CpuView {
    CpuView {
        delay: if s.delay > 0 { (s.delay - 1) as u8 } else { 0 },
        sound: if s.sound > 0 { (s.sound - 1) as u8 } else { 0 },
        ..s
    }
}

/// Memory with `program` copied in from the program start on.
pub open spec fn loaded_memory(memory: Seq<u8>, program: Seq<u8>) -> Seq<u8> {
    Seq::new(
        memory.len(),
        |a: int|
            if PROGRAM_START <= a < PROGRAM_START + program.len() {
                program[a - PROGRAM_START]
            } else {
                memory[a]
            },
    )
}

} // verus!
