//! The machine: memory, registers, call stack, display, timers and keypad,
//! with the accessors through which everything else reaches them.
use vstd::prelude::*;

use crate::decode::{decode, operands_in_range, Instruction};
use crate::model::{
    collides, draw_result, drawn_pixels, effect, execute, fetch, font, initial_state,
    key_down_result, key_pressed, lemma_wrapped_offset, loaded_memory, loaded_registers, outcome,
    pc_plus, readable, runs_word, skip_if, sprite_covers, steps, stored_memory, tick_result,
    unfinished_wait, writable, DISPLAY_HEIGHT, DISPLAY_WIDTH, FLAG_REGISTER, FONT_SIZE, FONT_START,
    GLYPH_SIZE, KEY_COUNT, MEMORY_SIZE, OPCODE_SIZE, PIXEL_COUNT, PROGRAM_START, REGISTER_COUNT,
    STACK_DEPTH, CpuView, ExecutionError, StepOutcome,
};

verus! {

/// The 64 by 32 pixel grid and its pending-redraw flag.
struct Display {
    pixels: Vec<bool>,
    update_required: bool,
}

/// One machine. Its meaning is `CpuView`; every method keeps `wf`.
pub struct CPU {
    memory: Vec<u8>,
    v: Vec<u8>,
    i: u16,
    pc: u16,
    stack: Vec<u16>,
    keypad: Vec<bool>,
    keypad_wait: bool,
    keypad_register: u8,
    key_resumed: bool,
    display: Display,
    delay: u8,
    sound: u8,
}

impl View for CPU {
    type V = CpuView;

    closed spec fn view(&self) -> CpuView {
        CpuView {
            memory: self.memory@,
            v: self.v@,
            i: self.i,
            pc: self.pc,
            stack: self.stack@,
            keypad: self.keypad@,
            waiting: self.keypad_wait,
            wait_register: self.keypad_register as nat,
            resumed: self.key_resumed,
            pixels: self.display.pixels@,
            dirty: self.display.update_required,
            delay: self.delay,
            sound: self.sound,
        }
    }
}

/// A vector of `n` copies of `val`.
fn filled<T: Copy>(val: T, n: usize) -> (r: Vec<T>)
    ensures
        r@ == Seq::new(n as nat, |k: int| val),
{
    let mut r: Vec<T> = Vec::new();
    let mut k: usize = 0;
    while k < n
        invariant
            k <= n,
            r@ == Seq::new(k as nat, |j: int| val),
        decreases n - k,
    {
        r.push(val);
        k = k + 1;
        assert(r@ =~= Seq::new(k as nat, |j: int| val));
    }
    r
}

/// Relies on rand::random: a byte drawn from the thread-local generator.
/// Nothing is known of its value.
#[verifier::external_body]
pub(crate) fn random_byte() -> (r: u8) {
    rand::random::<u8>()
}

impl CPU {
    /// The machine's parts have their sizes and the glyph table is in place.
    pub open spec fn wf(&self) -> bool {
        self@.wf()
    }

    /// A machine with the glyph table in memory, the program counter at the
    /// program start and everything else zero.
    pub fn new() -> (r: CPU)
        ensures
            r.wf(),
            r@ == initial_state(),
    {
        let glyphs: [u8; 80] = [
            0xF0, 0x90, 0x90, 0x90, 0xF0, 0x20, 0x60, 0x20, 0x20, 0x70,
            0xF0, 0x10, 0xF0, 0x80, 0xF0, 0xF0, 0x10, 0xF0, 0x10, 0xF0,
            0x90, 0x90, 0xF0, 0x10, 0x10, 0xF0, 0x80, 0xF0, 0x10, 0xF0,
            0xF0, 0x80, 0xF0, 0x90, 0xF0, 0xF0, 0x10, 0x20, 0x40, 0x40,
            0xF0, 0x90, 0xF0, 0x90, 0xF0, 0xF0, 0x90, 0xF0, 0x10, 0xF0,
            0xF0, 0x90, 0xF0, 0x90, 0x90, 0xE0, 0x90, 0xE0, 0x90, 0xE0,
            0xF0, 0x80, 0x80, 0x80, 0xF0, 0xE0, 0x90, 0x90, 0x90, 0xE0,
            0xF0, 0x80, 0xF0, 0x80, 0xF0, 0xF0, 0x80, 0xF0, 0x80, 0x80,
        ];
        assert(glyphs@ =~= font());
        let ghost init = initial_state().memory;
        let mut memory: Vec<u8> = Vec::new();
        let mut a: usize = 0;
        while a < MEMORY_SIZE
            invariant
                a <= MEMORY_SIZE,
                glyphs@ == font(),
                init == initial_state().memory,
                memory@.len() == a,
                forall|k: int| 0 <= k < a ==> memory@[k] == init[k],
            decreases MEMORY_SIZE - a,
        {
            if FONT_START <= a && a < FONT_START + FONT_SIZE {
                memory.push(glyphs[a - FONT_START]);
            } else {
                memory.push(0);
            }
            a = a + 1;
        }
        assert(memory@ =~= init);
        assert(init.subrange(FONT_START as int, FONT_START + FONT_SIZE) =~= font());
        let cpu = CPU {
            memory,
            v: filled(0u8, REGISTER_COUNT),
            i: 0,
            pc: PROGRAM_START,
            stack: Vec::new(),
            keypad: filled(false, KEY_COUNT),
            keypad_wait: false,
            keypad_register: 0,
            key_resumed: false,
            display: Display { pixels: filled(false, PIXEL_COUNT), update_required: false },
            delay: 0,
            sound: 0,
        };
        assert(cpu@.stack =~= Seq::<u16>::empty());
        cpu
    }

    /// The value of register `x`.
    pub fn register(&self, x: usize) -> (r: u8)
        requires
            self.wf(),
            x < REGISTER_COUNT,
        ensures
            r == self@.v[x as int],
    {
        self.v[x]
    }

    /// Sets register `x` to `val`.
    pub fn set_register(&mut self, x: usize, val: u8)
        requires
            old(self).wf(),
            x < REGISTER_COUNT,
        ensures
            final(self).wf(),
            final(self)@ == old(self)@.with_reg(x as int, val),
    {
        self.v.set(x, val);
    }

    /// The program counter.
    pub fn pc(&self) -> (r: u16)
        ensures
            r == self@.pc,
    {
        self.pc
    }

    /// The address register.
    pub fn index(&self) -> (r: u16)
        ensures
            r == self@.i,
    {
        self.i
    }

    /// The number of active return addresses on the call stack.
    pub fn stack_depth(&self) -> (r: usize)
        ensures
            r == self@.stack.len(),
    {
        self.stack.len()
    }

    /// The delay timer.
    pub fn delay_timer(&self) -> (r: u8)
        ensures
            r == self@.delay,
    {
        self.delay
    }

    /// The sound timer; a tone plays while it is nonzero.
    pub fn sound_timer(&self) -> (r: u8)
        ensures
            r == self@.sound,
    {
        self.sound
    }

    /// Whether the machine is suspended on the wait-for-key instruction.
    pub fn is_waiting(&self) -> (r: bool)
        ensures
            r == self@.waiting,
    {
        self.keypad_wait
    }

    /// Whether key `key` is held down.
    pub fn is_key_down(&self, key: u8) -> (r: bool)
        requires
            self.wf(),
        ensures
            r == key_pressed(self@, key),
    {
        key < 16 && self.keypad[key as usize]
    }

    /// The row-major pixel grid, read-only.
    pub fn framebuffer(&self) -> (r: &Vec<bool>)
        ensures
            r@ == self@.pixels,
    {
        &self.display.pixels
    }

    /// The pixel at column `col`, row `row`.
    pub fn pixel(&self, col: usize, row: usize) -> (r: bool)
        requires
            self.wf(),
            col < DISPLAY_WIDTH,
            row < DISPLAY_HEIGHT,
        ensures
            r == self@.pixels[row * 64 + col],
    {
        self.display.pixels[row * DISPLAY_WIDTH + col]
    }

    /// Whether the display changed since the last `clear_redraw`.
    pub fn needs_redraw(&self) -> (r: bool)
        ensures
            r == self@.dirty,
    {
        self.display.update_required
    }

    /// Marks the display as rendered.
    pub fn clear_redraw(&mut self)
        requires
            old(self).wf(),
        ensures
            final(self).wf(),
            final(self)@ == (CpuView { dirty: false, ..old(self)@ }),
    {
        self.display.update_required = false;
    }

    /// The byte at `addr`, or `MemoryOutOfBounds` past the end of memory.
    pub fn read_memory(&self, addr: usize) -> (r: Result<u8, ExecutionError>)
        requires
            self.wf(),
        ensures
            addr < MEMORY_SIZE ==> r == Ok::<u8, ExecutionError>(self@.memory[addr as int]),
            addr >= MEMORY_SIZE ==> r == Err::<u8, ExecutionError>(ExecutionError::MemoryOutOfBounds),
    {
        if addr < MEMORY_SIZE {
            Ok(self.memory[addr])
        } else {
            Err(ExecutionError::MemoryOutOfBounds)
        }
    }

    /// Writes `val` at `addr`; fails with `MemoryOutOfBounds`, changing
    /// nothing, past the end of memory or inside the glyph table.
    pub fn write_memory(&mut self, addr: usize, val: u8) -> (r: Result<(), ExecutionError>)
        requires
            old(self).wf(),
        ensures
            final(self).wf(),
            writable(addr as int, 1) ==> r is Ok && final(self)@ == (CpuView {
                memory: old(self)@.memory.update(addr as int, val),
                ..old(self)@
            }),
            !writable(addr as int, 1) ==> r == Err::<(), ExecutionError>(
                ExecutionError::MemoryOutOfBounds,
            ) && final(self)@ == old(self)@,
    {
        if addr < FONT_START + FONT_SIZE && addr + 1 > FONT_START || addr >= MEMORY_SIZE {
            return Err(ExecutionError::MemoryOutOfBounds);
        }
        self.memory.set(addr, val);
        assert(self@.memory.subrange(FONT_START as int, FONT_START + FONT_SIZE)
            =~= old(self)@.memory.subrange(FONT_START as int, FONT_START + FONT_SIZE));
        Ok(())
    }
}

} // verus!

verus! {

impl CPU {
    /// `Dxyn`: XORs the `n`-row sprite at `I` onto the display at
    /// `(Vx, Vy)`, wrapping at the edges; the flag register records whether
    /// some lit pixel went dark.
    pub fn op_dxyn(&mut self, x: u8, y: u8, n: u8) -> (r: Result<(), ExecutionError>)
        requires
            old(self).wf(),
            x < 16,
            y < 16,
            n < 16,
        ensures
            final(self).wf(),
            effect(old(self)@, Instruction::Draw(x, y, n), 0, final(self)@, r),
            readable(old(self)@.i as int, n as int) ==> ({
                let vx = old(self)@.v[x as int] as int;
                let vy = old(self)@.v[y as int] as int;
                &&& r is Ok
                &&& final(self)@.pixels == drawn_pixels(old(self)@, n as int, vx, vy)
                &&& final(self)@.v[FLAG_REGISTER as int] == (if collides(old(self)@, n as int, vx, vy) { 1u8 } else { 0u8 })
                &&& final(self)@.dirty
            }),
            !readable(old(self)@.i as int, n as int) ==> r == Err::<(), ExecutionError>(
                ExecutionError::MemoryOutOfBounds,
            ) && final(self)@ == old(self)@,
    {
        let i = self.i as usize;
        if i + (n as usize) > MEMORY_SIZE {
            return Err(ExecutionError::MemoryOutOfBounds);
        }
        let vx = self.v[x as usize] as usize;
        let vy = self.v[y as usize] as usize;
        let ghost s = self@;
        let mut collision = false;
        let mut cell: usize = 0;
        while cell < PIXEL_COUNT
            invariant
                s.wf(),
                cell <= PIXEL_COUNT,
                self@ == (CpuView { pixels: self@.pixels, ..s }),
                self@.pixels.len() == PIXEL_COUNT,
                i == s.i,
                i + n <= MEMORY_SIZE,
                x < 16,
                y < 16,
                vx == s.v[x as int],
                vy == s.v[y as int],
                forall|c: int|
                    0 <= c < cell ==> self@.pixels[c] == (s.pixels[c] != sprite_covers(
                        s.memory,
                        i as int,
                        n as int,
                        vx as int,
                        vy as int,
                        c,
                    )),
                forall|c: int| cell <= c < PIXEL_COUNT ==> self@.pixels[c] == s.pixels[c],
                collision == exists|c: int|
                    0 <= c < cell && s.pixels[c] && #[trigger] sprite_covers(
                        s.memory,
                        i as int,
                        n as int,
                        vx as int,
                        vy as int,
                        c,
                    ),
            decreases PIXEL_COUNT - cell,
        {
            let row = cell / DISPLAY_WIDTH;
            let col = cell % DISPLAY_WIDTH;
            let dr = (row + DISPLAY_HEIGHT - vy % DISPLAY_HEIGHT) % DISPLAY_HEIGHT;
            let db = (col + DISPLAY_WIDTH - vx % DISPLAY_WIDTH) % DISPLAY_WIDTH;
            proof {
                lemma_wrapped_offset(row as int, vy as int, 32);
                lemma_wrapped_offset(col as int, vx as int, 64);
            }
            let ghost covers = sprite_covers(s.memory, i as int, n as int, vx as int, vy as int, cell as int);
            let mut hit = false;
            if dr < n as usize && db < 8 {
                let byte = self.memory[i + dr];
                hit = (byte >> ((7 - db) as u8)) & 1u8 == 1u8;
            }
            assert(hit == covers);
            if hit {
                let lit = self.display.pixels[cell];
                if lit {
                    collision = true;
                }
                self.display.pixels.set(cell, !lit);
            }
            cell = cell + 1;
        }
        assert(collision == collides(s, n as int, vx as int, vy as int));
        let flag: u8 = if collision { 1 } else { 0 };
        self.v.set(FLAG_REGISTER, flag);
        self.display.update_required = true;
        self.next();
        assert(self@.pixels =~= drawn_pixels(s, n as int, vx as int, vy as int));
        assert(self@ == draw_result(s, x as int, y as int, n as int));
        Ok(())
    }

    /// `00E0`: turns every pixel off and marks the display for redraw.
    pub fn op_00e0(&mut self)
        requires
            old(self).wf(),
        ensures
            final(self).wf(),
            execute(old(self)@, Instruction::ClearScreen, 0) == Ok::<CpuView, ExecutionError>(final(self)@),
            forall|c: int| 0 <= c < PIXEL_COUNT ==> !#[trigger] final(self)@.pixels[c],
            final(self)@.dirty,
    {
        let ghost s = self@;
        let mut cell: usize = 0;
        while cell < PIXEL_COUNT
            invariant
                cell <= PIXEL_COUNT,
                self@ == (CpuView { pixels: self@.pixels, ..s }),
                self@.pixels.len() == PIXEL_COUNT,
                forall|c: int| 0 <= c < cell ==> !self@.pixels[c],
            decreases PIXEL_COUNT - cell,
        {
            self.display.pixels.set(cell, false);
            cell = cell + 1;
        }
        assert(self@.pixels =~= Seq::new(PIXEL_COUNT as nat, |c: int| false));
        self.display.update_required = true;
        self.next();
    }

    /// `00EE`: pops the most recent return address into the program counter.
    pub fn op_00ee(&mut self) -> (r: Result<(), ExecutionError>)
        requires
            old(self).wf(),
        ensures
            final(self).wf(),
            effect(old(self)@, Instruction::Return, 0, final(self)@, r),
            old(self)@.stack.len() == 0 ==> r == Err::<(), ExecutionError>(
                ExecutionError::StackUnderflow,
            ) && final(self)@ == old(self)@,
            old(self)@.stack.len() > 0 ==> r is Ok && final(self)@.pc == old(self)@.stack.last()
                && final(self)@.stack == old(self)@.stack.drop_last(),
    {
        match self.stack.pop() {
            Some(addr) => {
                self.pc = addr;
                Ok(())
            },
            None => Err(ExecutionError::StackUnderflow),
        }
    }

    /// `0nnn` and `1nnn`: sets the program counter to `addr`.
    pub fn op_1nnn(&mut self, addr: u16)
        ensures
            final(self)@ == (CpuView { pc: addr, ..old(self)@ }),
    {
        self.pc = addr;
    }

    /// `2nnn`: pushes the address of the next instruction, then jumps.
    pub fn op_2nnn(&mut self, addr: u16) -> (r: Result<(), ExecutionError>)
        requires
            old(self).wf(),
        ensures
            final(self).wf(),
            effect(old(self)@, Instruction::Call(addr), 0, final(self)@, r),
            old(self)@.stack.len() < STACK_DEPTH ==> r is Ok && final(self)@.pc == addr
                && final(self)@.stack == old(self)@.stack.push(pc_plus(old(self)@.pc, 2)),
            old(self)@.stack.len() >= STACK_DEPTH ==> r == Err::<(), ExecutionError>(
                ExecutionError::StackOverflow,
            ) && final(self)@ == old(self)@,
    {
        if self.stack.len() >= STACK_DEPTH {
            return Err(ExecutionError::StackOverflow);
        }
        self.stack.push(self.pc.wrapping_add(OPCODE_SIZE));
        self.pc = addr;
        Ok(())
    }

    /// `3xkk`, `4xkk`, `5xy0`, `9xy0`, `Ex9E`, `ExA1`: skips the next
    /// instruction when `cond` holds.
    fn skip_when(&mut self, cond: bool)
        ensures
            final(self)@ == skip_if(old(self)@, cond),
    {
        if cond {
            self.skip();
        } else {
            self.next();
        }
    }

    /// `8xy4`: `Vx = Vx + Vy` modulo 256, then the flag register set to the
    /// carry.
    pub fn op_8xy4(&mut self, x: u8, y: u8)
        requires
            old(self).wf(),
            x < 16,
            y < 16,
        ensures
            final(self).wf(),
            execute(old(self)@, Instruction::AddReg(x, y), 0) == Ok::<CpuView, ExecutionError>(final(self)@),
            final(self)@.v[FLAG_REGISTER as int] == (if old(self)@.v[x as int] + old(self)@.v[y as int] > 255 { 1u8 } else { 0u8 }),
            x != FLAG_REGISTER ==> final(self)@.v[x as int] == (old(self)@.v[x as int] + old(self)@.v[y as int]) % 256,
    {
        let a = self.v[x as usize] as u16;
        let b = self.v[y as usize] as u16;
        let sum = a + b;
        self.v.set(x as usize, (sum % 256) as u8);
        self.v.set(FLAG_REGISTER, if sum > 255 { 1 } else { 0 });
        self.next();
    }

    /// `8xy5`: `Vx = Vx - Vy` modulo 256, then the flag register set to 1
    /// when no borrow occurred.
    pub fn op_8xy5(&mut self, x: u8, y: u8)
        requires
            old(self).wf(),
            x < 16,
            y < 16,
        ensures
            final(self).wf(),
            execute(old(self)@, Instruction::Sub(x, y), 0) == Ok::<CpuView, ExecutionError>(final(self)@),
            final(self)@.v[FLAG_REGISTER as int] == (if old(self)@.v[x as int] >= old(self)@.v[y as int] { 1u8 } else { 0u8 }),
            x != FLAG_REGISTER ==> final(self)@.v[x as int] == (old(self)@.v[x as int] - old(self)@.v[y as int]) % 256,
    {
        let a = self.v[x as usize];
        let b = self.v[y as usize];
        let no_borrow = a >= b;
        let diff: u8 = if no_borrow { a - b } else { (256 - b as u16 + a as u16) as u8 };
        self.v.set(x as usize, diff);
        self.v.set(FLAG_REGISTER, if no_borrow { 1 } else { 0 });
        self.next();
    }

    /// `8xy6`: `Vx = Vy >> 1`, then the flag register set to the bit that
    /// was shifted out of `Vy`.
    pub fn op_8xy6(&mut self, x: u8, y: u8)
        requires
            old(self).wf(),
            x < 16,
            y < 16,
        ensures
            final(self).wf(),
            execute(old(self)@, Instruction::ShiftRight(x, y), 0) == Ok::<CpuView, ExecutionError>(final(self)@),
            final(self)@.v[FLAG_REGISTER as int] == old(self)@.v[y as int] & 1,
            x != FLAG_REGISTER ==> final(self)@.v[x as int] == old(self)@.v[y as int] >> 1,
    {
        let a = self.v[y as usize];
        assert(a % 2 == a & 1 && a / 2 == a >> 1) by (bit_vector);
        self.v.set(x as usize, a / 2);
        self.v.set(FLAG_REGISTER, a % 2);
        self.next();
    }

    /// `8xy7`: `Vx = Vy - Vx` modulo 256, then the flag register set to 1
    /// when no borrow occurred.
    pub fn op_8xy7(&mut self, x: u8, y: u8)
        requires
            old(self).wf(),
            x < 16,
            y < 16,
        ensures
            final(self).wf(),
            execute(old(self)@, Instruction::SubReverse(x, y), 0) == Ok::<CpuView, ExecutionError>(final(self)@),
            final(self)@.v[FLAG_REGISTER as int] == (if old(self)@.v[y as int] >= old(self)@.v[x as int] { 1u8 } else { 0u8 }),
            x != FLAG_REGISTER ==> final(self)@.v[x as int] == (old(self)@.v[y as int] - old(self)@.v[x as int]) % 256,
    {
        let a = self.v[x as usize];
        let b = self.v[y as usize];
        let no_borrow = b >= a;
        let diff: u8 = if no_borrow { b - a } else { (256 - a as u16 + b as u16) as u8 };
        self.v.set(x as usize, diff);
        self.v.set(FLAG_REGISTER, if no_borrow { 1 } else { 0 });
        self.next();
    }

    /// `8xyE`: `Vx = Vy << 1` modulo 256, then the flag register set to the
    /// bit that was shifted out of `Vy`.
    pub fn op_8xye(&mut self, x: u8, y: u8)
        requires
            old(self).wf(),
            x < 16,
            y < 16,
        ensures
            final(self).wf(),
            execute(old(self)@, Instruction::ShiftLeft(x, y), 0) == Ok::<CpuView, ExecutionError>(final(self)@),
            final(self)@.v[FLAG_REGISTER as int] == old(self)@.v[y as int] >> 7,
            x != FLAG_REGISTER ==> final(self)@.v[x as int] == ((old(self)@.v[y as int] as u16) << 1) as u8,
    {
        let a = self.v[y as usize];
        assert(a / 128 == a >> 7 && (a * 2) % 256 == ((a as u16) << 1) as u8) by (bit_vector);
        self.v.set(x as usize, ((a as u16 * 2) % 256) as u8);
        self.v.set(FLAG_REGISTER, a / 128);
        self.next();
    }

    /// `Bnnn`: jumps to `addr + V0`.
    pub fn op_bnnn(&mut self, addr: u16)
        requires
            old(self).wf(),
            addr < 0x1000,
        ensures
            execute(old(self)@, Instruction::JumpOffset(addr), 0) == Ok::<CpuView, ExecutionError>(final(self)@),
    {
        self.pc = addr + self.v[0] as u16;
    }

    /// `Fx0A`: suspends the machine until a key goes down; the key's value
    /// will land in `Vx`. The program counter stays on this instruction
    /// until the step after the key arrives.
    pub fn op_fx0a(&mut self, x: u8)
        requires
            x < 16,
        ensures
            execute(old(self)@, Instruction::WaitKey(x), 0) == Ok::<CpuView, ExecutionError>(final(self)@),
    {
        self.keypad_wait = true;
        self.keypad_register = x;
    }

    /// `Fx1E`: `I = I + Vx`, wrapped to 16 bits.
    pub fn op_fx1e(&mut self, x: u8)
        requires
            old(self).wf(),
            x < 16,
        ensures
            execute(old(self)@, Instruction::AddIndex(x), 0) == Ok::<CpuView, ExecutionError>(final(self)@),
    {
        self.i = self.i.wrapping_add(self.v[x as usize] as u16);
        self.next();
    }

    /// `Fx29`: points `I` at the glyph of the digit in the low nibble of `Vx`.
    pub fn op_fx29(&mut self, x: u8)
        requires
            old(self).wf(),
            x < 16,
        ensures
            execute(old(self)@, Instruction::FontSprite(x), 0) == Ok::<CpuView, ExecutionError>(final(self)@),
    {
        let digit = self.v[x as usize] % 16;
        self.i = (FONT_START + GLYPH_SIZE * digit as usize) as u16;
        self.next();
    }

    /// `Fx33`: writes the hundreds, tens and ones digits of `Vx` at `I`,
    /// `I + 1` and `I + 2`.
    pub fn op_fx33(&mut self, x: u8) -> (r: Result<(), ExecutionError>)
        requires
            old(self).wf(),
            x < 16,
        ensures
            final(self).wf(),
            effect(old(self)@, Instruction::Bcd(x), 0, final(self)@, r),
    {
        let i = self.i as usize;
        if !Self::can_write(i, 3) {
            return Err(ExecutionError::MemoryOutOfBounds);
        }
        let val = self.v[x as usize];
        self.memory.set(i, val / 100);
        self.memory.set(i + 1, (val / 10) % 10);
        self.memory.set(i + 2, val % 10);
        assert(self@.memory.subrange(FONT_START as int, FONT_START + FONT_SIZE)
            =~= old(self)@.memory.subrange(FONT_START as int, FONT_START + FONT_SIZE));
        self.next();
        Ok(())
    }

    /// `Fx55`: stores `V0..=Vx` in memory from `I` on; `I` is unchanged.
    pub fn op_fx55(&mut self, x: u8) -> (r: Result<(), ExecutionError>)
        requires
            old(self).wf(),
            x < 16,
        ensures
            final(self).wf(),
            effect(old(self)@, Instruction::StoreRegs(x), 0, final(self)@, r),
    {
        let i = self.i as usize;
        let end = x as usize + 1;
        if !Self::can_write(i, end) {
            return Err(ExecutionError::MemoryOutOfBounds);
        }
        let ghost s = self@;
        let mut k: usize = 0;
        while k < end
            invariant
                s.wf(),
                k <= end,
                end == x + 1,
                x < 16,
                i == s.i,
                writable(i as int, end as int),
                self@ == (CpuView { memory: self@.memory, ..s }),
                self@.memory.len() == MEMORY_SIZE,
                forall|a: int|
                    0 <= a < MEMORY_SIZE ==> self@.memory[a] == (if i <= a < i + k {
                        s.v[a - i]
                    } else {
                        s.memory[a]
                    }),
            decreases end - k,
        {
            let val = self.v[k];
            self.memory.set(i + k, val);
            k = k + 1;
        }
        assert(self@.memory =~= stored_memory(s.memory, s.v, i as int, x as int));
        assert(self@.memory.subrange(FONT_START as int, FONT_START + FONT_SIZE)
            =~= s.memory.subrange(FONT_START as int, FONT_START + FONT_SIZE));
        self.next();
        Ok(())
    }

    /// `Fx65`: loads `V0..=Vx` from memory from `I` on; `I` is unchanged.
    pub fn op_fx65(&mut self, x: u8) -> (r: Result<(), ExecutionError>)
        requires
            old(self).wf(),
            x < 16,
        ensures
            final(self).wf(),
            effect(old(self)@, Instruction::LoadRegs(x), 0, final(self)@, r),
    {
        let i = self.i as usize;
        let end = x as usize + 1;
        if i + end > MEMORY_SIZE {
            return Err(ExecutionError::MemoryOutOfBounds);
        }
        let ghost s = self@;
        let mut k: usize = 0;
        while k < end
            invariant
                s.wf(),
                k <= end,
                end == x + 1,
                x < 16,
                i == s.i,
                i + end <= MEMORY_SIZE,
                self@ == (CpuView { v: self@.v, ..s }),
                self@.v.len() == REGISTER_COUNT,
                forall|j: int|
                    0 <= j < REGISTER_COUNT ==> self@.v[j] == (if j < k {
                        s.memory[i + j]
                    } else {
                        s.v[j]
                    }),
            decreases end - k,
        {
            let val = self.memory[i + k];
            self.v.set(k, val);
            k = k + 1;
        }
        assert(self@.v =~= loaded_registers(s.memory, s.v, i as int, x as int));
        self.next();
        Ok(())
    }

    /// Whether `len` bytes from `start` may be written.
    fn can_write(start: usize, len: usize) -> (r: bool)
        requires
            len <= 16,
        ensures
            r == writable(start as int, len as int),
    {
        start <= MEMORY_SIZE - len && (start + len <= FONT_START || start >= FONT_START + FONT_SIZE)
    }

    /// Moves the program counter to the next instruction.
    fn next(&mut self)
        ensures
            final(self)@ == old(self)@.advanced(2),
    {
        self.pc = self.pc.wrapping_add(OPCODE_SIZE);
    }

    /// Moves the program counter past the next instruction.
    fn skip(&mut self)
        ensures
            final(self)@ == old(self)@.advanced(4),
    {
        self.pc = self.pc.wrapping_add(2 * OPCODE_SIZE);
    }
}

} // verus!

verus! {

impl CPU {
    /// Runs one decoded instruction; `rnd` is the random byte that the
    /// random instruction masks. On failure nothing changes.
    pub fn execute(&mut self, op: Instruction, rnd: u8) -> (r: Result<StepOutcome, ExecutionError>)
        requires
            old(self).wf(),
            operands_in_range(op),
        ensures
            final(self).wf(),
            outcome(old(self)@, op, rnd, final(self)@, r),
    {
        let done: Result<(), ExecutionError> = match op {
            Instruction::ClearScreen => {
                self.op_00e0();
                Ok(())
            },
            Instruction::Return => self.op_00ee(),
            Instruction::System(addr) => {
                self.op_1nnn(addr);
                Ok(())
            },
            Instruction::Jump(addr) => {
                self.op_1nnn(addr);
                Ok(())
            },
            Instruction::Call(addr) => self.op_2nnn(addr),
            Instruction::SkipEqImm(x, kk) => {
                let cond = self.v[x as usize] == kk;
                self.skip_when(cond);
                Ok(())
            },
            Instruction::SkipNeImm(x, kk) => {
                let cond = self.v[x as usize] != kk;
                self.skip_when(cond);
                Ok(())
            },
            Instruction::SkipEqReg(x, y) => {
                let cond = self.v[x as usize] == self.v[y as usize];
                self.skip_when(cond);
                Ok(())
            },
            Instruction::LoadImm(x, kk) => {
                self.v.set(x as usize, kk);
                self.next();
                Ok(())
            },
            Instruction::AddImm(x, kk) => {
                let sum = self.v[x as usize] as u16 + kk as u16;
                self.v.set(x as usize, (sum % 256) as u8);
                self.next();
                Ok(())
            },
            Instruction::Copy(x, y) => {
                let val = self.v[y as usize];
                self.v.set(x as usize, val);
                self.next();
                Ok(())
            },
            Instruction::Or(x, y) => {
                let val = self.v[x as usize] | self.v[y as usize];
                self.v.set(x as usize, val);
                self.next();
                Ok(())
            },
            Instruction::And(x, y) => {
                let val = self.v[x as usize] & self.v[y as usize];
                self.v.set(x as usize, val);
                self.next();
                Ok(())
            },
            Instruction::Xor(x, y) => {
                let val = self.v[x as usize] ^ self.v[y as usize];
                self.v.set(x as usize, val);
                self.next();
                Ok(())
            },
            Instruction::AddReg(x, y) => {
                self.op_8xy4(x, y);
                Ok(())
            },
            Instruction::Sub(x, y) => {
                self.op_8xy5(x, y);
                Ok(())
            },
            Instruction::ShiftRight(x, y) => {
                self.op_8xy6(x, y);
                Ok(())
            },
            Instruction::SubReverse(x, y) => {
                self.op_8xy7(x, y);
                Ok(())
            },
            Instruction::ShiftLeft(x, y) => {
                self.op_8xye(x, y);
                Ok(())
            },
            Instruction::SkipNeReg(x, y) => {
                let cond = self.v[x as usize] != self.v[y as usize];
                self.skip_when(cond);
                Ok(())
            },
            Instruction::SetIndex(addr) => {
                self.i = addr;
                self.next();
                Ok(())
            },
            Instruction::JumpOffset(addr) => {
                self.op_bnnn(addr);
                Ok(())
            },
            Instruction::Random(x, kk) => {
                self.v.set(x as usize, rnd & kk);
                self.next();
                Ok(())
            },
            Instruction::Draw(x, y, n) => self.op_dxyn(x, y, n),
            Instruction::SkipKey(x) => {
                let cond = self.is_key_down(self.v[x as usize]);
                self.skip_when(cond);
                Ok(())
            },
            Instruction::SkipNoKey(x) => {
                let cond = !self.is_key_down(self.v[x as usize]);
                self.skip_when(cond);
                Ok(())
            },
            Instruction::LoadDelay(x) => {
                let val = self.delay;
                self.v.set(x as usize, val);
                self.next();
                Ok(())
            },
            Instruction::WaitKey(x) => {
                self.op_fx0a(x);
                Ok(())
            },
            Instruction::SetDelay(x) => {
                self.delay = self.v[x as usize];
                self.next();
                Ok(())
            },
            Instruction::SetSound(x) => {
                self.sound = self.v[x as usize];
                self.next();
                Ok(())
            },
            Instruction::AddIndex(x) => {
                self.op_fx1e(x);
                Ok(())
            },
            Instruction::FontSprite(x) => {
                self.op_fx29(x);
                Ok(())
            },
            Instruction::Bcd(x) => self.op_fx33(x),
            Instruction::StoreRegs(x) => self.op_fx55(x),
            Instruction::LoadRegs(x) => self.op_fx65(x),
        };
        match done {
            Ok(()) => Ok(StepOutcome::Executed(op)),
            Err(e) => Err(e),
        }
    }

    /// Handles an unfinished wait-for-key instruction, if there is one: while
    /// the wait lasts nothing changes and the wait is reported; once a key has
    /// ended it, the program counter moves past the instruction, which is
    /// reported as run. Returns `None`, changing nothing, when no wait is
    /// unfinished.
    pub fn finish_wait(&mut self) -> (r: Option<Result<StepOutcome, ExecutionError>>)
        requires
            old(self).wf(),
        ensures
            final(self).wf(),
            match unfinished_wait(old(self)@) {
                Some(done) => r == Some(done.1) && final(self)@ == done.0,
                None => r is None && final(self)@ == old(self)@,
            },
    {
        if self.keypad_wait {
            return Some(Ok(StepOutcome::WaitingForKey));
        }
        if self.key_resumed {
            self.key_resumed = false;
            self.next();
            return Some(Ok(StepOutcome::Executed(Instruction::WaitKey(self.keypad_register))));
        }
        None
    }

    /// Decodes `instruction` and runs it, drawing a random byte for the
    /// random instruction. An unrecognized word fails and changes nothing.
    /// While a wait-for-key instruction is unfinished the word is not run:
    /// the call does what `finish_wait` does.
    pub fn decode_and_run_instruction(&mut self, instruction: u16) -> (r: Result<StepOutcome, ExecutionError>)
        requires
            old(self).wf(),
        ensures
            final(self).wf(),
            exists|rnd: u8| runs_word(old(self)@, instruction, rnd, final(self)@, r),
            old(self)@.waiting ==> r == Ok::<StepOutcome, ExecutionError>(
                StepOutcome::WaitingForKey,
            ) && final(self)@ == old(self)@,
    {
        if let Some(r) = self.finish_wait() {
            assert(runs_word(old(self)@, instruction, 0, self@, r));
            return r;
        }
        let rnd: u8 = match decode(instruction) {
            Some(Instruction::Random(_, _)) => random_byte(),
            _ => 0,
        };
        let r = crate::instructions::decode_and_run_instruction(self, instruction, rnd);
        assert(runs_word(old(self)@, instruction, rnd, self@, r));
        r
    }

    /// Runs one instruction, or nothing while the machine waits for a key.
    pub fn step(&mut self) -> (r: Result<StepOutcome, ExecutionError>)
        requires
            old(self).wf(),
        ensures
            final(self).wf(),
            exists|rnd: u8| steps(old(self)@, rnd, final(self)@, r),
    {
        if let Some(r) = self.finish_wait() {
            assert(steps(old(self)@, 0, self@, r));
            return r;
        }
        let pc = self.pc as usize;
        if pc + 1 >= MEMORY_SIZE {
            assert(steps(old(self)@, 0, self@, Err(ExecutionError::MemoryOutOfBounds)));
            return Err(ExecutionError::MemoryOutOfBounds);
        }
        let w: u16 = self.memory[pc] as u16 * 256 + self.memory[pc + 1] as u16;
        assert(fetch(old(self)@) == Some(w));
        let r = self.decode_and_run_instruction(w);
        proof {
            let rnd = choose|rnd: u8| runs_word(old(self)@, w, rnd, self@, r);
            assert(steps(old(self)@, rnd, self@, r));
        }
        r
    }

    /// Key `key` goes down; if the machine waits for a key, its value lands
    /// in the waiting register and the wait ends. The next step then moves
    /// the program counter past the wait-for-key instruction.
    pub fn key_down(&mut self, key: u8)
        requires
            old(self).wf(),
            key < KEY_COUNT,
        ensures
            final(self).wf(),
            final(self)@ == key_down_result(old(self)@, key),
    {
        self.keypad.set(key as usize, true);
        if self.keypad_wait {
            self.v.set(self.keypad_register as usize, key);
            self.keypad_wait = false;
            self.key_resumed = true;
        }
    }

    /// Key `key` goes up.
    pub fn key_up(&mut self, key: u8)
        requires
            old(self).wf(),
            key < KEY_COUNT,
        ensures
            final(self).wf(),
            final(self)@ == (CpuView { keypad: old(self)@.keypad.update(key as int, false), ..old(self)@ }),
    {
        self.keypad.set(key as usize, false);
    }

    /// One tick of the external clock: both timers count down, stopping at
    /// zero.
    pub fn tick_timers(&mut self)
        requires
            old(self).wf(),
        ensures
            final(self).wf(),
            final(self)@ == tick_result(old(self)@),
    {
        if self.delay > 0 {
            self.delay = self.delay - 1;
        }
        if self.sound > 0 {
            self.sound = self.sound - 1;
        }
    }

    /// Copies a program image into memory from the program start on; an
    /// image that does not fit fails with `MemoryOutOfBounds` and changes
    /// nothing.
    pub fn load_program(&mut self, program: &[u8]) -> (r: Result<(), ExecutionError>)
        requires
            old(self).wf(),
        ensures
            final(self).wf(),
            PROGRAM_START + program@.len() <= MEMORY_SIZE ==> r is Ok && final(self)@ == (CpuView {
                memory: loaded_memory(old(self)@.memory, program@),
                ..old(self)@
            }),
            PROGRAM_START + program@.len() > MEMORY_SIZE ==> r == Err::<(), ExecutionError>(
                ExecutionError::MemoryOutOfBounds,
            ) && final(self)@ == old(self)@,
    {
        let start = PROGRAM_START as usize;
        if program.len() > MEMORY_SIZE - start {
            return Err(ExecutionError::MemoryOutOfBounds);
        }
        let ghost s = self@;
        let mut k: usize = 0;
        while k < program.len()
            invariant
                s.wf(),
                k <= program@.len(),
                start + program@.len() <= MEMORY_SIZE,
                start == PROGRAM_START,
                self@ == (CpuView { memory: self@.memory, ..s }),
                self@.memory.len() == MEMORY_SIZE,
                forall|a: int|
                    0 <= a < MEMORY_SIZE ==> self@.memory[a] == (if start <= a < start + k {
                        program@[a - start]
                    } else {
                        s.memory[a]
                    }),
            decreases program@.len() - k,
        {
            self.memory.set(start + k, program[k]);
            k = k + 1;
        }
        assert(self@.memory =~= loaded_memory(s.memory, program@));
        assert(self@.memory.subrange(FONT_START as int, FONT_START + FONT_SIZE)
            =~= s.memory.subrange(FONT_START as int, FONT_START + FONT_SIZE));
        Ok(())
    }
}

} // verus!
