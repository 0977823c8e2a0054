//! Properties of the instruction set that relate several steps, or hold for
//! every input, proved over the model that the executor is verified against.
use vstd::prelude::*;

use crate::decode::Instruction;
use crate::model::{
    drawn_pixels, execute, key_down_result, pc_plus, readable, row_bit, sprite_covers, steps,
    tick_result, writable, CpuView, ExecutionError, StepOutcome, FLAG_REGISTER, PIXEL_COUNT,
    STACK_DEPTH,
};

verus! {

/// Clearing the display turns all 2048 pixels off and marks the display for
/// redraw.
pub proof fn lemma_clear_screen(s: CpuView, rnd: u8)
    requires
        s.wf(),
    ensures
        execute(s, Instruction::ClearScreen, rnd) is Ok,
        ({
            let t = execute(s, Instruction::ClearScreen, rnd)->Ok_0;
            &&& t.pixels.len() == PIXEL_COUNT
            &&& forall|c: int| 0 <= c < PIXEL_COUNT ==> !#[trigger] t.pixels[c]
            &&& t.dirty
        }),
{
}

/// A call followed by a return puts the program counter on the instruction
/// after the call and leaves the call stack as it was.
pub proof fn lemma_call_then_return(s: CpuView, addr: u16, rnd: u8)
    requires
        s.wf(),
        s.stack.len() < STACK_DEPTH,
    ensures
        execute(s, Instruction::Call(addr), rnd) is Ok,
        execute(execute(s, Instruction::Call(addr), rnd)->Ok_0, Instruction::Return, rnd) is Ok,
        ({
            let u = execute(execute(s, Instruction::Call(addr), rnd)->Ok_0, Instruction::Return, rnd)->Ok_0;
            &&& u.pc == pc_plus(s.pc, 2)
            &&& u.stack == s.stack
        }),
{
    let t = execute(s, Instruction::Call(addr), rnd)->Ok_0;
    assert(t.stack.drop_last() =~= s.stack);
}

/// A return with an empty call stack fails with `StackUnderflow`.
pub proof fn lemma_return_on_empty_stack(s: CpuView, rnd: u8)
    requires
        s.stack.len() == 0,
    ensures
        execute(s, Instruction::Return, rnd) == Err::<CpuView, ExecutionError>(
            ExecutionError::StackUnderflow,
        ),
{
}

/// Register-to-register add: the flag is 1 exactly when the sum exceeds 255,
/// and the result (unless it went to the flag register itself, which the flag
/// overwrites) is the sum modulo 256.
pub proof fn lemma_add_carry(s: CpuView, x: u8, y: u8, rnd: u8)
    requires
        s.wf(),
        x < 16,
        y < 16,
    ensures
        ({
            let a = s.v[x as int];
            let b = s.v[y as int];
            let t = execute(s, Instruction::AddReg(x, y), rnd)->Ok_0;
            &&& execute(s, Instruction::AddReg(x, y), rnd) is Ok
            &&& t.v[FLAG_REGISTER as int] == (if a + b > 255 { 1u8 } else { 0u8 })
            &&& x != FLAG_REGISTER ==> t.v[x as int] == (a + b) % 256
        }),
{
}

/// Subtraction, both ways round: the flag is 1 exactly when no borrow
/// occurred (minuend at least the subtrahend), and the result (unless it went
/// to the flag register) is the difference modulo 256.
pub proof fn lemma_sub_borrow(s: CpuView, x: u8, y: u8, rnd: u8)
    requires
        s.wf(),
        x < 16,
        y < 16,
    ensures
        ({
            let a = s.v[x as int];
            let b = s.v[y as int];
            let t = execute(s, Instruction::Sub(x, y), rnd)->Ok_0;
            &&& execute(s, Instruction::Sub(x, y), rnd) is Ok
            &&& t.v[FLAG_REGISTER as int] == (if a >= b { 1u8 } else { 0u8 })
            &&& x != FLAG_REGISTER ==> t.v[x as int] == (a - b) % 256
        }),
        ({
            let a = s.v[x as int];
            let b = s.v[y as int];
            let t = execute(s, Instruction::SubReverse(x, y), rnd)->Ok_0;
            &&& execute(s, Instruction::SubReverse(x, y), rnd) is Ok
            &&& t.v[FLAG_REGISTER as int] == (if b >= a { 1u8 } else { 0u8 })
            &&& x != FLAG_REGISTER ==> t.v[x as int] == (b - a) % 256
        }),
{
}

/// Shifts take their operand from `Vy`: shifting right leaves its least
/// significant bit in the flag, shifting left its most significant bit.
pub proof fn lemma_shift_flags(s: CpuView, x: u8, y: u8, rnd: u8)
    requires
        s.wf(),
        x < 16,
        y < 16,
    ensures
        ({
            let a = s.v[y as int];
            let t = execute(s, Instruction::ShiftRight(x, y), rnd)->Ok_0;
            &&& execute(s, Instruction::ShiftRight(x, y), rnd) is Ok
            &&& t.v[FLAG_REGISTER as int] == a & 1
            &&& x != FLAG_REGISTER ==> t.v[x as int] == a >> 1
        }),
        ({
            let a = s.v[y as int];
            let t = execute(s, Instruction::ShiftLeft(x, y), rnd)->Ok_0;
            &&& execute(s, Instruction::ShiftLeft(x, y), rnd) is Ok
            &&& t.v[FLAG_REGISTER as int] == a >> 7
            &&& x != FLAG_REGISTER ==> t.v[x as int] == ((a as u16) << 1) as u8
        }),
{
    let a = s.v[y as int];
    assert(a % 2 == a & 1 && a / 2 == a >> 1 && a / 128 == a >> 7 && (a * 2) % 256 == ((
    a as u16) << 1) as u8) by (bit_vector);
}

/// The sprite bit in row `r`, column `b` of a sprite drawn at `(vx, vy)`
/// lands on column `(vx + b) mod 64` of row `(vy + r) mod 32`.
pub proof fn lemma_draw_wraps(s: CpuView, x: u8, y: u8, n: u8, r: int, b: int)
    requires
        s.wf(),
        x < 16,
        y < 16,
        n < 16,
        0 <= r < n,
        0 <= b < 8,
        readable(s.i as int, n as int),
    ensures
        ({
            let vx = s.v[x as int] as int;
            let vy = s.v[y as int] as int;
            let cell = ((vy + r) % 32) * 64 + (vx + b) % 64;
            let t = execute(s, Instruction::Draw(x, y, n), 0)->Ok_0;
            &&& 0 <= cell < PIXEL_COUNT
            &&& sprite_covers(s.memory, s.i as int, n as int, vx, vy, cell) == row_bit(
                s.memory[s.i + r],
                b,
            )
            &&& t.pixels[cell] == (s.pixels[cell] != row_bit(s.memory[s.i + r], b))
        }),
{
    let vx = s.v[x as int] as int;
    let vy = s.v[y as int] as int;
    let row = (vy + r) % 32;
    let col = (vx + b) % 64;
    let cell = row * 64 + col;
    assert(cell / 64 == row && cell % 64 == col) by (nonlinear_arith)
        requires
            0 <= row < 32,
            0 <= col < 64,
            cell == row * 64 + col,
    ;
    lemma_mod_back(vy, r, 32);
    lemma_mod_back(vx, b, 64);
}

/// `((v + d) mod m - v) mod m == d` for `0 <= d < m`.
proof fn lemma_mod_back(v: int, d: int, m: int)
    requires
        0 <= v,
        0 <= d < m,
    ensures
        ((v + d) % m - v) % m == d,
{
    vstd::arithmetic::div_mod::lemma_fundamental_div_mod(v + d, m);
    let q = (v + d) / m;
    assert((v + d) % m - v == m * (-q) + d) by (nonlinear_arith)
        requires
            v + d == m * q + (v + d) % m,
    ;
    vstd::arithmetic::div_mod::lemma_mod_multiples_vanish(-q, d, m);
    vstd::arithmetic::div_mod::lemma_small_mod(d as nat, m as nat);
}

/// Drawing a sprite twice at the same place (the coordinate registers hold
/// the same values at the second draw) restores every pixel, and the second
/// draw reports a collision exactly when some pixel under a set sprite bit
/// was dark before the first draw; on a dark display, whenever the sprite
/// has a set bit.
pub proof fn lemma_draw_twice(s: CpuView, x: u8, y: u8, n: u8)
    requires
        s.wf(),
        x < 16,
        y < 16,
        n < 16,
        readable(s.i as int, n as int),
        execute(s, Instruction::Draw(x, y, n), 0)->Ok_0.v[x as int] == s.v[x as int],
        execute(s, Instruction::Draw(x, y, n), 0)->Ok_0.v[y as int] == s.v[y as int],
    ensures
        ({
            let vx = s.v[x as int] as int;
            let vy = s.v[y as int] as int;
            let t = execute(s, Instruction::Draw(x, y, n), 0)->Ok_0;
            let u = execute(t, Instruction::Draw(x, y, n), 0)->Ok_0;
            let covers = |c: int| sprite_covers(s.memory, s.i as int, n as int, vx, vy, c);
            &&& execute(t, Instruction::Draw(x, y, n), 0) is Ok
            &&& u.pixels == s.pixels
            &&& u.v[FLAG_REGISTER as int] == 1 <==> exists|c: int|
                0 <= c < PIXEL_COUNT && !s.pixels[c] && #[trigger] covers(c)
            &&& (forall|c: int| 0 <= c < PIXEL_COUNT ==> !#[trigger] s.pixels[c]) && (exists|
                r: int,
                b: int,
            | 0 <= r < n && 0 <= b < 8 && #[trigger] row_bit(s.memory[s.i + r], b))
                ==> u.v[FLAG_REGISTER as int] == 1
        }),
{
    let vx = s.v[x as int] as int;
    let vy = s.v[y as int] as int;
    let t = execute(s, Instruction::Draw(x, y, n), 0)->Ok_0;
    let u = execute(t, Instruction::Draw(x, y, n), 0)->Ok_0;
    assert(t.memory == s.memory && t.i == s.i);
    assert(u.pixels =~= s.pixels);
    let covers = |c: int| sprite_covers(s.memory, s.i as int, n as int, vx, vy, c);
    assert(t.pixels == drawn_pixels(s, n as int, vx, vy));
    if exists|c: int| 0 <= c < PIXEL_COUNT && !s.pixels[c] && #[trigger] covers(c) {
        let c = choose|c: int| 0 <= c < PIXEL_COUNT && !s.pixels[c] && #[trigger] covers(c);
        assert(t.pixels[c] && sprite_covers(t.memory, t.i as int, n as int, vx, vy, c));
    }
    if u.v[FLAG_REGISTER as int] == 1 {
        let c = choose|c: int|
            0 <= c < PIXEL_COUNT && t.pixels[c] && #[trigger] sprite_covers(
                t.memory,
                t.i as int,
                n as int,
                vx,
                vy,
                c,
            );
        assert(!s.pixels[c] && covers(c));
    }
    if (forall|c: int| 0 <= c < PIXEL_COUNT ==> !#[trigger] s.pixels[c]) && (exists|r: int, b: int|
        0 <= r < n && 0 <= b < 8 && #[trigger] row_bit(s.memory[s.i + r], b)) {
        let (r, b) = choose|r: int, b: int|
            0 <= r < n && 0 <= b < 8 && #[trigger] row_bit(s.memory[s.i + r], b);
        lemma_draw_wraps(s, x, y, n, r, b);
        let cell = ((vy + r) % 32) * 64 + (vx + b) % 64;
        assert(!s.pixels[cell] && sprite_covers(s.memory, s.i as int, n as int, vx, vy, cell));
    }
}

/// Storing registers `0..=x` and then loading `0..=x` from the same address
/// gives back the original register values, with the address register
/// unchanged.
pub proof fn lemma_store_then_load(s: CpuView, x: u8, rnd: u8)
    requires
        s.wf(),
        x < 16,
        writable(s.i as int, x + 1),
    ensures
        execute(s, Instruction::StoreRegs(x), rnd) is Ok,
        execute(execute(s, Instruction::StoreRegs(x), rnd)->Ok_0, Instruction::LoadRegs(x), rnd) is Ok,
        ({
            let u = execute(execute(s, Instruction::StoreRegs(x), rnd)->Ok_0, Instruction::LoadRegs(x), rnd)->Ok_0;
            &&& u.v == s.v
            &&& u.i == s.i
        }),
{
    let t = execute(s, Instruction::StoreRegs(x), rnd)->Ok_0;
    let u = execute(t, Instruction::LoadRegs(x), rnd)->Ok_0;
    assert(u.v =~= s.v);
}

/// While the machine waits for a key, a step does nothing and reports the
/// wait, and timer ticks leave the wait in place.
pub proof fn lemma_waiting_step_is_noop(s: CpuView, rnd: u8, s2: CpuView, r: Result<StepOutcome, ExecutionError>)
    requires
        s.waiting,
        steps(s, rnd, s2, r),
    ensures
        s2 == s,
        r == Ok::<StepOutcome, ExecutionError>(StepOutcome::WaitingForKey),
        tick_result(s).waiting,
{
}

/// The wait-for-key instruction suspends the machine on register `x`
/// without moving the program counter. A key going down puts its value in
/// `Vx` and ends the wait; the step after that moves the program counter past
/// the wait-for-key instruction and fetches nothing, so the next fetch finds
/// `Vx` holding the key.
pub proof fn lemma_wait_for_key(
    s: CpuView,
    x: u8,
    key: u8,
    rnd: u8,
    s2: CpuView,
    r: Result<StepOutcome, ExecutionError>,
)
    requires
        s.wf(),
        x < 16,
        key < 16,
        steps(key_down_result(execute(s, Instruction::WaitKey(x), rnd)->Ok_0, key), rnd, s2, r),
    ensures
        execute(s, Instruction::WaitKey(x), rnd) is Ok,
        ({
            let t = execute(s, Instruction::WaitKey(x), rnd)->Ok_0;
            let k = key_down_result(t, key);
            &&& t.waiting
            &&& t.pc == s.pc
            &&& !k.waiting
            &&& k.v[x as int] == key
            &&& k.pc == s.pc
        }),
        r == Ok::<StepOutcome, ExecutionError>(StepOutcome::Executed(Instruction::WaitKey(x))),
        s2.pc == pc_plus(s.pc, 2),
        !s2.waiting && !s2.resumed,
        s2.v[x as int] == key,
        s2.memory == s.memory,
{
}

} // verus!
