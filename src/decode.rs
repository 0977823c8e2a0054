//! Instruction words and their decoding into a closed set of operations.
use vstd::prelude::*;

verus! {

/// One decoded instruction. Register operands are indices 0 to 15, addresses
/// are 12-bit, and `kk` is an immediate byte.
#[derive(Clone, Copy, Debug, PartialEq, Eq, Structural)]
pub enum Instruction {
    /// `00E0`: clear the display.
    ClearScreen,
    /// `00EE`: return from a subroutine.
    Return,
    /// `0nnn`: legacy system call, taken as a jump.
    System(u16),
    /// `1nnn`: jump.
    Jump(u16),
    /// `2nnn`: call a subroutine.
    Call(u16),
    /// `3xkk`: skip if `Vx == kk`.
    SkipEqImm(u8, u8),
    /// `4xkk`: skip if `Vx != kk`.
    SkipNeImm(u8, u8),
    /// `5xy0`: skip if `Vx == Vy`.
    SkipEqReg(u8, u8),
    /// `6xkk`: `Vx = kk`.
    LoadImm(u8, u8),
    /// `7xkk`: `Vx += kk`, wrapping, flag untouched.
    AddImm(u8, u8),
    /// `8xy0`: `Vx = Vy`.
    Copy(u8, u8),
    /// `8xy1`: `Vx |= Vy`.
    Or(u8, u8),
    /// `8xy2`: `Vx &= Vy`.
    And(u8, u8),
    /// `8xy3`: `Vx ^= Vy`.
    Xor(u8, u8),
    /// `8xy4`: `Vx += Vy`, flag = carry.
    AddReg(u8, u8),
    /// `8xy5`: `Vx -= Vy`, flag = no borrow.
    Sub(u8, u8),
    /// `8xy6`: `Vx = Vy >> 1`, flag = bit shifted out.
    ShiftRight(u8, u8),
    /// `8xy7`: `Vx = Vy - Vx`, flag = no borrow.
    SubReverse(u8, u8),
    /// `8xyE`: `Vx = Vy << 1`, flag = bit shifted out.
    ShiftLeft(u8, u8),
    /// `9xy0`: skip if `Vx != Vy`.
    SkipNeReg(u8, u8),
    /// `Annn`: `I = nnn`.
    SetIndex(u16),
    /// `Bnnn`: jump to `nnn + V0`.
    JumpOffset(u16),
    /// `Cxkk`: `Vx = random & kk`.
    Random(u8, u8),
    /// `Dxyn`: draw an `n`-row sprite from `I` at `(Vx, Vy)`.
    Draw(u8, u8, u8),
    /// `Ex9E`: skip if key `Vx` is down.
    SkipKey(u8),
    /// `ExA1`: skip if key `Vx` is up.
    SkipNoKey(u8),
    /// `Fx07`: `Vx = delay timer`.
    LoadDelay(u8),
    /// `Fx0A`: wait for a key press and put its value in `Vx`.
    WaitKey(u8),
    /// `Fx15`: `delay timer = Vx`.
    SetDelay(u8),
    /// `Fx18`: `sound timer = Vx`.
    SetSound(u8),
    /// `Fx1E`: `I += Vx`.
    AddIndex(u8),
    /// `Fx29`: `I` = address of the glyph of digit `Vx`.
    FontSprite(u8),
    /// `Fx33`: decimal digits of `Vx` at `I`, `I + 1`, `I + 2`.
    Bcd(u8),
    /// `Fx55`: store `V0..=Vx` from `I` on.
    StoreRegs(u8),
    /// `Fx65`: load `V0..=Vx` from `I` on.
    LoadRegs(u8),
}

/// Nibble `k` of `w`, counted from the most significant one.
pub open spec fn nibble(w: u16, k: int) -> u8 {
    ((w as int / pow16(3 - k)) % 16) as u8
}

/// `16^e` for the exponents a nibble position needs.
pub open spec fn pow16(e: int) -> int {
    if e <= 0 {
        1
    } else if e == 1 {
        16
    } else if e == 2 {
        256
    } else {
        4096
    }
}

/// What a word decodes to, by its four nibbles `(a, x, y, n)`.
pub open spec fn decode_spec(w: u16) -> Option<Instruction> {
    let a = nibble(w, 0);
    let x = nibble(w, 1);
    let y = nibble(w, 2);
    let n = nibble(w, 3);
    let addr = (w % 0x1000) as u16;
    let kk = (w % 0x100) as u8;
    if a == 0 {
        if w == 0x00E0 {
            Some(Instruction::ClearScreen)
        } else if w == 0x00EE {
            Some(Instruction::Return)
        } else {
            Some(Instruction::System(addr))
        }
    } else if a == 1 {
        Some(Instruction::Jump(addr))
    } else if a == 2 {
        Some(Instruction::Call(addr))
    } else if a == 3 {
        Some(Instruction::SkipEqImm(x, kk))
    } else if a == 4 {
        Some(Instruction::SkipNeImm(x, kk))
    } else if a == 5 {
        if n == 0 { Some(Instruction::SkipEqReg(x, y)) } else { None }
    } else if a == 6 {
        Some(Instruction::LoadImm(x, kk))
    } else if a == 7 {
        Some(Instruction::AddImm(x, kk))
    } else if a == 8 {
        if n == 0 {
            Some(Instruction::Copy(x, y))
        } else if n == 1 {
            Some(Instruction::Or(x, y))
        } else if n == 2 {
            Some(Instruction::And(x, y))
        } else if n == 3 {
            Some(Instruction::Xor(x, y))
        } else if n == 4 {
            Some(Instruction::AddReg(x, y))
        } else if n == 5 {
            Some(Instruction::Sub(x, y))
        } else if n == 6 {
            Some(Instruction::ShiftRight(x, y))
        } else if n == 7 {
            Some(Instruction::SubReverse(x, y))
        } else if n == 0xE {
            Some(Instruction::ShiftLeft(x, y))
        } else {
            None
        }
    } else if a == 9 {
        if n == 0 { Some(Instruction::SkipNeReg(x, y)) } else { None }
    } else if a == 0xA {
        Some(Instruction::SetIndex(addr))
    } else if a == 0xB {
        Some(Instruction::JumpOffset(addr))
    } else if a == 0xC {
        Some(Instruction::Random(x, kk))
    } else if a == 0xD {
        Some(Instruction::Draw(x, y, n))
    } else if a == 0xE {
        if kk == 0x9E {
            Some(Instruction::SkipKey(x))
        } else if kk == 0xA1 {
            Some(Instruction::SkipNoKey(x))
        } else {
            None
        }
    } else {
        if kk == 0x07 {
            Some(Instruction::LoadDelay(x))
        } else if kk == 0x0A {
            Some(Instruction::WaitKey(x))
        } else if kk == 0x15 {
            Some(Instruction::SetDelay(x))
        } else if kk == 0x18 {
            Some(Instruction::SetSound(x))
        } else if kk == 0x1E {
            Some(Instruction::AddIndex(x))
        } else if kk == 0x29 {
            Some(Instruction::FontSprite(x))
        } else if kk == 0x33 {
            Some(Instruction::Bcd(x))
        } else if kk == 0x55 {
            Some(Instruction::StoreRegs(x))
        } else if kk == 0x65 {
            Some(Instruction::LoadRegs(x))
        } else {
            None
        }
    }
}

/// Register operands are register indices, draw counts are nibbles, and
/// addresses fit in 12 bits.
pub open spec fn operands_in_range(op: Instruction) -> bool {
    match op {
        Instruction::System(a) | Instruction::Jump(a) | Instruction::Call(a)
        | Instruction::SetIndex(a) | Instruction::JumpOffset(a) => a < 0x1000,
        Instruction::SkipEqImm(x, _) | Instruction::SkipNeImm(x, _) | Instruction::LoadImm(x, _)
        | Instruction::AddImm(x, _) | Instruction::Random(x, _) => x < 16,
        Instruction::SkipEqReg(x, y) | Instruction::Copy(x, y) | Instruction::Or(x, y)
        | Instruction::And(x, y) | Instruction::Xor(x, y) | Instruction::AddReg(x, y)
        | Instruction::Sub(x, y) | Instruction::ShiftRight(x, y) | Instruction::SubReverse(x, y)
        | Instruction::ShiftLeft(x, y) | Instruction::SkipNeReg(x, y) => x < 16 && y < 16,
        Instruction::Draw(x, y, n) => x < 16 && y < 16 && n < 16,
        Instruction::SkipKey(x) | Instruction::SkipNoKey(x) | Instruction::LoadDelay(x)
        | Instruction::WaitKey(x) | Instruction::SetDelay(x) | Instruction::SetSound(x)
        | Instruction::AddIndex(x) | Instruction::FontSprite(x) | Instruction::Bcd(x)
        | Instruction::StoreRegs(x) | Instruction::LoadRegs(x) => x < 16,
        Instruction::ClearScreen | Instruction::Return => true,
    }
}

/// Decodes one big-endian instruction word. Depends on the word alone.
pub fn decode(w: u16) -> (r: Option<Instruction>)
    ensures
        r == decode_spec(w),
        r matches Some(op) ==> operands_in_range(op),
{
    let a: u8 = (w / 0x1000) as u8;
    let x: u8 = ((w / 0x100) % 16) as u8;
    let y: u8 = ((w / 0x10) % 16) as u8;
    let n: u8 = (w % 16) as u8;
    let addr: u16 = w % 0x1000;
    let kk: u8 = (w % 0x100) as u8;
    match a {
        0 => if w == 0x00E0 {
            Some(Instruction::ClearScreen)
        } else if w == 0x00EE {
            Some(Instruction::Return)
        } else {
            Some(Instruction::System(addr))
        },
        1 => Some(Instruction::Jump(addr)),
        2 => Some(Instruction::Call(addr)),
        3 => Some(Instruction::SkipEqImm(x, kk)),
        4 => Some(Instruction::SkipNeImm(x, kk)),
        5 => if n == 0 { Some(Instruction::SkipEqReg(x, y)) } else { None },
        6 => Some(Instruction::LoadImm(x, kk)),
        7 => Some(Instruction::AddImm(x, kk)),
        8 => match n {
            0 => Some(Instruction::Copy(x, y)),
            1 => Some(Instruction::Or(x, y)),
            2 => Some(Instruction::And(x, y)),
            3 => Some(Instruction::Xor(x, y)),
            4 => Some(Instruction::AddReg(x, y)),
            5 => Some(Instruction::Sub(x, y)),
            6 => Some(Instruction::ShiftRight(x, y)),
            7 => Some(Instruction::SubReverse(x, y)),
            0xE => Some(Instruction::ShiftLeft(x, y)),
            _ => None,
        },
        9 => if n == 0 { Some(Instruction::SkipNeReg(x, y)) } else { None },
        0xA => Some(Instruction::SetIndex(addr)),
        0xB => Some(Instruction::JumpOffset(addr)),
        0xC => Some(Instruction::Random(x, kk)),
        0xD => Some(Instruction::Draw(x, y, n)),
        0xE => match kk {
            0x9E => Some(Instruction::SkipKey(x)),
            0xA1 => Some(Instruction::SkipNoKey(x)),
            _ => None,
        },
        _ => match kk {
            0x07 => Some(Instruction::LoadDelay(x)),
            0x0A => Some(Instruction::WaitKey(x)),
            0x15 => Some(Instruction::SetDelay(x)),
            0x18 => Some(Instruction::SetSound(x)),
            0x1E => Some(Instruction::AddIndex(x)),
            0x29 => Some(Instruction::FontSprite(x)),
            0x33 => Some(Instruction::Bcd(x)),
            0x55 => Some(Instruction::StoreRegs(x)),
            0x65 => Some(Instruction::LoadRegs(x)),
            _ => None,
        },
    }
}

} // verus!
