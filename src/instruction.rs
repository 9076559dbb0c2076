use vstd::prelude::*;

verus! {

/// One decoded instruction. Register operands `x` and `y` are indices of
/// `V0`..`VF`; `nn` is a byte immediate, `n` a 4-bit immediate and `addr` a
/// 12-bit address.
#[derive(Clone, Copy, Debug, PartialEq, Eq, Structural)]
pub enum Instruction {
    /// `00E0`: clear the frame buffer.
    ClearScreen,
    /// `00EE`: return from a subroutine.
    Return,
    /// `1nnn`: jump to `nnn`.
    Jump { addr: u16 },
    /// `2nnn`: call the subroutine at `nnn`.
    Call { addr: u16 },
    /// `3xnn`: skip the next instruction if `Vx == nn`.
    SkipIfEqual { x: u8, nn: u8 },
    /// `4xnn`: skip the next instruction if `Vx != nn`.
    SkipIfNotEqual { x: u8, nn: u8 },
    /// `5xy0`: skip the next instruction if `Vx == Vy`.
    SkipIfRegsEqual { x: u8, y: u8 },
    /// `6xnn`: `Vx = nn`.
    SetImmediate { x: u8, nn: u8 },
    /// `7xnn`: `Vx += nn`, wrapping, flag untouched.
    AddImmediate { x: u8, nn: u8 },
    /// `8xy0`: `Vx = Vy`.
    Copy { x: u8, y: u8 },
    /// `8xy1`: `Vx |= Vy`.
    Or { x: u8, y: u8 },
    /// `8xy2`: `Vx &= Vy`.
    And { x: u8, y: u8 },
    /// `8xy3`: `Vx ^= Vy`.
    Xor { x: u8, y: u8 },
    /// `8xy4`: `Vx += Vy`, `VF` is the carry.
    AddRegs { x: u8, y: u8 },
    /// `8xy5`: `Vx -= Vy`, wrapping, `VF` is "no borrow".
    Sub { x: u8, y: u8 },
    /// `8xy6`: `Vx >>= 1`, `VF` is the bit shifted out.
    ShiftRight { x: u8 },
    /// `8xy7`: `Vx = Vy - Vx`, wrapping, `VF` is "no borrow".
    SubReversed { x: u8, y: u8 },
    /// `8xyE`: `Vx <<= 1`, `VF` is the bit shifted out.
    ShiftLeft { x: u8 },
    /// `9xy0`: skip the next instruction if `Vx != Vy`.
    SkipIfRegsNotEqual { x: u8, y: u8 },
    /// `Annn`: `I = nnn`.
    SetIndex { addr: u16 },
    /// `Bnnn`: jump to `nnn + V0`.
    JumpOffset { addr: u16 },
    /// `Cxnn`: `Vx` is a random byte masked by `nn`.
    Random { x: u8, nn: u8 },
    /// `Dxyn`: draw an `n`-row sprite from memory at `I` at `(Vx, Vy)`.
    Draw { x: u8, y: u8, n: u8 },
    /// `Ex9E`: skip the next instruction if key `Vx` is pressed.
    SkipIfKey { x: u8 },
    /// `ExA1`: skip the next instruction if key `Vx` is not pressed.
    SkipIfNotKey { x: u8 },
    /// `Fx07`: `Vx` is the delay timer.
    ReadDelay { x: u8 },
    /// `Fx0A`: wait for a key press and put its index in `Vx`.
    WaitKey { x: u8 },
    /// `Fx15`: the delay timer is `Vx`.
    SetDelay { x: u8 },
    /// `Fx18`: the sound timer is `Vx`.
    SetSound { x: u8 },
    /// `Fx1E`: `I += Vx`, `VF` tells whether the sum leaves 12 bits.
    AddIndex { x: u8 },
    /// `Fx29`: `I` is the address of the font glyph of digit `Vx`.
    FontChar { x: u8 },
    /// `Fx33`: decimal digits of `Vx` at `I`, `I + 1`, `I + 2`.
    StoreBcd { x: u8 },
    /// `Fx55`: `V0`..`V(x-1)` to memory at `I`, then `I += x + 1`.
    StoreRegs { x: u8 },
    /// `Fx65`: `V0`..`Vx` from memory at `I`, then `I += x + 1`.
    LoadRegs { x: u8 },
    /// A word that no instruction is encoded as.
    Unknown,
}

/// Bits 8 to 11 of an opcode: the first register operand.
pub open spec fn field_x(op: u16) -> u8 {
    ((op >> 8u16) & 0xFu16) as u8
}

/// Bits 4 to 7 of an opcode: the second register operand.
pub open spec fn field_y(op: u16) -> u8 {
    ((op >> 4u16) & 0xFu16) as u8
}

/// Bits 0 to 3 of an opcode.
pub open spec fn field_n(op: u16) -> u8 {
    (op & 0xFu16) as u8
}

/// Bits 0 to 7 of an opcode.
pub open spec fn field_nn(op: u16) -> u8 {
    (op & 0xFFu16) as u8
}

/// Bits 0 to 11 of an opcode.
pub open spec fn field_nnn(op: u16) -> u16 {
    op & 0xFFFu16
}

/// Bits 12 to 15 of an opcode: the instruction family.
pub open spec fn family(op: u16) -> u16 {
    op >> 12u16
}

/// The instruction that an opcode encodes.
pub open spec fn decode_spec(op: u16) -> Instruction {
    let x = field_x(op);
    let y = field_y(op);
    let n = field_n(op);
    let nn = field_nn(op);
    let addr = field_nnn(op);
    let f = family(op);
    if f == 0x0 {
        if op == 0x00E0 {
            Instruction::ClearScreen
        } else if op == 0x00EE {
            Instruction::Return
        } else {
            Instruction::Unknown
        }
    } else if f == 0x1 {
        Instruction::Jump { addr }
    } else if f == 0x2 {
        Instruction::Call { addr }
    } else if f == 0x3 {
        Instruction::SkipIfEqual { x, nn }
    } else if f == 0x4 {
        Instruction::SkipIfNotEqual { x, nn }
    } else if f == 0x5 {
        if n == 0 {
            Instruction::SkipIfRegsEqual { x, y }
        } else {
            Instruction::Unknown
        }
    } else if f == 0x6 {
        Instruction::SetImmediate { x, nn }
    } else if f == 0x7 {
        Instruction::AddImmediate { x, nn }
    } else if f == 0x8 {
        if n == 0x0 {
            Instruction::Copy { x, y }
        } else if n == 0x1 {
            Instruction::Or { x, y }
        } else if n == 0x2 {
            Instruction::And { x, y }
        } else if n == 0x3 {
            Instruction::Xor { x, y }
        } else if n == 0x4 {
            Instruction::AddRegs { x, y }
        } else if n == 0x5 {
            Instruction::Sub { x, y }
        } else if n == 0x6 {
            Instruction::ShiftRight { x }
        } else if n == 0x7 {
            Instruction::SubReversed { x, y }
        } else if n == 0xE {
            Instruction::ShiftLeft { x }
        } else {
            Instruction::Unknown
        }
    } else if f == 0x9 {
        if n == 0 {
            Instruction::SkipIfRegsNotEqual { x, y }
        } else {
            Instruction::Unknown
        }
    } else if f == 0xA {
        Instruction::SetIndex { addr }
    } else if f == 0xB {
        Instruction::JumpOffset { addr }
    } else if f == 0xC {
        Instruction::Random { x, nn }
    } else if f == 0xD {
        Instruction::Draw { x, y, n }
    } else if f == 0xE {
        if nn == 0x9E {
            Instruction::SkipIfKey { x }
        } else if nn == 0xA1 {
            Instruction::SkipIfNotKey { x }
        } else {
            Instruction::Unknown
        }
    } else {
        if nn == 0x07 {
            Instruction::ReadDelay { x }
        } else if nn == 0x0A {
            Instruction::WaitKey { x }
        } else if nn == 0x15 {
            Instruction::SetDelay { x }
        } else if nn == 0x18 {
            Instruction::SetSound { x }
        } else if nn == 0x1E {
            Instruction::AddIndex { x }
        } else if nn == 0x29 {
            Instruction::FontChar { x }
        } else if nn == 0x33 {
            Instruction::StoreBcd { x }
        } else if nn == 0x55 {
            Instruction::StoreRegs { x }
        } else if nn == 0x65 {
            Instruction::LoadRegs { x }
        } else {
            Instruction::Unknown
        }
    }
}

impl Instruction {
    /// Operands within the widths of their opcode fields.
    pub open spec fn wf(self) -> bool {
        match self {
            Instruction::Jump { addr }
            | Instruction::Call { addr }
            | Instruction::SetIndex { addr }
            | Instruction::JumpOffset { addr } => addr < 0x1000,
            Instruction::SkipIfEqual { x, .. }
            | Instruction::SkipIfNotEqual { x, .. }
            | Instruction::SetImmediate { x, .. }
            | Instruction::AddImmediate { x, .. }
            | Instruction::ShiftRight { x }
            | Instruction::ShiftLeft { x }
            | Instruction::Random { x, .. }
            | Instruction::SkipIfKey { x }
            | Instruction::SkipIfNotKey { x }
            | Instruction::ReadDelay { x }
            | Instruction::WaitKey { x }
            | Instruction::SetDelay { x }
            | Instruction::SetSound { x }
            | Instruction::AddIndex { x }
            | Instruction::FontChar { x }
            | Instruction::StoreBcd { x }
            | Instruction::StoreRegs { x }
            | Instruction::LoadRegs { x } => x < 16,
            Instruction::SkipIfRegsEqual { x, y }
            | Instruction::Copy { x, y }
            | Instruction::Or { x, y }
            | Instruction::And { x, y }
            | Instruction::Xor { x, y }
            | Instruction::AddRegs { x, y }
            | Instruction::Sub { x, y }
            | Instruction::SubReversed { x, y }
            | Instruction::SkipIfRegsNotEqual { x, y } => x < 16 && y < 16,
            Instruction::Draw { x, y, n } => x < 16 && y < 16 && n < 16,
            _ => true,
        }
    }
}

/// The widths of the opcode fields.
pub proof fn lemma_field_bounds(op: u16)
    ensures
        field_x(op) < 16,
        field_y(op) < 16,
        field_n(op) < 16,
        field_nnn(op) < 0x1000,
{
    assert((op >> 8u16) & 0xFu16 < 16) by (bit_vector);
    assert((op >> 4u16) & 0xFu16 < 16) by (bit_vector);
    assert(op & 0xFu16 < 16) by (bit_vector);
    assert(op & 0xFFFu16 < 0x1000) by (bit_vector);
}

/// Decodes an opcode into the instruction it encodes.
pub fn decode(op: u16) -> (r: Instruction)
    ensures
        r == decode_spec(op),
        r.wf(),
{
    proof {
        lemma_field_bounds(op);
    }
    let x = ((op >> 8u16) & 0xFu16) as u8;
    let y = ((op >> 4u16) & 0xFu16) as u8;
    let n = (op & 0xFu16) as u8;
    let nn = (op & 0xFFu16) as u8;
    let addr = op & 0xFFFu16;
    let f = op >> 12u16;
    if f == 0x0 {
        if op == 0x00E0 {
            Instruction::ClearScreen
        } else if op == 0x00EE {
            Instruction::Return
        } else {
            Instruction::Unknown
        }
    } else if f == 0x1 {
        Instruction::Jump { addr }
    } else if f == 0x2 {
        Instruction::Call { addr }
    } else if f == 0x3 {
        Instruction::SkipIfEqual { x, nn }
    } else if f == 0x4 {
        Instruction::SkipIfNotEqual { x, nn }
    } else if f == 0x5 {
        if n == 0 {
            Instruction::SkipIfRegsEqual { x, y }
        } else {
            Instruction::Unknown
        }
    } else if f == 0x6 {
        Instruction::SetImmediate { x, nn }
    } else if f == 0x7 {
        Instruction::AddImmediate { x, nn }
    } else if f == 0x8 {
        if n == 0x0 {
            Instruction::Copy { x, y }
        } else if n == 0x1 {
            Instruction::Or { x, y }
        } else if n == 0x2 {
            Instruction::And { x, y }
        } else if n == 0x3 {
            Instruction::Xor { x, y }
        } else if n == 0x4 {
            Instruction::AddRegs { x, y }
        } else if n == 0x5 {
            Instruction::Sub { x, y }
        } else if n == 0x6 {
            Instruction::ShiftRight { x }
        } else if n == 0x7 {
            Instruction::SubReversed { x, y }
        } else if n == 0xE {
            Instruction::ShiftLeft { x }
        } else {
            Instruction::Unknown
        }
    } else if f == 0x9 {
        if n == 0 {
            Instruction::SkipIfRegsNotEqual { x, y }
        } else {
            Instruction::Unknown
        }
    } else if f == 0xA {
        Instruction::SetIndex { addr }
    } else if f == 0xB {
        Instruction::JumpOffset { addr }
    } else if f == 0xC {
        Instruction::Random { x, nn }
    } else if f == 0xD {
        Instruction::Draw { x, y, n }
    } else if f == 0xE {
        if nn == 0x9E {
            Instruction::SkipIfKey { x }
        } else if nn == 0xA1 {
            Instruction::SkipIfNotKey { x }
        } else {
            Instruction::Unknown
        }
    } else {
        if nn == 0x07 {
            Instruction::ReadDelay { x }
        } else if nn == 0x0A {
            Instruction::WaitKey { x }
        } else if nn == 0x15 {
            Instruction::SetDelay { x }
        } else if nn == 0x18 {
            Instruction::SetSound { x }
        } else if nn == 0x1E {
            Instruction::AddIndex { x }
        } else if nn == 0x29 {
            Instruction::FontChar { x }
        } else if nn == 0x33 {
            Instruction::StoreBcd { x }
        } else if nn == 0x55 {
            Instruction::StoreRegs { x }
        } else if nn == 0x65 {
            Instruction::LoadRegs { x }
        } else {
            Instruction::Unknown
        }
    }
}

} // verus!
