//! Instruction words and their decoded form.
//!
//! An instruction word is sixteen bits, read big-endian from memory. Its four
//! nibbles select the operation and carry the operands: `X` and `Y` are
//! register numbers (second and third nibble), `N` is the low nibble, `NN` the
//! low byte and `NNN` the low twelve bits.

use vstd::prelude::*;

verus! {

/// One instruction of the machine, with its operands taken apart.
///
/// `x` and `y` are register numbers, `byte` is an immediate operand, `addr` a
/// twelve-bit address.
#[derive(Clone, Copy, Debug, PartialEq, Eq)]
pub enum Instruction {
    /// `00E0`: switch every pixel off.
    ClearScreen,
    /// `00EE`: return to the caller of the running subroutine.
    Return,
    /// `1NNN`: continue at `addr`.
    Jump { addr: u16 },
    /// `2NNN`: call the subroutine at `addr`.
    Call { addr: u16 },
    /// `3XNN`: skip the next instruction if `V[x] == byte`.
    SkipIfEqual { x: u8, byte: u8 },
    /// `4XNN`: skip the next instruction if `V[x] != byte`.
    SkipIfNotEqual { x: u8, byte: u8 },
    /// `5XY0`: skip the next instruction if `V[x] == V[y]`.
    SkipIfRegistersEqual { x: u8, y: u8 },
    /// `6XNN`: `V[x] := byte`.
    LoadByte { x: u8, byte: u8 },
    /// `7XNN`: `V[x] := V[x] + byte`, modulo 256, flag untouched.
    AddByte { x: u8, byte: u8 },
    /// `8XY0`: `V[x] := V[y]`.
    Move { x: u8, y: u8 },
    /// `8XY1`: `V[x] := V[x] | V[y]`.
    Or { x: u8, y: u8 },
    /// `8XY2`: `V[x] := V[x] & V[y]`.
    And { x: u8, y: u8 },
    /// `8XY3`: `V[x] := V[x] ^ V[y]`.
    Xor { x: u8, y: u8 },
    /// `8XY4`: `V[x] := V[x] + V[y]`, modulo 256, with the carry in `VF`.
    Add { x: u8, y: u8 },
    /// `8XY5`: `V[x] := V[x] - V[y]`, modulo 256, with "no borrow" in `VF`.
    Sub { x: u8, y: u8 },
    /// `8XY6`: `V[x] := V[y] >> 1`, with the bit shifted out in `VF`. The
    /// quirks of the machine can make it shift `V[x]` instead.
    ShiftRight { x: u8, y: u8 },
    /// `8XY7`: `V[x] := V[y] - V[x]`, modulo 256, with "no borrow" in `VF`.
    SubReversed { x: u8, y: u8 },
    /// `8XYE`: `V[x] := V[y] << 1`, modulo 256, with the bit shifted out in
    /// `VF`. The quirks of the machine can make it shift `V[x]` instead.
    ShiftLeft { x: u8, y: u8 },
    /// `9XY0`: skip the next instruction if `V[x] != V[y]`.
    SkipIfRegistersNotEqual { x: u8, y: u8 },
    /// `ANNN`: `I := addr`.
    LoadIndex { addr: u16 },
    /// `BNNN`: continue at `addr + V[0]`.
    JumpOffset { addr: u16 },
    /// `CXNN`: `V[x] := random byte & byte`.
    Random { x: u8, byte: u8 },
    /// `DXYN`: draw the `rows`-row sprite at `I` at column `V[x]`, row `V[y]`.
    Draw { x: u8, y: u8, rows: u8 },
    /// `EX9E`: skip the next instruction if the latched key is `V[x]`.
    SkipIfKey { x: u8 },
    /// `EXA1`: skip the next instruction if the latched key is not `V[x]`.
    SkipIfNotKey { x: u8 },
    /// `FX07`: `V[x] := delay timer`.
    ReadDelay { x: u8 },
    /// `FX0A`: wait until a key is latched, then `V[x] := key`.
    WaitKey { x: u8 },
    /// `FX15`: `delay timer := V[x]`.
    SetDelay { x: u8 },
    /// `FX18`: `sound timer := V[x]`.
    SetSound { x: u8 },
    /// `FX1E`: `I := I + V[x]`, modulo 65536.
    AddIndex { x: u8 },
    /// `FX29`: `I :=` address of the glyph for `V[x]`.
    LoadGlyph { x: u8 },
    /// `FX33`: store the three decimal digits of `V[x]` at `I`, `I+1`, `I+2`.
    StoreDecimal { x: u8 },
    /// `FX55`: store `V[0]..=V[x]` at `I..=I+x`.
    StoreRegisters { x: u8 },
    /// `FX65`: load `V[0]..=V[x]` from `I..=I+x`.
    LoadRegisters { x: u8 },
}

/// The operation nibble: the most significant four bits of the word.
pub open spec fn field_op(opcode: u16) -> int {
    opcode as int / 0x1000
}

/// The `X` operand: the second nibble of the word.
pub open spec fn field_x(opcode: u16) -> u8 {
    ((opcode as int / 0x100) % 16) as u8
}

/// The `Y` operand: the third nibble of the word.
pub open spec fn field_y(opcode: u16) -> u8 {
    ((opcode as int / 0x10) % 16) as u8
}

/// The `N` operand: the least significant nibble of the word.
pub open spec fn field_n(opcode: u16) -> u8 {
    (opcode as int % 16) as u8
}

/// The `NN` operand: the low byte of the word.
pub open spec fn field_nn(opcode: u16) -> u8 {
    (opcode as int % 0x100) as u8
}

/// The `NNN` operand: the low twelve bits of the word.
pub open spec fn field_nnn(opcode: u16) -> u16 {
    (opcode as int % 0x1000) as u16
}

impl Instruction {
    /// Register numbers are below 16, row counts below 16 and addresses below
    /// 4096: what the fields of an instruction word can hold.
    pub open spec fn wf(self) -> bool {
        match self {
            Instruction::ClearScreen | Instruction::Return => true,
            Instruction::Jump { addr }
            | Instruction::Call { addr }
            | Instruction::LoadIndex { addr }
            | Instruction::JumpOffset { addr } => addr < 0x1000,
            Instruction::SkipIfEqual { x, .. }
            | Instruction::SkipIfNotEqual { x, .. }
            | Instruction::LoadByte { x, .. }
            | Instruction::AddByte { x, .. }
            | Instruction::Random { x, .. }
            | Instruction::SkipIfKey { x }
            | Instruction::SkipIfNotKey { x }
            | Instruction::ReadDelay { x }
            | Instruction::WaitKey { x }
            | Instruction::SetDelay { x }
            | Instruction::SetSound { x }
            | Instruction::AddIndex { x }
            | Instruction::LoadGlyph { x }
            | Instruction::StoreDecimal { x }
            | Instruction::StoreRegisters { x }
            | Instruction::LoadRegisters { x } => x < 16,
            Instruction::SkipIfRegistersEqual { x, y }
            | Instruction::Move { x, y }
            | Instruction::Or { x, y }
            | Instruction::And { x, y }
            | Instruction::Xor { x, y }
            | Instruction::Add { x, y }
            | Instruction::Sub { x, y }
            | Instruction::ShiftRight { x, y }
            | Instruction::SubReversed { x, y }
            | Instruction::ShiftLeft { x, y }
            | Instruction::SkipIfRegistersNotEqual { x, y } => x < 16 && y < 16,
            Instruction::Draw { x, y, rows } => x < 16 && y < 16 && rows < 16,
        }
    }
}

/// The meaning of an instruction word: the instruction it encodes, or `None`
/// for a word outside the instruction table.
///
/// In the `0` family only `00E0` and `00EE` are instructions; every other
/// word there is a call of a machine routine, which this machine does not
/// have.
pub open spec fn decode_spec(opcode: u16) -> Option<Instruction> {
    let op = field_op(opcode);
    let x = field_x(opcode);
    let y = field_y(opcode);
    let n = field_n(opcode);
    let nn = field_nn(opcode);
    let nnn = field_nnn(opcode);
    if op == 0x0 {
        if opcode == 0x00E0 {
            Some(Instruction::ClearScreen)
        } else if opcode == 0x00EE {
            Some(Instruction::Return)
        } else {
            None
        }
    } else if op == 0x1 {
        Some(Instruction::Jump { addr: nnn })
    } else if op == 0x2 {
        Some(Instruction::Call { addr: nnn })
    } else if op == 0x3 {
        Some(Instruction::SkipIfEqual { x, byte: nn })
    } else if op == 0x4 {
        Some(Instruction::SkipIfNotEqual { x, byte: nn })
    } else if op == 0x5 {
        if n == 0 {
            Some(Instruction::SkipIfRegistersEqual { x, y })
        } else {
            None
        }
    } else if op == 0x6 {
        Some(Instruction::LoadByte { x, byte: nn })
    } else if op == 0x7 {
        Some(Instruction::AddByte { x, byte: nn })
    } else if op == 0x8 {
        if n == 0x0 {
            Some(Instruction::Move { x, y })
        } else if n == 0x1 {
            Some(Instruction::Or { x, y })
        } else if n == 0x2 {
            Some(Instruction::And { x, y })
        } else if n == 0x3 {
            Some(Instruction::Xor { x, y })
        } else if n == 0x4 {
            Some(Instruction::Add { x, y })
        } else if n == 0x5 {
            Some(Instruction::Sub { x, y })
        } else if n == 0x6 {
            Some(Instruction::ShiftRight { x, y })
        } else if n == 0x7 {
            Some(Instruction::SubReversed { x, y })
        } else if n == 0xE {
            Some(Instruction::ShiftLeft { x, y })
        } else {
            None
        }
    } else if op == 0x9 {
        if n == 0 {
            Some(Instruction::SkipIfRegistersNotEqual { x, y })
        } else {
            None
        }
    } else if op == 0xA {
        Some(Instruction::LoadIndex { addr: nnn })
    } else if op == 0xB {
        Some(Instruction::JumpOffset { addr: nnn })
    } else if op == 0xC {
        Some(Instruction::Random { x, byte: nn })
    } else if op == 0xD {
        Some(Instruction::Draw { x, y, rows: n })
    } else if op == 0xE {
        if nn == 0x9E {
            Some(Instruction::SkipIfKey { x })
        } else if nn == 0xA1 {
            Some(Instruction::SkipIfNotKey { x })
        } else {
            None
        }
    } else {
        if nn == 0x07 {
            Some(Instruction::ReadDelay { x })
        } else if nn == 0x0A {
            Some(Instruction::WaitKey { x })
        } else if nn == 0x15 {
            Some(Instruction::SetDelay { x })
        } else if nn == 0x18 {
            Some(Instruction::SetSound { x })
        } else if nn == 0x1E {
            Some(Instruction::AddIndex { x })
        } else if nn == 0x29 {
            Some(Instruction::LoadGlyph { x })
        } else if nn == 0x33 {
            Some(Instruction::StoreDecimal { x })
        } else if nn == 0x55 {
            Some(Instruction::StoreRegisters { x })
        } else if nn == 0x65 {
            Some(Instruction::LoadRegisters { x })
        } else {
            None
        }
    }
}

/// Masking and shifting an instruction word yields its nibble fields.
proof fn lemma_fields_by_masks(opcode: u16)
    ensures
        (opcode >> 12) as int == field_op(opcode),
        ((opcode & 0x0F00) >> 8) as int == field_x(opcode),
        ((opcode & 0x00F0) >> 4) as int == field_y(opcode),
        (opcode & 0x000F) as int == field_n(opcode),
        (opcode & 0x00FF) as int == field_nn(opcode),
        (opcode & 0x0FFF) as int == field_nnn(opcode),
{
    assert(opcode >> 12 == opcode / 0x1000) by (bit_vector);
    assert((opcode & 0x0F00) >> 8 == (opcode / 0x100) % 16) by (bit_vector);
    assert((opcode & 0x00F0) >> 4 == (opcode / 0x10) % 16) by (bit_vector);
    assert(opcode & 0x000F == opcode % 16) by (bit_vector);
    assert(opcode & 0x00FF == opcode % 0x100) by (bit_vector);
    assert(opcode & 0x0FFF == opcode % 0x1000) by (bit_vector);
}

/// Decodes an instruction word by a two-level dispatch: first on the
/// operation nibble, then, in the families `0`, `5`, `8`, `9`, `E` and `F`,
/// on the low nibble or the low byte.
///
/// Returns `None` exactly for the words that are not in the instruction
/// table.
pub fn decode(opcode: u16) -> (r: Option<Instruction>)
    ensures
        r == decode_spec(opcode),
        r matches Some(instruction) ==> instruction.wf(),
{
    proof {
        lemma_fields_by_masks(opcode);
    }
    let x: u8 = ((opcode & 0x0F00) >> 8) as u8;
    let y: u8 = ((opcode & 0x00F0) >> 4) as u8;
    let n: u8 = (opcode & 0x000F) as u8;
    let nn: u8 = (opcode & 0x00FF) as u8;
    let nnn: u16 = opcode & 0x0FFF;
    match opcode >> 12 {
        0x0 => match opcode {
            0x00E0 => Some(Instruction::ClearScreen),
            0x00EE => Some(Instruction::Return),
            _ => None,
        },
        0x1 => Some(Instruction::Jump { addr: nnn }),
        0x2 => Some(Instruction::Call { addr: nnn }),
        0x3 => Some(Instruction::SkipIfEqual { x, byte: nn }),
        0x4 => Some(Instruction::SkipIfNotEqual { x, byte: nn }),
        0x5 => match n {
            0x0 => Some(Instruction::SkipIfRegistersEqual { x, y }),
            _ => None,
        },
        0x6 => Some(Instruction::LoadByte { x, byte: nn }),
        0x7 => Some(Instruction::AddByte { x, byte: nn }),
        0x8 => match n {
            0x0 => Some(Instruction::Move { x, y }),
            0x1 => Some(Instruction::Or { x, y }),
            0x2 => Some(Instruction::And { x, y }),
            0x3 => Some(Instruction::Xor { x, y }),
            0x4 => Some(Instruction::Add { x, y }),
            0x5 => Some(Instruction::Sub { x, y }),
            0x6 => Some(Instruction::ShiftRight { x, y }),
            0x7 => Some(Instruction::SubReversed { x, y }),
            0xE => Some(Instruction::ShiftLeft { x, y }),
            _ => None,
        },
        0x9 => match n {
            0x0 => Some(Instruction::SkipIfRegistersNotEqual { x, y }),
            _ => None,
        },
        0xA => Some(Instruction::LoadIndex { addr: nnn }),
        0xB => Some(Instruction::JumpOffset { addr: nnn }),
        0xC => Some(Instruction::Random { x, byte: nn }),
        0xD => Some(Instruction::Draw { x, y, rows: n }),
        0xE => match nn {
            0x9E => Some(Instruction::SkipIfKey { x }),
            0xA1 => Some(Instruction::SkipIfNotKey { x }),
            _ => None,
        },
        0xF => match nn {
            0x07 => Some(Instruction::ReadDelay { x }),
            0x0A => Some(Instruction::WaitKey { x }),
            0x15 => Some(Instruction::SetDelay { x }),
            0x18 => Some(Instruction::SetSound { x }),
            0x1E => Some(Instruction::AddIndex { x }),
            0x29 => Some(Instruction::LoadGlyph { x }),
            0x33 => Some(Instruction::StoreDecimal { x }),
            0x55 => Some(Instruction::StoreRegisters { x }),
            0x65 => Some(Instruction::LoadRegisters { x }),
            _ => None,
        },
        _ => None,
    }
}

} // verus!
