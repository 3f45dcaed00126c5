//! Instruction words: their fields, the instruction set, and decoding.
//!
//! An instruction word is sixteen bits, stored big-endian. Its four nibbles
//! are written `c x y n` from the most significant down; `nn` is the low
//! byte and `nnn` the low twelve bits.
use vstd::prelude::*;

verus! {

/// The instruction set. Register indices `x` and `y` are below 16, `n` is
/// below 16, `addr` is below 4096.
pub enum Instruction {
    /// `00E0`
    ClearScreen,
    /// `00EE`
    Return,
    /// `1nnn`
    Jump { addr: int },
    /// `2nnn`
    Call { addr: int },
    /// `3xnn`
    SkipIfEqual { x: int, value: u8 },
    /// `4xnn`
    SkipIfNotEqual { x: int, value: u8 },
    /// `5xy0`
    SkipIfRegistersEqual { x: int, y: int },
    /// `6xnn`
    Load { x: int, value: u8 },
    /// `7xnn`
    AddImmediate { x: int, value: u8 },
    /// `8xy0`
    Copy { x: int, y: int },
    /// `8xy1`
    Or { x: int, y: int },
    /// `8xy2`
    And { x: int, y: int },
    /// `8xy3`
    Xor { x: int, y: int },
    /// `8xy4`
    Add { x: int, y: int },
    /// `8xy5`
    Subtract { x: int, y: int },
    /// `8xy6`
    ShiftRight { x: int, y: int },
    /// `8xy7`
    SubtractInto { x: int, y: int },
    /// `8xyE`
    ShiftLeft { x: int },
    /// `9xy0`
    SkipIfRegistersDiffer { x: int, y: int },
    /// `Annn`
    SetIndex { addr: int },
    /// `Bnnn`
    JumpOffset { addr: int },
    /// `Cxnn`
    Random { x: int, mask: u8 },
    /// `Dxyn`
    Draw { x: int, y: int, rows: int },
    /// `Ex9E`
    SkipIfKeyDown { x: int },
    /// `ExA1`
    SkipIfKeyUp { x: int },
    /// `Fx07`
    ReadDelay { x: int },
    /// `Fx0A`
    WaitKey { x: int },
    /// `Fx15`
    SetDelay { x: int },
    /// `Fx18`
    SetSound { x: int },
    /// `Fx1E`
    AddIndex { x: int },
    /// `Fx29`
    Glyph { x: int },
    /// `Fx33`
    StoreDecimal { x: int },
    /// `Fx55`
    StoreRegisters { x: int },
    /// `Fx65`
    LoadRegisters { x: int },
}

/// The most significant nibble, which selects the instruction family.
pub open spec fn family(opcode: u16) -> int {
    opcode as int / 4096
}

/// The second nibble: a register index.
pub open spec fn field_x(opcode: u16) -> int {
    (opcode as int / 256) % 16
}

/// The third nibble: a register index.
pub open spec fn field_y(opcode: u16) -> int {
    (opcode as int / 16) % 16
}

/// The least significant nibble.
pub open spec fn field_n(opcode: u16) -> int {
    opcode as int % 16
}

/// The low byte.
pub open spec fn field_nn(opcode: u16) -> u8 {
    (opcode as int % 256) as u8
}

/// The low twelve bits.
pub open spec fn field_nnn(opcode: u16) -> int {
    opcode as int % 4096
}

/// The instruction word made of two consecutive bytes, high byte first.
pub open spec fn word(high: u8, low: u8) -> u16 {
    (high as int * 256 + low as int) as u16
}

/// The instruction that a word stands for, or `None` where it stands for none.
///
/// Families 0, 8, E and F are told apart by their low byte or low nibble.
/// In families 5 and 9 the last nibble must be zero. Every other family is
/// selected by the first nibble alone.
pub open spec fn decode(opcode: u16) -> Option<Instruction> {
    let c = family(opcode);
    let x = field_x(opcode);
    let y = field_y(opcode);
    let n = field_n(opcode);
    let nn = field_nn(opcode);
    let nnn = field_nnn(opcode);
    if c == 0x0 {
        if opcode == 0x00E0 {
            Some(Instruction::ClearScreen)
        } else if opcode == 0x00EE {
            Some(Instruction::Return)
        } else {
            None
        }
    } else if c == 0x1 {
        Some(Instruction::Jump { addr: nnn })
    } else if c == 0x2 {
        Some(Instruction::Call { addr: nnn })
    } else if c == 0x3 {
        Some(Instruction::SkipIfEqual { x, value: nn })
    } else if c == 0x4 {
        Some(Instruction::SkipIfNotEqual { x, value: nn })
    } else if c == 0x5 {
        if n == 0x0 {
            Some(Instruction::SkipIfRegistersEqual { x, y })
        } else {
            None
        }
    } else if c == 0x6 {
        Some(Instruction::Load { x, value: nn })
    } else if c == 0x7 {
        Some(Instruction::AddImmediate { x, value: nn })
    } else if c == 0x8 {
        if n == 0x0 {
            Some(Instruction::Copy { x, y })
        } else if n == 0x1 {
            Some(Instruction::Or { x, y })
        } else if n == 0x2 {
            Some(Instruction::And { x, y })
        } else if n == 0x3 {
            Some(Instruction::Xor { x, y })
        } else if n == 0x4 {
            Some(Instruction::Add { x, y })
        } else if n == 0x5 {
            Some(Instruction::Subtract { x, y })
        } else if n == 0x6 {
            Some(Instruction::ShiftRight { x, y })
        } else if n == 0x7 {
            Some(Instruction::SubtractInto { x, y })
        } else if n == 0xE {
            Some(Instruction::ShiftLeft { x })
        } else {
            None
        }
    } else if c == 0x9 {
        if n == 0x0 {
            Some(Instruction::SkipIfRegistersDiffer { x, y })
        } else {
            None
        }
    } else if c == 0xA {
        Some(Instruction::SetIndex { addr: nnn })
    } else if c == 0xB {
        Some(Instruction::JumpOffset { addr: nnn })
    } else if c == 0xC {
        Some(Instruction::Random { x, mask: nn })
    } else if c == 0xD {
        Some(Instruction::Draw { x, y, rows: n })
    } else if c == 0xE {
        if nn == 0x9E {
            Some(Instruction::SkipIfKeyDown { x })
        } else if nn == 0xA1 {
            Some(Instruction::SkipIfKeyUp { x })
        } else {
            None
        }
    } else {
        if nn == 0x07 {
            Some(Instruction::ReadDelay { x })
        } else if nn == 0x0A {
            Some(Instruction::WaitKey { x })
        } else if nn == 0x15 {
            Some(Instruction::SetDelay { x })
        } else if nn == 0x18 {
            Some(Instruction::SetSound { x })
        } else if nn == 0x1E {
            Some(Instruction::AddIndex { x })
        } else if nn == 0x29 {
            Some(Instruction::Glyph { x })
        } else if nn == 0x33 {
            Some(Instruction::StoreDecimal { x })
        } else if nn == 0x55 {
            Some(Instruction::StoreRegisters { x })
        } else if nn == 0x65 {
            Some(Instruction::LoadRegisters { x })
        } else {
            None
        }
    }
}

/// The masks and shifts that pick an instruction word apart agree with the
/// arithmetic definitions of its fields.
pub proof fn lemma_fields_by_mask(opcode: u16)
    ensures
        (opcode & 0xF000) as int == family(opcode) * 4096,
        0 <= family(opcode) < 16,
        ((opcode & 0x0F00) >> 8) as int == field_x(opcode),
        ((opcode & 0x00F0) >> 4) as int == field_y(opcode),
        (opcode & 0x000F) as int == field_n(opcode),
        (opcode & 0x00FF) as int == field_nn(opcode) as int,
        (opcode & 0x0FFF) as int == field_nnn(opcode),
        0 <= field_x(opcode) < 16,
        0 <= field_y(opcode) < 16,
        0 <= field_n(opcode) < 16,
        0 <= field_nnn(opcode) < 4096,
{
    assert(opcode & 0xF000 == (opcode / 4096) * 4096 && opcode / 4096 < 16 && (opcode & 0x0F00)
        >> 8 == (opcode / 256) % 16 && (opcode & 0x00F0) >> 4 == (opcode / 16) % 16 && opcode
        & 0x000F == opcode % 16 && opcode & 0x00FF == opcode % 256 && opcode & 0x0FFF == opcode
        % 4096) by (bit_vector);
}

/// Two bytes joined by shift and or make the word that `word` names.
pub proof fn lemma_word_by_shift(high: u8, low: u8)
    ensures
        ((high as u16) << 8) | (low as u16) == word(high, low),
{
    assert(((high as u16) << 8) | (low as u16) == (high as u16) * 256 + (low as u16))
        by (bit_vector);
}

} // verus!
