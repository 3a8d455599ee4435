//! Instruction model: the bidirectional mapping between a 16-bit instruction
//! word and a tagged operation carrying its typed operands (register indices,
//! 8-bit immediates, 12-bit addresses, 4-bit nibble counts).

use vstd::prelude::*;

verus! {

/// One decoded operation of the 35-instruction set.
///
/// Operand conventions: `u16` operands are 12-bit addresses, the first `u8`
/// of a pair is the register index X, the second is either a register index Y
/// or an 8-bit immediate KK; the third operand of `Draw` is a 4-bit row count.
#[derive(Clone, Copy, Debug, PartialEq, Eq, Structural)]
pub enum Ast {
    Clear,
    Return,
    System(u16),
    Jump(u16),
    JumpOffset(u16),
    Call(u16),
    SkipEqByte(u8, u8),
    SkipNotEqByte(u8, u8),
    SkipEqReg(u8, u8),
    SkipNotEqReg(u8, u8),
    LoadByte(u8, u8),
    LoadReg(u8, u8),
    LoadPointer(u16),
    LoadFromDT(u8),
    LoadKeyboard(u8),
    LoadIntoDT(u8),
    LoadIntoST(u8),
    LoadFont(u8),
    LoadDigits(u8),
    LoadIntoRegs(u8),
    LoadFromRegs(u8),
    AddByte(u8, u8),
    AddReg(u8, u8),
    AddToPointer(u8),
    Random(u8, u8),
    Draw(u8, u8, u8),
    SkipPressed(u8),
    SkipNotPressed(u8),
    Or(u8, u8),
    And(u8, u8),
    Xor(u8, u8),
    ShiftRight(u8),
    ShiftLeft(u8),
    Sub(u8, u8),
    SubNeg(u8, u8),
}

/// Decoding failure: the word matches none of the 35 instruction patterns.
#[derive(Clone, Copy, Debug, PartialEq, Eq, Structural)]
pub enum DecodeError {
    UnknownInstruction(u16),
}

/// The meaning of a 16-bit instruction word: the operation it encodes, or
/// `None` when it matches no pattern. Dispatch is on the top nibble (the
/// opcode group) with disambiguation on the remaining nibbles, most specific
/// pattern first.
pub open spec fn decode_spec(w: u16) -> Option<Ast> {
    let instr = ((w & 0xF000) >> 12) as u8;
    let addr = w & 0x0FFF;
    let x = ((w & 0x0F00) >> 8) as u8;
    let y = ((w & 0x00F0) >> 4) as u8;
    let n = (w & 0x000F) as u8;
    let kk = (w & 0x00FF) as u8;
    if instr == 0x0 && x == 0 && y == 0xE && n == 0 {
        Some(Ast::Clear)
    } else if instr == 0x0 && x == 0 && y == 0xE && n == 0xE {
        Some(Ast::Return)
    } else if instr == 0x0 {
        Some(Ast::System(addr))
    } else if instr == 0x1 {
        Some(Ast::Jump(addr))
    } else if instr == 0x2 {
        Some(Ast::Call(addr))
    } else if instr == 0x3 {
        Some(Ast::SkipEqByte(x, kk))
    } else if instr == 0x4 {
        Some(Ast::SkipNotEqByte(x, kk))
    } else if instr == 0x5 && n == 0 {
        Some(Ast::SkipEqReg(x, y))
    } else if instr == 0x6 {
        Some(Ast::LoadByte(x, kk))
    } else if instr == 0x7 {
        Some(Ast::AddByte(x, kk))
    } else if instr == 0x8 && n == 0x0 {
        Some(Ast::LoadReg(x, y))
    } else if instr == 0x8 && n == 0x1 {
        Some(Ast::Or(x, y))
    } else if instr == 0x8 && n == 0x2 {
        Some(Ast::And(x, y))
    } else if instr == 0x8 && n == 0x3 {
        Some(Ast::Xor(x, y))
    } else if instr == 0x8 && n == 0x4 {
        Some(Ast::AddReg(x, y))
    } else if instr == 0x8 && n == 0x5 {
        Some(Ast::Sub(x, y))
    } else if instr == 0x8 && n == 0x6 {
        Some(Ast::ShiftRight(x))
    } else if instr == 0x8 && n == 0x7 {
        Some(Ast::SubNeg(x, y))
    } else if instr == 0x8 && n == 0xE {
        Some(Ast::ShiftLeft(x))
    } else if instr == 0x9 && n == 0x0 {
        Some(Ast::SkipNotEqReg(x, y))
    } else if instr == 0xA {
        Some(Ast::LoadPointer(addr))
    } else if instr == 0xB {
        Some(Ast::JumpOffset(addr))
    } else if instr == 0xC {
        Some(Ast::Random(x, kk))
    } else if instr == 0xD {
        Some(Ast::Draw(x, y, n))
    } else if instr == 0xE && y == 0x9 && n == 0xE {
        Some(Ast::SkipPressed(x))
    } else if instr == 0xE && y == 0xA && n == 0x1 {
        Some(Ast::SkipNotPressed(x))
    } else if instr == 0xF && y == 0x0 && n == 0x7 {
        Some(Ast::LoadFromDT(x))
    } else if instr == 0xF && y == 0x0 && n == 0xA {
        Some(Ast::LoadKeyboard(x))
    } else if instr == 0xF && y == 0x1 && n == 0x5 {
        Some(Ast::LoadIntoDT(x))
    } else if instr == 0xF && y == 0x1 && n == 0x8 {
        Some(Ast::LoadIntoST(x))
    } else if instr == 0xF && y == 0x1 && n == 0xE {
        Some(Ast::AddToPointer(x))
    } else if instr == 0xF && y == 0x2 && n == 0x9 {
        Some(Ast::LoadFont(x))
    } else if instr == 0xF && y == 0x3 && n == 0x3 {
        Some(Ast::LoadDigits(x))
    } else if instr == 0xF && y == 0x5 && n == 0x5 {
        Some(Ast::LoadFromRegs(x))
    } else if instr == 0xF && y == 0x6 && n == 0x5 {
        Some(Ast::LoadIntoRegs(x))
    } else {
        None
    }
}

/// The word every operation encodes to. Total over all variants.
pub open spec fn encode_spec(op: Ast) -> u16 {
    match op {
        Ast::Clear => 0x00E0,
        Ast::Return => 0x00EE,
        Ast::System(addr) => addr,
        Ast::Jump(addr) => 0x1000 | addr,
        Ast::JumpOffset(addr) => 0xB000 | addr,
        Ast::Call(addr) => 0x2000 | addr,
        Ast::SkipEqByte(x, kk) => 0x3000 | ((x as u16) << 8) | (kk as u16),
        Ast::SkipNotEqByte(x, kk) => 0x4000 | ((x as u16) << 8) | (kk as u16),
        Ast::SkipEqReg(x, y) => 0x5000 | ((x as u16) << 8) | ((y as u16) << 4),
        Ast::SkipNotEqReg(x, y) => 0x9000 | ((x as u16) << 8) | ((y as u16) << 4),
        Ast::LoadByte(x, kk) => 0x6000 | ((x as u16) << 8) | (kk as u16),
        Ast::LoadReg(x, y) => 0x8000 | ((x as u16) << 8) | ((y as u16) << 4),
        Ast::LoadPointer(addr) => 0xA000 | addr,
        Ast::LoadFromDT(x) => 0xF007 | ((x as u16) << 8),
        Ast::LoadKeyboard(x) => 0xF00A | ((x as u16) << 8),
        Ast::LoadIntoDT(x) => 0xF015 | ((x as u16) << 8),
        Ast::LoadIntoST(x) => 0xF018 | ((x as u16) << 8),
        Ast::LoadFont(x) => 0xF029 | ((x as u16) << 8),
        Ast::LoadDigits(x) => 0xF033 | ((x as u16) << 8),
        Ast::LoadIntoRegs(x) => 0xF065 | ((x as u16) << 8),
        Ast::LoadFromRegs(x) => 0xF055 | ((x as u16) << 8),
        Ast::AddByte(x, kk) => 0x7000 | ((x as u16) << 8) | (kk as u16),
        Ast::AddReg(x, y) => 0x8004 | ((x as u16) << 8) | ((y as u16) << 4),
        Ast::AddToPointer(x) => 0xF01E | ((x as u16) << 8),
        Ast::Random(x, kk) => 0xC000 | ((x as u16) << 8) | (kk as u16),
        Ast::Draw(x, y, n) => 0xD000 | ((x as u16) << 8) | ((y as u16) << 4) | (n as u16),
        Ast::SkipPressed(x) => 0xE09E | ((x as u16) << 8),
        Ast::SkipNotPressed(x) => 0xE0A1 | ((x as u16) << 8),
        Ast::Or(x, y) => 0x8001 | ((x as u16) << 8) | ((y as u16) << 4),
        Ast::And(x, y) => 0x8002 | ((x as u16) << 8) | ((y as u16) << 4),
        Ast::Xor(x, y) => 0x8003 | ((x as u16) << 8) | ((y as u16) << 4),
        Ast::ShiftRight(x) => 0x8006 | ((x as u16) << 8),
        Ast::ShiftLeft(x) => 0x800E | ((x as u16) << 8),
        Ast::Sub(x, y) => 0x8005 | ((x as u16) << 8) | ((y as u16) << 4),
        Ast::SubNeg(x, y) => 0x8007 | ((x as u16) << 8) | ((y as u16) << 4),
    }
}

/// Every operand lies in the range its instruction field can hold: addresses
/// are 12-bit, register indices and nibble counts 4-bit.
pub open spec fn wf_op(op: Ast) -> bool {
    match op {
        Ast::Clear => true,
        Ast::Return => true,
        Ast::System(addr) => addr < 0x1000,
        Ast::Jump(addr) => addr < 0x1000,
        Ast::JumpOffset(addr) => addr < 0x1000,
        Ast::Call(addr) => addr < 0x1000,
        Ast::SkipEqByte(x, _) => x < 16,
        Ast::SkipNotEqByte(x, _) => x < 16,
        Ast::SkipEqReg(x, y) => x < 16 && y < 16,
        Ast::SkipNotEqReg(x, y) => x < 16 && y < 16,
        Ast::LoadByte(x, _) => x < 16,
        Ast::LoadReg(x, y) => x < 16 && y < 16,
        Ast::LoadPointer(addr) => addr < 0x1000,
        Ast::LoadFromDT(x) => x < 16,
        Ast::LoadKeyboard(x) => x < 16,
        Ast::LoadIntoDT(x) => x < 16,
        Ast::LoadIntoST(x) => x < 16,
        Ast::LoadFont(x) => x < 16,
        Ast::LoadDigits(x) => x < 16,
        Ast::LoadIntoRegs(x) => x < 16,
        Ast::LoadFromRegs(x) => x < 16,
        Ast::AddByte(x, _) => x < 16,
        Ast::AddReg(x, y) => x < 16 && y < 16,
        Ast::AddToPointer(x) => x < 16,
        Ast::Random(x, _) => x < 16,
        Ast::Draw(x, y, n) => x < 16 && y < 16 && n < 16,
        Ast::SkipPressed(x) => x < 16,
        Ast::SkipNotPressed(x) => x < 16,
        Ast::Or(x, y) => x < 16 && y < 16,
        Ast::And(x, y) => x < 16 && y < 16,
        Ast::Xor(x, y) => x < 16 && y < 16,
        Ast::ShiftRight(x) => x < 16,
        Ast::ShiftLeft(x) => x < 16,
        Ast::Sub(x, y) => x < 16 && y < 16,
        Ast::SubNeg(x, y) => x < 16 && y < 16,
    }
}

impl Ast {
    /// Decode a 16-bit instruction word into its operation, or report an
    /// `UnknownInstruction` error when it matches none of the 35 patterns.
    pub fn parse(opcode: u16) -> (r: Result<Ast, DecodeError>)
        ensures
            r == match decode_spec(opcode) {
                Some(op) => Ok::<Ast, DecodeError>(op),
                None => Err::<Ast, DecodeError>(DecodeError::UnknownInstruction(opcode)),
            },
    {
        let instr = ((opcode & 0xF000) >> 12) as u8;
        let addr = opcode & 0x0FFF;
        let x = ((opcode & 0x0F00) >> 8) as u8;
        let y = ((opcode & 0x00F0) >> 4) as u8;
        let n = (opcode & 0x000F) as u8;
        let kk = (opcode & 0x00FF) as u8;
        if instr == 0x0 && x == 0 && y == 0xE && n == 0 {
            Ok(Ast::Clear)
        } else if instr == 0x0 && x == 0 && y == 0xE && n == 0xE {
            Ok(Ast::Return)
        } else if instr == 0x0 {
            Ok(Ast::System(addr))
        } else if instr == 0x1 {
            Ok(Ast::Jump(addr))
        } else if instr == 0x2 {
            Ok(Ast::Call(addr))
        } else if instr == 0x3 {
            Ok(Ast::SkipEqByte(x, kk))
        } else if instr == 0x4 {
            Ok(Ast::SkipNotEqByte(x, kk))
        } else if instr == 0x5 && n == 0 {
            Ok(Ast::SkipEqReg(x, y))
        } else if instr == 0x6 {
            Ok(Ast::LoadByte(x, kk))
        } else if instr == 0x7 {
            Ok(Ast::AddByte(x, kk))
        } else if instr == 0x8 && n == 0x0 {
            Ok(Ast::LoadReg(x, y))
        } else if instr == 0x8 && n == 0x1 {
            Ok(Ast::Or(x, y))
        } else if instr == 0x8 && n == 0x2 {
            Ok(Ast::And(x, y))
        } else if instr == 0x8 && n == 0x3 {
            Ok(Ast::Xor(x, y))
        } else if instr == 0x8 && n == 0x4 {
            Ok(Ast::AddReg(x, y))
        } else if instr == 0x8 && n == 0x5 {
            Ok(Ast::Sub(x, y))
        } else if instr == 0x8 && n == 0x6 {
            Ok(Ast::ShiftRight(x))
        } else if instr == 0x8 && n == 0x7 {
            Ok(Ast::SubNeg(x, y))
        } else if instr == 0x8 && n == 0xE {
            Ok(Ast::ShiftLeft(x))
        } else if instr == 0x9 && n == 0x0 {
            Ok(Ast::SkipNotEqReg(x, y))
        } else if instr == 0xA {
            Ok(Ast::LoadPointer(addr))
        } else if instr == 0xB {
            Ok(Ast::JumpOffset(addr))
        } else if instr == 0xC {
            Ok(Ast::Random(x, kk))
        } else if instr == 0xD {
            Ok(Ast::Draw(x, y, n))
        } else if instr == 0xE && y == 0x9 && n == 0xE {
            Ok(Ast::SkipPressed(x))
        } else if instr == 0xE && y == 0xA && n == 0x1 {
            Ok(Ast::SkipNotPressed(x))
        } else if instr == 0xF && y == 0x0 && n == 0x7 {
            Ok(Ast::LoadFromDT(x))
        } else if instr == 0xF && y == 0x0 && n == 0xA {
            Ok(Ast::LoadKeyboard(x))
        } else if instr == 0xF && y == 0x1 && n == 0x5 {
            Ok(Ast::LoadIntoDT(x))
        } else if instr == 0xF && y == 0x1 && n == 0x8 {
            Ok(Ast::LoadIntoST(x))
        } else if instr == 0xF && y == 0x1 && n == 0xE {
            Ok(Ast::AddToPointer(x))
        } else if instr == 0xF && y == 0x2 && n == 0x9 {
            Ok(Ast::LoadFont(x))
        } else if instr == 0xF && y == 0x3 && n == 0x3 {
            Ok(Ast::LoadDigits(x))
        } else if instr == 0xF && y == 0x5 && n == 0x5 {
            Ok(Ast::LoadFromRegs(x))
        } else if instr == 0xF && y == 0x6 && n == 0x5 {
            Ok(Ast::LoadIntoRegs(x))
        } else {
            Err(DecodeError::UnknownInstruction(opcode))
        }
    }

    /// Encode this operation back into its 16-bit instruction word.
    pub fn encode(&self) -> (w: u16)
        ensures
            w == encode_spec(*self),
    {
        match *self {
            Ast::Clear => 0x00E0,
            Ast::Return => 0x00EE,
            Ast::System(addr) => addr,
            Ast::Jump(addr) => 0x1000 | addr,
            Ast::JumpOffset(addr) => 0xB000 | addr,
            Ast::Call(addr) => 0x2000 | addr,
            Ast::SkipEqByte(x, kk) => 0x3000 | ((x as u16) << 8) | (kk as u16),
            Ast::SkipNotEqByte(x, kk) => 0x4000 | ((x as u16) << 8) | (kk as u16),
            Ast::SkipEqReg(x, y) => 0x5000 | ((x as u16) << 8) | ((y as u16) << 4),
            Ast::SkipNotEqReg(x, y) => 0x9000 | ((x as u16) << 8) | ((y as u16) << 4),
            Ast::LoadByte(x, kk) => 0x6000 | ((x as u16) << 8) | (kk as u16),
            Ast::LoadReg(x, y) => 0x8000 | ((x as u16) << 8) | ((y as u16) << 4),
            Ast::LoadPointer(addr) => 0xA000 | addr,
            Ast::LoadFromDT(x) => 0xF007 | ((x as u16) << 8),
            Ast::LoadKeyboard(x) => 0xF00A | ((x as u16) << 8),
            Ast::LoadIntoDT(x) => 0xF015 | ((x as u16) << 8),
            Ast::LoadIntoST(x) => 0xF018 | ((x as u16) << 8),
            Ast::LoadFont(x) => 0xF029 | ((x as u16) << 8),
            Ast::LoadDigits(x) => 0xF033 | ((x as u16) << 8),
            Ast::LoadIntoRegs(x) => 0xF065 | ((x as u16) << 8),
            Ast::LoadFromRegs(x) => 0xF055 | ((x as u16) << 8),
            Ast::AddByte(x, kk) => 0x7000 | ((x as u16) << 8) | (kk as u16),
            Ast::AddReg(x, y) => 0x8004 | ((x as u16) << 8) | ((y as u16) << 4),
            Ast::AddToPointer(x) => 0xF01E | ((x as u16) << 8),
            Ast::Random(x, kk) => 0xC000 | ((x as u16) << 8) | (kk as u16),
            Ast::Draw(x, y, n) => 0xD000 | ((x as u16) << 8) | ((y as u16) << 4) | (n as u16),
            Ast::SkipPressed(x) => 0xE09E | ((x as u16) << 8),
            Ast::SkipNotPressed(x) => 0xE0A1 | ((x as u16) << 8),
            Ast::Or(x, y) => 0x8001 | ((x as u16) << 8) | ((y as u16) << 4),
            Ast::And(x, y) => 0x8002 | ((x as u16) << 8) | ((y as u16) << 4),
            Ast::Xor(x, y) => 0x8003 | ((x as u16) << 8) | ((y as u16) << 4),
            Ast::ShiftRight(x) => 0x8006 | ((x as u16) << 8),
            Ast::ShiftLeft(x) => 0x800E | ((x as u16) << 8),
            Ast::Sub(x, y) => 0x8005 | ((x as u16) << 8) | ((y as u16) << 4),
            Ast::SubNeg(x, y) => 0x8007 | ((x as u16) << 8) | ((y as u16) << 4),
        }
    }
}

/// Decoding the word an operation encodes to yields that operation back,
/// for every operation with operands in range. The two system-call words
/// that coincide with the clear and return encodings (addresses 0x0E0 and
/// 0x0EE) are the sole exclusions: those words decode to `Clear` and
/// `Return`.
pub proof fn lemma_decode_encode(op: Ast)
    requires
        wf_op(op),
        op != Ast::System(0x0E0),
        op != Ast::System(0x0EE),
    ensures
        decode_spec(encode_spec(op)) == Some(op),
{
    match op {
        Ast::Clear => {
            assert(((0x00E0u16 & 0xF000) >> 12) as u8 == 0 && ((0x00E0u16 & 0x0F00) >> 8) as u8
                == 0 && ((0x00E0u16 & 0x00F0) >> 4) as u8 == 0xE && (0x00E0u16 & 0x000F) as u8
                == 0) by (bit_vector);
        },
        Ast::Return => {
            assert(((0x00EEu16 & 0xF000) >> 12) as u8 == 0 && ((0x00EEu16 & 0x0F00) >> 8) as u8
                == 0 && ((0x00EEu16 & 0x00F0) >> 4) as u8 == 0xE && (0x00EEu16 & 0x000F) as u8
                == 0xE) by (bit_vector);
        },
        Ast::System(a) => {
            assert(((a & 0xF000) >> 12) as u8 == 0 && (a & 0x0FFF) == a && !(((a & 0x0F00) >> 8)
                as u8 == 0 && ((a & 0x00F0) >> 4) as u8 == 0xE && (a & 0x000F) as u8 == 0) && !(((
            a & 0x0F00) >> 8) as u8 == 0 && ((a & 0x00F0) >> 4) as u8 == 0xE && (a & 0x000F) as u8
                == 0xE)) by (bit_vector)
                requires
                    a < 0x1000,
                    a != 0x0E0,
                    a != 0x0EE,
            ;
        },
        Ast::Jump(a) => {
            assert((((0x1000u16 | a) & 0xF000) >> 12) as u8 == 1 && ((0x1000u16 | a) & 0x0FFF)
                == a) by (bit_vector)
                requires
                    a < 0x1000,
            ;
        },
        Ast::JumpOffset(a) => {
            assert((((0xB000u16 | a) & 0xF000) >> 12) as u8 == 0xB && ((0xB000u16 | a) & 0x0FFF)
                == a) by (bit_vector)
                requires
                    a < 0x1000,
            ;
        },
        Ast::Call(a) => {
            assert((((0x2000u16 | a) & 0xF000) >> 12) as u8 == 2 && ((0x2000u16 | a) & 0x0FFF)
                == a) by (bit_vector)
                requires
                    a < 0x1000,
            ;
        },
        Ast::LoadPointer(a) => {
            assert((((0xA000u16 | a) & 0xF000) >> 12) as u8 == 0xA && ((0xA000u16 | a) & 0x0FFF)
                == a) by (bit_vector)
                requires
                    a < 0x1000,
            ;
        },
        Ast::SkipEqByte(x, kk) => {
            assert({
                let w = 0x3000u16 | ((x as u16) << 8) | (kk as u16);
                (((w & 0xF000) >> 12) as u8 == 3) && (((w & 0x0F00) >> 8) as u8 == x) && ((w
                    & 0x00FF) as u8 == kk)
            }) by (bit_vector)
                requires
                    x < 16,
            ;
        },
        Ast::SkipNotEqByte(x, kk) => {
            assert({
                let w = 0x4000u16 | ((x as u16) << 8) | (kk as u16);
                (((w & 0xF000) >> 12) as u8 == 4) && (((w & 0x0F00) >> 8) as u8 == x) && ((w
                    & 0x00FF) as u8 == kk)
            }) by (bit_vector)
                requires
                    x < 16,
            ;
        },
        Ast::LoadByte(x, kk) => {
            assert({
                let w = 0x6000u16 | ((x as u16) << 8) | (kk as u16);
                (((w & 0xF000) >> 12) as u8 == 6) && (((w & 0x0F00) >> 8) as u8 == x) && ((w
                    & 0x00FF) as u8 == kk)
            }) by (bit_vector)
                requires
                    x < 16,
            ;
        },
        Ast::AddByte(x, kk) => {
            assert({
                let w = 0x7000u16 | ((x as u16) << 8) | (kk as u16);
                (((w & 0xF000) >> 12) as u8 == 7) && (((w & 0x0F00) >> 8) as u8 == x) && ((w
                    & 0x00FF) as u8 == kk)
            }) by (bit_vector)
                requires
                    x < 16,
            ;
        },
        Ast::Random(x, kk) => {
            assert({
                let w = 0xC000u16 | ((x as u16) << 8) | (kk as u16);
                (((w & 0xF000) >> 12) as u8 == 0xC) && (((w & 0x0F00) >> 8) as u8 == x) && ((w
                    & 0x00FF) as u8 == kk)
            }) by (bit_vector)
                requires
                    x < 16,
            ;
        },
        Ast::SkipEqReg(x, y) => {
            assert({
                let w = 0x5000u16 | ((x as u16) << 8) | ((y as u16) << 4);
                (((w & 0xF000) >> 12) as u8 == 5) && (((w & 0x0F00) >> 8) as u8 == x) && (((w
                    & 0x00F0) >> 4) as u8 == y) && ((w & 0x000F) as u8 == 0)
            }) by (bit_vector)
                requires
                    x < 16,
                    y < 16,
            ;
        },
        Ast::SkipNotEqReg(x, y) => {
            assert({
                let w = 0x9000u16 | ((x as u16) << 8) | ((y as u16) << 4);
                (((w & 0xF000) >> 12) as u8 == 9) && (((w & 0x0F00) >> 8) as u8 == x) && (((w
                    & 0x00F0) >> 4) as u8 == y) && ((w & 0x000F) as u8 == 0)
            }) by (bit_vector)
                requires
                    x < 16,
                    y < 16,
            ;
        },
        Ast::LoadReg(x, y) => {
            assert({
                let w = 0x8000u16 | ((x as u16) << 8) | ((y as u16) << 4);
                (((w & 0xF000) >> 12) as u8 == 8) && (((w & 0x0F00) >> 8) as u8 == x) && (((w
                    & 0x00F0) >> 4) as u8 == y) && ((w & 0x000F) as u8 == 0)
            }) by (bit_vector)
                requires
                    x < 16,
                    y < 16,
            ;
        },
        Ast::Or(x, y) => {
            assert({
                let w = 0x8001u16 | ((x as u16) << 8) | ((y as u16) << 4);
                (((w & 0xF000) >> 12) as u8 == 8) && (((w & 0x0F00) >> 8) as u8 == x) && (((w
                    & 0x00F0) >> 4) as u8 == y) && ((w & 0x000F) as u8 == 1)
            }) by (bit_vector)
                requires
                    x < 16,
                    y < 16,
            ;
        },
        Ast::And(x, y) => {
            assert({
                let w = 0x8002u16 | ((x as u16) << 8) | ((y as u16) << 4);
                (((w & 0xF000) >> 12) as u8 == 8) && (((w & 0x0F00) >> 8) as u8 == x) && (((w
                    & 0x00F0) >> 4) as u8 == y) && ((w & 0x000F) as u8 == 2)
            }) by (bit_vector)
                requires
                    x < 16,
                    y < 16,
            ;
        },
        Ast::Xor(x, y) => {
            assert({
                let w = 0x8003u16 | ((x as u16) << 8) | ((y as u16) << 4);
                (((w & 0xF000) >> 12) as u8 == 8) && (((w & 0x0F00) >> 8) as u8 == x) && (((w
                    & 0x00F0) >> 4) as u8 == y) && ((w & 0x000F) as u8 == 3)
            }) by (bit_vector)
                requires
                    x < 16,
                    y < 16,
            ;
        },
        Ast::AddReg(x, y) => {
            assert({
                let w = 0x8004u16 | ((x as u16) << 8) | ((y as u16) << 4);
                (((w & 0xF000) >> 12) as u8 == 8) && (((w & 0x0F00) >> 8) as u8 == x) && (((w
                    & 0x00F0) >> 4) as u8 == y) && ((w & 0x000F) as u8 == 4)
            }) by (bit_vector)
                requires
                    x < 16,
                    y < 16,
            ;
        },
        Ast::Sub(x, y) => {
            assert({
                let w = 0x8005u16 | ((x as u16) << 8) | ((y as u16) << 4);
                (((w & 0xF000) >> 12) as u8 == 8) && (((w & 0x0F00) >> 8) as u8 == x) && (((w
                    & 0x00F0) >> 4) as u8 == y) && ((w & 0x000F) as u8 == 5)
            }) by (bit_vector)
                requires
                    x < 16,
                    y < 16,
            ;
        },
        Ast::SubNeg(x, y) => {
            assert({
                let w = 0x8007u16 | ((x as u16) << 8) | ((y as u16) << 4);
                (((w & 0xF000) >> 12) as u8 == 8) && (((w & 0x0F00) >> 8) as u8 == x) && (((w
                    & 0x00F0) >> 4) as u8 == y) && ((w & 0x000F) as u8 == 7)
            }) by (bit_vector)
                requires
                    x < 16,
                    y < 16,
            ;
        },
        Ast::ShiftRight(x) => {
            assert({
                let w = 0x8006u16 | ((x as u16) << 8);
                (((w & 0xF000) >> 12) as u8 == 8) && (((w & 0x0F00) >> 8) as u8 == x) && ((w
                    & 0x000F) as u8 == 6)
            }) by (bit_vector)
                requires
                    x < 16,
            ;
        },
        Ast::ShiftLeft(x) => {
            assert({
                let w = 0x800Eu16 | ((x as u16) << 8);
                (((w & 0xF000) >> 12) as u8 == 8) && (((w & 0x0F00) >> 8) as u8 == x) && ((w
                    & 0x000F) as u8 == 0xE)
            }) by (bit_vector)
                requires
                    x < 16,
            ;
        },
        Ast::Draw(x, y, n) => {
            assert({
                let w = 0xD000u16 | ((x as u16) << 8) | ((y as u16) << 4) | (n as u16);
                (((w & 0xF000) >> 12) as u8 == 0xD) && (((w & 0x0F00) >> 8) as u8 == x) && (((w
                    & 0x00F0) >> 4) as u8 == y) && ((w & 0x000F) as u8 == n)
            }) by (bit_vector)
                requires
                    x < 16,
                    y < 16,
                    n < 16,
            ;
        },
        Ast::SkipPressed(x) => {
            assert({
                let w = 0xE09Eu16 | ((x as u16) << 8);
                (((w & 0xF000) >> 12) as u8 == 0xE) && (((w & 0x0F00) >> 8) as u8 == x) && (((w
                    & 0x00F0) >> 4) as u8 == 9) && ((w & 0x000F) as u8 == 0xE)
            }) by (bit_vector)
                requires
                    x < 16,
            ;
        },
        Ast::SkipNotPressed(x) => {
            assert({
                let w = 0xE0A1u16 | ((x as u16) << 8);
                (((w & 0xF000) >> 12) as u8 == 0xE) && (((w & 0x0F00) >> 8) as u8 == x) && (((w
                    & 0x00F0) >> 4) as u8 == 0xA) && ((w & 0x000F) as u8 == 1)
            }) by (bit_vector)
                requires
                    x < 16,
            ;
        },
        Ast::LoadFromDT(x) => {
            assert({
                let w = 0xF007u16 | ((x as u16) << 8);
                (((w & 0xF000) >> 12) as u8 == 0xF) && (((w & 0x0F00) >> 8) as u8 == x) && (((w
                    & 0x00F0) >> 4) as u8 == 0) && ((w & 0x000F) as u8 == 7)
            }) by (bit_vector)
                requires
                    x < 16,
            ;
        },
        Ast::LoadKeyboard(x) => {
            assert({
                let w = 0xF00Au16 | ((x as u16) << 8);
                (((w & 0xF000) >> 12) as u8 == 0xF) && (((w & 0x0F00) >> 8) as u8 == x) && (((w
                    & 0x00F0) >> 4) as u8 == 0) && ((w & 0x000F) as u8 == 0xA)
            }) by (bit_vector)
                requires
                    x < 16,
            ;
        },
        Ast::LoadIntoDT(x) => {
            assert({
                let w = 0xF015u16 | ((x as u16) << 8);
                (((w & 0xF000) >> 12) as u8 == 0xF) && (((w & 0x0F00) >> 8) as u8 == x) && (((w
                    & 0x00F0) >> 4) as u8 == 1) && ((w & 0x000F) as u8 == 5)
            }) by (bit_vector)
                requires
                    x < 16,
            ;
        },
        Ast::LoadIntoST(x) => {
            assert({
                let w = 0xF018u16 | ((x as u16) << 8);
                (((w & 0xF000) >> 12) as u8 == 0xF) && (((w & 0x0F00) >> 8) as u8 == x) && (((w
                    & 0x00F0) >> 4) as u8 == 1) && ((w & 0x000F) as u8 == 8)
            }) by (bit_vector)
                requires
                    x < 16,
            ;
        },
        Ast::AddToPointer(x) => {
            assert({
                let w = 0xF01Eu16 | ((x as u16) << 8);
                (((w & 0xF000) >> 12) as u8 == 0xF) && (((w & 0x0F00) >> 8) as u8 == x) && (((w
                    & 0x00F0) >> 4) as u8 == 1) && ((w & 0x000F) as u8 == 0xE)
            }) by (bit_vector)
                requires
                    x < 16,
            ;
        },
        Ast::LoadFont(x) => {
            assert({
                let w = 0xF029u16 | ((x as u16) << 8);
                (((w & 0xF000) >> 12) as u8 == 0xF) && (((w & 0x0F00) >> 8) as u8 == x) && (((w
                    & 0x00F0) >> 4) as u8 == 2) && ((w & 0x000F) as u8 == 9)
            }) by (bit_vector)
                requires
                    x < 16,
            ;
        },
        Ast::LoadDigits(x) => {
            assert({
                let w = 0xF033u16 | ((x as u16) << 8);
                (((w & 0xF000) >> 12) as u8 == 0xF) && (((w & 0x0F00) >> 8) as u8 == x) && (((w
                    & 0x00F0) >> 4) as u8 == 3) && ((w & 0x000F) as u8 == 3)
            }) by (bit_vector)
                requires
                    x < 16,
            ;
        },
        Ast::LoadFromRegs(x) => {
            assert({
                let w = 0xF055u16 | ((x as u16) << 8);
                (((w & 0xF000) >> 12) as u8 == 0xF) && (((w & 0x0F00) >> 8) as u8 == x) && (((w
                    & 0x00F0) >> 4) as u8 == 5) && ((w & 0x000F) as u8 == 5)
            }) by (bit_vector)
                requires
                    x < 16,
            ;
        },
        Ast::LoadIntoRegs(x) => {
            assert({
                let w = 0xF065u16 | ((x as u16) << 8);
                (((w & 0xF000) >> 12) as u8 == 0xF) && (((w & 0x0F00) >> 8) as u8 == x) && (((w
                    & 0x00F0) >> 4) as u8 == 6) && ((w & 0x000F) as u8 == 5)
            }) by (bit_vector)
                requires
                    x < 16,
            ;
        },
    }
}

/// Whatever a word decodes to has all operands within their field ranges.
pub proof fn lemma_decode_wf(w: u16)
    ensures
        decode_spec(w) matches Some(op) ==> wf_op(op),
{
    assert((w & 0x0FFF) < 0x1000 && ((w & 0x0F00) >> 8) < 16 && ((w & 0x00F0) >> 4) < 16
        && (w & 0x000F) < 16) by (bit_vector);
}

} // verus!
