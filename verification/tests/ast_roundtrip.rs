//! Decode/encode round trips across all 35 operation variants at boundary
//! operand values, and decode failures on unknown words.

use chip8::ast::{Ast, DecodeError};

fn check_round_trip(op: Ast) {
    let w = op.encode();
    assert_eq!(Ast::parse(w), Ok(op));
}

#[test]
fn round_trip_no_operand() {
    check_round_trip(Ast::Clear);
    check_round_trip(Ast::Return);
}

#[test]
fn round_trip_addr_operands() {
    for op in [
        Ast::System(0x001),
        Ast::System(0xFFF),
        Ast::Jump(0x000),
        Ast::Jump(0xFFF),
        Ast::JumpOffset(0x000),
        Ast::JumpOffset(0xFFF),
        Ast::Call(0x000),
        Ast::Call(0xFFF),
        Ast::LoadPointer(0x000),
        Ast::LoadPointer(0xFFF),
    ] {
        check_round_trip(op);
    }
}

#[test]
fn round_trip_reg_byte_operands() {
    for op in [
        Ast::SkipEqByte(0, 0),
        Ast::SkipEqByte(15, 255),
        Ast::SkipNotEqByte(0, 0),
        Ast::SkipNotEqByte(15, 255),
        Ast::LoadByte(0, 0),
        Ast::LoadByte(15, 255),
        Ast::AddByte(0, 0),
        Ast::AddByte(15, 255),
        Ast::Random(0, 0),
        Ast::Random(15, 255),
    ] {
        check_round_trip(op);
    }
}

#[test]
fn round_trip_reg_reg_operands() {
    for op in [
        Ast::SkipEqReg(0, 0),
        Ast::SkipEqReg(15, 15),
        Ast::SkipNotEqReg(0, 15),
        Ast::SkipNotEqReg(15, 0),
        Ast::LoadReg(0, 15),
        Ast::LoadReg(15, 0),
        Ast::Or(1, 2),
        Ast::Or(15, 15),
        Ast::And(3, 4),
        Ast::And(0, 0),
        Ast::Xor(5, 6),
        Ast::Xor(15, 15),
        Ast::AddReg(7, 8),
        Ast::AddReg(15, 15),
        Ast::Sub(9, 10),
        Ast::Sub(0, 15),
        Ast::SubNeg(11, 12),
        Ast::SubNeg(15, 0),
    ] {
        check_round_trip(op);
    }
}

#[test]
fn round_trip_single_reg_operands() {
    for op in [
        Ast::ShiftRight(0),
        Ast::ShiftRight(15),
        Ast::ShiftLeft(0),
        Ast::ShiftLeft(15),
        Ast::LoadFromDT(0),
        Ast::LoadFromDT(15),
        Ast::LoadKeyboard(0),
        Ast::LoadKeyboard(15),
        Ast::LoadIntoDT(0),
        Ast::LoadIntoDT(15),
        Ast::LoadIntoST(0),
        Ast::LoadIntoST(15),
        Ast::AddToPointer(0),
        Ast::AddToPointer(15),
        Ast::LoadFont(0),
        Ast::LoadFont(15),
        Ast::LoadDigits(0),
        Ast::LoadDigits(15),
        Ast::LoadIntoRegs(0),
        Ast::LoadIntoRegs(15),
        Ast::LoadFromRegs(0),
        Ast::LoadFromRegs(15),
        Ast::SkipPressed(0),
        Ast::SkipPressed(15),
        Ast::SkipNotPressed(0),
        Ast::SkipNotPressed(15),
    ] {
        check_round_trip(op);
    }
}

#[test]
fn round_trip_draw() {
    check_round_trip(Ast::Draw(0, 0, 0));
    check_round_trip(Ast::Draw(15, 15, 15));
    check_round_trip(Ast::Draw(1, 2, 5));
}

#[test]
fn encode_then_decode_words() {
    for w in [0x00E0u16, 0x00EE, 0x1234, 0x2ABC, 0x3A7F, 0x8AB4, 0xD123, 0xE19E, 0xF265] {
        let op = Ast::parse(w).unwrap();
        assert_eq!(op.encode(), w);
    }
}

#[test]
fn decode_known_words() {
    assert_eq!(Ast::parse(0x00E0), Ok(Ast::Clear));
    assert_eq!(Ast::parse(0x00EE), Ok(Ast::Return));
    assert_eq!(Ast::parse(0x0123), Ok(Ast::System(0x123)));
    assert_eq!(Ast::parse(0x7A05), Ok(Ast::AddByte(0xA, 0x05)));
    assert_eq!(Ast::parse(0x8AB5), Ok(Ast::Sub(0xA, 0xB)));
    assert_eq!(Ast::parse(0xFA65), Ok(Ast::LoadIntoRegs(0xA)));
}

#[test]
fn decode_unknown_words() {
    for w in [0x5001u16, 0x5ABFu16, 0x8008, 0x800F, 0x9005, 0xE000, 0xE1FF, 0xF000, 0xFFFF] {
        assert_eq!(Ast::parse(w), Err(DecodeError::UnknownInstruction(w)));
    }
}

#[test]
fn system_words_shadowed_by_clear_and_return() {
    assert_eq!(Ast::System(0x0E0).encode(), 0x00E0);
    assert_eq!(Ast::parse(0x00E0), Ok(Ast::Clear));
    assert_eq!(Ast::System(0x0EE).encode(), 0x00EE);
    assert_eq!(Ast::parse(0x00EE), Ok(Ast::Return));
}
