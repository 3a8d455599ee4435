//! End-to-end ticks of the execution engine: program loading, instruction
//! semantics, the blocking key-wait protocol, timers and fatal errors.

use chip8::ast::{Ast, DecodeError};
use chip8::cpu::{Cpu, CpuError, CpuState};
use chip8::display::Renderer;
use chip8::keyboard::Keyboard;

fn assemble(ops: &[Ast]) -> Vec<u8> {
    let mut bytes = Vec::new();
    for op in ops {
        let w = op.encode();
        bytes.push((w >> 8) as u8);
        bytes.push((w & 0xFF) as u8);
    }
    bytes
}

fn machine_with(ops: &[Ast]) -> Cpu {
    let mut cpu = Cpu::new();
    cpu.load_program(&assemble(ops)).unwrap();
    cpu
}

#[test]
fn load_program_fills_memory_from_0x200() {
    let mut cpu = Cpu::new();
    cpu.load_program(&[1, 2, 3]).unwrap();
    assert_eq!(cpu.memory_at(0x200), 1);
    assert_eq!(cpu.memory_at(0x201), 2);
    assert_eq!(cpu.memory_at(0x202), 3);
    assert_eq!(cpu.memory_at(0x203), 0);
}

#[test]
fn load_program_of_exactly_3584_bytes_succeeds() {
    let mut cpu = Cpu::new();
    let program = vec![0xABu8; 3584];
    assert_eq!(cpu.load_program(&program), Ok(()));
    assert_eq!(cpu.memory_at(0xFFF), 0xAB);
}

#[test]
fn load_program_of_3585_bytes_fails_with_capacity_exceeded() {
    let mut cpu = Cpu::new();
    let program = vec![0xABu8; 3585];
    assert_eq!(cpu.load_program(&program), Err(CpuError::CapacityExceeded));
    assert_eq!(cpu.memory_at(0x200), 0);
}

#[test]
fn font_table_is_loaded_at_memory_base() {
    let cpu = Cpu::new();
    assert_eq!(cpu.memory_at(0), 0xF0);
    assert_eq!(cpu.memory_at(4), 0xF0);
    assert_eq!(cpu.memory_at(5), 0x20);
    assert_eq!(cpu.memory_at(79), 0x80);
    assert_eq!(cpu.memory_at(80), 0);
    assert_eq!(cpu.program_counter(), 0x200);
}

#[test]
fn ten_add_bytes_in_one_tick_leave_register_0_at_10() {
    let ops = [Ast::AddByte(0, 1); 10];
    let mut cpu = machine_with(&ops);
    let mut renderer = Renderer::new();
    let mut keyboard = Keyboard::new();
    let tone = cpu.cycle(&mut renderer, &mut keyboard).unwrap();
    assert_eq!(cpu.register(0), 10);
    assert_eq!(cpu.delay_timer(), 0);
    assert_eq!(cpu.sound_timer(), 0);
    assert!(!tone);
}

#[test]
fn speed_one_single_steps() {
    let mut cpu = machine_with(&[Ast::AddByte(0, 1), Ast::AddByte(0, 1), Ast::AddByte(0, 1)]);
    assert_eq!(cpu.speed(), 10);
    cpu.set_speed(1);
    let mut renderer = Renderer::new();
    let mut keyboard = Keyboard::new();
    cpu.cycle(&mut renderer, &mut keyboard).unwrap();
    assert_eq!(cpu.register(0), 1);
    assert_eq!(cpu.program_counter(), 0x202);
    cpu.cycle(&mut renderer, &mut keyboard).unwrap();
    assert_eq!(cpu.register(0), 2);
    assert_eq!(cpu.program_counter(), 0x204);
}

#[test]
fn timers_decay_once_per_tick() {
    let mut cpu = machine_with(&[
        Ast::LoadByte(1, 5),
        Ast::LoadIntoDT(1),
        Ast::LoadIntoST(1),
        Ast::LoadFromDT(2),
        Ast::Jump(0x208),
    ]);
    let mut renderer = Renderer::new();
    let mut keyboard = Keyboard::new();
    let tone = cpu.cycle(&mut renderer, &mut keyboard).unwrap();
    assert_eq!(cpu.register(2), 5);
    assert_eq!(cpu.delay_timer(), 4);
    assert_eq!(cpu.sound_timer(), 4);
    assert!(tone);
    for expected in [3u8, 2, 1] {
        let tone = cpu.cycle(&mut renderer, &mut keyboard).unwrap();
        assert_eq!(cpu.sound_timer(), expected);
        assert!(tone);
    }
    let tone = cpu.cycle(&mut renderer, &mut keyboard).unwrap();
    assert_eq!(cpu.sound_timer(), 0);
    assert!(!tone);
}

#[test]
fn key_wait_stalls_until_a_key_arrives() {
    let mut cpu = machine_with(&[Ast::LoadKeyboard(3), Ast::Jump(0x202)]);
    let mut renderer = Renderer::new();
    let mut keyboard = Keyboard::new();
    cpu.cycle(&mut renderer, &mut keyboard).unwrap();
    assert_eq!(cpu.program_counter(), 0x202);
    assert_eq!(cpu.register(3), 0);
    assert_eq!(cpu.state(), CpuState::AwaitingKey(3));
    cpu.cycle(&mut renderer, &mut keyboard).unwrap();
    assert_eq!(cpu.program_counter(), 0x202);
    assert_eq!(cpu.register(3), 0);
    keyboard.key_down(5);
    cpu.cycle(&mut renderer, &mut keyboard).unwrap();
    assert_eq!(cpu.register(3), 5);
    assert_eq!(cpu.state(), CpuState::Running);
    assert_eq!(cpu.program_counter(), 0x202);
}

#[test]
fn return_with_empty_stack_yields_stack_underflow() {
    let mut cpu = machine_with(&[Ast::Return]);
    let mut renderer = Renderer::new();
    let mut keyboard = Keyboard::new();
    assert_eq!(cpu.cycle(&mut renderer, &mut keyboard), Err(CpuError::StackUnderflow));
    assert_eq!(cpu.state(), CpuState::Halted);
}

#[test]
fn call_and_return_balance_the_stack() {
    let mut cpu = machine_with(&[
        Ast::Call(0x208),
        Ast::Jump(0x202),
        Ast::System(0),
        Ast::System(0),
        Ast::Return,
    ]);
    let mut renderer = Renderer::new();
    let mut keyboard = Keyboard::new();
    cpu.cycle(&mut renderer, &mut keyboard).unwrap();
    assert_eq!(cpu.program_counter(), 0x202);
    assert_eq!(cpu.stack_len(), 0);
}

#[test]
fn seventeen_nested_calls_overflow_the_stack() {
    let mut cpu = machine_with(&[Ast::Call(0x200)]);
    let mut renderer = Renderer::new();
    let mut keyboard = Keyboard::new();
    cpu.cycle(&mut renderer, &mut keyboard).unwrap();
    assert_eq!(cpu.stack_len(), 10);
    assert_eq!(cpu.cycle(&mut renderer, &mut keyboard), Err(CpuError::StackOverflow));
    assert_eq!(cpu.stack_len(), 16);
    assert_eq!(cpu.state(), CpuState::Halted);
}

#[test]
fn unknown_instruction_halts_with_decode_error() {
    let mut cpu = Cpu::new();
    cpu.load_program(&[0xFF, 0xFF]).unwrap();
    let mut renderer = Renderer::new();
    let mut keyboard = Keyboard::new();
    assert_eq!(
        cpu.cycle(&mut renderer, &mut keyboard),
        Err(CpuError::Decode(DecodeError::UnknownInstruction(0xFFFF)))
    );
    assert_eq!(cpu.state(), CpuState::Halted);
    let tone = cpu.cycle(&mut renderer, &mut keyboard).unwrap();
    assert!(!tone);
    assert_eq!(cpu.state(), CpuState::Halted);
}

#[test]
fn add_reg_sets_carry_flag() {
    let mut cpu = machine_with(&[
        Ast::LoadByte(0, 200),
        Ast::LoadByte(1, 100),
        Ast::AddReg(0, 1),
        Ast::Jump(0x206),
    ]);
    let mut renderer = Renderer::new();
    let mut keyboard = Keyboard::new();
    cpu.cycle(&mut renderer, &mut keyboard).unwrap();
    assert_eq!(cpu.register(0), 44);
    assert_eq!(cpu.register(0xF), 1);
}

#[test]
fn add_reg_without_overflow_clears_flag() {
    let mut cpu = machine_with(&[
        Ast::LoadByte(0, 200),
        Ast::LoadByte(1, 55),
        Ast::AddReg(0, 1),
        Ast::Jump(0x206),
    ]);
    let mut renderer = Renderer::new();
    let mut keyboard = Keyboard::new();
    cpu.cycle(&mut renderer, &mut keyboard).unwrap();
    assert_eq!(cpu.register(0), 255);
    assert_eq!(cpu.register(0xF), 0);
}

#[test]
fn sub_flags_mean_no_borrow() {
    let mut cpu = machine_with(&[
        Ast::LoadByte(0, 10),
        Ast::LoadByte(1, 20),
        Ast::Sub(0, 1),
        Ast::Jump(0x206),
    ]);
    let mut renderer = Renderer::new();
    let mut keyboard = Keyboard::new();
    cpu.cycle(&mut renderer, &mut keyboard).unwrap();
    assert_eq!(cpu.register(0), 246);
    assert_eq!(cpu.register(0xF), 0);

    let mut cpu = machine_with(&[
        Ast::LoadByte(0, 20),
        Ast::LoadByte(1, 20),
        Ast::Sub(0, 1),
        Ast::Jump(0x206),
    ]);
    cpu.cycle(&mut renderer, &mut keyboard).unwrap();
    assert_eq!(cpu.register(0), 0);
    assert_eq!(cpu.register(0xF), 1);
}

#[test]
fn sub_neg_subtracts_the_other_way() {
    let mut cpu = machine_with(&[
        Ast::LoadByte(0, 10),
        Ast::LoadByte(1, 20),
        Ast::SubNeg(0, 1),
        Ast::Jump(0x206),
    ]);
    let mut renderer = Renderer::new();
    let mut keyboard = Keyboard::new();
    cpu.cycle(&mut renderer, &mut keyboard).unwrap();
    assert_eq!(cpu.register(0), 10);
    assert_eq!(cpu.register(0xF), 1);
}

#[test]
fn shifts_capture_the_shifted_out_bit() {
    let mut cpu = machine_with(&[Ast::LoadByte(0, 0x81), Ast::ShiftRight(0), Ast::Jump(0x204)]);
    let mut renderer = Renderer::new();
    let mut keyboard = Keyboard::new();
    cpu.cycle(&mut renderer, &mut keyboard).unwrap();
    assert_eq!(cpu.register(0), 0x40);
    assert_eq!(cpu.register(0xF), 1);

    let mut cpu = machine_with(&[Ast::LoadByte(0, 0x81), Ast::ShiftLeft(0), Ast::Jump(0x204)]);
    cpu.cycle(&mut renderer, &mut keyboard).unwrap();
    assert_eq!(cpu.register(0), 0x02);
    assert_eq!(cpu.register(0xF), 1);
}

#[test]
fn bitwise_ops_combine_registers() {
    let mut cpu = machine_with(&[
        Ast::LoadByte(0, 0b1100),
        Ast::LoadByte(1, 0b1010),
        Ast::Or(0, 1),
        Ast::LoadByte(2, 0b1100),
        Ast::LoadByte(3, 0b1010),
        Ast::And(2, 3),
        Ast::LoadByte(4, 0b1100),
        Ast::LoadByte(5, 0b1010),
        Ast::Xor(4, 5),
        Ast::Jump(0x212),
    ]);
    let mut renderer = Renderer::new();
    let mut keyboard = Keyboard::new();
    cpu.cycle(&mut renderer, &mut keyboard).unwrap();
    assert_eq!(cpu.register(0), 0b1110);
    assert_eq!(cpu.register(2), 0b1000);
    assert_eq!(cpu.register(4), 0b0110);
}

#[test]
fn skip_eq_byte_skips_the_next_instruction() {
    let mut cpu = machine_with(&[
        Ast::LoadByte(0, 5),
        Ast::SkipEqByte(0, 5),
        Ast::LoadByte(1, 0xAA),
        Ast::LoadByte(2, 0xBB),
        Ast::Jump(0x208),
    ]);
    let mut renderer = Renderer::new();
    let mut keyboard = Keyboard::new();
    cpu.cycle(&mut renderer, &mut keyboard).unwrap();
    assert_eq!(cpu.register(1), 0);
    assert_eq!(cpu.register(2), 0xBB);
}

#[test]
fn register_moves_and_register_skips() {
    let mut cpu = machine_with(&[
        Ast::LoadByte(0, 42),
        Ast::LoadReg(1, 0),
        Ast::SkipEqReg(0, 1),
        Ast::LoadByte(2, 0xAA),
        Ast::SkipNotEqReg(0, 1),
        Ast::LoadByte(3, 0xBB),
        Ast::SkipNotEqByte(3, 0),
        Ast::LoadByte(4, 0xCC),
        Ast::Jump(0x210),
    ]);
    let mut renderer = Renderer::new();
    let mut keyboard = Keyboard::new();
    cpu.cycle(&mut renderer, &mut keyboard).unwrap();
    assert_eq!(cpu.register(1), 42);
    assert_eq!(cpu.register(2), 0);
    assert_eq!(cpu.register(3), 0xBB);
    assert_eq!(cpu.register(4), 0);
    assert_eq!(cpu.program_counter(), 0x210);
}

#[test]
fn skip_pressed_consults_the_keyboard() {
    let mut cpu = machine_with(&[
        Ast::LoadByte(0, 4),
        Ast::SkipPressed(0),
        Ast::LoadByte(1, 0xAA),
        Ast::SkipNotPressed(0),
        Ast::LoadByte(2, 0xBB),
        Ast::Jump(0x20A),
    ]);
    let mut renderer = Renderer::new();
    let mut keyboard = Keyboard::new();
    keyboard.key_down(4);
    cpu.cycle(&mut renderer, &mut keyboard).unwrap();
    assert_eq!(cpu.register(1), 0);
    assert_eq!(cpu.register(2), 0xBB);
}

#[test]
fn jump_offset_adds_register_0() {
    let mut cpu = machine_with(&[
        Ast::LoadByte(0, 6),
        Ast::JumpOffset(0x200),
        Ast::System(0),
        Ast::Jump(0x206),
    ]);
    let mut renderer = Renderer::new();
    let mut keyboard = Keyboard::new();
    cpu.cycle(&mut renderer, &mut keyboard).unwrap();
    assert_eq!(cpu.program_counter(), 0x206);
}

#[test]
fn load_font_points_at_the_glyph() {
    let mut cpu = machine_with(&[Ast::LoadByte(0, 2), Ast::LoadFont(0), Ast::Jump(0x204)]);
    let mut renderer = Renderer::new();
    let mut keyboard = Keyboard::new();
    cpu.cycle(&mut renderer, &mut keyboard).unwrap();
    assert_eq!(cpu.pointer(), 10);
}

#[test]
fn add_to_pointer_advances_the_pointer() {
    let mut cpu = machine_with(&[
        Ast::LoadPointer(0x300),
        Ast::LoadByte(0, 0xFF),
        Ast::AddToPointer(0),
        Ast::Jump(0x206),
    ]);
    let mut renderer = Renderer::new();
    let mut keyboard = Keyboard::new();
    cpu.cycle(&mut renderer, &mut keyboard).unwrap();
    assert_eq!(cpu.pointer(), 0x3FF);
}

#[test]
fn load_digits_stores_three_decimal_digits() {
    let mut cpu = machine_with(&[
        Ast::LoadByte(0, 254),
        Ast::LoadPointer(0x300),
        Ast::LoadDigits(0),
        Ast::Jump(0x206),
    ]);
    let mut renderer = Renderer::new();
    let mut keyboard = Keyboard::new();
    cpu.cycle(&mut renderer, &mut keyboard).unwrap();
    assert_eq!(cpu.memory_at(0x300), 2);
    assert_eq!(cpu.memory_at(0x301), 5);
    assert_eq!(cpu.memory_at(0x302), 4);
}

#[test]
fn block_copy_to_memory_includes_register_x() {
    let mut cpu = machine_with(&[
        Ast::LoadByte(0, 7),
        Ast::LoadByte(1, 8),
        Ast::LoadByte(2, 9),
        Ast::LoadPointer(0x400),
        Ast::LoadFromRegs(1),
        Ast::Jump(0x20A),
    ]);
    let mut renderer = Renderer::new();
    let mut keyboard = Keyboard::new();
    cpu.cycle(&mut renderer, &mut keyboard).unwrap();
    assert_eq!(cpu.memory_at(0x400), 7);
    assert_eq!(cpu.memory_at(0x401), 8);
    assert_eq!(cpu.memory_at(0x402), 0);
}

#[test]
fn block_copy_from_memory_includes_register_x() {
    let mut cpu = machine_with(&[
        Ast::LoadByte(5, 123),
        Ast::LoadPointer(0x350),
        Ast::LoadDigits(5),
        Ast::LoadByte(0, 0xAA),
        Ast::LoadByte(1, 0xBB),
        Ast::LoadByte(2, 0xCC),
        Ast::LoadIntoRegs(1),
        Ast::Jump(0x20E),
    ]);
    let mut renderer = Renderer::new();
    let mut keyboard = Keyboard::new();
    cpu.cycle(&mut renderer, &mut keyboard).unwrap();
    assert_eq!(cpu.register(0), 1);
    assert_eq!(cpu.register(1), 2);
    assert_eq!(cpu.register(2), 0xCC);
}

#[test]
fn random_masks_with_the_immediate() {
    let mut cpu = machine_with(&[Ast::Random(2, 0x00), Ast::Random(3, 0x0F), Ast::Jump(0x204)]);
    let mut renderer = Renderer::new();
    let mut keyboard = Keyboard::new();
    cpu.cycle(&mut renderer, &mut keyboard).unwrap();
    assert_eq!(cpu.register(2), 0);
    assert!(cpu.register(3) < 16);
}

#[test]
fn draw_toggles_cells_and_reports_collision() {
    let mut cpu = machine_with(&[Ast::LoadFont(0), Ast::Draw(0, 1, 5), Ast::Jump(0x204)]);
    let mut renderer = Renderer::new();
    let mut keyboard = Keyboard::new();
    cpu.cycle(&mut renderer, &mut keyboard).unwrap();
    assert_eq!(renderer.pixel(0, 0), 1);
    assert_eq!(renderer.pixel(1, 0), 1);
    assert_eq!(renderer.pixel(2, 0), 1);
    assert_eq!(renderer.pixel(3, 0), 1);
    assert_eq!(renderer.pixel(4, 0), 0);
    assert_eq!(renderer.pixel(1, 1), 0);
    assert_eq!(renderer.pixel(3, 1), 1);
    assert_eq!(cpu.register(0xF), 0);
}

#[test]
fn drawing_the_same_sprite_twice_clears_it() {
    let mut cpu = machine_with(&[
        Ast::LoadFont(0),
        Ast::Draw(0, 1, 5),
        Ast::Draw(0, 1, 5),
        Ast::Jump(0x206),
    ]);
    let mut renderer = Renderer::new();
    let mut keyboard = Keyboard::new();
    cpu.cycle(&mut renderer, &mut keyboard).unwrap();
    for x in 0..8 {
        for y in 0..5 {
            assert_eq!(renderer.pixel(x, y), 0);
        }
    }
    assert_eq!(cpu.register(0xF), 1);
}

#[test]
fn clear_blanks_the_display() {
    let mut cpu = machine_with(&[
        Ast::LoadFont(0),
        Ast::Draw(0, 1, 5),
        Ast::Clear,
        Ast::Jump(0x206),
    ]);
    let mut renderer = Renderer::new();
    let mut keyboard = Keyboard::new();
    cpu.cycle(&mut renderer, &mut keyboard).unwrap();
    for x in 0..8 {
        for y in 0..5 {
            assert_eq!(renderer.pixel(x, y), 0);
        }
    }
}
