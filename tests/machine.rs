use chip8::decode::{decode, Instruction};
use chip8::hardware::CPU;
use chip8::instructions::decode_and_run_instruction;
use chip8::model::{ExecutionError, StepOutcome, FLAG_REGISTER, FONT_START};

fn machine_with(program: &[u8]) -> CPU {
    let mut cpu = CPU::new();
    cpu.load_program(program).unwrap();
    cpu
}

fn run_steps(cpu: &mut CPU, n: usize) {
    for _ in 0..n {
        cpu.step().unwrap();
    }
}

fn lit_count(cpu: &CPU) -> usize {
    cpu.framebuffer().iter().filter(|p| **p).count()
}

#[test]
fn new_machine_state() {
    let cpu = CPU::new();
    assert_eq!(cpu.pc(), 0x200);
    assert_eq!(cpu.index(), 0);
    assert_eq!(cpu.stack_depth(), 0);
    assert_eq!(cpu.delay_timer(), 0);
    assert_eq!(cpu.sound_timer(), 0);
    assert!(!cpu.is_waiting());
    assert!(!cpu.needs_redraw());
    assert_eq!(lit_count(&cpu), 0);
    assert_eq!(cpu.framebuffer().len(), 2048);
    for x in 0..16 {
        assert_eq!(cpu.register(x), 0);
    }
    // Glyph of digit 0, then the first row of digit 1.
    assert_eq!(cpu.read_memory(FONT_START), Ok(0xF0));
    assert_eq!(cpu.read_memory(FONT_START + 1), Ok(0x90));
    assert_eq!(cpu.read_memory(FONT_START + 5), Ok(0x20));
    assert_eq!(cpu.read_memory(FONT_START + 79), Ok(0x80));
    assert_eq!(cpu.read_memory(0x200), Ok(0));
}

#[test]
fn scenario_load_load_add() {
    // V0 = 5; V1 = 3; V0 += V1.
    let mut cpu = machine_with(&[0x60, 0x05, 0x61, 0x03, 0x80, 0x14]);
    run_steps(&mut cpu, 3);
    assert_eq!(cpu.register(0), 8);
    assert_eq!(cpu.register(FLAG_REGISTER), 0);
    assert_eq!(cpu.pc(), 0x206);
}

#[test]
fn scenario_block_store_two_registers() {
    // I = 0x300; V0 = 1; V1 = 2; store V0..=V1.
    let mut cpu = machine_with(&[0xA3, 0x00, 0x60, 0x01, 0x61, 0x02, 0xF1, 0x55]);
    run_steps(&mut cpu, 4);
    assert_eq!(cpu.read_memory(0x300), Ok(1));
    assert_eq!(cpu.read_memory(0x301), Ok(2));
    assert_eq!(cpu.read_memory(0x302), Ok(0));
    assert_eq!(cpu.index(), 0x300);
}

#[test]
fn clear_screen_turns_all_pixels_off() {
    // I = glyph 0; draw it at (0, 0); clear.
    let mut cpu = machine_with(&[0xA0, 0x50, 0xD0, 0x05, 0x00, 0xE0]);
    run_steps(&mut cpu, 2);
    assert!(lit_count(&cpu) > 0);
    cpu.clear_redraw();
    assert!(!cpu.needs_redraw());
    assert_eq!(cpu.step(), Ok(StepOutcome::Executed(Instruction::ClearScreen)));
    assert_eq!(lit_count(&cpu), 0);
    assert!(cpu.needs_redraw());
    assert_eq!(cpu.pc(), 0x206);
}

#[test]
fn call_then_return_resumes_after_call() {
    // 0x200: call 0x300; 0x300: return.
    let mut cpu = machine_with(&[0x23, 0x00]);
    cpu.write_memory(0x300, 0x00).unwrap();
    cpu.write_memory(0x301, 0xEE).unwrap();
    cpu.step().unwrap();
    assert_eq!(cpu.pc(), 0x300);
    assert_eq!(cpu.stack_depth(), 1);
    cpu.step().unwrap();
    assert_eq!(cpu.pc(), 0x202);
    assert_eq!(cpu.stack_depth(), 0);
}

#[test]
fn return_on_empty_stack_underflows() {
    let mut cpu = machine_with(&[0x00, 0xEE]);
    assert_eq!(cpu.step(), Err(ExecutionError::StackUnderflow));
    assert_eq!(cpu.pc(), 0x200);
    assert_eq!(cpu.stack_depth(), 0);
}

#[test]
fn call_on_full_stack_overflows() {
    // 0x200: call 0x200, forever.
    let mut cpu = machine_with(&[0x22, 0x00]);
    run_steps(&mut cpu, 24);
    assert_eq!(cpu.stack_depth(), 24);
    assert_eq!(cpu.step(), Err(ExecutionError::StackOverflow));
    assert_eq!(cpu.stack_depth(), 24);
    assert_eq!(cpu.pc(), 0x200);
}

#[test]
fn add_sets_carry_and_wraps() {
    let mut cpu = machine_with(&[0x80, 0x14]);
    cpu.set_register(0, 200);
    cpu.set_register(1, 100);
    cpu.step().unwrap();
    assert_eq!(cpu.register(0), 44);
    assert_eq!(cpu.register(FLAG_REGISTER), 1);

    let mut cpu = machine_with(&[0x80, 0x14]);
    cpu.set_register(0, 200);
    cpu.set_register(1, 55);
    cpu.set_register(FLAG_REGISTER, 7);
    cpu.step().unwrap();
    assert_eq!(cpu.register(0), 255);
    assert_eq!(cpu.register(FLAG_REGISTER), 0);
}

#[test]
fn add_immediate_wraps_without_flag() {
    let mut cpu = machine_with(&[0x70, 0xFF]);
    cpu.set_register(0, 2);
    cpu.set_register(FLAG_REGISTER, 9);
    cpu.step().unwrap();
    assert_eq!(cpu.register(0), 1);
    assert_eq!(cpu.register(FLAG_REGISTER), 9);
}

#[test]
fn subtract_flag_is_no_borrow() {
    let mut cpu = machine_with(&[0x80, 0x15]);
    cpu.set_register(0, 5);
    cpu.set_register(1, 3);
    cpu.step().unwrap();
    assert_eq!(cpu.register(0), 2);
    assert_eq!(cpu.register(FLAG_REGISTER), 1);

    let mut cpu = machine_with(&[0x80, 0x15]);
    cpu.set_register(0, 3);
    cpu.set_register(1, 5);
    cpu.step().unwrap();
    assert_eq!(cpu.register(0), 254);
    assert_eq!(cpu.register(FLAG_REGISTER), 0);

    let mut cpu = machine_with(&[0x80, 0x15]);
    cpu.set_register(0, 4);
    cpu.set_register(1, 4);
    cpu.step().unwrap();
    assert_eq!(cpu.register(0), 0);
    assert_eq!(cpu.register(FLAG_REGISTER), 1);
}

#[test]
fn reverse_subtract_flag_is_no_borrow() {
    let mut cpu = machine_with(&[0x80, 0x17]);
    cpu.set_register(0, 3);
    cpu.set_register(1, 5);
    cpu.step().unwrap();
    assert_eq!(cpu.register(0), 2);
    assert_eq!(cpu.register(FLAG_REGISTER), 1);

    let mut cpu = machine_with(&[0x80, 0x17]);
    cpu.set_register(0, 5);
    cpu.set_register(1, 3);
    cpu.step().unwrap();
    assert_eq!(cpu.register(0), 254);
    assert_eq!(cpu.register(FLAG_REGISTER), 0);
}

#[test]
fn shift_flags_hold_the_shifted_out_bit() {
    let mut cpu = machine_with(&[0x80, 0x16]);
    cpu.set_register(1, 0b1000_0101);
    cpu.step().unwrap();
    assert_eq!(cpu.register(0), 0b0100_0010);
    assert_eq!(cpu.register(FLAG_REGISTER), 1);

    let mut cpu = machine_with(&[0x80, 0x16]);
    cpu.set_register(1, 0b0000_0100);
    cpu.step().unwrap();
    assert_eq!(cpu.register(0), 0b0000_0010);
    assert_eq!(cpu.register(FLAG_REGISTER), 0);

    let mut cpu = machine_with(&[0x80, 0x1E]);
    cpu.set_register(1, 0b1000_0101);
    cpu.step().unwrap();
    assert_eq!(cpu.register(0), 0b0000_1010);
    assert_eq!(cpu.register(FLAG_REGISTER), 1);

    let mut cpu = machine_with(&[0x80, 0x1E]);
    cpu.set_register(1, 0b0100_0001);
    cpu.step().unwrap();
    assert_eq!(cpu.register(0), 0b1000_0010);
    assert_eq!(cpu.register(FLAG_REGISTER), 0);
}

#[test]
fn bitwise_ops_leave_flag_alone() {
    let mut cpu = machine_with(&[0x80, 0x11, 0x82, 0x33, 0x83, 0x12]);
    cpu.set_register(0, 0b1100);
    cpu.set_register(1, 0b1010);
    cpu.set_register(2, 0b0110);
    cpu.set_register(3, 0b0111);
    cpu.set_register(FLAG_REGISTER, 3);
    run_steps(&mut cpu, 3);
    assert_eq!(cpu.register(0), 0b1110);
    assert_eq!(cpu.register(2), 0b0001);
    assert_eq!(cpu.register(3), 0b0010);
    assert_eq!(cpu.register(FLAG_REGISTER), 3);
}

#[test]
fn drawing_twice_restores_pixels() {
    // I = glyph 0; V0 = 10; V1 = 7; draw; draw.
    let mut cpu = machine_with(&[0xA0, 0x50, 0x60, 0x0A, 0x61, 0x07, 0xD0, 0x15, 0xD0, 0x15]);
    run_steps(&mut cpu, 4);
    assert_eq!(cpu.register(FLAG_REGISTER), 0);
    // Glyph 0 has 14 lit pixels.
    assert_eq!(lit_count(&cpu), 14);
    assert!(cpu.pixel(10, 7));
    assert!(!cpu.pixel(11, 8));
    cpu.step().unwrap();
    assert_eq!(cpu.register(FLAG_REGISTER), 1);
    assert_eq!(lit_count(&cpu), 0);
}

#[test]
fn drawing_wraps_at_the_edges() {
    // I = glyph 0 (rows F0 90 90 90 F0); V0 = 62; V1 = 30; draw.
    let mut cpu = machine_with(&[0xA0, 0x50, 0x60, 0x3E, 0x61, 0x1E, 0xD0, 0x15]);
    run_steps(&mut cpu, 4);
    assert_eq!(lit_count(&cpu), 14);
    // Top row: columns 62, 63, 0, 1 of row 30.
    assert!(cpu.pixel(62, 30));
    assert!(cpu.pixel(63, 30));
    assert!(cpu.pixel(0, 30));
    assert!(cpu.pixel(1, 30));
    assert!(!cpu.pixel(2, 30));
    // Second row wraps to row 31; third row wraps to row 0.
    assert!(cpu.pixel(62, 31));
    assert!(!cpu.pixel(63, 31));
    assert!(cpu.pixel(1, 31));
    assert!(cpu.pixel(62, 0));
    assert!(cpu.pixel(1, 0));
    assert!(cpu.pixel(62, 2));
    assert!(cpu.pixel(0, 2));
    assert!(cpu.needs_redraw());
}

#[test]
fn drawing_over_lit_pixels_reports_collision() {
    // I = glyph 0; draw at (0, 0); I = glyph 1; draw at (0, 0).
    let mut cpu = machine_with(&[0xA0, 0x50, 0xD0, 0x05, 0xA0, 0x55, 0xD0, 0x05]);
    run_steps(&mut cpu, 2);
    assert_eq!(cpu.register(FLAG_REGISTER), 0);
    run_steps(&mut cpu, 2);
    assert_eq!(cpu.register(FLAG_REGISTER), 1);
}

#[test]
fn draw_past_end_of_memory_fails() {
    // I = 0xFFE; draw 5 rows.
    let mut cpu = machine_with(&[0xAF, 0xFE, 0xD0, 0x05]);
    cpu.step().unwrap();
    assert_eq!(cpu.step(), Err(ExecutionError::MemoryOutOfBounds));
    assert_eq!(cpu.pc(), 0x202);
    assert_eq!(lit_count(&cpu), 0);
}

#[test]
fn store_then_load_restores_registers() {
    // I = 0x400; store V0..=V3; clear V0..V3; load V0..=V3.
    let mut cpu = machine_with(&[
        0xA4, 0x00, 0xF3, 0x55, 0x60, 0x00, 0x61, 0x00, 0x62, 0x00, 0x63, 0x00, 0xF3, 0x65,
    ]);
    let values = [9u8, 8, 7, 6];
    for (k, val) in values.iter().enumerate() {
        cpu.set_register(k, *val);
    }
    cpu.set_register(4, 42);
    run_steps(&mut cpu, 7);
    for (k, val) in values.iter().enumerate() {
        assert_eq!(cpu.register(k), *val);
    }
    assert_eq!(cpu.register(4), 42);
    assert_eq!(cpu.index(), 0x400);
}

#[test]
fn store_into_glyph_table_fails() {
    // I = 0x50; store V0.
    let mut cpu = machine_with(&[0xA0, 0x50, 0xF0, 0x55]);
    cpu.set_register(0, 0x12);
    cpu.step().unwrap();
    assert_eq!(cpu.step(), Err(ExecutionError::MemoryOutOfBounds));
    assert_eq!(cpu.read_memory(0x50), Ok(0xF0));
    assert_eq!(cpu.pc(), 0x202);
}

#[test]
fn load_past_end_of_memory_fails() {
    // I = 0xFFF; load V0..=V1.
    let mut cpu = machine_with(&[0xAF, 0xFF, 0xF1, 0x65]);
    cpu.step().unwrap();
    assert_eq!(cpu.step(), Err(ExecutionError::MemoryOutOfBounds));
}

#[test]
fn bcd_writes_three_digits() {
    // I = 0x300; V5 = 234; BCD V5.
    let mut cpu = machine_with(&[0xA3, 0x00, 0x65, 0xEA, 0xF5, 0x33]);
    run_steps(&mut cpu, 3);
    assert_eq!(cpu.read_memory(0x300), Ok(2));
    assert_eq!(cpu.read_memory(0x301), Ok(3));
    assert_eq!(cpu.read_memory(0x302), Ok(4));

    let mut cpu = machine_with(&[0xA3, 0x00, 0x65, 0x07, 0xF5, 0x33]);
    run_steps(&mut cpu, 3);
    assert_eq!(cpu.read_memory(0x300), Ok(0));
    assert_eq!(cpu.read_memory(0x301), Ok(0));
    assert_eq!(cpu.read_memory(0x302), Ok(7));
}

#[test]
fn bcd_past_end_of_memory_fails() {
    let mut cpu = machine_with(&[0xAF, 0xFE, 0xF0, 0x33]);
    cpu.step().unwrap();
    assert_eq!(cpu.step(), Err(ExecutionError::MemoryOutOfBounds));
}

#[test]
fn wait_for_key_suspends_until_key_down() {
    // Wait for a key into V3; then V4 = V3.
    let mut cpu = machine_with(&[0xF3, 0x0A, 0x84, 0x30]);
    assert_eq!(cpu.step(), Ok(StepOutcome::Executed(Instruction::WaitKey(3))));
    assert!(cpu.is_waiting());
    assert_eq!(cpu.pc(), 0x200);
    for _ in 0..5 {
        assert_eq!(cpu.step(), Ok(StepOutcome::WaitingForKey));
        cpu.tick_timers();
    }
    assert_eq!(cpu.pc(), 0x200);
    assert!(cpu.is_waiting());
    cpu.key_down(0xB);
    assert!(!cpu.is_waiting());
    assert_eq!(cpu.register(3), 0xB);
    assert_eq!(cpu.pc(), 0x200);
    assert_eq!(cpu.step(), Ok(StepOutcome::Executed(Instruction::WaitKey(3))));
    assert_eq!(cpu.pc(), 0x202);
    assert_eq!(cpu.step(), Ok(StepOutcome::Executed(Instruction::Copy(4, 3))));
    assert_eq!(cpu.register(4), 0xB);
    assert_eq!(cpu.pc(), 0x204);
}

#[test]
fn running_a_word_while_waiting_does_nothing() {
    let mut cpu = machine_with(&[0xF0, 0x0A]);
    cpu.step().unwrap();
    assert!(cpu.is_waiting());
    // V0 = 5, offered while the machine waits.
    assert_eq!(cpu.decode_and_run_instruction(0x6005), Ok(StepOutcome::WaitingForKey));
    assert_eq!(decode_and_run_instruction(&mut cpu, 0x6005, 0), Ok(StepOutcome::WaitingForKey));
    assert_eq!(cpu.register(0), 0);
    assert_eq!(cpu.pc(), 0x200);
    assert!(cpu.is_waiting());
    cpu.key_down(2);
    assert_eq!(
        decode_and_run_instruction(&mut cpu, 0x6005, 0),
        Ok(StepOutcome::Executed(Instruction::WaitKey(0)))
    );
    assert_eq!(cpu.register(0), 2);
    assert_eq!(cpu.pc(), 0x202);
    assert_eq!(decode_and_run_instruction(&mut cpu, 0x6005, 0), Ok(StepOutcome::Executed(Instruction::LoadImm(0, 5))));
    assert_eq!(cpu.register(0), 5);
}

#[test]
fn key_skips_follow_keypad() {
    // V0 = 7; skip if key V0 down; skip if key V0 up.
    let mut cpu = machine_with(&[0x60, 0x07, 0xE0, 0x9E, 0x00, 0x00, 0xE0, 0xA1]);
    cpu.step().unwrap();
    cpu.key_down(7);
    assert!(cpu.is_key_down(7));
    cpu.step().unwrap();
    assert_eq!(cpu.pc(), 0x206);
    cpu.key_up(7);
    assert!(!cpu.is_key_down(7));
    cpu.step().unwrap();
    assert_eq!(cpu.pc(), 0x20A);
}

#[test]
fn conditional_skips() {
    // V0 = 5; skip if V0 == 5; (skipped); skip if V0 != 5; V1 = V0; skip if V0 == V1; (skipped); skip if V0 != V1.
    let mut cpu = machine_with(&[
        0x60, 0x05, 0x30, 0x05, 0x00, 0x00, 0x40, 0x05, 0x81, 0x00, 0x50, 0x10, 0x00, 0x00, 0x90,
        0x10,
    ]);
    cpu.step().unwrap();
    cpu.step().unwrap();
    assert_eq!(cpu.pc(), 0x206);
    cpu.step().unwrap();
    assert_eq!(cpu.pc(), 0x208);
    cpu.step().unwrap();
    cpu.step().unwrap();
    assert_eq!(cpu.pc(), 0x20E);
    cpu.step().unwrap();
    assert_eq!(cpu.pc(), 0x210);
}

#[test]
fn timers_count_down_and_stop_at_zero() {
    // V0 = 2; delay = V0; sound = V0; V1 = delay.
    let mut cpu = machine_with(&[0x60, 0x02, 0xF0, 0x15, 0xF0, 0x18, 0xF1, 0x07]);
    run_steps(&mut cpu, 3);
    assert_eq!(cpu.delay_timer(), 2);
    assert_eq!(cpu.sound_timer(), 2);
    cpu.tick_timers();
    cpu.step().unwrap();
    assert_eq!(cpu.register(1), 1);
    cpu.tick_timers();
    cpu.tick_timers();
    assert_eq!(cpu.delay_timer(), 0);
    assert_eq!(cpu.sound_timer(), 0);
}

#[test]
fn jumps_set_the_program_counter() {
    let mut cpu = machine_with(&[0x13, 0x45]);
    cpu.step().unwrap();
    assert_eq!(cpu.pc(), 0x345);

    let mut cpu = machine_with(&[0x60, 0x10, 0xB3, 0x00]);
    run_steps(&mut cpu, 2);
    assert_eq!(cpu.pc(), 0x310);

    let mut cpu = machine_with(&[0x03, 0x00]);
    cpu.step().unwrap();
    assert_eq!(cpu.pc(), 0x300);
}

#[test]
fn index_register_ops() {
    // I = 0x100; V2 = 0x20; I += V2; V3 = 0x1A; I = glyph of V3's low nibble.
    let mut cpu = machine_with(&[0xA1, 0x00, 0x62, 0x20, 0xF2, 0x1E, 0x63, 0x1A, 0xF3, 0x29]);
    run_steps(&mut cpu, 3);
    assert_eq!(cpu.index(), 0x120);
    run_steps(&mut cpu, 2);
    assert_eq!(cpu.index(), (FONT_START + 5 * 0xA) as u16);
}

#[test]
fn random_is_masked() {
    let mut cpu = machine_with(&[0xC0, 0x00, 0xC1, 0x0F]);
    cpu.set_register(0, 99);
    cpu.step().unwrap();
    assert_eq!(cpu.register(0), 0);
    cpu.step().unwrap();
    assert!(cpu.register(1) <= 0x0F);
}

#[test]
fn run_word_with_given_random_byte() {
    let mut cpu = CPU::new();
    assert_eq!(
        decode_and_run_instruction(&mut cpu, 0xC3, 0xFF),
        Ok(StepOutcome::Executed(Instruction::System(0xC3)))
    );
    let mut cpu = CPU::new();
    assert_eq!(
        decode_and_run_instruction(&mut cpu, 0xC33C, 0xAA),
        Ok(StepOutcome::Executed(Instruction::Random(3, 0x3C)))
    );
    assert_eq!(cpu.register(3), 0x28);
    assert_eq!(cpu.pc(), 0x202);
}

#[test]
fn unrecognized_opcode_fails_without_change() {
    let mut cpu = machine_with(&[0x50, 0x11, 0x8A, 0xBF, 0xFF, 0xFF, 0xE0, 0x00]);
    assert_eq!(cpu.step(), Err(ExecutionError::UnrecognizedOpcode));
    assert_eq!(cpu.pc(), 0x200);
    let mut cpu = CPU::new();
    for w in [0x8ABFu16, 0xFFFF, 0xE000, 0x9121, 0xF0FF] {
        assert_eq!(decode_and_run_instruction(&mut cpu, w, 0), Err(ExecutionError::UnrecognizedOpcode));
    }
    assert_eq!(cpu.pc(), 0x200);
}

#[test]
fn fetch_past_end_of_memory_fails() {
    let mut cpu = machine_with(&[0x1F, 0xFF]);
    cpu.step().unwrap();
    assert_eq!(cpu.pc(), 0xFFF);
    assert_eq!(cpu.step(), Err(ExecutionError::MemoryOutOfBounds));
}

#[test]
fn memory_accessors_check_bounds() {
    let mut cpu = CPU::new();
    assert_eq!(cpu.read_memory(4096), Err(ExecutionError::MemoryOutOfBounds));
    assert_eq!(cpu.write_memory(4096, 1), Err(ExecutionError::MemoryOutOfBounds));
    assert_eq!(cpu.write_memory(FONT_START + 3, 1), Err(ExecutionError::MemoryOutOfBounds));
    assert_eq!(cpu.write_memory(0xFFF, 7), Ok(()));
    assert_eq!(cpu.read_memory(0xFFF), Ok(7));
    assert_eq!(cpu.write_memory(0x0, 5), Ok(()));
    assert_eq!(cpu.read_memory(0x0), Ok(5));
}

#[test]
fn oversized_program_is_refused() {
    let mut cpu = CPU::new();
    let big = vec![1u8; 4096 - 0x200 + 1];
    assert_eq!(cpu.load_program(&big), Err(ExecutionError::MemoryOutOfBounds));
    assert_eq!(cpu.read_memory(0x200), Ok(0));
    let fits = vec![1u8; 4096 - 0x200];
    assert_eq!(cpu.load_program(&fits), Ok(()));
    assert_eq!(cpu.read_memory(0xFFF), Ok(1));
}

#[test]
fn decode_table() {
    assert_eq!(decode(0x00E0), Some(Instruction::ClearScreen));
    assert_eq!(decode(0x00EE), Some(Instruction::Return));
    assert_eq!(decode(0x0123), Some(Instruction::System(0x123)));
    assert_eq!(decode(0x1ABC), Some(Instruction::Jump(0xABC)));
    assert_eq!(decode(0x2ABC), Some(Instruction::Call(0xABC)));
    assert_eq!(decode(0x3A12), Some(Instruction::SkipEqImm(0xA, 0x12)));
    assert_eq!(decode(0x4A12), Some(Instruction::SkipNeImm(0xA, 0x12)));
    assert_eq!(decode(0x5AB0), Some(Instruction::SkipEqReg(0xA, 0xB)));
    assert_eq!(decode(0x6A12), Some(Instruction::LoadImm(0xA, 0x12)));
    assert_eq!(decode(0x7A12), Some(Instruction::AddImm(0xA, 0x12)));
    assert_eq!(decode(0x8AB0), Some(Instruction::Copy(0xA, 0xB)));
    assert_eq!(decode(0x8AB1), Some(Instruction::Or(0xA, 0xB)));
    assert_eq!(decode(0x8AB2), Some(Instruction::And(0xA, 0xB)));
    assert_eq!(decode(0x8AB3), Some(Instruction::Xor(0xA, 0xB)));
    assert_eq!(decode(0x8AB4), Some(Instruction::AddReg(0xA, 0xB)));
    assert_eq!(decode(0x8AB5), Some(Instruction::Sub(0xA, 0xB)));
    assert_eq!(decode(0x8AB6), Some(Instruction::ShiftRight(0xA, 0xB)));
    assert_eq!(decode(0x8AB7), Some(Instruction::SubReverse(0xA, 0xB)));
    assert_eq!(decode(0x8ABE), Some(Instruction::ShiftLeft(0xA, 0xB)));
    assert_eq!(decode(0x9AB0), Some(Instruction::SkipNeReg(0xA, 0xB)));
    assert_eq!(decode(0xA123), Some(Instruction::SetIndex(0x123)));
    assert_eq!(decode(0xB123), Some(Instruction::JumpOffset(0x123)));
    assert_eq!(decode(0xCA12), Some(Instruction::Random(0xA, 0x12)));
    assert_eq!(decode(0xDAB7), Some(Instruction::Draw(0xA, 0xB, 7)));
    assert_eq!(decode(0xEA9E), Some(Instruction::SkipKey(0xA)));
    assert_eq!(decode(0xEAA1), Some(Instruction::SkipNoKey(0xA)));
    assert_eq!(decode(0xFA07), Some(Instruction::LoadDelay(0xA)));
    assert_eq!(decode(0xFA0A), Some(Instruction::WaitKey(0xA)));
    assert_eq!(decode(0xFA15), Some(Instruction::SetDelay(0xA)));
    assert_eq!(decode(0xFA18), Some(Instruction::SetSound(0xA)));
    assert_eq!(decode(0xFA1E), Some(Instruction::AddIndex(0xA)));
    assert_eq!(decode(0xFA29), Some(Instruction::FontSprite(0xA)));
    assert_eq!(decode(0xFA33), Some(Instruction::Bcd(0xA)));
    assert_eq!(decode(0xFA55), Some(Instruction::StoreRegs(0xA)));
    assert_eq!(decode(0xFA65), Some(Instruction::LoadRegs(0xA)));
    assert_eq!(decode(0x5AB1), None);
    assert_eq!(decode(0x8AB8), None);
    assert_eq!(decode(0x9AB1), None);
    assert_eq!(decode(0xEA9F), None);
    assert_eq!(decode(0xFA66), None);
}

#[test]
fn handlers_called_directly() {
    let mut cpu = CPU::new();
    assert_eq!(cpu.op_00ee(), Err(ExecutionError::StackUnderflow));
    assert_eq!(cpu.pc(), 0x200);
    assert_eq!(cpu.op_2nnn(0x400), Ok(()));
    assert_eq!(cpu.pc(), 0x400);
    assert_eq!(cpu.op_00ee(), Ok(()));
    assert_eq!(cpu.pc(), 0x202);
    cpu.set_register(2, 0b1100_0001);
    cpu.op_8xye(1, 2);
    assert_eq!(cpu.register(1), 0b1000_0010);
    assert_eq!(cpu.register(FLAG_REGISTER), 1);
    cpu.op_8xy6(1, 2);
    assert_eq!(cpu.register(1), 0b0110_0000);
    assert_eq!(cpu.register(FLAG_REGISTER), 1);
    cpu.op_00e0();
    assert_eq!(lit_count(&cpu), 0);
    assert!(cpu.needs_redraw());
}
