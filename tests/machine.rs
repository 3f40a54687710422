use chip8::cpu::{Cpu, CpuError, DISPLAY_SIZE, DISPLAY_WIDTH};
use chip8::instruction::{Instruction, InstructionError};
use chip8::ram::MemoryError;

fn lit(cpu: &Cpu) -> usize {
    cpu.display.iter().filter(|p| **p).count()
}

#[test]
fn three_cycles_add_two_loaded_registers() {
    let mut cpu = Cpu::new();
    cpu.load_rom(&[0x60, 0x05, 0x61, 0x03, 0x80, 0x14]).unwrap();
    for _ in 0..3 {
        cpu.cycle().unwrap();
    }
    assert_eq!(cpu.registers[0], 8);
    assert_eq!(cpu.registers[0xF], 0);
    assert_eq!(cpu.pc, 0x206);
}

#[test]
fn two_cycles_then_executing_the_add_reaches_the_end() {
    let mut cpu = Cpu::new();
    cpu.load_rom(&[0x60, 0x05, 0x61, 0x03, 0x80, 0x14]).unwrap();
    cpu.cycle().unwrap();
    cpu.cycle().unwrap();
    let op = cpu.fetch().unwrap();
    let instruction = Cpu::decode(op).unwrap();
    assert_eq!(instruction, Instruction::Add(0, 1));
    cpu.execute(instruction).unwrap();
    assert_eq!(cpu.registers[0], 8);
    assert_eq!(cpu.registers[0xF], 0);
    assert_eq!(cpu.pc, 0x206);
}

#[test]
fn execute_moves_to_the_next_instruction() {
    let mut cpu = Cpu::new();
    cpu.pc = 0x300;
    cpu.execute(Instruction::LoadIndex(0x123)).unwrap();
    assert_eq!(cpu.pc, 0x302);
    cpu.execute(Instruction::Draw(0, 0, 1)).unwrap();
    assert_eq!(cpu.pc, 0x304);
    cpu.execute(Instruction::StoreBCD(0)).unwrap();
    assert_eq!(cpu.pc, 0x306);
    cpu.execute(Instruction::JumpWithOffset(0x400)).unwrap();
    assert_eq!(cpu.pc, 0x400);
}

#[test]
fn return_on_an_empty_stack_is_fatal() {
    let mut cpu = Cpu::new();
    cpu.load_rom(&[0x00, 0xEE]).unwrap();
    assert_eq!(cpu.sp, 0);
    assert_eq!(cpu.cycle(), Err(CpuError::StackUnderflow));
    assert_eq!(cpu.pc, 0x200);
    assert_eq!(cpu.sp, 0);
    assert_eq!(cpu.execute(Instruction::Return), Err(CpuError::StackUnderflow));
}

#[test]
fn sixteen_calls_then_sixteen_returns_restore_the_counter() {
    let mut cpu = Cpu::new();
    cpu.pc = 0x234;
    for k in 0..16u16 {
        cpu.execute(Instruction::Call(0x300 + 2 * k)).unwrap();
    }
    assert_eq!(cpu.sp, 16);
    assert_eq!(cpu.execute(Instruction::Call(0x400)), Err(CpuError::StackOverflow));
    assert_eq!(cpu.sp, 16);
    for _ in 0..16 {
        cpu.execute(Instruction::Return).unwrap();
    }
    assert_eq!(cpu.sp, 0);
    assert_eq!(cpu.pc, 0x236);
}

#[test]
fn call_in_a_cycle_returns_past_itself() {
    let mut cpu = Cpu::new();
    // 0x200: call 0x206; 0x202: load V1 with 9; 0x206: return
    cpu.load_rom(&[0x22, 0x06, 0x61, 0x09, 0x00, 0x00, 0x00, 0xEE]).unwrap();
    cpu.cycle().unwrap();
    assert_eq!(cpu.pc, 0x206);
    assert_eq!(cpu.stack[0], 0x202);
    cpu.cycle().unwrap();
    assert_eq!(cpu.pc, 0x202);
    cpu.cycle().unwrap();
    assert_eq!(cpu.registers[1], 9);
    assert_eq!(cpu.pc, 0x204);
}

#[test]
fn skip_in_a_cycle_moves_four_bytes() {
    let mut cpu = Cpu::new();
    cpu.load_rom(&[0x30, 0x00, 0x00, 0x00, 0x40, 0x00]).unwrap();
    cpu.cycle().unwrap();
    assert_eq!(cpu.pc, 0x204);
    cpu.cycle().unwrap();
    assert_eq!(cpu.pc, 0x206);
}

#[test]
fn cycle_reports_an_invalid_opcode() {
    let mut cpu = Cpu::new();
    cpu.load_rom(&[0x80, 0x08]).unwrap();
    assert_eq!(
        cpu.cycle(),
        Err(CpuError::Decode(InstructionError::InvalidOpcode(0x8008)))
    );
    assert_eq!(cpu.pc, 0x200);
}

#[test]
fn fetch_past_the_end_of_memory_fails() {
    let mut cpu = Cpu::new();
    cpu.pc = 0xFFF;
    assert_eq!(cpu.fetch(), Err(MemoryError::AddressOutOfRange));
    assert_eq!(cpu.cycle(), Err(CpuError::Memory(MemoryError::AddressOutOfRange)));
    cpu.pc = 0xFFE;
    assert_eq!(cpu.fetch(), Ok(0));
}

#[test]
fn decode_through_the_cpu() {
    assert_eq!(Cpu::decode(0xD123), Ok(Instruction::Draw(1, 2, 3)));
    assert_eq!(Cpu::decode(0x0123), Err(InstructionError::InvalidOpcode(0x0123)));
}

#[test]
fn draw_twice_restores_the_display_and_reports_collision() {
    let mut cpu = Cpu::new();
    cpu.registers[1] = 10;
    cpu.registers[2] = 4;
    cpu.registers[3] = 3;
    cpu.execute(Instruction::LoadSprite(3)).unwrap();
    cpu.execute(Instruction::Draw(1, 2, 5)).unwrap();
    assert_eq!(cpu.registers[0xF], 0);
    // glyph 3 is F0 10 F0 10 F0: 4 + 1 + 4 + 1 + 4 pixels
    assert_eq!(lit(&cpu), 14);
    assert!(cpu.display[4 * DISPLAY_WIDTH + 10]);
    assert!(cpu.display[4 * DISPLAY_WIDTH + 13]);
    assert!(!cpu.display[4 * DISPLAY_WIDTH + 14]);
    cpu.execute(Instruction::Draw(1, 2, 5)).unwrap();
    assert_eq!(cpu.registers[0xF], 1);
    assert_eq!(lit(&cpu), 0);
}

#[test]
fn draw_wraps_around_both_edges() {
    let mut cpu = Cpu::new();
    cpu.ram.memory[0x300] = 0xFF;
    cpu.ram.memory[0x301] = 0x81;
    cpu.i = 0x300;
    cpu.registers[0] = 62 + 64;
    cpu.registers[1] = 31;
    cpu.execute(Instruction::Draw(0, 1, 2)).unwrap();
    assert_eq!(lit(&cpu), 10);
    assert!(cpu.display[31 * DISPLAY_WIDTH + 62]);
    assert!(cpu.display[31 * DISPLAY_WIDTH + 63]);
    assert!(cpu.display[31 * DISPLAY_WIDTH + 0]);
    assert!(cpu.display[31 * DISPLAY_WIDTH + 5]);
    assert!(cpu.display[62]);
    assert!(!cpu.display[63]);
    assert!(cpu.display[5]);
}

#[test]
fn draw_with_no_sprite_rows_only_clears_the_flag() {
    let mut cpu = Cpu::new();
    cpu.registers[0xF] = 1;
    cpu.execute(Instruction::Draw(0, 0, 0)).unwrap();
    assert_eq!(cpu.registers[0xF], 0);
    assert_eq!(lit(&cpu), 0);
}

#[test]
fn draw_past_the_end_of_memory_fails() {
    let mut cpu = Cpu::new();
    cpu.i = 0xFFE;
    assert_eq!(
        cpu.execute(Instruction::Draw(0, 0, 3)),
        Err(CpuError::Memory(MemoryError::AddressOutOfRange))
    );
    assert_eq!(lit(&cpu), 0);
}

#[test]
fn clear_display_turns_every_pixel_off() {
    let mut cpu = Cpu::new();
    cpu.display = [true; DISPLAY_SIZE];
    cpu.execute(Instruction::ClearDisplay).unwrap();
    assert_eq!(lit(&cpu), 0);
}

#[test]
fn store_bcd_writes_three_digits() {
    let mut cpu = Cpu::new();
    cpu.registers[4] = 254;
    cpu.i = 0x300;
    cpu.execute(Instruction::StoreBCD(4)).unwrap();
    assert_eq!(&cpu.ram.memory[0x300..0x303], &[2, 5, 4]);
    cpu.registers[4] = 7;
    cpu.execute(Instruction::StoreBCD(4)).unwrap();
    assert_eq!(&cpu.ram.memory[0x300..0x303], &[0, 0, 7]);
}

#[test]
fn store_bcd_past_the_end_fails_and_writes_nothing() {
    let mut cpu = Cpu::new();
    cpu.registers[0] = 123;
    cpu.i = 0xFFE;
    assert_eq!(
        cpu.execute(Instruction::StoreBCD(0)),
        Err(CpuError::Memory(MemoryError::AddressOutOfRange))
    );
    assert_eq!(cpu.ram.memory[0xFFE], 0);
    assert_eq!(cpu.ram.memory[0xFFF], 0);
}

#[test]
fn store_and_load_registers_are_inclusive() {
    let mut cpu = Cpu::new();
    for k in 0..16 {
        cpu.registers[k] = 10 + k as u8;
    }
    cpu.i = 0x400;
    cpu.execute(Instruction::StoreRegisters(3)).unwrap();
    assert_eq!(&cpu.ram.memory[0x400..0x405], &[10, 11, 12, 13, 0]);
    assert_eq!(cpu.i, 0x400);
    cpu.registers = [0; 16];
    cpu.execute(Instruction::LoadRegisters(2)).unwrap();
    assert_eq!(&cpu.registers[0..4], &[10, 11, 12, 0]);
}

#[test]
fn bulk_transfer_past_the_end_fails() {
    let mut cpu = Cpu::new();
    cpu.i = 0xFF8;
    cpu.registers[0] = 5;
    let err = Err(CpuError::Memory(MemoryError::AddressOutOfRange));
    assert_eq!(cpu.execute(Instruction::StoreRegisters(0xF)), err);
    assert_eq!(cpu.execute(Instruction::LoadRegisters(0xF)), err);
    assert_eq!(cpu.registers[0], 5);
    assert_eq!(cpu.execute(Instruction::StoreRegisters(0x7)), Ok(()));
}

#[test]
fn load_sprite_points_at_the_glyph() {
    let mut cpu = Cpu::new();
    cpu.registers[6] = 0x1A;
    cpu.execute(Instruction::LoadSprite(6)).unwrap();
    assert_eq!(cpu.i, 50);
    assert_eq!(&cpu.ram.memory[50..55], &[0xF0, 0x90, 0xF0, 0x90, 0x90]);
}

#[test]
fn wait_key_press_holds_until_a_key_is_down() {
    let mut cpu = Cpu::new();
    cpu.load_rom(&[0xF3, 0x0A]).unwrap();
    cpu.cycle().unwrap();
    assert_eq!(cpu.pc, 0x200);
    cpu.keys[9] = true;
    cpu.keys[5] = true;
    cpu.cycle().unwrap();
    assert_eq!(cpu.registers[3], 5);
    assert_eq!(cpu.pc, 0x202);
}

#[test]
fn key_skips_read_the_keypad() {
    let mut cpu = Cpu::new();
    cpu.pc = 0x300;
    cpu.registers[2] = 0xC;
    cpu.execute(Instruction::SkipIfPressed(2)).unwrap();
    assert_eq!(cpu.pc, 0x302);
    cpu.execute(Instruction::SkipIfNotPressed(2)).unwrap();
    assert_eq!(cpu.pc, 0x306);
    cpu.keys[0xC] = true;
    cpu.execute(Instruction::SkipIfPressed(2)).unwrap();
    assert_eq!(cpu.pc, 0x30A);
    cpu.execute(Instruction::SkipIfNotPressed(2)).unwrap();
    assert_eq!(cpu.pc, 0x30C);
}

#[test]
fn random_with_mask_masks_the_supplied_byte() {
    let mut cpu = Cpu::new();
    cpu.random = 0xB7;
    cpu.execute(Instruction::RandomWithMask(4, 0x0F)).unwrap();
    assert_eq!(cpu.registers[4], 0x07);
}

#[test]
fn add_byte_wraps_without_touching_the_flag() {
    let mut cpu = Cpu::new();
    cpu.registers[1] = 250;
    cpu.registers[0xF] = 7;
    cpu.execute(Instruction::AddByte(1, 10)).unwrap();
    assert_eq!(cpu.registers[1], 4);
    assert_eq!(cpu.registers[0xF], 7);
}

#[test]
fn add_sets_the_flag_at_exactly_256() {
    let mut cpu = Cpu::new();
    cpu.registers[0] = 255;
    cpu.registers[1] = 1;
    cpu.execute(Instruction::Add(0, 1)).unwrap();
    assert_eq!(cpu.registers[0], 0);
    assert_eq!(cpu.registers[0xF], 1);
    cpu.registers[0] = 254;
    cpu.execute(Instruction::Add(0, 1)).unwrap();
    assert_eq!(cpu.registers[0], 255);
    assert_eq!(cpu.registers[0xF], 0);
}

#[test]
fn subtract_of_equal_values_has_no_borrow() {
    let mut cpu = Cpu::new();
    cpu.registers[3] = 77;
    cpu.registers[4] = 77;
    cpu.execute(Instruction::Subtract(3, 4)).unwrap();
    assert_eq!(cpu.registers[3], 0);
    assert_eq!(cpu.registers[0xF], 1);
}

#[test]
fn flag_register_as_target_keeps_the_flag() {
    let mut cpu = Cpu::new();
    cpu.registers[0xF] = 200;
    cpu.registers[1] = 100;
    cpu.execute(Instruction::Add(0xF, 1)).unwrap();
    assert_eq!(cpu.registers[0xF], 1);
}

#[test]
fn logic_ops_leave_the_flag() {
    let mut cpu = Cpu::new();
    cpu.registers[0] = 0b1100;
    cpu.registers[1] = 0b1010;
    cpu.registers[0xF] = 9;
    cpu.execute(Instruction::Or(0, 1)).unwrap();
    assert_eq!(cpu.registers[0], 0b1110);
    assert_eq!(cpu.registers[0xF], 9);
}

#[test]
fn timers_count_down_to_zero() {
    let mut cpu = Cpu::new();
    cpu.delay_timer = 2;
    cpu.sound_timer = 1;
    cpu.tick_timers();
    assert_eq!((cpu.delay_timer, cpu.sound_timer), (1, 0));
    cpu.tick_timers();
    cpu.tick_timers();
    assert_eq!((cpu.delay_timer, cpu.sound_timer), (0, 0));
}

#[test]
fn add_to_index_wraps_at_sixteen_bits() {
    let mut cpu = Cpu::new();
    cpu.i = 0xFFFF;
    cpu.registers[0] = 2;
    cpu.execute(Instruction::AddToIndex(0)).unwrap();
    assert_eq!(cpu.i, 1);
}

#[test]
fn new_cpu_is_reset() {
    let cpu = Cpu::new();
    assert_eq!(cpu.pc, 0x200);
    assert_eq!(cpu.sp, 0);
    assert_eq!(cpu.i, 0);
    assert_eq!(cpu.registers, [0; 16]);
    assert_eq!(lit(&cpu), 0);
}

#[test]
fn load_rom_rejects_an_oversized_image() {
    let mut cpu = Cpu::new();
    assert_eq!(cpu.load_rom(&vec![1; 3585]), Err(MemoryError::RomTooLarge));
    assert_eq!(cpu.load_rom(&vec![1; 3584]), Ok(()));
    assert_eq!(cpu.ram.memory[0xFFF], 1);
}
