use chip8::instruction::{Instruction, InstructionError};

#[test]
fn test_decode_clear_display() {
    let instruction = Instruction::new(0x00E0).expect("Error decoding instruction");
    assert_eq!(instruction, Instruction::ClearDisplay);
}

#[test]
fn test_decode_return() {
    let instruction = Instruction::new(0x00EE).expect("Error decoding instruction");
    assert_eq!(instruction, Instruction::Return);
}

#[test]
fn test_decode_jump() {
    let instruction = Instruction::new(0x1A2A).expect("Error decoding instruction");
    assert_eq!(instruction, Instruction::Jump(0x0A2A));
}

#[test]
fn test_decode_call() {
    let instruction = Instruction::new(0x2F4A).expect("Error decoding instruction");
    assert_eq!(instruction, Instruction::Call(0x0F4A));
}

#[test]
fn test_decode_skip_if_equals_byte() {
    let instruction = Instruction::new(0x3B72).expect("Error decoding instruction");
    assert_eq!(instruction, Instruction::SkipIfEqualsByte(0xB, 0x72));
}

#[test]
fn test_decode_skip_if_not_equals_byte() {
    let instruction = Instruction::new(0x4B72).expect("Error decoding instruction");
    assert_eq!(instruction, Instruction::SkipIfNotEqualsByte(0xB, 0x72));
}

#[test]
fn test_decode_skip_if_equals_register() {
    let instruction = Instruction::new(0x5BC2).expect("Error decoding instruction");
    assert_eq!(instruction, Instruction::SkipIfEqualsRegister(0xB, 0xC));
}

#[test]
fn test_decode_load_byte() {
    let instruction = Instruction::new(0x63A7).expect("Error decoding instruction");
    assert_eq!(instruction, Instruction::LoadByte(0x3, 0xA7));
}

#[test]
fn test_decode_add_byte() {
    let instruction = Instruction::new(0x7543).expect("Error decoding instruction");
    assert_eq!(instruction, Instruction::AddByte(0x5, 0x43));
}

#[test]
fn test_decode_move() {
    let instruction = Instruction::new(0x8BC0).expect("Error decoding instruction");
    assert_eq!(instruction, Instruction::Move(0xB, 0xC));
}

#[test]
fn test_decode_or() {
    let instruction = Instruction::new(0x8371).expect("Error decoding instruction");
    assert_eq!(instruction, Instruction::Or(0x3, 0x7));
}

#[test]
fn test_decode_and() {
    let instruction = Instruction::new(0x8422).expect("Error decoding instruction");
    assert_eq!(instruction, Instruction::And(0x4, 0x2));
}

#[test]
fn test_decode_xor() {
    let instruction = Instruction::new(0x8753).expect("Error decoding instruction");
    assert_eq!(instruction, Instruction::Xor(0x7, 0x5));
}

#[test]
fn test_decode_add() {
    let instruction = Instruction::new(0x8C34).expect("Error decoding instruction");
    assert_eq!(instruction, Instruction::Add(0xC, 0x3));
}

#[test]
fn test_decode_subtract() {
    let instruction = Instruction::new(0x83B5).expect("Error decoding instruction");
    assert_eq!(instruction, Instruction::Subtract(0x3, 0xB));
}

#[test]
fn test_decode_shift_right() {
    let instruction = Instruction::new(0x82A6).expect("Error decoding instruction");
    assert_eq!(instruction, Instruction::ShiftRight(0x2, 0xA));
}

#[test]
fn test_decode_subtract_reverse() {
    let instruction = Instruction::new(0x8C87).expect("Error decoding instruction");
    assert_eq!(instruction, Instruction::SubtractReverse(0xC, 0x8));
}

#[test]
fn test_decode_shif_left() {
    let instruction = Instruction::new(0x842E).expect("Error decoding instruction");
    assert_eq!(instruction, Instruction::ShifLeft(0x4, 0x2));
}

#[test]
fn test_decode_skip_if_not_equals_register() {
    let instruction = Instruction::new(0x9C43).expect("Error decoding instruction");
    assert_eq!(instruction, Instruction::SkipIfNotEqualsRegister(0xC, 0x4));
}

#[test]
fn test_decode_load_index() {
    let instruction = Instruction::new(0xA527).expect("Error decoding instruction");
    assert_eq!(instruction, Instruction::LoadIndex(0x0527));
}

#[test]
fn test_decode_jump_with_offset() {
    let instruction = Instruction::new(0xB82A).expect("Error decoding instruction");
    assert_eq!(instruction, Instruction::JumpWithOffset(0x082A));
}

#[test]
fn test_decode_random_with_mask() {
    let instruction = Instruction::new(0xC82A).expect("Error decoding instruction");
    assert_eq!(instruction, Instruction::RandomWithMask(0x8, 0x2A));
}

#[test]
fn test_decode_draw() {
    let instruction = Instruction::new(0xD8E1).expect("Error decoding instruction");
    assert_eq!(instruction, Instruction::Draw(0x8, 0xE, 0x1));
}

#[test]
fn test_decode_skip_if_pressed() {
    let instruction = Instruction::new(0xEA9E).expect("Error decoding instruction");
    assert_eq!(instruction, Instruction::SkipIfPressed(0xA));
}

#[test]
fn test_decode_skip_if_not_pressed() {
    let instruction = Instruction::new(0xEBA1).expect("Error decoding instruction");
    assert_eq!(instruction, Instruction::SkipIfNotPressed(0xB));
}

#[test]
fn test_decode_load_delay_timer() {
    let instruction = Instruction::new(0xF707).expect("Error decoding instruction");
    assert_eq!(instruction, Instruction::LoadDelayTimer(0x7));
}

#[test]
fn test_decode_wait_key_press() {
    let instruction = Instruction::new(0xF20A).expect("Error decoding instruction");
    assert_eq!(instruction, Instruction::WaitKeyPress(0x2));
}

#[test]
fn test_decode_store_delay_timer() {
    let instruction = Instruction::new(0xF415).expect("Error decoding instruction");
    assert_eq!(instruction, Instruction::StoreDelayTimer(0x4));
}

#[test]
fn test_decode_store_sound_timer() {
    let instruction = Instruction::new(0xFB18).expect("Error decoding instruction");
    assert_eq!(instruction, Instruction::StoreSoundTimer(0xB));
}

#[test]
fn test_decode_add_to_index() {
    let instruction = Instruction::new(0xF51E).expect("Error decoding instruction");
    assert_eq!(instruction, Instruction::AddToIndex(0x5));
}

#[test]
fn test_decode_load_sprite() {
    let instruction = Instruction::new(0xF629).expect("Error decoding instruction");
    assert_eq!(instruction, Instruction::LoadSprite(0x6));
}

#[test]
fn test_decode_store_bcd() {
    let instruction = Instruction::new(0xF133).expect("Error decoding instruction");
    assert_eq!(instruction, Instruction::StoreBCD(0x1));
}

#[test]
fn test_decode_store_registers() {
    let instruction = Instruction::new(0xF855).expect("Error decoding instruction");
    assert_eq!(instruction, Instruction::StoreRegisters(0x8));
}

#[test]
fn test_decode_load_registers() {
    let instruction = Instruction::new(0xF965).expect("Error decoding instruction");
    assert_eq!(instruction, Instruction::LoadRegisters(0x9));
}

#[test]
fn decode_rejects_unknown_patterns() {
    for op in [0x0000u16, 0x0123, 0x00E1, 0x8008, 0x800F, 0xE09F, 0xE000, 0xF000, 0xF0FF] {
        match Instruction::new(op) {
            Err(InstructionError::InvalidOpcode(o)) => assert_eq!(o, op),
            Ok(i) => panic!("{op:#06x} decoded to {i:?}"),
        }
    }
}

#[test]
fn decode_ignores_the_low_nibble_of_register_compares() {
    assert_eq!(
        Instruction::new(0x5AB3).unwrap(),
        Instruction::SkipIfEqualsRegister(0xA, 0xB)
    );
    assert_eq!(
        Instruction::new(0x9AB7).unwrap(),
        Instruction::SkipIfNotEqualsRegister(0xA, 0xB)
    );
}

#[test]
fn decode_takes_the_extreme_operands() {
    assert_eq!(Instruction::new(0x1FFF).unwrap(), Instruction::Jump(0xFFF));
    assert_eq!(Instruction::new(0x6FFF).unwrap(), Instruction::LoadByte(0xF, 0xFF));
    assert_eq!(Instruction::new(0xDFFF).unwrap(), Instruction::Draw(0xF, 0xF, 0xF));
    assert_eq!(Instruction::new(0xB000).unwrap(), Instruction::JumpWithOffset(0));
}
