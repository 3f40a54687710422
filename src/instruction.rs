//! Decoding of 16-bit opcodes into the instruction set.

use vstd::prelude::*;

verus! {

/// A 12-bit memory address.
pub type Addr = u16;

/// A register index, 0x0 to 0xF.
pub type Reg = u8;

/// An 8-bit literal.
pub type Byte = u8;

/// A 4-bit literal.
pub type Nibble = u8;

/// One decoded instruction with its operands.
#[derive(Clone, Copy, Debug, PartialEq, Eq, Structural)]
pub enum Instruction {
    /// 00E0: turn every pixel off.
    ClearDisplay,
    /// 00EE: pop the return address off the stack.
    Return,
    /// 1nnn: continue at `nnn`.
    Jump(Addr),
    /// 2nnn: push the address of the next instruction and continue at `nnn`.
    Call(Addr),
    /// 3xkk: skip the next instruction if `Vx == kk`.
    SkipIfEqualsByte(Reg, Byte),
    /// 4xkk: skip the next instruction if `Vx != kk`.
    SkipIfNotEqualsByte(Reg, Byte),
    /// 5xy_: skip the next instruction if `Vx == Vy`.
    SkipIfEqualsRegister(Reg, Reg),
    /// 6xkk: `Vx = kk`.
    LoadByte(Reg, Byte),
    /// 7xkk: `Vx = Vx + kk`, wrapping, flag untouched.
    AddByte(Reg, Byte),
    /// 8xy0: `Vx = Vy`.
    Move(Reg, Reg),
    /// 8xy1: `Vx = Vx | Vy`.
    Or(Reg, Reg),
    /// 8xy2: `Vx = Vx & Vy`.
    And(Reg, Reg),
    /// 8xy3: `Vx = Vx ^ Vy`.
    Xor(Reg, Reg),
    /// 8xy4: `Vx = Vx + Vy`, wrapping; flag = carry.
    Add(Reg, Reg),
    /// 8xy5: `Vx = Vx - Vy`, wrapping; flag = no borrow.
    Subtract(Reg, Reg),
    /// 8xy6: `Vx = Vx >> 1`; flag = the bit shifted out.
    ShiftRight(Reg, Reg),
    /// 8xy7: `Vx = Vy - Vx`, wrapping; flag = no borrow.
    SubtractReverse(Reg, Reg),
    /// 8xyE: `Vx = Vx << 1`; flag = the bit shifted out.
    ShifLeft(Reg, Reg),
    /// 9xy_: skip the next instruction if `Vx != Vy`.
    SkipIfNotEqualsRegister(Reg, Reg),
    /// Annn: `I = nnn`.
    LoadIndex(Addr),
    /// Bnnn: continue at `V0 + nnn`.
    JumpWithOffset(Addr),
    /// Cxkk: `Vx = random byte & kk`.
    RandomWithMask(Reg, Byte),
    /// Dxyn: XOR the `n`-row sprite at `I` onto the display at `(Vx, Vy)`; flag = collision.
    Draw(Reg, Reg, Nibble),
    /// Ex9E: skip the next instruction if key `Vx` is down.
    SkipIfPressed(Reg),
    /// ExA1: skip the next instruction if key `Vx` is up.
    SkipIfNotPressed(Reg),
    /// Fx07: `Vx = delay timer`.
    LoadDelayTimer(Reg),
    /// Fx0A: wait until a key is down and store its number in `Vx`.
    WaitKeyPress(Reg),
    /// Fx15: `delay timer = Vx`.
    StoreDelayTimer(Reg),
    /// Fx18: `sound timer = Vx`.
    StoreSoundTimer(Reg),
    /// Fx1E: `I = I + Vx`, wrapping at 16 bits.
    AddToIndex(Reg),
    /// Fx29: point `I` at the font glyph of the low nibble of `Vx`.
    LoadSprite(Reg),
    /// Fx33: store the three decimal digits of `Vx` at `I`, `I + 1`, `I + 2`.
    StoreBCD(Reg),
    /// Fx55: store `V0` through `Vx` at `I` onwards.
    StoreRegisters(Reg),
    /// Fx65: load `V0` through `Vx` from `I` onwards.
    LoadRegisters(Reg),
}

/// Why an opcode could not be decoded.
#[derive(Clone, Copy, Debug, PartialEq, Eq, Structural)]
pub enum InstructionError {
    /// The opcode matches no instruction; it is carried unchanged.
    InvalidOpcode(u16),
}

/// Bits 12 to 15: the instruction family.
pub open spec fn op_family(op: u16) -> u16 {
    op >> 12
}

/// Bits 8 to 11: the first register operand.
pub open spec fn op_x(op: u16) -> u8 {
    ((op & 0x0F00) >> 8) as u8
}

/// Bits 4 to 7: the second register operand.
pub open spec fn op_y(op: u16) -> u8 {
    ((op & 0x00F0) >> 4) as u8
}

/// Bits 0 to 3: a nibble operand or selector.
pub open spec fn op_n(op: u16) -> u8 {
    (op & 0x000F) as u8
}

/// Bits 0 to 7: a byte operand or selector.
pub open spec fn op_kk(op: u16) -> u8 {
    (op & 0x00FF) as u8
}

/// Bits 0 to 11: an address operand.
pub open spec fn op_nnn(op: u16) -> u16 {
    op & 0x0FFF
}

/// The instruction set's encoding table: the instruction an opcode stands
/// for, if any.
pub open spec fn decode_spec(op: u16) -> Option<Instruction> {
    let (x, y, n, kk, nnn) = (op_x(op), op_y(op), op_n(op), op_kk(op), op_nnn(op));
    let family = op_family(op);
    if op == 0x00E0 {
        Some(Instruction::ClearDisplay)
    } else if op == 0x00EE {
        Some(Instruction::Return)
    } else if family == 0x1 {
        Some(Instruction::Jump(nnn))
    } else if family == 0x2 {
        Some(Instruction::Call(nnn))
    } else if family == 0x3 {
        Some(Instruction::SkipIfEqualsByte(x, kk))
    } else if family == 0x4 {
        Some(Instruction::SkipIfNotEqualsByte(x, kk))
    } else if family == 0x5 {
        Some(Instruction::SkipIfEqualsRegister(x, y))
    } else if family == 0x6 {
        Some(Instruction::LoadByte(x, kk))
    } else if family == 0x7 {
        Some(Instruction::AddByte(x, kk))
    } else if family == 0x8 {
        if n == 0x0 {
            Some(Instruction::Move(x, y))
        } else if n == 0x1 {
            Some(Instruction::Or(x, y))
        } else if n == 0x2 {
            Some(Instruction::And(x, y))
        } else if n == 0x3 {
            Some(Instruction::Xor(x, y))
        } else if n == 0x4 {
            Some(Instruction::Add(x, y))
        } else if n == 0x5 {
            Some(Instruction::Subtract(x, y))
        } else if n == 0x6 {
            Some(Instruction::ShiftRight(x, y))
        } else if n == 0x7 {
            Some(Instruction::SubtractReverse(x, y))
        } else if n == 0xE {
            Some(Instruction::ShifLeft(x, y))
        } else {
            None
        }
    } else if family == 0x9 {
        Some(Instruction::SkipIfNotEqualsRegister(x, y))
    } else if family == 0xA {
        Some(Instruction::LoadIndex(nnn))
    } else if family == 0xB {
        Some(Instruction::JumpWithOffset(nnn))
    } else if family == 0xC {
        Some(Instruction::RandomWithMask(x, kk))
    } else if family == 0xD {
        Some(Instruction::Draw(x, y, n))
    } else if family == 0xE {
        if kk == 0x9E {
            Some(Instruction::SkipIfPressed(x))
        } else if kk == 0xA1 {
            Some(Instruction::SkipIfNotPressed(x))
        } else {
            None
        }
    } else if family == 0xF {
        if kk == 0x07 {
            Some(Instruction::LoadDelayTimer(x))
        } else if kk == 0x0A {
            Some(Instruction::WaitKeyPress(x))
        } else if kk == 0x15 {
            Some(Instruction::StoreDelayTimer(x))
        } else if kk == 0x18 {
            Some(Instruction::StoreSoundTimer(x))
        } else if kk == 0x1E {
            Some(Instruction::AddToIndex(x))
        } else if kk == 0x29 {
            Some(Instruction::LoadSprite(x))
        } else if kk == 0x33 {
            Some(Instruction::StoreBCD(x))
        } else if kk == 0x55 {
            Some(Instruction::StoreRegisters(x))
        } else if kk == 0x65 {
            Some(Instruction::LoadRegisters(x))
        } else {
            None
        }
    } else {
        None
    }
}

/// The result `Instruction::new` owes for `op`.
pub open spec fn decode_result(op: u16) -> Result<Instruction, InstructionError> {
    match decode_spec(op) {
        Some(i) => Ok(i),
        None => Err(InstructionError::InvalidOpcode(op)),
    }
}

/// Encodes a 4-bit family with a 12-bit address.
pub open spec fn pack_addr(family: u16, nnn: u16) -> u16 {
    family << 12 | nnn
}

/// Encodes a 4-bit family, a register and a byte.
pub open spec fn pack_byte(family: u16, x: u8, kk: u8) -> u16 {
    family << 12 | (x as u16) << 8 | kk as u16
}

/// Encodes a 4-bit family, two registers and a nibble.
pub open spec fn pack_regs(family: u16, x: u8, y: u8, n: u8) -> u16 {
    family << 12 | (x as u16) << 8 | (y as u16) << 4 | n as u16
}

/// The canonical opcode of an instruction.
pub open spec fn opcode_of(i: Instruction) -> u16 {
    match i {
        Instruction::ClearDisplay => 0x00E0,
        Instruction::Return => 0x00EE,
        Instruction::Jump(a) => pack_addr(0x1, a),
        Instruction::Call(a) => pack_addr(0x2, a),
        Instruction::SkipIfEqualsByte(x, kk) => pack_byte(0x3, x, kk),
        Instruction::SkipIfNotEqualsByte(x, kk) => pack_byte(0x4, x, kk),
        Instruction::SkipIfEqualsRegister(x, y) => pack_regs(0x5, x, y, 0),
        Instruction::LoadByte(x, kk) => pack_byte(0x6, x, kk),
        Instruction::AddByte(x, kk) => pack_byte(0x7, x, kk),
        Instruction::Move(x, y) => pack_regs(0x8, x, y, 0x0),
        Instruction::Or(x, y) => pack_regs(0x8, x, y, 0x1),
        Instruction::And(x, y) => pack_regs(0x8, x, y, 0x2),
        Instruction::Xor(x, y) => pack_regs(0x8, x, y, 0x3),
        Instruction::Add(x, y) => pack_regs(0x8, x, y, 0x4),
        Instruction::Subtract(x, y) => pack_regs(0x8, x, y, 0x5),
        Instruction::ShiftRight(x, y) => pack_regs(0x8, x, y, 0x6),
        Instruction::SubtractReverse(x, y) => pack_regs(0x8, x, y, 0x7),
        Instruction::ShifLeft(x, y) => pack_regs(0x8, x, y, 0xE),
        Instruction::SkipIfNotEqualsRegister(x, y) => pack_regs(0x9, x, y, 0),
        Instruction::LoadIndex(a) => pack_addr(0xA, a),
        Instruction::JumpWithOffset(a) => pack_addr(0xB, a),
        Instruction::RandomWithMask(x, kk) => pack_byte(0xC, x, kk),
        Instruction::Draw(x, y, n) => pack_regs(0xD, x, y, n),
        Instruction::SkipIfPressed(x) => pack_byte(0xE, x, 0x9E),
        Instruction::SkipIfNotPressed(x) => pack_byte(0xE, x, 0xA1),
        Instruction::LoadDelayTimer(x) => pack_byte(0xF, x, 0x07),
        Instruction::WaitKeyPress(x) => pack_byte(0xF, x, 0x0A),
        Instruction::StoreDelayTimer(x) => pack_byte(0xF, x, 0x15),
        Instruction::StoreSoundTimer(x) => pack_byte(0xF, x, 0x18),
        Instruction::AddToIndex(x) => pack_byte(0xF, x, 0x1E),
        Instruction::LoadSprite(x) => pack_byte(0xF, x, 0x29),
        Instruction::StoreBCD(x) => pack_byte(0xF, x, 0x33),
        Instruction::StoreRegisters(x) => pack_byte(0xF, x, 0x55),
        Instruction::LoadRegisters(x) => pack_byte(0xF, x, 0x65),
    }
}

proof fn lemma_pack_addr(family: u16, nnn: u16)
    requires
        family < 16,
        nnn < 0x1000,
    ensures
        op_family(pack_addr(family, nnn)) == family,
        op_nnn(pack_addr(family, nnn)) == nnn,
        family != 0 ==> pack_addr(family, nnn) != 0x00E0 && pack_addr(family, nnn) != 0x00EE,
{
    lemma_fixed_opcodes_family();
    assert((family << 12 | nnn) >> 12 == family && (family << 12 | nnn) & 0x0FFF == nnn)
        by (bit_vector)
        requires
            family < 16,
            nnn < 0x1000,
    ;
}

proof fn lemma_pack_byte(family: u16, x: u8, kk: u8)
    requires
        family < 16,
        x < 16,
    ensures
        op_family(pack_byte(family, x, kk)) == family,
        op_x(pack_byte(family, x, kk)) == x,
        op_kk(pack_byte(family, x, kk)) == kk,
        family != 0 ==> pack_byte(family, x, kk) != 0x00E0 && pack_byte(family, x, kk) != 0x00EE,
{
    let (xw, kw) = (x as u16, kk as u16);
    lemma_fixed_opcodes_family();
    assert({
        let op = family << 12 | xw << 8 | kw;
        &&& op >> 12 == family
        &&& (op & 0x0F00) >> 8 == xw
        &&& op & 0x00FF == kw
    }) by (bit_vector)
        requires
            family < 16,
            xw < 16,
            kw < 256,
    ;
}

proof fn lemma_pack_regs(family: u16, x: u8, y: u8, n: u8)
    requires
        family < 16,
        x < 16,
        y < 16,
        n < 16,
    ensures
        op_family(pack_regs(family, x, y, n)) == family,
        op_x(pack_regs(family, x, y, n)) == x,
        op_y(pack_regs(family, x, y, n)) == y,
        op_n(pack_regs(family, x, y, n)) == n,
        family != 0 ==> pack_regs(family, x, y, n) != 0x00E0 && pack_regs(family, x, y, n)
            != 0x00EE,
{
    let (xw, yw, nw) = (x as u16, y as u16, n as u16);
    lemma_fixed_opcodes_family();
    assert({
        let op = family << 12 | xw << 8 | yw << 4 | nw;
        &&& op >> 12 == family
        &&& (op & 0x0F00) >> 8 == xw
        &&& (op & 0x00F0) >> 4 == yw
        &&& op & 0x000F == nw
    }) by (bit_vector)
        requires
            family < 16,
            xw < 16,
            yw < 16,
            nw < 16,
    ;
}

proof fn lemma_fixed_opcodes_family()
    ensures
        op_family(0x00E0) == 0,
        op_family(0x00EE) == 0,
{
    assert(0x00E0u16 >> 12 == 0 && 0x00EEu16 >> 12 == 0) by (bit_vector);
}

proof fn lemma_fields_in_range(op: u16)
    ensures
        op_x(op) < 16,
        op_y(op) < 16,
        op_n(op) < 16,
        op_nnn(op) < 0x1000,
{
    assert((op & 0x0F00) >> 8 < 16 && (op & 0x00F0) >> 4 < 16 && op & 0x000F < 16 && op
        & 0x0FFF < 0x1000) by (bit_vector);
}

impl Instruction {
    /// Operands are in range: registers and nibbles below 16, addresses
    /// below 0x1000.
    pub open spec fn wf(self) -> bool {
        match self {
            Instruction::ClearDisplay | Instruction::Return => true,
            Instruction::Jump(a) | Instruction::Call(a) | Instruction::LoadIndex(a)
            | Instruction::JumpWithOffset(a) => a < 0x1000,
            Instruction::SkipIfEqualsByte(x, _) | Instruction::SkipIfNotEqualsByte(x, _)
            | Instruction::LoadByte(x, _) | Instruction::AddByte(x, _)
            | Instruction::RandomWithMask(x, _) => x < 16,
            Instruction::SkipIfEqualsRegister(x, y) | Instruction::Move(x, y) | Instruction::Or(
                x,
                y,
            ) | Instruction::And(x, y) | Instruction::Xor(x, y) | Instruction::Add(x, y)
            | Instruction::Subtract(x, y) | Instruction::ShiftRight(x, y)
            | Instruction::SubtractReverse(x, y) | Instruction::ShifLeft(x, y)
            | Instruction::SkipIfNotEqualsRegister(x, y) => x < 16 && y < 16,
            Instruction::Draw(x, y, n) => x < 16 && y < 16 && n < 16,
            Instruction::SkipIfPressed(x) | Instruction::SkipIfNotPressed(x)
            | Instruction::LoadDelayTimer(x) | Instruction::WaitKeyPress(x)
            | Instruction::StoreDelayTimer(x) | Instruction::StoreSoundTimer(x)
            | Instruction::AddToIndex(x) | Instruction::LoadSprite(x) | Instruction::StoreBCD(x)
            | Instruction::StoreRegisters(x) | Instruction::LoadRegisters(x) => x < 16,
        }
    }

    /// Decodes an opcode by the encoding table `decode_spec`; an opcode that
    /// the table lacks gives `InvalidOpcode` with that opcode.
    pub fn new(instruction: u16) -> (r: Result<Instruction, InstructionError>)
        ensures
            r == decode_result(instruction),
            r matches Ok(i) ==> i.wf(),
    {
        let x = ((0x0F00 & instruction) >> 8) as u8;
        let y = ((0x00F0 & instruction) >> 4) as u8;
        let n = (0x000F & instruction) as u8;
        let kk = (0x00FF & instruction) as u8;
        let nnn = 0x0FFF & instruction;
        proof {
            lemma_fields_in_range(instruction);
            assert(0x0F00 & instruction == instruction & 0x0F00) by (bit_vector);
            assert(0x00F0 & instruction == instruction & 0x00F0) by (bit_vector);
            assert(0x000F & instruction == instruction & 0x000F) by (bit_vector);
            assert(0x00FF & instruction == instruction & 0x00FF) by (bit_vector);
            assert(0x0FFF & instruction == instruction & 0x0FFF) by (bit_vector);
        }
        if instruction == 0x00E0 {
            return Ok(Instruction::ClearDisplay);
        }
        if instruction == 0x00EE {
            return Ok(Instruction::Return);
        }
        match instruction >> 12 {
            0x1 => Ok(Instruction::Jump(nnn)),
            0x2 => Ok(Instruction::Call(nnn)),
            0x3 => Ok(Instruction::SkipIfEqualsByte(x, kk)),
            0x4 => Ok(Instruction::SkipIfNotEqualsByte(x, kk)),
            0x5 => Ok(Instruction::SkipIfEqualsRegister(x, y)),
            0x6 => Ok(Instruction::LoadByte(x, kk)),
            0x7 => Ok(Instruction::AddByte(x, kk)),
            0x8 => {
                match n {
                    0x0 => Ok(Instruction::Move(x, y)),
                    0x1 => Ok(Instruction::Or(x, y)),
                    0x2 => Ok(Instruction::And(x, y)),
                    0x3 => Ok(Instruction::Xor(x, y)),
                    0x4 => Ok(Instruction::Add(x, y)),
                    0x5 => Ok(Instruction::Subtract(x, y)),
                    0x6 => Ok(Instruction::ShiftRight(x, y)),
                    0x7 => Ok(Instruction::SubtractReverse(x, y)),
                    0xE => Ok(Instruction::ShifLeft(x, y)),
                    _ => Err(InstructionError::InvalidOpcode(instruction)),
                }
            },
            0x9 => Ok(Instruction::SkipIfNotEqualsRegister(x, y)),
            0xA => Ok(Instruction::LoadIndex(nnn)),
            0xB => Ok(Instruction::JumpWithOffset(nnn)),
            0xC => Ok(Instruction::RandomWithMask(x, kk)),
            0xD => Ok(Instruction::Draw(x, y, n)),
            0xE => {
                match kk {
                    0x9E => Ok(Instruction::SkipIfPressed(x)),
                    0xA1 => Ok(Instruction::SkipIfNotPressed(x)),
                    _ => Err(InstructionError::InvalidOpcode(instruction)),
                }
            },
            0xF => {
                match kk {
                    0x07 => Ok(Instruction::LoadDelayTimer(x)),
                    0x0A => Ok(Instruction::WaitKeyPress(x)),
                    0x15 => Ok(Instruction::StoreDelayTimer(x)),
                    0x18 => Ok(Instruction::StoreSoundTimer(x)),
                    0x1E => Ok(Instruction::AddToIndex(x)),
                    0x29 => Ok(Instruction::LoadSprite(x)),
                    0x33 => Ok(Instruction::StoreBCD(x)),
                    0x55 => Ok(Instruction::StoreRegisters(x)),
                    0x65 => Ok(Instruction::LoadRegisters(x)),
                    _ => Err(InstructionError::InvalidOpcode(instruction)),
                }
            },
            _ => Err(InstructionError::InvalidOpcode(instruction)),
        }
    }
}

/// Every well-formed instruction is decoded back from its canonical opcode,
/// and every decoded instruction is well formed.
pub proof fn lemma_decode_round_trip(i: Instruction, op: u16)
    requires
        i.wf(),
    ensures
        decode_spec(opcode_of(i)) == Some(i),
        decode_spec(op) matches Some(d) ==> d.wf(),
{
    lemma_fields_in_range(op);
    match i {
        Instruction::ClearDisplay | Instruction::Return => {},
        Instruction::Jump(a) => lemma_pack_addr(0x1, a),
        Instruction::Call(a) => lemma_pack_addr(0x2, a),
        Instruction::LoadIndex(a) => lemma_pack_addr(0xA, a),
        Instruction::JumpWithOffset(a) => lemma_pack_addr(0xB, a),
        Instruction::SkipIfEqualsByte(x, kk) => lemma_pack_byte(0x3, x, kk),
        Instruction::SkipIfNotEqualsByte(x, kk) => lemma_pack_byte(0x4, x, kk),
        Instruction::LoadByte(x, kk) => lemma_pack_byte(0x6, x, kk),
        Instruction::AddByte(x, kk) => lemma_pack_byte(0x7, x, kk),
        Instruction::RandomWithMask(x, kk) => lemma_pack_byte(0xC, x, kk),
        Instruction::SkipIfEqualsRegister(x, y) => lemma_pack_regs(0x5, x, y, 0),
        Instruction::Move(x, y) => lemma_pack_regs(0x8, x, y, 0x0),
        Instruction::Or(x, y) => lemma_pack_regs(0x8, x, y, 0x1),
        Instruction::And(x, y) => lemma_pack_regs(0x8, x, y, 0x2),
        Instruction::Xor(x, y) => lemma_pack_regs(0x8, x, y, 0x3),
        Instruction::Add(x, y) => lemma_pack_regs(0x8, x, y, 0x4),
        Instruction::Subtract(x, y) => lemma_pack_regs(0x8, x, y, 0x5),
        Instruction::ShiftRight(x, y) => lemma_pack_regs(0x8, x, y, 0x6),
        Instruction::SubtractReverse(x, y) => lemma_pack_regs(0x8, x, y, 0x7),
        Instruction::ShifLeft(x, y) => lemma_pack_regs(0x8, x, y, 0xE),
        Instruction::SkipIfNotEqualsRegister(x, y) => lemma_pack_regs(0x9, x, y, 0),
        Instruction::Draw(x, y, n) => lemma_pack_regs(0xD, x, y, n),
        Instruction::SkipIfPressed(x) => lemma_pack_byte(0xE, x, 0x9E),
        Instruction::SkipIfNotPressed(x) => lemma_pack_byte(0xE, x, 0xA1),
        Instruction::LoadDelayTimer(x) => lemma_pack_byte(0xF, x, 0x07),
        Instruction::WaitKeyPress(x) => lemma_pack_byte(0xF, x, 0x0A),
        Instruction::StoreDelayTimer(x) => lemma_pack_byte(0xF, x, 0x15),
        Instruction::StoreSoundTimer(x) => lemma_pack_byte(0xF, x, 0x18),
        Instruction::AddToIndex(x) => lemma_pack_byte(0xF, x, 0x1E),
        Instruction::LoadSprite(x) => lemma_pack_byte(0xF, x, 0x29),
        Instruction::StoreBCD(x) => lemma_pack_byte(0xF, x, 0x33),
        Instruction::StoreRegisters(x) => lemma_pack_byte(0xF, x, 0x55),
        Instruction::LoadRegisters(x) => lemma_pack_byte(0xF, x, 0x65),
    }
}

} // verus!
