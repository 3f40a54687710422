//! Processor state and the fetch, decode and execute cycle.

use vstd::prelude::*;

use crate::instruction::{decode_spec, Instruction, InstructionError};
use crate::ram::{
    word_at, MemoryError, Ram, FONT, FONT_GLYPH_SIZE, FONT_START, PROGRAM_START, RAM_SIZE,
};

verus! {

/// Number of general-purpose registers.
pub const REGISTER_COUNT: usize = 16;

/// Index of the flag register, which reports carry, borrow and collision.
pub const FLAG: usize = 0xF;

/// Depth of the call stack.
pub const STACK_DEPTH: usize = 16;

/// Display width in pixels.
pub const DISPLAY_WIDTH: usize = 64;

/// Display height in pixels.
pub const DISPLAY_HEIGHT: usize = 32;

/// Number of pixels; pixel `(col, row)` is stored at `row * DISPLAY_WIDTH + col`.
pub const DISPLAY_SIZE: usize = 2048;

/// Number of keys on the keypad.
pub const KEY_COUNT: usize = 16;

/// Bytes per instruction.
pub const INSTRUCTION_WIDTH: u16 = 2;

/// Whether `Or`, `And` and `Xor` clear the flag register. Here they leave
/// it untouched.
pub const LOGIC_OPS_RESET_FLAG: bool = false;

/// Faults that end a cycle. The state is left as it was before the cycle.
#[derive(Clone, Copy, Debug, PartialEq, Eq, Structural)]
pub enum CpuError {
    /// A `Call` with all sixteen stack slots in use.
    StackOverflow,
    /// A `Return` with an empty stack.
    StackUnderflow,
    /// A fetch, sprite read or bulk transfer past the end of memory.
    Memory(MemoryError),
    /// The fetched opcode is not an instruction.
    Decode(InstructionError),
}

/// A timer after one tick: one less, but never below zero.
pub open spec fn count_down(t: u8) -> u8 {
    if t > 0 {
        (t - 1) as u8
    } else {
        0
    }
}

/// The mathematical state of the machine.
pub struct CpuModel {
    pub registers: Seq<u8>,
    pub i: u16,
    pub delay_timer: u8,
    pub sound_timer: u8,
    pub stack: Seq<u16>,
    pub pc: u16,
    pub sp: u8,
    pub memory: Seq<u8>,
    pub display: Seq<bool>,
    pub keys: Seq<bool>,
    pub random: u8,
}

/// Addition on the 16-bit program counter and index register.
pub open spec fn wrap16(v: int) -> u16 {
    (v % 0x10000) as u16
}

/// Bit `c` of a sprite row, counting from the left (most significant) bit.
pub open spec fn sprite_bit(row: u8, c: int) -> bool {
    (row >> ((7 - c) as u8)) & 1 == 1
}

/// Whether a sprite drawn with its top-left corner at `(x0, y0)` has a set
/// bit on pixel `p`. Positions wrap around both edges of the display.
pub open spec fn covers(sprite: Seq<u8>, x0: int, y0: int, p: int) -> bool {
    let r = (p / DISPLAY_WIDTH as int + DISPLAY_HEIGHT - y0) % DISPLAY_HEIGHT as int;
    let c = (p % DISPLAY_WIDTH as int + DISPLAY_WIDTH - x0) % DISPLAY_WIDTH as int;
    r < sprite.len() && c < 8 && sprite_bit(sprite[r], c)
}

/// The display after XOR-ing the sprite onto it.
pub open spec fn draw_display(display: Seq<bool>, sprite: Seq<u8>, x0: int, y0: int) -> Seq<
    bool,
> {
    Seq::new(display.len(), |p: int| display[p] != covers(sprite, x0, y0, p))
}

/// Whether drawing the sprite turns a lit pixel off.
pub open spec fn collides(display: Seq<bool>, sprite: Seq<u8>, x0: int, y0: int) -> bool {
    exists|p: int| 0 <= p < display.len() && display[p] && #[trigger] covers(sprite, x0, y0, p)
}

/// The lowest pressed key at index `k` or above.
pub open spec fn first_pressed_from(keys: Seq<bool>, k: int) -> Option<int>
    decreases KEY_COUNT - k,
{
    if k < 0 || k >= KEY_COUNT || k >= keys.len() {
        None
    } else if keys[k] {
        Some(k)
    } else {
        first_pressed_from(keys, k + 1)
    }
}

/// The lowest pressed key, if any.
pub open spec fn first_pressed(keys: Seq<bool>) -> Option<int> {
    first_pressed_from(keys, 0)
}

impl CpuModel {
    /// Sizes of the arrays and the stack pointer's bound.
    pub open spec fn wf(self) -> bool {
        &&& self.registers.len() == REGISTER_COUNT
        &&& self.stack.len() == STACK_DEPTH
        &&& self.memory.len() == RAM_SIZE
        &&& self.display.len() == DISPLAY_SIZE
        &&& self.keys.len() == KEY_COUNT
        &&& self.sp <= STACK_DEPTH
    }

    pub open spec fn reg(self, x: u8) -> u8 {
        self.registers[x as int]
    }

    pub open spec fn set_reg(self, x: u8, v: u8) -> CpuModel {
        CpuModel { registers: self.registers.update(x as int, v), ..self }
    }

    /// Writes 1 or 0 to the flag register.
    pub open spec fn set_flag(self, f: bool) -> CpuModel {
        self.set_reg(FLAG as u8, if f { 1 } else { 0 })
    }

    /// Moves the program counter to the next instruction.
    pub open spec fn advance(self) -> CpuModel {
        CpuModel { pc: wrap16(self.pc + INSTRUCTION_WIDTH), ..self }
    }

    /// Moves the program counter past the next instruction when `cond`
    /// holds, else to it.
    pub open spec fn skip_if(self, cond: bool) -> CpuModel {
        if cond {
            CpuModel { pc: wrap16(self.pc + 2 * INSTRUCTION_WIDTH), ..self }
        } else {
            self.advance()
        }
    }

    /// The flag register after a bitwise `Or`, `And` or `Xor`.
    pub open spec fn after_logic_op(self) -> CpuModel {
        if LOGIC_OPS_RESET_FLAG {
            self.set_flag(false)
        } else {
            self
        }
    }
}

/// What executing `ins` at the program counter does: the next state, or
/// the fault, in which case the state is kept. Every instruction ends by
/// setting the program counter: control transfers set it explicitly, skips
/// move it by one or two instruction widths, the others move it by one.
///
/// Sprites wrap around both edges of the display. `WaitKeyPress` is level
/// triggered: with no key down it leaves the program counter on itself, so
/// the driver runs it again on the next cycle while the timers keep counting
/// down. Key instructions use the low nibble of the register.
pub open spec fn execute_spec(m: CpuModel, ins: Instruction) -> Result<CpuModel, CpuError> {
    match ins {
        Instruction::ClearDisplay => Ok(
            CpuModel { display: Seq::new(DISPLAY_SIZE as nat, |p: int| false), ..m }.advance(),
        ),
        Instruction::Return => if m.sp == 0 {
            Err(CpuError::StackUnderflow)
        } else {
            Ok(CpuModel { sp: (m.sp - 1) as u8, pc: m.stack[m.sp - 1], ..m })
        },
        Instruction::Jump(a) => Ok(CpuModel { pc: a, ..m }),
        Instruction::Call(a) => if m.sp >= STACK_DEPTH {
            Err(CpuError::StackOverflow)
        } else {
            Ok(
                CpuModel {
                    stack: m.stack.update(m.sp as int, wrap16(m.pc + INSTRUCTION_WIDTH)),
                    sp: (m.sp + 1) as u8,
                    pc: a,
                    ..m
                },
            )
        },
        Instruction::SkipIfEqualsByte(x, kk) => Ok(m.skip_if(m.reg(x) == kk)),
        Instruction::SkipIfNotEqualsByte(x, kk) => Ok(m.skip_if(m.reg(x) != kk)),
        Instruction::SkipIfEqualsRegister(x, y) => Ok(m.skip_if(m.reg(x) == m.reg(y))),
        Instruction::LoadByte(x, kk) => Ok(m.set_reg(x, kk).advance()),
        Instruction::AddByte(x, kk) => Ok(m.set_reg(x, ((m.reg(x) + kk) % 256) as u8).advance()),
        Instruction::Move(x, y) => Ok(m.set_reg(x, m.reg(y)).advance()),
        Instruction::Or(x, y) => Ok(m.set_reg(x, m.reg(x) | m.reg(y)).after_logic_op().advance()),
        Instruction::And(x, y) => Ok(m.set_reg(x, m.reg(x) & m.reg(y)).after_logic_op().advance()),
        Instruction::Xor(x, y) => Ok(m.set_reg(x, m.reg(x) ^ m.reg(y)).after_logic_op().advance()),
        Instruction::Add(x, y) => {
            let (a, b) = (m.reg(x), m.reg(y));
            Ok(m.set_reg(x, ((a + b) % 256) as u8).set_flag(a + b >= 256).advance())
        },
        Instruction::Subtract(x, y) => {
            let (a, b) = (m.reg(x), m.reg(y));
            Ok(m.set_reg(x, ((a - b) % 256) as u8).set_flag(a >= b).advance())
        },
        Instruction::ShiftRight(x, _) => {
            let a = m.reg(x);
            Ok(m.set_reg(x, a >> 1).set_flag(a & 1 == 1).advance())
        },
        Instruction::SubtractReverse(x, y) => {
            let (a, b) = (m.reg(x), m.reg(y));
            Ok(m.set_reg(x, ((b - a) % 256) as u8).set_flag(b >= a).advance())
        },
        Instruction::ShifLeft(x, _) => {
            let a = m.reg(x);
            Ok(m.set_reg(x, ((a * 2) % 256) as u8).set_flag(a >= 0x80).advance())
        },
        Instruction::SkipIfNotEqualsRegister(x, y) => Ok(m.skip_if(m.reg(x) != m.reg(y))),
        Instruction::LoadIndex(a) => Ok(CpuModel { i: a, ..m }.advance()),
        Instruction::JumpWithOffset(a) => Ok(CpuModel { pc: wrap16(m.reg(0) + a), ..m }),
        Instruction::RandomWithMask(x, kk) => Ok(m.set_reg(x, m.random & kk).advance()),
        Instruction::Draw(x, y, n) => if m.i + n > RAM_SIZE {
            Err(CpuError::Memory(MemoryError::AddressOutOfRange))
        } else {
            let sprite = m.memory.subrange(m.i as int, m.i + n);
            let (x0, y0) = (m.reg(x) as int % DISPLAY_WIDTH as int, m.reg(y) as int
                % DISPLAY_HEIGHT as int);
            Ok(
                CpuModel {
                    display: draw_display(m.display, sprite, x0, y0),
                    ..m
                }.set_flag(collides(m.display, sprite, x0, y0)).advance(),
            )
        },
        Instruction::SkipIfPressed(x) => Ok(m.skip_if(m.keys[m.reg(x) as int % 16])),
        Instruction::SkipIfNotPressed(x) => Ok(m.skip_if(!m.keys[m.reg(x) as int % 16])),
        Instruction::LoadDelayTimer(x) => Ok(m.set_reg(x, m.delay_timer).advance()),
        Instruction::WaitKeyPress(x) => match first_pressed(m.keys) {
            Some(k) => Ok(m.set_reg(x, k as u8).advance()),
            None => Ok(m),
        },
        Instruction::StoreDelayTimer(x) => Ok(CpuModel { delay_timer: m.reg(x), ..m }.advance()),
        Instruction::StoreSoundTimer(x) => Ok(CpuModel { sound_timer: m.reg(x), ..m }.advance()),
        Instruction::AddToIndex(x) => Ok(CpuModel { i: wrap16(m.i + m.reg(x)), ..m }.advance()),
        Instruction::LoadSprite(x) => Ok(
            CpuModel {
                i: (FONT_START + (m.reg(x) as int % 16) * FONT_GLYPH_SIZE) as u16,
                ..m
            }.advance(),
        ),
        Instruction::StoreBCD(x) => if m.i + 3 > RAM_SIZE {
            Err(CpuError::Memory(MemoryError::AddressOutOfRange))
        } else {
            let v = m.reg(x);
            Ok(
                CpuModel {
                    memory: m.memory.update(m.i as int, (v / 100) as u8).update(
                        m.i + 1,
                        ((v / 10) % 10) as u8,
                    ).update(m.i + 2, (v % 10) as u8),
                    ..m
                }.advance(),
            )
        },
        Instruction::StoreRegisters(x) => if m.i + x + 1 > RAM_SIZE {
            Err(CpuError::Memory(MemoryError::AddressOutOfRange))
        } else {
            Ok(
                CpuModel {
                    memory: Seq::new(
                        m.memory.len(),
                        |a: int|
                            if m.i <= a <= m.i + x {
                                m.registers[a - m.i]
                            } else {
                                m.memory[a]
                            },
                    ),
                    ..m
                }.advance(),
            )
        },
        Instruction::LoadRegisters(x) => if m.i + x + 1 > RAM_SIZE {
            Err(CpuError::Memory(MemoryError::AddressOutOfRange))
        } else {
            Ok(
                CpuModel {
                    registers: Seq::new(
                        m.registers.len(),
                        |k: int|
                            if k <= x {
                                m.memory[m.i + k]
                            } else {
                                m.registers[k]
                            },
                    ),
                    ..m
                }.advance(),
            )
        },
    }
}

/// Whether `ins` is handled by `Cpu::execute_flow`.
spec fn is_flow_op(ins: Instruction) -> bool {
    match ins {
        Instruction::ClearDisplay
        | Instruction::Return
        | Instruction::Jump(_)
        | Instruction::Call(_)
        | Instruction::JumpWithOffset(_)
        | Instruction::SkipIfEqualsByte(_, _)
        | Instruction::SkipIfNotEqualsByte(_, _)
        | Instruction::SkipIfEqualsRegister(_, _)
        | Instruction::SkipIfNotEqualsRegister(_, _)
        | Instruction::SkipIfPressed(_)
        | Instruction::SkipIfNotPressed(_)
        | Instruction::WaitKeyPress(_) => true,
        _ => false,
    }
}

/// Whether `ins` is handled by `Cpu::execute_arith`.
spec fn is_arith_op(ins: Instruction) -> bool {
    match ins {
        Instruction::Add(_, _)
        | Instruction::Subtract(_, _)
        | Instruction::ShiftRight(_, _)
        | Instruction::SubtractReverse(_, _)
        | Instruction::ShifLeft(_, _) => true,
        _ => false,
    }
}

/// Whether `ins` is handled by `Cpu::execute_alu`.
spec fn is_alu_op(ins: Instruction) -> bool {
    match ins {
        Instruction::LoadByte(_, _)
        | Instruction::AddByte(_, _)
        | Instruction::Move(_, _)
        | Instruction::Or(_, _)
        | Instruction::And(_, _)
        | Instruction::Xor(_, _)
        | Instruction::RandomWithMask(_, _) => true,
        _ => false,
    }
}

/// Whether `ins` is handled by `Cpu::execute_misc`.
spec fn is_misc_op(ins: Instruction) -> bool {
    match ins {
        Instruction::LoadIndex(_)
        | Instruction::Draw(_, _, _)
        | Instruction::LoadDelayTimer(_)
        | Instruction::StoreDelayTimer(_)
        | Instruction::StoreSoundTimer(_)
        | Instruction::AddToIndex(_)
        | Instruction::LoadSprite(_)
        | Instruction::StoreBCD(_)
        | Instruction::StoreRegisters(_)
        | Instruction::LoadRegisters(_) => true,
        _ => false,
    }
}

/// One fetch, decode and execute step: the opcode at the program counter is
/// decoded and the instruction runs.
pub open spec fn cycle_spec(m: CpuModel) -> Result<CpuModel, CpuError> {
    if m.pc + 1 >= RAM_SIZE {
        Err(CpuError::Memory(MemoryError::AddressOutOfRange))
    } else {
        let op = word_at(m.memory, m.pc as int);
        match decode_spec(op) {
            None => Err(CpuError::Decode(InstructionError::InvalidOpcode(op))),
            Some(ins) => execute_spec(m, ins),
        }
    }
}

/// `after` and `r` are what `expected` asks for: its state on success, and
/// on a fault that fault with `before` kept.
pub open spec fn outcome(
    before: CpuModel,
    after: CpuModel,
    r: Result<(), CpuError>,
    expected: Result<CpuModel, CpuError>,
) -> bool {
    match expected {
        Ok(m) => r == Ok::<(), CpuError>(()) && after == m,
        Err(e) => r == Err::<(), CpuError>(e) && after == before,
    }
}

/// The processor: registers, stack, memory, display and keypad.
pub struct Cpu {
    /// `V0` to `VF`; `VF` is the flag register.
    pub registers: [u8; REGISTER_COUNT],
    /// The index register, an address for sprite and memory instructions.
    pub i: u16,
    pub delay_timer: u8,
    pub sound_timer: u8,
    /// Return addresses; slots below `sp` are in use.
    pub stack: [u16; STACK_DEPTH],
    /// Address of the next opcode to fetch.
    pub pc: u16,
    /// Number of return addresses on the stack.
    pub sp: u8,
    pub ram: Ram,
    /// The monochrome frame buffer, row by row.
    pub display: [bool; DISPLAY_SIZE],
    /// Key state, written by the input device between cycles.
    pub keys: [bool; KEY_COUNT],
    /// A byte from the outside random source, refreshed by the driver before
    /// each cycle and used by `RandomWithMask`.
    pub random: u8,
}

impl View for Cpu {
    type V = CpuModel;

    open spec fn view(&self) -> CpuModel {
        CpuModel {
            registers: self.registers@,
            i: self.i,
            delay_timer: self.delay_timer,
            sound_timer: self.sound_timer,
            stack: self.stack@,
            pc: self.pc,
            sp: self.sp,
            memory: self.ram@,
            display: self.display@,
            keys: self.keys@,
            random: self.random,
        }
    }
}

impl Cpu {
    /// The stack pointer stays within the stack.
    pub open spec fn wf(&self) -> bool {
        self.sp <= STACK_DEPTH
    }

    /// A machine at reset: registers, timers, stack, display and keys
    /// cleared, memory holding only the font, and the program counter at the
    /// program's load address.
    pub fn new() -> (r: Cpu)
        ensures
            r.wf(),
            r@.wf(),
            forall|k: int| 0 <= k < REGISTER_COUNT ==> r@.registers[k] == 0,
            forall|k: int| 0 <= k < STACK_DEPTH ==> r@.stack[k] == 0,
            forall|p: int| 0 <= p < DISPLAY_SIZE ==> !r@.display[p],
            forall|k: int| 0 <= k < KEY_COUNT ==> !r@.keys[k],
            r@.memory.subrange(FONT_START as int, FONT_START + 80) == FONT@,
            forall|a: int| FONT_START + 80 <= a < RAM_SIZE ==> r@.memory[a] == 0,
            r@.i == 0,
            r@.delay_timer == 0,
            r@.sound_timer == 0,
            r@.pc == PROGRAM_START,
            r@.sp == 0,
            r@.random == 0,
    {
        Cpu {
            registers: [0; REGISTER_COUNT],
            i: 0,
            delay_timer: 0,
            sound_timer: 0,
            pc: PROGRAM_START as u16,
            sp: 0,
            stack: [0; STACK_DEPTH],
            ram: Ram::new(),
            display: [false; DISPLAY_SIZE],
            keys: [false; KEY_COUNT],
            random: 0,
        }
    }

    /// Copies a program image into memory at its load address.
    pub fn load_rom(&mut self, rom: &[u8]) -> (r: Result<(), MemoryError>)
        ensures
            rom@.len() <= crate::ram::MAX_ROM_SIZE ==> r == Ok::<(), MemoryError>(()) && final(self)@ == (CpuModel { memory: crate::ram::loaded(old(self)@.memory, rom@), ..old(self)@ }),
            rom@.len() > crate::ram::MAX_ROM_SIZE ==> r == Err::<(), MemoryError>(
                MemoryError::RomTooLarge,
            ) && final(self)@ == old(self)@,
            final(self).wf() == old(self).wf(),
    {
        self.ram.load(rom)
    }

    /// The opcode at the program counter.
    pub fn fetch(&self) -> (r: Result<u16, MemoryError>)
        ensures
            self.pc + 1 < RAM_SIZE ==> r == Ok::<u16, MemoryError>(
                word_at(self@.memory, self.pc as int),
            ),
            self.pc + 1 >= RAM_SIZE ==> r == Err::<u16, MemoryError>(
                MemoryError::AddressOutOfRange,
            ),
    {
        self.ram.word(self.pc)
    }

    /// Decodes an opcode; see `Instruction::new`.
    pub fn decode(instruction: u16) -> (r: Result<Instruction, InstructionError>)
        ensures
            r == crate::instruction::decode_result(instruction),
            r matches Ok(i) ==> i.wf(),
    {
        Instruction::new(instruction)
    }

    /// One step of the machine: fetch, decode and execute. On a fault
    /// nothing changes.
    pub fn cycle(&mut self) -> (r: Result<(), CpuError>)
        requires
            old(self).wf(),
        ensures
            final(self).wf(),
            outcome(old(self)@, final(self)@, r, cycle_spec(old(self)@)),
    {
        let op = match self.fetch() {
            Ok(op) => op,
            Err(e) => return Err(CpuError::Memory(e)),
        };
        let instruction = match Cpu::decode(op) {
            Ok(i) => i,
            Err(e) => return Err(CpuError::Decode(e)),
        };
        self.execute(instruction)
    }

    /// Counts both timers down by one, stopping at zero.
    pub fn tick_timers(&mut self)
        ensures
            final(self)@ == (CpuModel {
                delay_timer: count_down(old(self).delay_timer),
                sound_timer: count_down(old(self).sound_timer),
                ..old(self)@
            }),
            final(self).wf() == old(self).wf(),
    {
        if self.delay_timer > 0 {
            self.delay_timer = self.delay_timer - 1;
        }
        if self.sound_timer > 0 {
            self.sound_timer = self.sound_timer - 1;
        }
    }

    /// Applies one decoded instruction, taken to stand at the program
    /// counter, and sets the program counter to the next instruction to run.
    pub fn execute(&mut self, instruction: Instruction) -> (r: Result<(), CpuError>)
        requires
            old(self).wf(),
            instruction.wf(),
        ensures
            final(self).wf(),
            outcome(old(self)@, final(self)@, r, execute_spec(old(self)@, instruction)),
    {
        match instruction {
            Instruction::ClearDisplay
            | Instruction::Return
            | Instruction::Jump(_)
            | Instruction::Call(_)
            | Instruction::JumpWithOffset(_)
            | Instruction::SkipIfEqualsByte(_, _)
            | Instruction::SkipIfNotEqualsByte(_, _)
            | Instruction::SkipIfEqualsRegister(_, _)
            | Instruction::SkipIfNotEqualsRegister(_, _)
            | Instruction::SkipIfPressed(_)
            | Instruction::SkipIfNotPressed(_)
            | Instruction::WaitKeyPress(_) => self.execute_flow(instruction),
            Instruction::LoadByte(_, _)
            | Instruction::AddByte(_, _)
            | Instruction::Move(_, _)
            | Instruction::Or(_, _)
            | Instruction::And(_, _)
            | Instruction::Xor(_, _)
            | Instruction::RandomWithMask(_, _) => self.execute_alu(instruction),
            Instruction::Add(_, _)
            | Instruction::Subtract(_, _)
            | Instruction::ShiftRight(_, _)
            | Instruction::SubtractReverse(_, _)
            | Instruction::ShifLeft(_, _) => self.execute_arith(instruction),
            Instruction::LoadIndex(_)
            | Instruction::Draw(_, _, _)
            | Instruction::LoadDelayTimer(_)
            | Instruction::StoreDelayTimer(_)
            | Instruction::StoreSoundTimer(_)
            | Instruction::AddToIndex(_)
            | Instruction::LoadSprite(_)
            | Instruction::StoreBCD(_)
            | Instruction::StoreRegisters(_)
            | Instruction::LoadRegisters(_) => self.execute_misc(instruction),
        }
    }

    /// Control transfers, skips and the key wait.
    fn execute_flow(&mut self, instruction: Instruction) -> (r: Result<(), CpuError>)
        requires
            old(self).wf(),
            instruction.wf(),
            is_flow_op(instruction),
        ensures
            final(self).wf(),
            outcome(old(self)@, final(self)@, r, execute_spec(old(self)@, instruction)),
    {
        match instruction {
            Instruction::ClearDisplay => {
                self.display = [false; DISPLAY_SIZE];
                assert(self.display@ =~= Seq::new(DISPLAY_SIZE as nat, |p: int| false));
                self.advance();
                Ok(())
            },
            Instruction::Return => {
                if self.sp == 0 {
                    return Err(CpuError::StackUnderflow);
                }
                self.sp = self.sp - 1;
                self.pc = self.stack[self.sp as usize];
                Ok(())
            },
            Instruction::Jump(addr) => {
                self.pc = addr;
                Ok(())
            },
            Instruction::Call(addr) => {
                if self.sp as usize >= STACK_DEPTH {
                    return Err(CpuError::StackOverflow);
                }
                self.stack[self.sp as usize] = self.pc.wrapping_add(INSTRUCTION_WIDTH);
                self.sp = self.sp + 1;
                self.pc = addr;
                Ok(())
            },
            Instruction::JumpWithOffset(addr) => {
                self.pc = addr + self.registers[0] as u16;
                Ok(())
            },
            Instruction::SkipIfEqualsByte(x, kk) => {
                self.skip_if(self.registers[x as usize] == kk);
                Ok(())
            },
            Instruction::SkipIfNotEqualsByte(x, kk) => {
                self.skip_if(self.registers[x as usize] != kk);
                Ok(())
            },
            Instruction::SkipIfEqualsRegister(x, y) => {
                self.skip_if(self.registers[x as usize] == self.registers[y as usize]);
                Ok(())
            },
            Instruction::SkipIfNotEqualsRegister(x, y) => {
                self.skip_if(self.registers[x as usize] != self.registers[y as usize]);
                Ok(())
            },
            Instruction::SkipIfPressed(x) => {
                let key = self.registers[x as usize] % KEY_COUNT as u8;
                self.skip_if(self.keys[key as usize]);
                Ok(())
            },
            Instruction::SkipIfNotPressed(x) => {
                let key = self.registers[x as usize] % KEY_COUNT as u8;
                self.skip_if(!self.keys[key as usize]);
                Ok(())
            },
            Instruction::WaitKeyPress(x) => {
                self.wait_key_press(x);
                Ok(())
            },
            // excluded by the precondition
            _ => Ok(()),
        }
    }

    /// Register loads and bitwise operations.
    fn execute_alu(&mut self, instruction: Instruction) -> (r: Result<(), CpuError>)
        requires
            old(self).wf(),
            instruction.wf(),
            is_alu_op(instruction),
        ensures
            final(self).wf(),
            outcome(old(self)@, final(self)@, r, execute_spec(old(self)@, instruction)),
    {
        match instruction {
            Instruction::LoadByte(x, kk) => {
                self.registers[x as usize] = kk;
                self.advance();
                Ok(())
            },
            Instruction::AddByte(x, kk) => {
                self.registers[x as usize] = self.registers[x as usize].wrapping_add(kk);
                self.advance();
                Ok(())
            },
            Instruction::Move(x, y) => {
                self.registers[x as usize] = self.registers[y as usize];
                self.advance();
                Ok(())
            },
            Instruction::Or(x, y) => {
                self.registers[x as usize] = self.registers[x as usize] | self.registers[y as usize];
                self.after_logic_op();
                self.advance();
                Ok(())
            },
            Instruction::And(x, y) => {
                self.registers[x as usize] = self.registers[x as usize] & self.registers[y as usize];
                self.after_logic_op();
                self.advance();
                Ok(())
            },
            Instruction::Xor(x, y) => {
                self.registers[x as usize] = self.registers[x as usize] ^ self.registers[y as usize];
                self.after_logic_op();
                self.advance();
                Ok(())
            },
            Instruction::RandomWithMask(x, mask) => {
                self.registers[x as usize] = self.random & mask;
                self.advance();
                Ok(())
            },
            // excluded by the precondition
            _ => Ok(()),
        }
    }

    /// Arithmetic that reports carry or borrow in the flag register.
    fn execute_arith(&mut self, instruction: Instruction) -> (r: Result<(), CpuError>)
        requires
            old(self).wf(),
            instruction.wf(),
            is_arith_op(instruction),
        ensures
            final(self).wf(),
            outcome(old(self)@, final(self)@, r, execute_spec(old(self)@, instruction)),
    {
        match instruction {
            Instruction::Add(x, y) => {
                let (a, b) = (self.registers[x as usize], self.registers[y as usize]);
                self.registers[x as usize] = a.wrapping_add(b);
                self.registers[FLAG] = if a as u16 + b as u16 > 0xFF { 1 } else { 0 };
                self.advance();
                Ok(())
            },
            Instruction::Subtract(x, y) => {
                let (a, b) = (self.registers[x as usize], self.registers[y as usize]);
                self.registers[x as usize] = a.wrapping_sub(b);
                self.registers[FLAG] = if a >= b { 1 } else { 0 };
                self.advance();
                Ok(())
            },
            Instruction::ShiftRight(x, _) => {
                let a = self.registers[x as usize];
                self.registers[x as usize] = a >> 1;
                self.registers[FLAG] = a & 1;
                proof {
                    assert(a & 1 == 1 || a & 1 == 0) by (bit_vector);
                }
                self.advance();
                Ok(())
            },
            Instruction::SubtractReverse(x, y) => {
                let (a, b) = (self.registers[x as usize], self.registers[y as usize]);
                self.registers[x as usize] = b.wrapping_sub(a);
                self.registers[FLAG] = if b >= a { 1 } else { 0 };
                self.advance();
                Ok(())
            },
            Instruction::ShifLeft(x, _) => {
                let a = self.registers[x as usize];
                proof {
                    lemma_shift_left(a);
                }
                self.registers[x as usize] = a << 1;
                self.registers[FLAG] = a >> 7;
                self.advance();
                Ok(())
            },
            // excluded by the precondition
            _ => Ok(()),
        }
    }

    /// Index register, timers, drawing and memory transfers.
    fn execute_misc(&mut self, instruction: Instruction) -> (r: Result<(), CpuError>)
        requires
            old(self).wf(),
            instruction.wf(),
            is_misc_op(instruction),
        ensures
            final(self).wf(),
            outcome(old(self)@, final(self)@, r, execute_spec(old(self)@, instruction)),
    {
        match instruction {
            Instruction::LoadIndex(addr) => {
                self.i = addr;
                self.advance();
                Ok(())
            },
            Instruction::Draw(x, y, n) => self.draw(x, y, n),
            Instruction::LoadDelayTimer(x) => {
                self.registers[x as usize] = self.delay_timer;
                self.advance();
                Ok(())
            },
            Instruction::StoreDelayTimer(x) => {
                self.delay_timer = self.registers[x as usize];
                self.advance();
                Ok(())
            },
            Instruction::StoreSoundTimer(x) => {
                self.sound_timer = self.registers[x as usize];
                self.advance();
                Ok(())
            },
            Instruction::AddToIndex(x) => {
                self.i = self.i.wrapping_add(self.registers[x as usize] as u16);
                self.advance();
                Ok(())
            },
            Instruction::LoadSprite(x) => {
                let digit = (self.registers[x as usize] % 16) as usize;
                self.i = (FONT_START + digit * FONT_GLYPH_SIZE) as u16;
                self.advance();
                Ok(())
            },
            Instruction::StoreBCD(x) => self.store_bcd(x),
            Instruction::StoreRegisters(x) => self.store_registers(x),
            Instruction::LoadRegisters(x) => self.load_registers(x),
            // excluded by the precondition
            _ => Ok(()),
        }
    }

    fn advance(&mut self)
        ensures
            final(self)@ == old(self)@.advance(),
            final(self).sp == old(self).sp,
    {
        self.pc = self.pc.wrapping_add(INSTRUCTION_WIDTH);
    }

    fn skip_if(&mut self, cond: bool)
        ensures
            final(self)@ == old(self)@.skip_if(cond),
            final(self).sp == old(self).sp,
    {
        if cond {
            self.pc = self.pc.wrapping_add(2 * INSTRUCTION_WIDTH);
        } else {
            self.advance();
        }
    }

    fn after_logic_op(&mut self)
        ensures
            final(self)@ == old(self)@.after_logic_op(),
            final(self).sp == old(self).sp,
    {
        if LOGIC_OPS_RESET_FLAG {
            self.registers[FLAG] = 0;
        }
    }

    fn wait_key_press(&mut self, x: u8)
        requires
            x < REGISTER_COUNT,
        ensures
            execute_spec(old(self)@, Instruction::WaitKeyPress(x)) == Ok::<CpuModel, CpuError>(final(self)@),
            final(self).sp == old(self).sp,
    {
        let mut k: usize = 0;
        while k < KEY_COUNT
            invariant
                k <= KEY_COUNT,
                x < REGISTER_COUNT,
                self == old(self),
                first_pressed(self.keys@) == first_pressed_from(self.keys@, k as int),
            decreases KEY_COUNT - k,
        {
            if self.keys[k] {
                self.registers[x as usize] = k as u8;
                self.advance();
                return;
            }
            k = k + 1;
        }
    }

    fn draw(&mut self, x: u8, y: u8, n: u8) -> (r: Result<(), CpuError>)
        requires
            x < REGISTER_COUNT,
            y < REGISTER_COUNT,
            n < 16,
        ensures
            outcome(old(self)@, final(self)@, r, execute_spec(old(self)@, Instruction::Draw(x, y, n))),
            final(self).sp == old(self).sp,
    {
        let base = self.i as usize;
        let rows = n as usize;
        if base + rows > RAM_SIZE {
            return Err(CpuError::Memory(MemoryError::AddressOutOfRange));
        }
        let x0 = (self.registers[x as usize] % DISPLAY_WIDTH as u8) as usize;
        let y0 = (self.registers[y as usize] % DISPLAY_HEIGHT as u8) as usize;
        let ghost start = self@;
        let ghost sprite = start.memory.subrange(base as int, base + rows);
        let mut collision = false;
        let mut p: usize = 0;
        while p < DISPLAY_SIZE
            invariant
                p <= DISPLAY_SIZE,
                base + rows <= RAM_SIZE,
                rows == n,
                x0 == start.reg(x) as int % DISPLAY_WIDTH as int,
                y0 == start.reg(y) as int % DISPLAY_HEIGHT as int,
                sprite == start.memory.subrange(base as int, base + rows),
                self@ == (CpuModel { display: self.display@, ..start }),
                forall|q: int|
                    0 <= q < p ==> self.display@[q] == (start.display[q] != covers(
                        sprite,
                        x0 as int,
                        y0 as int,
                        q,
                    )),
                forall|q: int| p <= q < DISPLAY_SIZE ==> self.display@[q] == start.display[q],
                collision == exists|q: int|
                    0 <= q < p && start.display[q] && #[trigger] covers(
                        sprite,
                        x0 as int,
                        y0 as int,
                        q,
                    ),
            decreases DISPLAY_SIZE - p,
        {
            let row = p / DISPLAY_WIDTH;
            let col = p % DISPLAY_WIDTH;
            let r = (row + DISPLAY_HEIGHT - y0) % DISPLAY_HEIGHT;
            let c = (col + DISPLAY_WIDTH - x0) % DISPLAY_WIDTH;
            let mut hit = false;
            if r < rows && c < 8 {
                let byte = self.ram.memory[base + r];
                hit = (byte >> ((7 - c) as u8)) & 1 == 1;
            }
            assert(hit == covers(sprite, x0 as int, y0 as int, p as int));
            if hit {
                if self.display[p] {
                    collision = true;
                }
                self.display[p] = !self.display[p];
            }
            p = p + 1;
        }
        self.registers[FLAG] = if collision { 1 } else { 0 };
        assert(self.display@ =~= draw_display(start.display, sprite, x0 as int, y0 as int));
        self.advance();
        Ok(())
    }

    fn store_bcd(&mut self, x: u8) -> (r: Result<(), CpuError>)
        requires
            x < REGISTER_COUNT,
        ensures
            outcome(old(self)@, final(self)@, r, execute_spec(old(self)@, Instruction::StoreBCD(x))),
            final(self).sp == old(self).sp,
    {
        let base = self.i as usize;
        if base + 3 > RAM_SIZE {
            return Err(CpuError::Memory(MemoryError::AddressOutOfRange));
        }
        let v = self.registers[x as usize];
        self.ram.memory[base] = v / 100;
        self.ram.memory[base + 1] = (v / 10) % 10;
        self.ram.memory[base + 2] = v % 10;
        self.advance();
        Ok(())
    }

    fn store_registers(&mut self, x: u8) -> (r: Result<(), CpuError>)
        requires
            x < REGISTER_COUNT,
        ensures
            outcome(
                old(self)@,
                final(self)@,
                r,
                execute_spec(old(self)@, Instruction::StoreRegisters(x)),
            ),
            final(self).sp == old(self).sp,
    {
        let base = self.i as usize;
        let last = x as usize;
        if base + last + 1 > RAM_SIZE {
            return Err(CpuError::Memory(MemoryError::AddressOutOfRange));
        }
        let ghost start = self@;
        let mut k: usize = 0;
        while k <= last
            invariant
                k <= last + 1,
                last < REGISTER_COUNT,
                base + last + 1 <= RAM_SIZE,
                self@ == (CpuModel { memory: self.ram@, ..start }),
                forall|a: int|
                    0 <= a < RAM_SIZE ==> self.ram@[a] == if base <= a < base + k {
                        start.registers[a - base]
                    } else {
                        start.memory[a]
                    },
            decreases last + 1 - k,
        {
            self.ram.memory[base + k] = self.registers[k];
            k = k + 1;
        }
        assert(self.ram@ =~= Seq::new(
            start.memory.len(),
            |a: int|
                if start.i <= a <= start.i + x {
                    start.registers[a - start.i]
                } else {
                    start.memory[a]
                },
        ));
        self.advance();
        Ok(())
    }

    fn load_registers(&mut self, x: u8) -> (r: Result<(), CpuError>)
        requires
            x < REGISTER_COUNT,
        ensures
            outcome(
                old(self)@,
                final(self)@,
                r,
                execute_spec(old(self)@, Instruction::LoadRegisters(x)),
            ),
            final(self).sp == old(self).sp,
    {
        let base = self.i as usize;
        let last = x as usize;
        if base + last + 1 > RAM_SIZE {
            return Err(CpuError::Memory(MemoryError::AddressOutOfRange));
        }
        let ghost start = self@;
        let mut k: usize = 0;
        while k <= last
            invariant
                k <= last + 1,
                last < REGISTER_COUNT,
                base + last + 1 <= RAM_SIZE,
                self@ == (CpuModel { registers: self.registers@, ..start }),
                forall|j: int|
                    0 <= j < REGISTER_COUNT ==> self.registers@[j] == if j < k {
                        start.memory[base + j]
                    } else {
                        start.registers[j]
                    },
            decreases last + 1 - k,
        {
            self.registers[k] = self.ram.memory[base + k];
            k = k + 1;
        }
        assert(self.registers@ =~= Seq::new(
            start.registers.len(),
            |j: int|
                if j <= x {
                    start.memory[start.i + j]
                } else {
                    start.registers[j]
                },
        ));
        self.advance();
        Ok(())
    }
}

proof fn lemma_shift_left(a: u8)
    ensures
        a << 1 == ((a * 2) % 256) as u8,
        a >> 7 == if a >= 0x80 { 1u8 } else { 0u8 },
{
    assert(a << 1 == ((a * 2) % 256) as u8) by (bit_vector);
    assert(a >> 7 == if a >= 0x80 { 1u8 } else { 0u8 }) by (bit_vector);
}

} // verus!
