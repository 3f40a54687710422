//! The flat 4 KiB memory image of the machine.

use vstd::prelude::*;

verus! {

/// Size of the address space, in bytes.
pub const RAM_SIZE: usize = 4096;

/// Address at which programs are loaded.
pub const PROGRAM_START: usize = 0x200;

/// Largest program that fits above `PROGRAM_START`.
pub const MAX_ROM_SIZE: usize = 3584;

/// Address of the built-in hexadecimal font.
pub const FONT_START: usize = 0;

/// Bytes per font glyph.
pub const FONT_GLYPH_SIZE: usize = 5;

/// The built-in font: one 4x5 glyph for each hexadecimal digit.
pub const FONT: [u8; 80] = [
    0xF0, 0x90, 0x90, 0x90, 0xF0, // 0
    0x20, 0x60, 0x20, 0x20, 0x70, // 1
    0xF0, 0x10, 0xF0, 0x80, 0xF0, // 2
    0xF0, 0x10, 0xF0, 0x10, 0xF0, // 3
    0x90, 0x90, 0xF0, 0x10, 0x10, // 4
    0xF0, 0x80, 0xF0, 0x10, 0xF0, // 5
    0xF0, 0x80, 0xF0, 0x90, 0xF0, // 6
    0xF0, 0x10, 0x20, 0x40, 0x40, // 7
    0xF0, 0x90, 0xF0, 0x90, 0xF0, // 8
    0xF0, 0x90, 0xF0, 0x10, 0xF0, // 9
    0xF0, 0x90, 0xF0, 0x90, 0x90, // A
    0xE0, 0x90, 0xE0, 0x90, 0xE0, // B
    0xF0, 0x80, 0x80, 0x80, 0xF0, // C
    0xE0, 0x90, 0x90, 0x90, 0xE0, // D
    0xF0, 0x80, 0xF0, 0x80, 0xF0, // E
    0xF0, 0x80, 0xF0, 0x80, 0x80, // F
];

/// Failures of memory access.
#[derive(Clone, Copy, Debug, PartialEq, Eq, Structural)]
pub enum MemoryError {
    /// An access reached past the last byte of the address space.
    AddressOutOfRange,
    /// A program image longer than `MAX_ROM_SIZE` bytes.
    RomTooLarge,
}

/// The big-endian 16-bit word stored at `addr` and `addr + 1`.
pub open spec fn word_at(mem: Seq<u8>, addr: int) -> u16 {
    (mem[addr] as int * 0x100 + mem[addr + 1] as int) as u16
}

/// The memory image after copying `rom` to `PROGRAM_START`; the rest is kept.
pub open spec fn loaded(mem: Seq<u8>, rom: Seq<u8>) -> Seq<u8> {
    mem.subrange(0, PROGRAM_START as int) + rom + mem.subrange(
        PROGRAM_START + rom.len(),
        mem.len() as int,
    )
}

/// The memory image. Every value of the array is a valid image.
pub struct Ram {
    pub memory: [u8; RAM_SIZE],
}

impl View for Ram {
    type V = Seq<u8>;

    open spec fn view(&self) -> Seq<u8> {
        self.memory@
    }
}

impl Ram {
    /// A zeroed memory image with the font at `FONT_START`.
    pub fn new() -> (r: Ram)
        ensures
            r@.len() == RAM_SIZE,
            r@.subrange(FONT_START as int, FONT_START + 80) == FONT@,
            forall|a: int| FONT_START + 80 <= a < RAM_SIZE ==> r@[a] == 0,
    {
        let mut memory = [0u8; RAM_SIZE];
        let mut k: usize = 0;
        while k < 80
            invariant
                k <= 80,
                forall|a: int| 0 <= a < k ==> memory@[FONT_START + a] == FONT@[a],
                forall|a: int| FONT_START + k <= a < RAM_SIZE ==> memory@[a] == 0,
            decreases 80 - k,
        {
            memory[FONT_START + k] = FONT[k];
            k = k + 1;
        }
        let r = Ram { memory };
        assert(r@.subrange(FONT_START as int, FONT_START + 80) =~= FONT@);
        r
    }

    /// Copies a program image to `PROGRAM_START`. Bytes past its end keep
    /// their value. Fails, changing nothing, when the image is too long.
    pub fn load(&mut self, rom: &[u8]) -> (r: Result<(), MemoryError>)
        ensures
            rom@.len() <= MAX_ROM_SIZE ==> r == Ok::<(), MemoryError>(()) && final(self)@ == loaded(
                old(self)@,
                rom@,
            ),
            rom@.len() > MAX_ROM_SIZE ==> r == Err::<(), MemoryError>(MemoryError::RomTooLarge)
                && final(self)@ == old(self)@,
    {
        if rom.len() > MAX_ROM_SIZE {
            return Err(MemoryError::RomTooLarge);
        }
        let ghost before = self@;
        let mut k: usize = 0;
        while k < rom.len()
            invariant
                k <= rom@.len() <= MAX_ROM_SIZE,
                self@.len() == RAM_SIZE,
                forall|a: int|
                    0 <= a < RAM_SIZE ==> self@[a] == if PROGRAM_START <= a < PROGRAM_START + k {
                        rom@[a - PROGRAM_START]
                    } else {
                        before[a]
                    },
            decreases rom@.len() - k,
        {
            self.memory[PROGRAM_START + k] = rom[k];
            k = k + 1;
        }
        assert(self@ =~= loaded(before, rom@));
        Ok(())
    }

    /// The big-endian word at `offset`, or `AddressOutOfRange` when
    /// `offset + 1` is past the end of memory.
    pub fn word(&self, offset: u16) -> (r: Result<u16, MemoryError>)
        ensures
            offset + 1 < RAM_SIZE ==> r == Ok::<u16, MemoryError>(word_at(self@, offset as int)),
            offset + 1 >= RAM_SIZE ==> r == Err::<u16, MemoryError>(
                MemoryError::AddressOutOfRange,
            ),
    {
        let addr = offset as usize;
        if addr + 1 >= RAM_SIZE {
            return Err(MemoryError::AddressOutOfRange);
        }
        let higher = (self.memory[addr] as u16) * 0x100;
        let lower = self.memory[addr + 1] as u16;
        Ok(higher + lower)
    }

    /// The byte at `addr`, or `AddressOutOfRange`.
    pub fn read_byte(&self, addr: usize) -> (r: Result<u8, MemoryError>)
        ensures
            addr < RAM_SIZE ==> r == Ok::<u8, MemoryError>(self@[addr as int]),
            addr >= RAM_SIZE ==> r == Err::<u8, MemoryError>(MemoryError::AddressOutOfRange),
    {
        if addr >= RAM_SIZE {
            return Err(MemoryError::AddressOutOfRange);
        }
        Ok(self.memory[addr])
    }

    /// Stores `value` at `addr`, or fails with `AddressOutOfRange` and
    /// changes nothing.
    pub fn write_byte(&mut self, addr: usize, value: u8) -> (r: Result<(), MemoryError>)
        ensures
            addr < RAM_SIZE ==> r == Ok::<(), MemoryError>(()) && final(self)@ == old(self)@.update(addr as int, value),
            addr >= RAM_SIZE ==> r == Err::<(), MemoryError>(MemoryError::AddressOutOfRange)
                && final(self)@ == old(self)@,
    {
        if addr >= RAM_SIZE {
            return Err(MemoryError::AddressOutOfRange);
        }
        self.memory[addr] = value;
        Ok(())
    }

    /// The whole memory image, for read-only inspection.
    pub fn as_bytes(&self) -> (r: &[u8; RAM_SIZE])
        ensures
            r@ == self@,
    {
        &self.memory
    }
}

} // verus!
