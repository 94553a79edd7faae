use vstd::prelude::*;
use crate::error::Error;

verus! {

/// The sixteen built-in glyphs `0` to `F`, five rows each, one byte per row
/// with the glyph in the high nibble.
pub open spec fn font_table() -> Seq<u8> {
    seq![
        0xF0u8, 0x90u8, 0x90u8, 0x90u8, 0xF0u8,
        0x20u8, 0x60u8, 0x20u8, 0x20u8, 0x70u8,
        0xF0u8, 0x10u8, 0xF0u8, 0x80u8, 0xF0u8,
        0xF0u8, 0x10u8, 0xF0u8, 0x10u8, 0xF0u8,
        0x90u8, 0x90u8, 0xF0u8, 0x10u8, 0x10u8,
        0xF0u8, 0x80u8, 0xF0u8, 0x10u8, 0xF0u8,
        0xF0u8, 0x80u8, 0xF0u8, 0x90u8, 0xF0u8,
        0xF0u8, 0x10u8, 0x20u8, 0x40u8, 0x40u8,
        0xF0u8, 0x90u8, 0xF0u8, 0x90u8, 0xF0u8,
        0xF0u8, 0x90u8, 0xF0u8, 0x10u8, 0xF0u8,
        0xF0u8, 0x90u8, 0xF0u8, 0x90u8, 0x90u8,
        0xE0u8, 0x90u8, 0xE0u8, 0x90u8, 0xE0u8,
        0xF0u8, 0x80u8, 0x80u8, 0x80u8, 0xF0u8,
        0xE0u8, 0x90u8, 0x90u8, 0x90u8, 0xE0u8,
        0xF0u8, 0x80u8, 0xF0u8, 0x80u8, 0xF0u8,
        0xF0u8, 0x80u8, 0xF0u8, 0x80u8, 0x80u8,
    ]
}

/// What memory holds before the first instruction runs: the font at
/// `0x50..0xA0`, the program from 512 on, zero everywhere else.
pub open spec fn initial_memory(rom: Seq<u8>) -> Seq<u8> {
    Seq::new(
        4096,
        |a: int|
            if 512 <= a < 512 + rom.len() {
                rom[a - 512]
            } else if 0x50 <= a < 0xA0 {
                font_table()[a - 0x50]
            } else {
                0u8
            },
    )
}

/// The outcome of reading one byte at `address`.
pub open spec fn read_u8_spec(mem: Seq<u8>, address: int) -> Result<u8, Error> {
    if 0 <= address < 4096 {
        Ok(mem[address])
    } else {
        Err(Error::OutOfBoundsAccess { address: address as u32 })
    }
}

/// The outcome of reading a big-endian word whose high byte is at `address`.
pub open spec fn read_u16_spec(mem: Seq<u8>, address: int) -> Result<u16, Error> {
    if 0 <= address && address + 1 < 4096 {
        Ok((mem[address] * 256 + mem[address + 1]) as u16)
    } else if address < 4096 {
        Err(Error::OutOfBoundsAccess { address: (address + 1) as u32 })
    } else {
        Err(Error::OutOfBoundsAccess { address: address as u32 })
    }
}

/// Memory after an attempt to store `byte` at `address`: unchanged when the
/// address is out of range.
pub open spec fn write_u8_spec(mem: Seq<u8>, address: int, byte: u8) -> Seq<u8> {
    if 0 <= address < 4096 {
        mem.update(address, byte)
    } else {
        mem
    }
}

/// The outcome of an attempt to store a byte at `address`.
pub open spec fn write_u8_result(address: int) -> Result<(), Error> {
    if 0 <= address < 4096 {
        Ok(())
    } else {
        Err(Error::OutOfBoundsAccess { address: address as u32 })
    }
}

/// A byte stored in a cell is the byte read from it, and a cell that does
/// not exist can be neither written nor read.
pub proof fn lemma_write_then_read(mem: Seq<u8>, address: int, byte: u8)
    requires
        mem.len() == 4096,
        0 <= address,
    ensures
        address < 4096 ==> write_u8_result(address) is Ok && read_u8_spec(
            write_u8_spec(mem, address, byte),
            address,
        ) == Ok::<u8, Error>(byte),
        address >= 4096 ==> write_u8_result(address) is Err && read_u8_spec(mem, address) is Err
            && write_u8_spec(mem, address, byte) == mem,
{
}

fn font_data() -> (font: [u8; 80])
    ensures
        font@ == font_table(),
{
    [
        0xF0, 0x90, 0x90, 0x90, 0xF0,
        0x20, 0x60, 0x20, 0x20, 0x70,
        0xF0, 0x10, 0xF0, 0x80, 0xF0,
        0xF0, 0x10, 0xF0, 0x10, 0xF0,
        0x90, 0x90, 0xF0, 0x10, 0x10,
        0xF0, 0x80, 0xF0, 0x10, 0xF0,
        0xF0, 0x80, 0xF0, 0x90, 0xF0,
        0xF0, 0x10, 0x20, 0x40, 0x40,
        0xF0, 0x90, 0xF0, 0x90, 0xF0,
        0xF0, 0x90, 0xF0, 0x10, 0xF0,
        0xF0, 0x90, 0xF0, 0x90, 0x90,
        0xE0, 0x90, 0xE0, 0x90, 0xE0,
        0xF0, 0x80, 0x80, 0x80, 0xF0,
        0xE0, 0x90, 0x90, 0x90, 0xE0,
        0xF0, 0x80, 0xF0, 0x80, 0xF0,
        0xF0, 0x80, 0xF0, 0x80, 0x80,
    ]
}

/// 4 KiB of byte-addressable memory.
#[derive(Debug)]
pub struct Memory([u8; 4096]);

impl View for Memory {
    type V = Seq<u8>;

    closed spec fn view(&self) -> Seq<u8> {
        self.0@
    }
}

impl Memory {
    /// Address of the first font byte.
    pub const FONT_OFFSET: u16 = 0x50;

    /// Address at which a program is loaded and starts to run.
    pub const ROM_OFFSET: u16 = 512;

    /// Every memory has 4096 cells.
    pub proof fn lemma_size(&self)
        ensures
            self@.len() == 4096,
    {
    }

    /// Memory holding the font and `rom`. The program must fit between its
    /// load address and the end of memory.
    pub fn new(rom: &[u8]) -> (memory: Self)
        requires
            rom@.len() <= 4096 - 512,
        ensures
            memory@ == initial_memory(rom@),
    {
        let mut memory = [0u8; 4096];
        let font = font_data();
        let mut i: usize = 0;
        while i < 80
            invariant
                i <= 80,
                font@ == font_table(),
                forall|a: int| 0 <= a < 4096 ==> memory@[a] == if 0x50 <= a < 0x50 + i {
                    font_table()[a - 0x50]
                } else {
                    0u8
                },
            decreases 80 - i,
        {
            memory[Self::FONT_OFFSET as usize + i] = font[i];
            i += 1;
        }
        let mut j: usize = 0;
        while j < rom.len()
            invariant
                j <= rom@.len() <= 4096 - 512,
                forall|a: int| 0 <= a < 4096 ==> memory@[a] == if 512 <= a < 512 + j {
                    rom@[a - 512]
                } else if 0x50 <= a < 0xA0 {
                    font_table()[a - 0x50]
                } else {
                    0u8
                },
            decreases rom@.len() - j,
        {
            memory[Self::ROM_OFFSET as usize + j] = rom[j];
            j += 1;
        }
        Memory(memory)
    }

    /// Memory holding the font and `rom`, or the address of the first
    /// program byte that has no cell.
    pub fn load(rom: &[u8]) -> (loaded: Result<Self, Error>)
        ensures
            rom@.len() <= 4096 - 512 ==> loaded is Ok && loaded->Ok_0@ == initial_memory(rom@),
            rom@.len() > 4096 - 512 ==> loaded == Err::<Self, Error>(
                Error::OutOfBoundsAccess { address: 4096 },
            ),
    {
        if rom.len() <= 4096 - 512 {
            Ok(Self::new(rom))
        } else {
            Err(Error::OutOfBoundsAccess { address: 4096 })
        }
    }

    /// The byte at `pos`.
    pub fn read_u8(&self, pos: u16) -> (read: Result<u8, Error>)
        ensures
            read == read_u8_spec(self@, pos as int),
    {
        if pos < 4096 {
            Ok(self.0[pos as usize])
        } else {
            Err(Error::OutOfBoundsAccess { address: pos as u32 })
        }
    }

    /// Stores `byte` at `pos`.
    pub fn write_u8(&mut self, pos: u16, byte: u8) -> (written: Result<(), Error>)
        ensures
            final(self)@ == write_u8_spec(old(self)@, pos as int, byte),
            written == write_u8_result(pos as int),
    {
        if pos >= 4096 {
            return Err(Error::OutOfBoundsAccess { address: pos as u32 });
        }
        self.0[pos as usize] = byte;
        Ok(())
    }

    /// The big-endian word whose high byte is at `pos` and whose low byte
    /// is at `pos + 1`.
    pub fn read_u16(&self, pos: u16) -> (read: Result<u16, Error>)
        ensures
            read == read_u16_spec(self@, pos as int),
    {
        let byte1 = match self.read_u8(pos) {
            Ok(b) => b as u16,
            Err(e) => { return Err(e); },
        };
        let byte2 = match self.read_u8(pos + 1) {
            Ok(b) => b as u16,
            Err(e) => { return Err(e); },
        };
        assert((byte1 << 8) | byte2 == byte1 * 256 + byte2) by (bit_vector)
            requires
                byte1 < 256,
                byte2 < 256,
        ;
        Ok((byte1 << 8) | byte2)
    }
}

impl Default for Memory {
    fn default() -> (memory: Self)
        ensures
            memory@ == Seq::new(4096, |a: int| 0u8),
    {
        Memory([0u8; 4096])
    }
}

/// The index of one of the sixteen general registers `V0` to `VF`.
#[derive(Debug, Clone, Copy, PartialEq, Eq, PartialOrd, Ord, Structural)]
pub struct RegIdx(u8);

impl View for RegIdx {
    type V = int;

    closed spec fn view(&self) -> int {
        self.0 as int
    }
}

impl RegIdx {
    /// Whether the index names a register. Every index that executable code
    /// can hold does.
    #[verifier::type_invariant]
    pub closed spec fn wf(self) -> bool {
        self.0 <= 15
    }

    /// The index with the number `idx`.
    pub closed spec fn of(idx: u8) -> Self {
        RegIdx(idx)
    }

    /// `of` and the view are inverse to each other.
    pub proof fn lemma_of(idx: u8)
        ensures
            Self::of(idx)@ == idx,
            Self::of(idx).wf() <==> idx <= 15,
    {
    }

    /// Every index is the index of its own number.
    pub proof fn lemma_of_view(self)
        ensures
            0 <= self@ <= 255,
            Self::of(self@ as u8) == self,
    {
    }

    /// A wrapped index lies in `0..16`.
    pub proof fn lemma_wf_range(self)
        ensures
            self.wf() <==> 0 <= self@ <= 15,
    {
    }

    /// The index of register `idx`.
    pub fn new(idx: u8) -> (reg: Self)
        requires
            idx <= 15,
        ensures
            reg == Self::of(idx),
            reg@ == idx,
            reg.wf(),
    {
        RegIdx(idx)
    }

    /// The index of `VF`, the register that instructions use to report a
    /// carry, a borrow, a shifted-out bit or a collision.
    pub fn flag() -> (reg: Self)
        ensures
            reg == Self::of(15),
            reg@ == 15,
            reg.wf(),
    {
        RegIdx(0xF)
    }

    /// The index as a number.
    pub fn as_u8(&self) -> (idx: u8)
        ensures
            idx == self@,
            idx <= 15,
    {
        proof {
            use_type_invariant(self);
        }
        self.0
    }
}

/// The sixteen general 8-bit registers.
#[derive(Debug)]
pub struct Registers([u8; 16]);

impl View for Registers {
    type V = Seq<u8>;

    closed spec fn view(&self) -> Seq<u8> {
        self.0@
    }
}

impl Registers {
    /// There are sixteen registers.
    pub proof fn lemma_size(&self)
        ensures
            self@.len() == 16,
    {
    }

    /// Sixteen registers holding zero.
    pub fn new() -> (regs: Self)
        ensures
            regs@ == Seq::new(16, |i: int| 0u8),
    {
        Registers([0u8; 16])
    }

    /// The value of register `idx`.
    pub fn get(&self, idx: RegIdx) -> (value: u8)
        ensures
            value == self@[idx@],
    {
        self.0[idx.as_u8() as usize]
    }

    /// Sets register `idx` to `value`.
    pub fn set(&mut self, idx: RegIdx, value: u8)
        ensures
            final(self)@ == old(self)@.update(idx@, value),
    {
        self.0[idx.as_u8() as usize] = value;
    }

    /// The value of the flag register `VF`.
    pub fn flag(&self) -> (value: u8)
        ensures
            value == self@[15],
    {
        self.0[15]
    }

    /// Sets the flag register `VF` to `value`.
    pub fn set_flag(&mut self, value: u8)
        ensures
            final(self)@ == old(self)@.update(15, value),
    {
        self.0[15] = value;
    }
}

impl core::ops::Index<RegIdx> for Registers {
    type Output = u8;

    fn index(&self, index: RegIdx) -> (value: &u8)
        ensures
            *value == self@[index@],
    {
        &self.0[index.as_u8() as usize]
    }
}

impl vstd::std_specs::core::IndexSpecImpl<RegIdx> for Registers {
    open spec fn index_req(&self, index: &RegIdx) -> bool {
        true
    }
}

impl core::ops::IndexMut<RegIdx> for Registers {
    fn index_mut(&mut self, index: RegIdx) -> (value: &mut u8)
        ensures
            *value == old(self)@[index@],
            final(self)@ == old(self)@.update(index@, *final(value)),
    {
        &mut self.0[index.as_u8() as usize]
    }
}

impl Default for Registers {
    fn default() -> (regs: Self)
        ensures
            regs@ == Seq::new(16, |i: int| 0u8),
    {
        Registers::new()
    }
}

} // verus!
