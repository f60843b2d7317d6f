//! The 4096-byte addressable memory.
//!
//! Addresses 0x000..0x1FF are reserved for the interpreter; the canonical
//! hexadecimal font lives at 0x000..0x050 and program images load at 0x200.
//! Every read and write is bounds-checked against 4096. Keeping ordinary
//! opcode execution out of the reserved region is the interpreter's duty,
//! not this component's: `write_byte` itself only checks the 4096 bound.

use vstd::prelude::*;

use crate::errors::CpuError;

verus! {

/// Size of the addressable memory in bytes.
pub const MEM_SIZE: usize = 4096;

/// First address at which program images load; everything below is reserved.
pub const PROGRAM_START: usize = 0x200;

/// The five rows of the font glyph for hexadecimal digit `d` (0..16).
pub open spec fn font_sprite(d: int) -> Seq<u8> {
    if d == 0x0 {
        seq![0xF0, 0x90, 0x90, 0x90, 0xF0]
    } else if d == 0x1 {
        seq![0x20, 0x60, 0x20, 0x20, 0x70]
    } else if d == 0x2 {
        seq![0xF0, 0x10, 0xF0, 0x80, 0xF0]
    } else if d == 0x3 {
        seq![0xF0, 0x10, 0xF0, 0x10, 0xF0]
    } else if d == 0x4 {
        seq![0x90, 0x90, 0xF0, 0x10, 0x10]
    } else if d == 0x5 {
        seq![0xF0, 0x80, 0xF0, 0x10, 0xF0]
    } else if d == 0x6 {
        seq![0xF0, 0x80, 0xF0, 0x90, 0xF0]
    } else if d == 0x7 {
        seq![0xF0, 0x10, 0x20, 0x40, 0x40]
    } else if d == 0x8 {
        seq![0xF0, 0x90, 0xF0, 0x90, 0xF0]
    } else if d == 0x9 {
        seq![0xF0, 0x90, 0xF0, 0x10, 0xF0]
    } else if d == 0xA {
        seq![0xF0, 0x90, 0xF0, 0x90, 0x90]
    } else if d == 0xB {
        seq![0xE0, 0x90, 0xE0, 0x90, 0xE0]
    } else if d == 0xC {
        seq![0xF0, 0x80, 0x80, 0x80, 0xF0]
    } else if d == 0xD {
        seq![0xE0, 0x90, 0x90, 0x90, 0xE0]
    } else if d == 0xE {
        seq![0xF0, 0x80, 0xF0, 0x80, 0xF0]
    } else {
        seq![0xF0, 0x80, 0xF0, 0x80, 0x80]
    }
}

/// The byte at offset `a` of the font table: row `a mod 5` of glyph `a div 5`.
pub open spec fn font_byte(a: int) -> u8 {
    font_sprite(a / 5)[a % 5]
}

/// The contents of a memory after the font table is written over its first
/// 80 bytes.
pub open spec fn with_fonts(mem: Seq<u8>) -> Seq<u8> {
    Seq::new(
        mem.len(),
        |a: int|
            if 0 <= a < 80 {
                font_byte(a)
            } else {
                mem[a]
            },
    )
}

/// The byte at address `a` of a freshly constructed memory: the font table
/// in the first 80 bytes, zero everywhere else.
pub open spec fn initial_mem_byte(a: int) -> u8 {
    if 0 <= a < 80 {
        font_byte(a)
    } else {
        0
    }
}

/// The contents of a freshly constructed memory.
pub open spec fn initial_mem() -> Seq<u8> {
    Seq::new(MEM_SIZE as nat, |a: int| initial_mem_byte(a))
}

/// The 4096-byte addressable space, viewed as a sequence of bytes.
pub struct Memory {
    bytes: Vec<u8>,
}

impl View for Memory {
    type V = Seq<u8>;

    closed spec fn view(&self) -> Seq<u8> {
        self.bytes@
    }
}

impl Memory {
    /// A memory holds exactly 4096 bytes.
    pub open spec fn wf(&self) -> bool {
        self@.len() == MEM_SIZE
    }

    /// Build a memory of 4096 zero bytes. The font table is written
    /// afterwards by the interpreter's `load_fonts`.
    pub fn new() -> (mem: Memory)
        ensures
            mem.wf(),
            mem@ == Seq::new(MEM_SIZE as nat, |a: int| 0u8),
    {
        let mut bytes: Vec<u8> = Vec::new();
        let mut a: usize = 0;
        while a < MEM_SIZE
            invariant
                a == bytes@.len(),
                a <= MEM_SIZE,
                forall|k: int| 0 <= k < a ==> bytes@[k] == 0,
            decreases MEM_SIZE - a,
        {
            bytes.push(0);
            a = a + 1;
        }
        let mem = Memory { bytes };
        proof {
            assert(mem@ =~= Seq::new(MEM_SIZE as nat, |a: int| 0u8));
        }
        mem
    }

    /// The byte at `addr`, which must be in bounds.
    pub fn byte_at(&self, addr: usize) -> (r: u8)
        requires
            self.wf(),
            addr < MEM_SIZE,
        ensures
            r == self@[addr as int],
    {
        self.bytes[addr]
    }

    /// Store `value` at `addr`, which must be in bounds.
    pub fn set_byte(&mut self, addr: usize, value: u8)
        requires
            old(self).wf(),
            addr < MEM_SIZE,
        ensures
            final(self).wf(),
            final(self)@ == old(self)@.update(addr as int, value),
    {
        self.bytes.set(addr, value);
    }

    /// The byte at `addr`, or a fault if the address is out of bounds.
    pub fn read_byte(&self, addr: usize) -> (r: Result<u8, CpuError>)
        requires
            self.wf(),
        ensures
            addr < MEM_SIZE ==> r == Ok::<u8, CpuError>(self@[addr as int]),
            addr >= MEM_SIZE ==> r == Err::<u8, CpuError>(CpuError::OutOfBoundsMemoryAccess),
    {
        if addr < MEM_SIZE {
            Ok(self.bytes[addr])
        } else {
            Err(CpuError::OutOfBoundsMemoryAccess)
        }
    }

    /// Store `value` at `addr`, or report a fault if the address is out of
    /// bounds, leaving the memory unchanged.
    pub fn write_byte(&mut self, addr: usize, value: u8) -> (r: Result<(), CpuError>)
        requires
            old(self).wf(),
        ensures
            final(self).wf(),
            addr < MEM_SIZE ==> r == Ok::<(), CpuError>(()) && final(self)@ == old(self)@.update(
                addr as int,
                value,
            ),
            addr >= MEM_SIZE ==> r == Err::<(), CpuError>(CpuError::OutOfBoundsMemoryAccess)
                && final(self)@ == old(self)@,
    {
        if addr < MEM_SIZE {
            self.bytes.set(addr, value);
            Ok(())
        } else {
            Err(CpuError::OutOfBoundsMemoryAccess)
        }
    }

    /// Copy a program image into memory starting at 0x200. An image that
    /// does not fit is rejected whole with `ProgramTooLarge` and the memory
    /// is left unchanged.
    pub fn load_program(&mut self, program: &Vec<u8>) -> (r: Result<(), CpuError>)
        requires
            old(self).wf(),
        ensures
            final(self).wf(),
            PROGRAM_START + program@.len() <= MEM_SIZE ==> r == Ok::<(), CpuError>(())
                && final(self)@ == loaded_mem(old(self)@, program@),
            PROGRAM_START + program@.len() > MEM_SIZE ==> r == Err::<(), CpuError>(
                CpuError::ProgramTooLarge,
            ) && final(self)@ == old(self)@,
    {
        if program.len() > MEM_SIZE - PROGRAM_START {
            return Err(CpuError::ProgramTooLarge);
        }
        let mut k: usize = 0;
        while k < program.len()
            invariant
                self@.len() == MEM_SIZE,
                k <= program@.len(),
                PROGRAM_START + program@.len() <= MEM_SIZE,
                forall|a: int|
                    0 <= a < MEM_SIZE && !(PROGRAM_START <= a < PROGRAM_START + k) ==> self@[a]
                        == old(self)@[a],
                forall|a: int|
                    PROGRAM_START <= a < PROGRAM_START + k ==> self@[a] == program@[a
                        - PROGRAM_START],
            decreases program@.len() - k,
        {
            self.bytes.set(PROGRAM_START + k, program[k]);
            k = k + 1;
        }
        proof {
            assert(self@ =~= loaded_mem(old(self)@, program@));
        }
        Ok(())
    }
}

/// The contents of a memory after a program image is copied in at 0x200.
pub open spec fn loaded_mem(mem: Seq<u8>, program: Seq<u8>) -> Seq<u8> {
    Seq::new(
        mem.len(),
        |a: int|
            if PROGRAM_START <= a < PROGRAM_START + program.len() {
                program[a - PROGRAM_START]
            } else {
                mem[a]
            },
    )
}

/// The five rows of the font glyph for the hexadecimal digit `d`.
pub fn font_rows(d: u8) -> (r: (u8, u8, u8, u8, u8))
    requires
        d < 16,
    ensures
        r.0 == font_sprite(d as int)[0],
        r.1 == font_sprite(d as int)[1],
        r.2 == font_sprite(d as int)[2],
        r.3 == font_sprite(d as int)[3],
        r.4 == font_sprite(d as int)[4],
{
    if d == 0x0 {
        (0xF0, 0x90, 0x90, 0x90, 0xF0)
    } else if d == 0x1 {
        (0x20, 0x60, 0x20, 0x20, 0x70)
    } else if d == 0x2 {
        (0xF0, 0x10, 0xF0, 0x80, 0xF0)
    } else if d == 0x3 {
        (0xF0, 0x10, 0xF0, 0x10, 0xF0)
    } else if d == 0x4 {
        (0x90, 0x90, 0xF0, 0x10, 0x10)
    } else if d == 0x5 {
        (0xF0, 0x80, 0xF0, 0x10, 0xF0)
    } else if d == 0x6 {
        (0xF0, 0x80, 0xF0, 0x90, 0xF0)
    } else if d == 0x7 {
        (0xF0, 0x10, 0x20, 0x40, 0x40)
    } else if d == 0x8 {
        (0xF0, 0x90, 0xF0, 0x90, 0xF0)
    } else if d == 0x9 {
        (0xF0, 0x90, 0xF0, 0x10, 0xF0)
    } else if d == 0xA {
        (0xF0, 0x90, 0xF0, 0x90, 0x90)
    } else if d == 0xB {
        (0xE0, 0x90, 0xE0, 0x90, 0xE0)
    } else if d == 0xC {
        (0xF0, 0x80, 0x80, 0x80, 0xF0)
    } else if d == 0xD {
        (0xE0, 0x90, 0x90, 0x90, 0xE0)
    } else if d == 0xE {
        (0xF0, 0x80, 0xF0, 0x80, 0xF0)
    } else {
        (0xF0, 0x80, 0xF0, 0x80, 0x80)
    }
}

} // verus!
