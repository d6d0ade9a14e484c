//! Bounds-checked access to the flat ROM byte buffer, with fixed-width
//! little-endian reads.

use vstd::prelude::*;

use crate::addr::{spec_pc, PcAddr, SnesAddr};
use crate::error::ImportError;

verus! {

/// The ROM image: an immutable owned byte sequence.
#[derive(Clone)]
pub struct Rom {
    pub data: Vec<u8>,
}

/// The little-endian 16-bit value formed by the two bytes at `i`.
pub open spec fn spec_u16_at(data: Seq<u8>, i: int) -> int {
    data[i] + data[i + 1] * 0x100
}

/// The little-endian 24-bit value formed by the three bytes at `i`.
pub open spec fn spec_u24_at(data: Seq<u8>, i: int) -> int {
    data[i] + data[i + 1] * 0x100 + data[i + 2] * 0x10000
}

impl Rom {
    pub fn new(data: Vec<u8>) -> (r: Rom)
        ensures
            r.data == data,
    {
        Rom { data }
    }

    /// The byte at `addr`; fails exactly when `addr` is past the end.
    pub fn read_u8(&self, addr: PcAddr) -> (r: Result<u8, ImportError>)
        ensures
            addr.0 < self.data.len() ==> r == Ok::<u8, ImportError>(self.data[addr.0 as int]),
            addr.0 >= self.data.len() ==> r == Err::<u8, ImportError>(ImportError::OutOfBounds),
    {
        if (addr.0 as usize) < self.data.len() {
            Ok(self.data[addr.0 as usize])
        } else {
            Err(ImportError::OutOfBounds)
        }
    }

    /// The little-endian 16-bit value at `addr`; fails exactly when the pair
    /// of bytes does not fit in the buffer.
    pub fn read_u16(&self, addr: PcAddr) -> (r: Result<u16, ImportError>)
        ensures
            addr.0 + 1 < self.data.len() ==> (r matches Ok(v) && v == spec_u16_at(
                self.data@,
                addr.0 as int,
            )),
            addr.0 + 1 >= self.data.len() ==> r == Err::<u16, ImportError>(
                ImportError::OutOfBounds,
            ),
    {
        let a = addr.0 as usize;
        if a < self.data.len() && self.data.len() - a > 1 {
            let b0 = self.data[a] as u16;
            let b1 = self.data[a + 1] as u16;
            Ok(b0 + b1 * 0x100)
        } else {
            Err(ImportError::OutOfBounds)
        }
    }

    /// The little-endian 24-bit value at `addr`; fails exactly when the three
    /// bytes do not fit in the buffer.
    pub fn read_u24(&self, addr: PcAddr) -> (r: Result<u32, ImportError>)
        ensures
            addr.0 + 2 < self.data.len() ==> (r matches Ok(v) && v == spec_u24_at(
                self.data@,
                addr.0 as int,
            )),
            addr.0 + 2 >= self.data.len() ==> r == Err::<u32, ImportError>(
                ImportError::OutOfBounds,
            ),
    {
        let a = addr.0 as usize;
        if a < self.data.len() && self.data.len() - a > 2 {
            let b0 = self.data[a] as u32;
            let b1 = self.data[a + 1] as u32;
            let b2 = self.data[a + 2] as u32;
            Ok(b0 + b1 * 0x100 + b2 * 0x10000)
        } else {
            Err(ImportError::OutOfBounds)
        }
    }

    /// A copy of the `n` bytes starting at `addr`; fails exactly when the
    /// range does not fit in the buffer.
    pub fn read_n(&self, addr: PcAddr, n: usize) -> (r: Result<Vec<u8>, ImportError>)
        ensures
            addr.0 + n <= self.data.len() ==> (r matches Ok(v) && v@ == self.data@.subrange(
                addr.0 as int,
                addr.0 + n,
            )),
            addr.0 + n > self.data.len() ==> r == Err::<Vec<u8>, ImportError>(
                ImportError::OutOfBounds,
            ),
    {
        if n <= self.data.len() && addr.0 as usize <= self.data.len() - n {
            let mut out: Vec<u8> = Vec::new();
            let base = addr.0 as usize;
            for i in 0..n
                invariant
                    base + n <= self.data.len(),
                    out@ == self.data@.subrange(base as int, base + i),
            {
                out.push(self.data[base + i]);
                assert(out@ =~= self.data@.subrange(base as int, base + i + 1));
            }
            Ok(out)
        } else {
            Err(ImportError::OutOfBounds)
        }
    }
}

/// The byte at banked address `a` (given as a plain integer so that table
/// offsets can be added without wrapping): the address must fit 32 bits,
/// select the ROM-mapped half of its bank, and land inside the buffer.
pub open spec fn spec_snes_u8(data: Seq<u8>, a: int) -> Result<u8, ImportError> {
    if a > u32::MAX {
        Err(ImportError::OutOfBounds)
    } else if a % 0x10000 < 0x8000 {
        Err(ImportError::NotRomMapped)
    } else if spec_pc(a as u32) >= data.len() {
        Err(ImportError::OutOfBounds)
    } else {
        Ok(data[spec_pc(a as u32)])
    }
}

/// The little-endian 16-bit value at banked address `a`.
pub open spec fn spec_snes_u16(data: Seq<u8>, a: int) -> Result<u16, ImportError> {
    if a > u32::MAX {
        Err(ImportError::OutOfBounds)
    } else if a % 0x10000 < 0x8000 {
        Err(ImportError::NotRomMapped)
    } else if spec_pc(a as u32) + 1 >= data.len() {
        Err(ImportError::OutOfBounds)
    } else {
        Ok(spec_u16_at(data, spec_pc(a as u32)) as u16)
    }
}

/// The little-endian 24-bit value at banked address `a`.
pub open spec fn spec_snes_u24(data: Seq<u8>, a: int) -> Result<u32, ImportError> {
    if a > u32::MAX {
        Err(ImportError::OutOfBounds)
    } else if a % 0x10000 < 0x8000 {
        Err(ImportError::NotRomMapped)
    } else if spec_pc(a as u32) + 2 >= data.len() {
        Err(ImportError::OutOfBounds)
    } else {
        Ok(spec_u24_at(data, spec_pc(a as u32)) as u32)
    }
}

/// The `n` bytes at banked address `a`.
pub open spec fn spec_snes_n(data: Seq<u8>, a: int, n: int) -> Result<Seq<u8>, ImportError> {
    if a > u32::MAX {
        Err(ImportError::OutOfBounds)
    } else if a % 0x10000 < 0x8000 {
        Err(ImportError::NotRomMapped)
    } else if spec_pc(a as u32) + n > data.len() {
        Err(ImportError::OutOfBounds)
    } else {
        Ok(data.subrange(spec_pc(a as u32), spec_pc(a as u32) + n))
    }
}

impl Rom {
    /// Reads the byte at `base + off` in the banked address space, checking
    /// that the sum names a translatable in-bounds location.
    pub fn snes_u8(&self, base: SnesAddr, off: u64) -> (r: Result<u8, ImportError>)
        requires
            off <= 0xFFFF_FFFF_0000_0000,
        ensures
            r == spec_snes_u8(self.data@, base.0 + off),
    {
        let a = base.0 as u64 + off;
        if a > u32::MAX as u64 {
            return Err(ImportError::OutOfBounds);
        }
        let sa = SnesAddr(a as u32);
        if !sa.rom_mapped() {
            return Err(ImportError::NotRomMapped);
        }
        self.read_u8(sa.to_pc())
    }

    /// Reads the little-endian 16-bit value at `base + off` in the banked
    /// address space.
    pub fn snes_u16(&self, base: SnesAddr, off: u64) -> (r: Result<u16, ImportError>)
        requires
            off <= 0xFFFF_FFFF_0000_0000,
        ensures
            r == spec_snes_u16(self.data@, base.0 + off),
    {
        let a = base.0 as u64 + off;
        if a > u32::MAX as u64 {
            return Err(ImportError::OutOfBounds);
        }
        let sa = SnesAddr(a as u32);
        if !sa.rom_mapped() {
            return Err(ImportError::NotRomMapped);
        }
        self.read_u16(sa.to_pc())
    }

    /// Reads the little-endian 24-bit value at `base + off` in the banked
    /// address space.
    pub fn snes_u24(&self, base: SnesAddr, off: u64) -> (r: Result<u32, ImportError>)
        requires
            off <= 0xFFFF_FFFF_0000_0000,
        ensures
            r == spec_snes_u24(self.data@, base.0 + off),
    {
        let a = base.0 as u64 + off;
        if a > u32::MAX as u64 {
            return Err(ImportError::OutOfBounds);
        }
        let sa = SnesAddr(a as u32);
        if !sa.rom_mapped() {
            return Err(ImportError::NotRomMapped);
        }
        self.read_u24(sa.to_pc())
    }

    /// Reads `n` bytes at `base + off` in the banked address space.
    pub fn snes_n(&self, base: SnesAddr, off: u64, n: usize) -> (r: Result<Vec<u8>, ImportError>)
        requires
            off <= 0xFFFF_FFFF_0000_0000,
        ensures
            (match spec_snes_n(self.data@, base.0 + off, n as int) {
                Ok(s) => r matches Ok(v) && v@ == s,
                Err(e) => r == Err::<Vec<u8>, ImportError>(e),
            }),
    {
        let a = base.0 as u64 + off;
        if a > u32::MAX as u64 {
            return Err(ImportError::OutOfBounds);
        }
        let sa = SnesAddr(a as u32);
        if !sa.rom_mapped() {
            return Err(ImportError::NotRomMapped);
        }
        self.read_n(sa.to_pc(), n)
    }
}

/// The little-endian 16-bit value at file offset `a`, which must fit 32
/// bits and leave both bytes inside the buffer.
pub open spec fn spec_pc_u16(data: Seq<u8>, a: int) -> Result<u16, ImportError> {
    if a > u32::MAX {
        Err(ImportError::OutOfBounds)
    } else if a + 1 >= data.len() {
        Err(ImportError::OutOfBounds)
    } else {
        Ok(spec_u16_at(data, a) as u16)
    }
}

impl Rom {
    /// Reads the little-endian 16-bit value at `base + off` in the linear
    /// file-offset space.
    pub fn pc_u16(&self, base: PcAddr, off: u64) -> (r: Result<u16, ImportError>)
        requires
            off <= 0xFFFF_FFFF_0000_0000,
        ensures
            r == spec_pc_u16(self.data@, base.0 + off),
    {
        let a = base.0 as u64 + off;
        if a > u32::MAX as u64 {
            return Err(ImportError::OutOfBounds);
        }
        self.read_u16(PcAddr(a as u32))
    }
}

} // verus!
