//! The two address spaces of the source hardware: banked console addresses
//! (`SnesAddr`) and linear byte offsets into the ROM file (`PcAddr`).
//!
//! Mixing the two up is a classic mistake, so each is a distinct wrapper type
//! and the only way from one to the other is the explicit translation below.

use vstd::prelude::*;

verus! {

/// A linear byte index into the ROM file buffer.
#[derive(Copy, Clone, Debug, PartialEq, Eq, Structural)]
pub struct PcAddr(pub u32);

/// The file-offset formula of the translation, for stating where in the
/// buffer a banked literal address lands.
pub open spec fn spec_pc(a: u32) -> int {
    (a >> 1 & 0x3F8000 | a & 0x7FFF) as int
}

/// A 24-bit banked console address. Only the upper half of each bank
/// (low 15 bits with bit 15 set) maps to ROM content.
#[derive(Copy, Clone, Debug, PartialEq, Eq, Structural)]
pub struct SnesAddr(pub u32);

impl SnesAddr {
    /// True when the address selects the upper (ROM-mapped) half of its bank,
    /// which is the only region that can be translated to a file offset.
    pub open spec fn spec_rom_mapped(self) -> bool {
        self.0 % 0x10000 >= 0x8000
    }

    /// Whether this address can be translated to a file offset. An address
    /// in the lower half of a bank maps to RAM, registers or mirrors, and a
    /// constants table or a ROM pointer that names one is inconsistent.
    pub fn rom_mapped(&self) -> (r: bool)
        ensures
            r == self.spec_rom_mapped(),
    {
        self.0 % 0x10000 >= 0x8000
    }

    /// Builds a 24-bit address out of bank, high and low bytes.
    pub fn from_bytes(bank: u8, high: u8, low: u8) -> (r: SnesAddr)
        ensures
            r.0 == bank * 0x10000 + high * 0x100 + low,
    {
        SnesAddr(bank as u32 * 0x10000 + high as u32 * 0x100 + low as u32)
    }

    /// Builds a 24-bit address out of a bank byte and a 16-bit offset into it.
    pub fn from_bank_offset(bank: u8, offset: u16) -> (r: SnesAddr)
        ensures
            r.0 == bank * 0x10000 + offset,
    {
        SnesAddr(bank as u32 * 0x10000 + offset as u32)
    }

    /// The file offset that this banked address maps to: 32KB-aligned banks map
    /// one-to-one onto 16KB linear blocks, keeping the low 15 bits.
    ///
    /// Referencing the lower half of a bank (RAM, registers, mirrors) is a
    /// programmer error in the constants table, not a ROM-content error, so it
    /// is ruled out here rather than reported as a recoverable failure.
    pub fn to_pc(self) -> (r: PcAddr)
        requires
            self.spec_rom_mapped(),
        ensures
            r.0 == self.0 >> 1 & 0x3F8000 | self.0 & 0x7FFF,
    {
        PcAddr(self.0 >> 1 & 0x3F8000 | self.0 & 0x7FFF)
    }
}

/// No two distinct ROM-mapped banked addresses (below the mirrored upper half
/// of the address space) translate to the same file offset.
pub proof fn lemma_to_pc_injective(a: SnesAddr, b: SnesAddr)
    requires
        a.spec_rom_mapped(),
        b.spec_rom_mapped(),
        a.0 < 0x800000,
        b.0 < 0x800000,
        a.0 >> 1 & 0x3F8000 | a.0 & 0x7FFF == b.0 >> 1 & 0x3F8000 | b.0 & 0x7FFF,
    ensures
        a == b,
{
    let x = a.0;
    let y = b.0;
    assert(x == y) by (bit_vector)
        requires
            x % 0x10000 >= 0x8000,
            y % 0x10000 >= 0x8000,
            x < 0x800000,
            y < 0x800000,
            x >> 1 & 0x3F8000 | x & 0x7FFF == y >> 1 & 0x3F8000 | y & 0x7FFF,
    ;
}

} // verus!
