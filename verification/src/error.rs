//! The typed failures of the import pipeline. All of them are fatal format
//! errors: the run aborts and publishes no partial output.

use vstd::prelude::*;

verus! {

/// A fatal failure while reading the ROM into the editable model.
#[derive(Copy, Clone, Debug, PartialEq, Eq, Structural)]
pub enum ImportError {
    /// A read reached past the end of the ROM buffer.
    OutOfBounds,
    /// None of the known format signatures matched.
    UnknownRomFormat,
    /// A compressed stream used a block type outside the five defined ones.
    BadBlockType,
    /// A back-reference block pointed at or past the decode cursor.
    BadBackReference,
    /// A graphics sheet did not decompress to exactly 0x600 bytes.
    BadGraphicsSheetLength,
    /// A composite-16 index read from the composite-32 tables was out of range.
    Tile16IndexOutOfRange,
    /// A map tile plane did not decompress to exactly 256 bytes.
    BadMapPlaneLength,
    /// A graphics-character index pointed outside the region's graphics table.
    GfxIndexOutOfRange,
    /// A remapped graphics index pointed outside the decoded sheet tiles.
    GfxSheetOutOfRange,
    /// A tile coordinate fell outside the area being written.
    CoordOutOfRange,
    /// An address selected the lower (RAM/register/mirror) half of a bank.
    /// This signals an inconsistent constants table or ROM pointer.
    NotRomMapped,
    /// A palette-group selector pointed outside its group's table.
    PaletteSelectorOutOfRange,
    /// A composite-32 index pointed outside the loaded 32x32 table.
    CompositeIndexOutOfRange,
    /// A palette accumulated more stored tiles than a tile index can name.
    TileIndexOverflow,
}

impl ImportError {
    /// A short human-readable description of the failure.
    pub fn describe(self) -> &'static str {
        match self {
            ImportError::OutOfBounds => "read address out of bounds",
            ImportError::UnknownRomFormat => "unknown ROM format",
            ImportError::BadBlockType => "unexpected/impossible block type",
            ImportError::BadBackReference => "back-reference offset out of range",
            ImportError::BadGraphicsSheetLength => "unexpected graphics sheet length",
            ImportError::Tile16IndexOutOfRange => "16x16 tile index out of bounds",
            ImportError::BadMapPlaneLength => "unexpected map plane length",
            ImportError::GfxIndexOutOfRange => "graphics index out of bounds",
            ImportError::GfxSheetOutOfRange => "graphics sheet index out of bounds",
            ImportError::CoordOutOfRange => "tile coordinate out of range",
            ImportError::NotRomMapped => "address not in the ROM-mapped half of a bank",
            ImportError::PaletteSelectorOutOfRange => "palette selector out of range",
            ImportError::CompositeIndexOutOfRange => "32x32 tile index out of bounds",
            ImportError::TileIndexOverflow => "too many distinct tiles in one palette",
        }
    }
}

} // verus!
