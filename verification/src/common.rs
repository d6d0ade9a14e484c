//! Plain value types shared with tooling around the editor: a color as
//! three 5-bit channels, and a minimal tile and palette shape.

use vstd::prelude::*;

verus! {

/// A color channel value (0-31).
pub type ColorValue = u8;

/// An index into a 4-bits-per-pixel palette row (0-15).
pub type ColorIdx = u8;

/// An index into a palette list.
pub type PaletteIdx = u8;

/// An index into a palette's tile list.
pub type TileIdx = u8;

/// A value representing a tile's collision type.
pub type CollisionValue = u8;

/// A color of three 5-bit channels.
#[derive(Copy, Clone, PartialEq, Eq, Structural)]
pub struct Color {
    pub red: ColorValue,
    pub green: ColorValue,
    pub blue: ColorValue,
}

impl Default for Color {
    /// Black: every channel zero.
    fn default() -> (r: Color)
        ensures
            r.red == 0 && r.green == 0 && r.blue == 0,
    {
        Color { red: 0, green: 0, blue: 0 }
    }
}

/// An 8x8 tile: its palette, its collision value, and its pixels.
pub struct Tile {
    pub palette: PaletteIdx,
    pub collision: CollisionValue,
    pub pixels: [[ColorIdx; 8]; 8],
}

/// A named row of 16 colors.
pub struct Palette {
    pub name: String,
    pub colors: [Color; 16],
}

} // verus!
