//! The editable model that the import produces: palettes of deduplicated
//! tiles, and areas of per-screen tile grids.

use vstd::prelude::*;

use crate::flip::{grid_view, grid_wf, spec_flip_grid, Flip, PixelGrid};

verus! {

/// A color channel value (0-31).
pub type ColorValue = u8;

/// An index into a 16-slot palette row (0-15).
pub type ColorIdx = u8;

/// The external identity of a palette.
pub type PaletteId = u16;

/// An index into a palette's tile list.
pub type TileIdx = u16;

/// A number of 8x8 tiles from an area's top-left corner.
pub type TileCoord = u16;

/// The name of an area.
pub type AreaName = String;

/// The name of a theme.
pub type ThemeName = String;

/// An 8-bit collision code.
pub type CollisionType = u8;

/// A red/green/blue triple of 5-bit channel values.
pub type ColorRGB = [ColorValue; 3];

/// The identity of an area within a theme.
#[derive(Clone, Debug, PartialEq, Eq, Hash)]
pub struct AreaId {
    pub area: AreaName,
    pub theme: ThemeName,
}

/// One stored 8x8 tile of a palette: a priority flag, a collision code, the
/// flips the ROM content is observed to use for it, and its pixel grid of
/// 3-bit color indices.
#[derive(Copy, Clone, Debug, PartialEq, Eq, Hash)]
pub struct Tile {
    pub priority: bool,
    pub collision: CollisionType,
    pub h_flippable: bool,
    pub v_flippable: bool,
    pub pixels: PixelGrid,
}

impl Default for Tile {
    /// The blank tile: no flags set and every pixel zero.
    fn default() -> (r: Tile)
        ensures
            !r.priority && !r.h_flippable && !r.v_flippable && r.collision == 0,
            forall|y: int, x: int| 0 <= y < 8 && 0 <= x < 8 ==> grid_view(r.pixels)[y][x] == 0,
    {
        Tile { priority: false, collision: 0, h_flippable: false, v_flippable: false, pixels: [[0; 8]; 8] }
    }
}

/// A palette: its identity, display name, 16 color slots (slot 0 is
/// conventionally the background) and the tiles unique to it.
#[derive(Clone, Debug)]
pub struct Palette {
    pub modified: bool,
    pub name: String,
    pub id: PaletteId,
    pub colors: [ColorRGB; 16],
    pub tiles: Vec<Tile>,
}

/// One 256x256-pixel section of an area: 32x32 grids of palette ids, tile
/// indices and flips, plus the screen's position within the area.
#[derive(Debug)]
pub struct Screen {
    pub position: (u8, u8),
    pub palettes: [[PaletteId; 32]; 32],
    pub tiles: [[TileIdx; 32]; 32],
    pub flips: [[Flip; 32]; 32],
}

/// An editable area: name, background color, size in screens, and the
/// screens' grids in row-major order.
#[derive(Debug)]
pub struct Area {
    pub modified: bool,
    pub name: AreaName,
    pub theme: ThemeName,
    pub vanilla_map_id: Option<u8>,
    pub bg_color: ColorRGB,
    pub size: (u8, u8),
    pub screens: Vec<Screen>,
}

impl Flip {
    /// The tile with its pixels mirrored by `self`; the flags and the
    /// collision code are kept.
    pub fn apply_to_tile(self, tile: Tile) -> (r: Tile)
        ensures
            grid_view(r.pixels) == spec_flip_grid(self, grid_view(tile.pixels)),
            r.priority == tile.priority,
            r.collision == tile.collision,
            r.h_flippable == tile.h_flippable,
            r.v_flippable == tile.v_flippable,
    {
        Tile { pixels: self.apply_to_pixels(tile.pixels), ..tile }
    }
}

/// Whether `new` is `old` with entry (`sy`, `sx`) replaced by `v` and every
/// other entry kept.
pub open spec fn grid32_set<T>(
    old_g: [[T; 32]; 32],
    new_g: [[T; 32]; 32],
    sy: int,
    sx: int,
    v: T,
) -> bool {
    &&& new_g@[sy]@[sx] == v
    &&& forall|r: int, c: int|
        0 <= r < 32 && 0 <= c < 32 && !(r == sy && c == sx) ==> new_g@[r]@[c] == old_g@[r]@[c]
}

impl Area {
    /// The area's identity: its name under its theme.
    pub fn id(&self) -> (r: AreaId)
        ensures
            r.area == self.name,
            r.theme == self.theme,
    {
        AreaId { area: self.name.clone(), theme: self.theme.clone() }
    }

    /// The shape every area must keep: one screen per cell of the
    /// `size.0 x size.1` screen grid.
    pub open spec fn wf(self) -> bool {
        self.screens.len() == self.size.0 * self.size.1
    }

    /// Whether the 8x8-tile coordinates lie inside the area.
    pub open spec fn spec_in_range(self, x: TileCoord, y: TileCoord) -> bool {
        x < self.size.0 * 32 && y < self.size.1 * 32
    }

    /// The row-major index of the screen holding tile coordinates (`x`, `y`).
    pub open spec fn spec_screen_index(self, x: TileCoord, y: TileCoord) -> int {
        (y / 32) * self.size.0 + x / 32
    }

    /// Splits area-relative tile coordinates into a screen index and
    /// screen-relative coordinates; fails exactly when out of range.
    pub fn get_screen_coords(&self, x: TileCoord, y: TileCoord) -> (r: Result<
        (usize, usize, usize),
        crate::error::ImportError,
    >)
        ensures
            self.spec_in_range(x, y) ==> r == Ok::<_, crate::error::ImportError>(
                (
                    self.spec_screen_index(x, y) as usize,
                    (x % 32) as usize,
                    (y % 32) as usize,
                ),
            ),
            !self.spec_in_range(x, y) ==> r == Err::<(usize, usize, usize), _>(
                crate::error::ImportError::CoordOutOfRange,
            ),
            self.spec_in_range(x, y) && self.wf() ==> 0 <= self.spec_screen_index(x, y)
                < self.screens.len(),
    {
        if x >= self.size.0 as TileCoord * 32 || y >= self.size.1 as TileCoord * 32 {
            return Err(crate::error::ImportError::CoordOutOfRange);
        }
        proof {
            assert(y / 32 <= self.size.1 - 1) by (nonlinear_arith)
                requires
                    y < self.size.1 * 32,
            ;
            assert(x / 32 <= self.size.0 - 1) by (nonlinear_arith)
                requires
                    x < self.size.0 * 32,
            ;
            assert((y / 32) * self.size.0 + x / 32 < self.size.1 * self.size.0 <= 0xFE01)
                by (nonlinear_arith)
                requires
                    y / 32 <= self.size.1 - 1,
                    x / 32 <= self.size.0 - 1,
                    0 < self.size.0 <= 0xFF,
                    0 < self.size.1 <= 0xFF,
            ;
        }
        let screen_x = (x / 32) as usize;
        let screen_y = (y / 32) as usize;
        let screen_i = screen_y * self.size.0 as usize + screen_x;
        Ok((screen_i, (x % 32) as usize, (y % 32) as usize))
    }

    /// The palette id at the cell; fails exactly when out of range.
    pub fn get_palette(&self, x: TileCoord, y: TileCoord) -> (r: Result<
        PaletteId,
        crate::error::ImportError,
    >)
        requires
            self.wf(),
        ensures
            self.spec_in_range(x, y) ==> r == Ok::<_, crate::error::ImportError>(
                self.screens@[self.spec_screen_index(x, y)].palettes@[y as int % 32]@[x as int % 32],
            ),
            !self.spec_in_range(x, y) ==> r == Err::<PaletteId, _>(
                crate::error::ImportError::CoordOutOfRange,
            ),
    {
        let (i, sx, sy) = self.get_screen_coords(x, y)?;
        Ok(self.screens[i].palettes[sy][sx])
    }

    /// The tile index at the cell; fails exactly when out of range.
    pub fn get_tile(&self, x: TileCoord, y: TileCoord) -> (r: Result<
        TileIdx,
        crate::error::ImportError,
    >)
        requires
            self.wf(),
        ensures
            self.spec_in_range(x, y) ==> r == Ok::<_, crate::error::ImportError>(
                self.screens@[self.spec_screen_index(x, y)].tiles@[y as int % 32]@[x as int % 32],
            ),
            !self.spec_in_range(x, y) ==> r == Err::<TileIdx, _>(
                crate::error::ImportError::CoordOutOfRange,
            ),
    {
        let (i, sx, sy) = self.get_screen_coords(x, y)?;
        Ok(self.screens[i].tiles[sy][sx])
    }

    /// The flip at the cell; fails exactly when out of range.
    pub fn get_flip(&self, x: TileCoord, y: TileCoord) -> (r: Result<
        Flip,
        crate::error::ImportError,
    >)
        requires
            self.wf(),
        ensures
            self.spec_in_range(x, y) ==> r == Ok::<_, crate::error::ImportError>(
                self.screens@[self.spec_screen_index(x, y)].flips@[y as int % 32]@[x as int % 32],
            ),
            !self.spec_in_range(x, y) ==> r == Err::<Flip, _>(
                crate::error::ImportError::CoordOutOfRange,
            ),
    {
        let (i, sx, sy) = self.get_screen_coords(x, y)?;
        Ok(self.screens[i].flips[sy][sx])
    }

    /// Writes the tile index at the cell; fails, changing nothing, exactly
    /// when out of range.
    pub fn set_tile(&mut self, x: TileCoord, y: TileCoord, tile_idx: TileIdx) -> (r: Result<
        (),
        crate::error::ImportError,
    >)
        requires
            old(self).wf(),
        ensures
            final(self).wf(),
            final(self).modified == old(self).modified,
            final(self).name == old(self).name,
            final(self).theme == old(self).theme,
            final(self).vanilla_map_id == old(self).vanilla_map_id,
            final(self).bg_color == old(self).bg_color,
            final(self).size == old(self).size,
            final(self).screens.len() == old(self).screens.len(),
            !old(self).spec_in_range(x, y) ==> r == Err::<(), _>(
                crate::error::ImportError::CoordOutOfRange,
            ) && *final(self) == *old(self),
            old(self).spec_in_range(x, y) ==> r == Ok::<_, crate::error::ImportError>(())
                && (forall|j: int|
                0 <= j < old(self).screens.len() && j != old(self).spec_screen_index(x, y)
                    ==> final(self).screens@[j] == old(self).screens@[j]) && {
                let i = old(self).spec_screen_index(x, y);
                let olds = old(self).screens@[i];
                let news = final(self).screens@[i];
                &&& news.position == olds.position
                &&& news.palettes == olds.palettes
                &&& news.flips == olds.flips
                &&& grid32_set(olds.tiles, news.tiles, y as int % 32, x as int % 32, tile_idx)
            },
    {
        let (i, sx, sy) = self.get_screen_coords(x, y)?;
        self.screens[i].tiles[sy][sx] = tile_idx;
        Ok(())
    }

    /// Writes the palette id at the cell; fails, changing nothing, exactly
    /// when out of range.
    pub fn set_palette(&mut self, x: TileCoord, y: TileCoord, palette_id: PaletteId) -> (r: Result<
        (),
        crate::error::ImportError,
    >)
        requires
            old(self).wf(),
        ensures
            final(self).wf(),
            final(self).modified == old(self).modified,
            final(self).name == old(self).name,
            final(self).theme == old(self).theme,
            final(self).vanilla_map_id == old(self).vanilla_map_id,
            final(self).bg_color == old(self).bg_color,
            final(self).size == old(self).size,
            final(self).screens.len() == old(self).screens.len(),
            !old(self).spec_in_range(x, y) ==> r == Err::<(), _>(
                crate::error::ImportError::CoordOutOfRange,
            ) && *final(self) == *old(self),
            old(self).spec_in_range(x, y) ==> r == Ok::<_, crate::error::ImportError>(())
                && (forall|j: int|
                0 <= j < old(self).screens.len() && j != old(self).spec_screen_index(x, y)
                    ==> final(self).screens@[j] == old(self).screens@[j]) && {
                let i = old(self).spec_screen_index(x, y);
                let olds = old(self).screens@[i];
                let news = final(self).screens@[i];
                &&& news.position == olds.position
                &&& news.tiles == olds.tiles
                &&& news.flips == olds.flips
                &&& grid32_set(olds.palettes, news.palettes, y as int % 32, x as int % 32, palette_id)
            },
    {
        let (i, sx, sy) = self.get_screen_coords(x, y)?;
        self.screens[i].palettes[sy][sx] = palette_id;
        Ok(())
    }

    /// Writes the flip at the cell; fails, changing nothing, exactly when out
    /// of range.
    pub fn set_flip(&mut self, x: TileCoord, y: TileCoord, flip: Flip) -> (r: Result<
        (),
        crate::error::ImportError,
    >)
        requires
            old(self).wf(),
        ensures
            final(self).wf(),
            final(self).modified == old(self).modified,
            final(self).name == old(self).name,
            final(self).theme == old(self).theme,
            final(self).vanilla_map_id == old(self).vanilla_map_id,
            final(self).bg_color == old(self).bg_color,
            final(self).size == old(self).size,
            final(self).screens.len() == old(self).screens.len(),
            !old(self).spec_in_range(x, y) ==> r == Err::<(), _>(
                crate::error::ImportError::CoordOutOfRange,
            ) && *final(self) == *old(self),
            old(self).spec_in_range(x, y) ==> r == Ok::<_, crate::error::ImportError>(())
                && (forall|j: int|
                0 <= j < old(self).screens.len() && j != old(self).spec_screen_index(x, y)
                    ==> final(self).screens@[j] == old(self).screens@[j]) && {
                let i = old(self).spec_screen_index(x, y);
                let olds = old(self).screens@[i];
                let news = final(self).screens@[i];
                &&& news.position == olds.position
                &&& news.tiles == olds.tiles
                &&& news.palettes == olds.palettes
                &&& grid32_set(olds.flips, news.flips, y as int % 32, x as int % 32, flip)
            },
    {
        let (i, sx, sy) = self.get_screen_coords(x, y)?;
        self.screens[i].flips[sy][sx] = flip;
        Ok(())
    }
}

/// Whether `id` occurs anywhere in one of the area's palette grids.
pub open spec fn spec_area_uses_palette(a: Area, id: PaletteId) -> bool {
    exists|s: int, y: int, x: int|
        0 <= s < a.screens@.len() && 0 <= y < 32 && 0 <= x < 32 && (
        #[trigger] a.screens@[s].palettes@[y]@[x]) == id
}

impl Area {
    /// The palette ids the area uses, each once, in ascending order.
    pub fn get_unique_palettes(&self) -> (r: Vec<PaletteId>)
        ensures
            forall|i: int, j: int| 0 <= i < j < r@.len() ==> r@[i] < r@[j],
            forall|id: PaletteId| r@.contains(id) <==> spec_area_uses_palette(*self, id),
    {
        let mut r: Vec<PaletteId> = Vec::new();
        let mut s: usize = 0;
        while s < self.screens.len()
            invariant
                s <= self.screens@.len(),
                forall|i: int, j: int| 0 <= i < j < r@.len() ==> r@[i] < r@[j],
                forall|id: PaletteId|
                    r@.contains(id) <==> exists|s2: int, y: int, x: int|
                        0 <= s2 < s && 0 <= y < 32 && 0 <= x < 32 && (
                        #[trigger] self.screens@[s2].palettes@[y]@[x]) == id,
            decreases self.screens@.len() - s,
        {
            let mut y: usize = 0;
            while y < 32
                invariant
                    y <= 32,
                    s < self.screens@.len(),
                    forall|i: int, j: int| 0 <= i < j < r@.len() ==> r@[i] < r@[j],
                    forall|id: PaletteId|
                        r@.contains(id) <==> exists|s2: int, y2: int, x: int|
                            0 <= s2 < self.screens@.len() && 0 <= y2 < 32 && 0 <= x < 32 && (s2 < s
                                || (s2 == s && y2 < y)) && (
                            #[trigger] self.screens@[s2].palettes@[y2]@[x]) == id,
                decreases 32 - y,
            {
                let mut x: usize = 0;
                while x < 32
                    invariant
                        x <= 32,
                        y < 32,
                        s < self.screens@.len(),
                        forall|i: int, j: int| 0 <= i < j < r@.len() ==> r@[i] < r@[j],
                        forall|id: PaletteId|
                            r@.contains(id) <==> exists|s2: int, y2: int, x2: int|
                                0 <= s2 < self.screens@.len() && 0 <= y2 < 32 && 0 <= x2 < 32 && (
                                s2 < s || (s2 == s && y2 < y) || (s2 == s && y2 == y && x2 < x))
                                    && (#[trigger] self.screens@[s2].palettes@[y2]@[x2]) == id,
                    decreases 32 - x,
                {
                    let id = self.screens[s].palettes[y][x];
                    insert_sorted_unique(&mut r, id);
                    proof {
                        assert(self.screens@[s as int].palettes@[y as int]@[x as int] == id);
                        assert forall|id2: PaletteId| r@.contains(id2) implies exists|
                            s2: int,
                            y2: int,
                            x2: int,
                        |
                            0 <= s2 < self.screens@.len() && 0 <= y2 < 32 && 0 <= x2 < 32 && (s2 < s
                                || (s2 == s && y2 < y) || (s2 == s && y2 == y && x2 < x + 1)) && (
                            #[trigger] self.screens@[s2].palettes@[y2]@[x2]) == id2 by {
                            if id2 == id {
                                assert(0 <= s < self.screens@.len() && 0 <= y < 32 && 0 <= x < 32
                                    && self.screens@[s as int].palettes@[y as int]@[x as int]
                                    == id2);
                            }
                        }
                    }
                    x = x + 1;
                }
                y = y + 1;
            }
            s = s + 1;
        }
        r
    }
}

/// Inserts `id` at its sorted position unless it is already present.
fn insert_sorted_unique(r: &mut Vec<PaletteId>, id: PaletteId)
    requires
        forall|i: int, j: int| 0 <= i < j < old(r)@.len() ==> old(r)@[i] < old(r)@[j],
    ensures
        forall|i: int, j: int| 0 <= i < j < final(r)@.len() ==> final(r)@[i] < final(r)@[j],
        forall|id2: PaletteId|
            final(r)@.contains(id2) <==> (old(r)@.contains(id2) || id2 == id),
{
    let ghost r0: Seq<PaletteId> = r@;
    let mut i: usize = 0;
    while i < r.len() && r[i] < id
        invariant
            i <= r@.len(),
            r@ == r0,
            forall|j: int| 0 <= j < i ==> r0[j] < id,
            forall|i2: int, j2: int| 0 <= i2 < j2 < r0.len() ==> r0[i2] < r0[j2],
        decreases r@.len() - i,
    {
        i = i + 1;
    }
    if i < r.len() && r[i] == id {
        proof {
            assert(r@.contains(id));
        }
        return ;
    }
    proof {
        assert forall|j: int| i <= j < r0.len() implies r0[j] > id by {
            if j == i {
                assert(r0[j] >= id);
            } else {
                assert(r0[i as int] < r0[j]);
                assert(r0[i as int] >= id);
            }
        }
    }
    r.insert(i, id);
    proof {
        r0.insert_ensures(i as int, id);
        assert forall|id2: PaletteId| r@.contains(id2) implies (r0.contains(id2) || id2 == id) by {
            let j = choose|j: int| 0 <= j < r@.len() && r@[j] == id2;
            if j < i {
                assert(r0[j] == id2);
            } else if j > i {
                assert(r0[j - 1] == id2);
            }
        }
        assert forall|id2: PaletteId| (r0.contains(id2) || id2 == id) implies r@.contains(id2) by {
            if id2 == id {
                assert(r@[i as int] == id2);
            } else {
                let j = choose|j: int| 0 <= j < r0.len() && r0[j] == id2;
                if j < i {
                    assert(r@[j] == id2);
                } else {
                    assert(r@[j + 1] == id2);
                }
            }
        }
    }
}

} // verus!
