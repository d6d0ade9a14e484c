//! The area builder: walks every top-level region's tile grid through the
//! three composition levels (32x32, 16x16, 8x8), resolves each cell to a
//! concrete palette and canonical tile, and emits one editable area per
//! region.

use vstd::prelude::*;

use crate::canon::TileRegistry;
use crate::constants::Constants;
use crate::error::ImportError;
use crate::flip::{flip_h, flip_v, grid_view, spec_flip_grid, Flip, PixelGrid};
use crate::map::MapPalettes;
use crate::palettes::{spec_hex_seq1, PaletteIdTables, PALETTE_COUNT};
use crate::rom::{spec_pc_u16, Rom};
use crate::state::{Area, ColorRGB, PaletteId, Screen, Tile};
use crate::tiles::{Tile16, Tile32, Tile8};

verus! {

/// The immutable stage outputs that the area builder reads.
pub struct ImportTables {
    pub tiles8: Vec<PixelGrid>,
    pub tiles16: Vec<Tile16>,
    pub tiles32: Vec<Tile32>,
    pub map_tiles: Vec<[[u16; 16]; 16]>,
    pub map_parents: Vec<u16>,
    pub map_palettes: Vec<MapPalettes>,
    pub map_gfx: Vec<[u8; 8]>,
    pub tile_types: Vec<u8>,
    pub id_tables: PaletteIdTables,
    pub start_id: PaletteId,
}

impl ImportTables {
    /// The shapes the builder relies on: one entry per map slot in each
    /// per-slot table, the full collision table, and the sequential palette
    /// identity tables.
    pub open spec fn wf(self) -> bool {
        &&& self.map_tiles@.len() == self.map_parents@.len()
        &&& self.map_palettes@.len() == self.map_parents@.len()
        &&& self.map_gfx@.len() == self.map_parents@.len()
        &&& self.map_parents@.len() >= 0xA0
        &&& self.tile_types@.len() == 512
        &&& self.id_tables.wf(self.start_id as int)
        &&& self.start_id + PALETTE_COUNT <= u16::MAX
    }
}

/// The palette identity a cell resolves to: selectors 0 and 1 name the
/// fixed HUD pair; 2-6 name the region's main group unless the owning sheet
/// is in the high set, in which case 2-4 name the first auxiliary group and
/// 5-7 the second; selector 7 outside the high set names the animated
/// palette. A group selector outside its table is an error.
pub open spec fn spec_resolve_pal_id(
    pal: MapPalettes,
    p: int,
    high: bool,
    start_id: int,
) -> Result<int, ImportError> {
    if p == 0 || p == 1 {
        Ok(start_id + p)
    } else if !high && 2 <= p <= 6 {
        if pal.main < 6 {
            Ok(start_id + 2 + 5 * pal.main + (p - 2))
        } else {
            Err(ImportError::PaletteSelectorOutOfRange)
        }
    } else if !high && p == 7 {
        if pal.animated < 14 {
            Ok(start_id + 92 + pal.animated)
        } else {
            Err(ImportError::PaletteSelectorOutOfRange)
        }
    } else if high && 2 <= p <= 4 {
        if pal.aux1 < 20 {
            Ok(start_id + 32 + 3 * pal.aux1 + (p - 2))
        } else {
            Err(ImportError::PaletteSelectorOutOfRange)
        }
    } else if high && 5 <= p <= 7 {
        if pal.aux2 < 20 {
            Ok(start_id + 32 + 3 * pal.aux2 + (p - 5))
        } else {
            Err(ImportError::PaletteSelectorOutOfRange)
        }
    } else {
        Err(ImportError::PaletteSelectorOutOfRange)
    }
}

/// Resolves a cell's palette identity from its selector and the region's
/// palette groups.
pub fn resolve_pal_id(t: &PaletteIdTables, pal: MapPalettes, p: u8, high: bool, start_id: u16) -> (r:
    Result<PaletteId, ImportError>)
    requires
        t.wf(start_id as int),
        start_id + PALETTE_COUNT <= u16::MAX,
    ensures
        (match spec_resolve_pal_id(pal, p as int, high, start_id as int) {
            Ok(id) => r matches Ok(v) && v == id,
            Err(e) => r == Err::<PaletteId, ImportError>(e),
        }),
{
    if p == 0 || p == 1 {
        Ok(t.hud[0][p as usize])
    } else if !high && 2 <= p && p <= 6 {
        if pal.main < 6 {
            Ok(t.main[pal.main as usize][p as usize - 2])
        } else {
            Err(ImportError::PaletteSelectorOutOfRange)
        }
    } else if !high && p == 7 {
        if pal.animated < 14 {
            Ok(t.animated[pal.animated as usize])
        } else {
            Err(ImportError::PaletteSelectorOutOfRange)
        }
    } else if high && 2 <= p && p <= 4 {
        if pal.aux1 < 20 {
            Ok(t.aux[pal.aux1 as usize][p as usize - 2])
        } else {
            Err(ImportError::PaletteSelectorOutOfRange)
        }
    } else if high && 5 <= p && p <= 7 {
        if pal.aux2 < 20 {
            Ok(t.aux[pal.aux2 as usize][p as usize - 5])
        } else {
            Err(ImportError::PaletteSelectorOutOfRange)
        }
    } else {
        Err(ImportError::PaletteSelectorOutOfRange)
    }
}

/// The animated graphics sheet of a region: the death-mountain regions of
/// both worlds use one sheet, every other region the other.
pub open spec fn spec_animated_gfx(parent: int) -> int {
    if parent == 0x03 || parent == 0x05 || parent == 0x07 || parent == 0x43 || parent == 0x45
        || parent == 0x47 {
        0x59
    } else {
        0x5B
    }
}

/// Entry `g` of a region's 512-entry graphics-index remap: each of the 8
/// sheet codes contributes its sheet's 64 tiles, except that a fixed
/// sub-range is overridden by the first half of the animated sheet.
pub open spec fn spec_gfx_idx(gfx_row: Seq<u8>, parent: int, g: int) -> int {
    if 0x1C0 <= g < 0x1E0 {
        spec_animated_gfx(parent) * 64 + (g - 0x1C0)
    } else {
        gfx_row[g / 64] * 64 + g % 64
    }
}

/// Builds a region's graphics-index remap table from its 8 sheet codes.
#[verifier::loop_isolation(false)]
pub fn build_gfx_idxs(gfx_row: &[u8; 8], parent: u16) -> (r: Vec<u16>)
    ensures
        r@.len() == 512,
        forall|g: int|
            0 <= g < 512 ==> (#[trigger] r@[g]) == spec_gfx_idx(gfx_row@, parent as int, g),
{
    let animated_gfx: u16 = if parent == 0x03 || parent == 0x05 || parent == 0x07 || parent == 0x43
        || parent == 0x45 || parent == 0x47 {
        0x59
    } else {
        0x5B
    };
    let mut r: Vec<u16> = Vec::new();
    let mut g: usize = 0;
    while g < 512
        invariant
            g <= 512,
            r@.len() == g,
            animated_gfx == spec_animated_gfx(parent as int),
            forall|gg: int|
                0 <= gg < g ==> (#[trigger] r@[gg]) == spec_gfx_idx(gfx_row@, parent as int, gg),
        decreases 512 - g,
    {
        let v: u16 = if 0x1C0 <= g && g < 0x1E0 {
            animated_gfx * 64 + (g as u16 - 0x1C0)
        } else {
            gfx_row[g / 64] as u16 * 64 + (g as u16 % 64)
        };
        r.push(v);
        g = g + 1;
    }
    r
}

/// A region's background color: read from a variant-specific per-region
/// table when one exists, else one of three fixed color triples selected by
/// region index.
pub open spec fn spec_bg_color(data: Seq<u8>, c: Constants, parent: int) -> Result<
    ColorRGB,
    ImportError,
> {
    match c.custom_bg_colors_addr {
        Some(a) => {
            if !a.spec_rom_mapped() {
                Err(ImportError::NotRomMapped)
            } else {
                match spec_pc_u16(data, crate::addr::spec_pc(a.0) + 2 * parent) {
                    Ok(w) => Ok(
                        [(w as int % 32) as u8, ((w as int / 32) % 32) as u8, ((w as int / 1024)
                            % 32) as u8],
                    ),
                    Err(e) => Err(e),
                }
            }
        },
        None => {
            if 0x40 <= parent < 0x80 {
                Ok([18, 17, 10])
            } else if parent == 0x80 || parent == 0x82 || parent == 0x83 {
                Ok([6, 14, 6])
            } else {
                Ok([9, 19, 9])
            }
        },
    }
}

/// Resolves a region's background color.
pub fn bg_color_for(rom: &Rom, c: &Constants, parent: u16) -> (r: Result<ColorRGB, ImportError>)
    ensures
        (match spec_bg_color(rom.data@, *c, parent as int) {
            Ok(col) => r matches Ok(v) && v@ == col@,
            Err(e) => r == Err::<ColorRGB, ImportError>(e),
        }),
{
    match c.custom_bg_colors_addr {
        Some(a) => {
            if !a.rom_mapped() {
                return Err(ImportError::NotRomMapped);
            }
            let w = rom.pc_u16(a.to_pc(), 2 * parent as u64)?;
            let col: ColorRGB = [(w % 32) as u8, ((w / 32) % 32) as u8, ((w / 1024) % 32) as u8];
            proof {
                assert(col@ =~= spec_bg_color(rom.data@, *c, parent as int)->Ok_0@);
            }
            Ok(col)
        },
        None => {
            let col: ColorRGB = if 0x40 <= parent && parent < 0x80 {
                [18, 17, 10]
            } else if parent == 0x80 || parent == 0x82 || parent == 0x83 {
                [6, 14, 6]
            } else {
                [9, 19, 9]
            };
            proof {
                assert(col@ =~= spec_bg_color(rom.data@, *c, parent as int)->Ok_0@);
            }
            Ok(col)
        },
    }
}

/// The display name of the region: its slot index in two hexadecimal
/// digits, then the world it belongs to.
pub open spec fn spec_area_name(parent: int) -> Seq<char> {
    spec_hex_seq1((parent / 16) % 16) + spec_hex_seq1(parent % 16) + (if parent / 64 == 0 {
        " Light World"@
    } else if parent / 64 == 1 {
        " Dark World"@
    } else {
        " Special World"@
    })
}

/// Builds the display name of the region.
pub fn area_name(parent: u16) -> (r: String)
    requires
        parent < 0xC0,
    ensures
        r@ == spec_area_name(parent as int),
{
    let mut s = crate::palettes::hex_digit_str((parent as u32 / 16) % 16).to_owned();
    s.append(crate::palettes::hex_digit_str((parent as u32) % 16));
    if parent / 64 == 0 {
        s.append(" Light World");
    } else if parent / 64 == 1 {
        s.append(" Dark World");
    } else {
        s.append(" Special World");
    }
    s
}

/// Whether region slot `gfx_char / 64` draws from the sheets whose palette
/// selectors name the auxiliary groups rather than the main group.
pub open spec fn spec_pal_high(gfx_char: int) -> bool {
    let sheet = gfx_char / 64;
    sheet == 0 || sheet == 3 || sheet == 4 || sheet == 5
}

/// Whether two areas agree on everything but their cell grids.
pub open spec fn same_shape(a: Area, b: Area) -> bool {
    &&& b.wf()
    &&& b.size == a.size
    &&& b.name == a.name
    &&& b.theme == a.theme
    &&& b.modified == a.modified
    &&& b.vanilla_map_id == a.vanilla_map_id
    &&& b.bg_color == a.bg_color
    &&& b.screens@.len() == a.screens@.len()
    &&& forall|s: int|
        0 <= s < a.screens@.len() ==> (#[trigger] b.screens@[s]).position == a.screens@[s].position
}

/// Whether cell (`x`, `y`) holds the same palette, tile and flip in both.
pub open spec fn spec_cell_same(a: Area, b: Area, x: int, y: int) -> bool {
    let s = (y / 32) * a.size.0 + x / 32;
    &&& a.screens@[s].palettes@[y % 32]@[x % 32] == b.screens@[s].palettes@[y % 32]@[x % 32]
    &&& a.screens@[s].tiles@[y % 32]@[x % 32] == b.screens@[s].tiles@[y % 32]@[x % 32]
    &&& a.screens@[s].flips@[y % 32]@[x % 32] == b.screens@[s].flips@[y % 32]@[x % 32]
}

/// Whether cell (`x`, `y`) can be displayed: its palette is one of the
/// imported identities and its tile index names a stored tile of that
/// palette's registry.
pub open spec fn spec_cell_valid(
    a: Area,
    regs: Seq<TileRegistry>,
    start_id: int,
    x: int,
    y: int,
) -> bool {
    let s = (y / 32) * a.size.0 + x / 32;
    let p = a.screens@[s].palettes@[y % 32]@[x % 32];
    &&& start_id <= p < start_id + PALETTE_COUNT
    &&& a.screens@[s].tiles@[y % 32]@[x % 32] < regs[p - start_id].tiles@.len()
}

/// Whether `b` keeps every stored tile of `a` at its index, and keeps every
/// legal-flip bit already learned: the bits only ever turn on.
pub open spec fn reg_extends(a: TileRegistry, b: TileRegistry) -> bool {
    &&& a.tiles@.len() <= b.tiles@.len()
    &&& forall|t: int| 0 <= t < a.tiles@.len() ==> (#[trigger] b.tiles@[t]) == a.tiles@[t]
    &&& forall|t: int| 0 <= t < a.tiles@.len() && a.h_flippable@[t] ==> #[trigger] b.h_flippable@[t]
    &&& forall|t: int| 0 <= t < a.tiles@.len() && a.v_flippable@[t] ==> #[trigger] b.v_flippable@[t]
}

/// Whether every registry in `b` keeps every stored tile of its
/// counterpart in `a`.
pub open spec fn regs_extend(a: Seq<TileRegistry>, b: Seq<TileRegistry>) -> bool {
    &&& a.len() == b.len()
    &&& forall|p: int| 0 <= p < a.len() ==> reg_extends(#[trigger] a[p], #[trigger] b[p])
}

/// The registries of all palettes, well-formed.
pub open spec fn regs_ok(regs: Seq<TileRegistry>) -> bool {
    &&& regs.len() == PALETTE_COUNT
    &&& forall|p: int| 0 <= p < regs.len() ==> (#[trigger] regs[p]).wf()
}

/// Keeping stored tiles is transitive.
pub proof fn lemma_regs_extend_trans(a: Seq<TileRegistry>, b: Seq<TileRegistry>, c: Seq<TileRegistry>)
    requires
        regs_extend(a, b),
        regs_extend(b, c),
    ensures
        regs_extend(a, c),
{
    assert forall|p: int| 0 <= p < a.len() implies reg_extends(#[trigger] a[p], #[trigger] c[p]) by {
        assert(reg_extends(a[p], b[p]));
        assert(reg_extends(b[p], c[p]));
    }
}

/// The first deterministic failure of writing one cell from reference `t8`,
/// if any: a graphics character past the region remap, a remapped index past
/// the decoded sheet tiles, or a palette selector outside its group's table.
/// Whether the cell's tile index overflows is not here: it depends on how
/// many distinct tiles the palette accumulated before this cell.
pub open spec fn spec_emit_status(
    tables: ImportTables,
    gfx_idxs: Seq<u16>,
    pal: MapPalettes,
    t8: Tile8,
) -> Result<(), ImportError> {
    if t8.gfx_char >= 512 {
        Err(ImportError::GfxSheetOutOfRange)
    } else if gfx_idxs[t8.gfx_char as int] >= tables.tiles8@.len() {
        Err(ImportError::GfxIndexOutOfRange)
    } else {
        match spec_resolve_pal_id(
            pal,
            t8.pal_idx as int,
            spec_pal_high(t8.gfx_char as int),
            tables.start_id as int,
        ) {
            Ok(id) => Ok(()),
            Err(e) => Err(e),
        }
    }
}

/// Some palette's registry holds more stored tiles than a 16-bit cell tile
/// index can name. Only in this state can a run stop with a tile-index
/// overflow.
pub open spec fn spec_regs_overflowed(regs: Seq<TileRegistry>) -> bool {
    exists|p: int| 0 <= p < regs.len() && (#[trigger] regs[p]).tiles@.len() > 0xFFFF
}

/// How the per-palette background record may change as cells are written:
/// an entry appears with the first background color seen, is kept while
/// later cells agree, and turns black -- the ambiguity mark -- on the first
/// disagreement; it is never cleared and never replaced by a third color.
pub open spec fn bg_rec_evolves(a: Seq<Option<ColorRGB>>, b: Seq<Option<ColorRGB>>) -> bool {
    &&& a.len() == b.len()
    &&& forall|p: int|
        0 <= p < a.len() && a[p] is Some ==> (#[trigger] b[p]) is Some && (b[p]->0@ == a[p]->0@
            || b[p]->0@ == seq![0u8, 0u8, 0u8])
}

/// Every recorded background entry belongs to a palette that some cell
/// actually used: its registry holds at least one stored tile.
pub open spec fn bg_rec_ok(pal_bg: Seq<Option<ColorRGB>>, regs: Seq<TileRegistry>) -> bool {
    &&& pal_bg.len() == PALETTE_COUNT
    &&& forall|p: int|
        0 <= p < PALETTE_COUNT && pal_bg[p] is Some ==> (#[trigger] regs[p]).tiles@.len() > 0
}

/// The background-record evolution is transitive.
pub proof fn lemma_bg_rec_evolves_trans(
    a: Seq<Option<ColorRGB>>,
    b: Seq<Option<ColorRGB>>,
    c: Seq<Option<ColorRGB>>,
)
    requires
        bg_rec_evolves(a, b),
        bg_rec_evolves(b, c),
    ensures
        bg_rec_evolves(a, c),
{
    assert forall|p: int| 0 <= p < a.len() && a[p] is Some implies (#[trigger] c[p]) is Some && (
    c[p]->0@ == a[p]->0@ || c[p]->0@ == seq![0u8, 0u8, 0u8]) by {
        assert(b[p] is Some);
    }
}

/// A cell's pinned content survives as other cells are written and the
/// registries grow, since stored tiles are only ever appended.
pub proof fn lemma_cell_content_stable(
    a: Area,
    b: Area,
    ra: Seq<TileRegistry>,
    rb: Seq<TileRegistry>,
    tables: ImportTables,
    gfx_idxs: Seq<u16>,
    pal: MapPalettes,
    parent: int,
    x: int,
    y: int,
)
    requires
        spec_cell_content(a, ra, tables, gfx_idxs, pal, parent, x, y),
        spec_cell_valid(a, ra, tables.start_id as int, x, y),
        spec_cell_same(a, b, x, y),
        regs_extend(ra, rb),
        ra.len() == PALETTE_COUNT,
        a.size == b.size,
    ensures
        spec_cell_content(b, rb, tables, gfx_idxs, pal, parent, x, y),
{
    let s = (y / 32) * a.size.0 + x / 32;
    let cp = a.screens@[s].palettes@[y % 32]@[x % 32];
    let ct = a.screens@[s].tiles@[y % 32]@[x % 32];
    let cf = a.screens@[s].flips@[y % 32]@[x % 32];
    assert(reg_extends(ra[cp - tables.start_id], rb[cp - tables.start_id]));
    let cti = ct as int;
    assert(rb[cp - tables.start_id].tiles@[cti] == ra[cp - tables.start_id].tiles@[cti]);
    if flip_h(cf) {
        assert(rb[cp - tables.start_id].h_flippable@[cti]);
    }
    if flip_v(cf) {
        assert(rb[cp - tables.start_id].v_flippable@[cti]);
    }
}

/// Writes one 8x8 cell: resolves its palette, canonicalizes its tile under
/// the reference's flip, records palette, tile index and flip in the grid,
/// and tracks the background color seen with that palette.
#[verifier::loop_isolation(false)]
#[verifier::rlimit(100)]
fn emit_cell(
    area: &mut Area,
    regs: &mut Vec<TileRegistry>,
    pal_bg: &mut Vec<Option<ColorRGB>>,
    tables: &ImportTables,
    gfx_idxs: &Vec<u16>,
    pal: MapPalettes,
    t8: Tile8,
    x: u16,
    y: u16,
    bg_color: ColorRGB,
) -> (r: Result<(), ImportError>)
    requires
        old(area).wf(),
        old(area).spec_in_range(x, y),
        regs_ok(old(regs)@),
        old(pal_bg)@.len() == PALETTE_COUNT,
        tables.wf(),
        gfx_idxs@.len() == 512,
    ensures
        same_shape(*old(area), *final(area)),
        regs_ok(final(regs)@),
        regs_extend(old(regs)@, final(regs)@),
        final(pal_bg)@.len() == PALETTE_COUNT,
        bg_rec_evolves(old(pal_bg)@, final(pal_bg)@),
        bg_rec_ok(old(pal_bg)@, old(regs)@) ==> bg_rec_ok(final(pal_bg)@, final(regs)@),
        forall|x2: int, y2: int|
            0 <= x2 < old(area).size.0 * 32 && 0 <= y2 < old(area).size.1 * 32 && !(x2 == x && y2
                == y) ==> spec_cell_same(*old(area), *final(area), x2, y2),
        r is Err ==> *final(area) == *old(area),
        r is Err ==> final(pal_bg)@ == old(pal_bg)@,
        (match spec_emit_status(*tables, gfx_idxs@, pal, t8) {
            Err(e) => r == Err::<(), ImportError>(e),
            Ok(u) => r is Ok || (r == Err::<(), ImportError>(ImportError::TileIndexOverflow)
                && spec_regs_overflowed(final(regs)@)),
        }),
        r is Ok ==> spec_cell_valid(
            *final(area),
            final(regs)@,
            tables.start_id as int,
            x as int,
            y as int,
        ),
        r is Ok ==> ({
            let s = (y as int / 32) * old(area).size.0 + x as int / 32;
            let cp = final(area).screens@[s].palettes@[y as int % 32]@[x as int % 32];
            let ct = final(area).screens@[s].tiles@[y as int % 32]@[x as int % 32];
            let cf = final(area).screens@[s].flips@[y as int % 32]@[x as int % 32];
            let pid = spec_resolve_pal_id(
                pal,
                t8.pal_idx as int,
                spec_pal_high(t8.gfx_char as int),
                tables.start_id as int,
            )->Ok_0;
            let q = spec_flip_grid(
                t8.flip,
                grid_view(tables.tiles8@[gfx_idxs@[t8.gfx_char as int] as int]),
            );
            &&& cp == pid
            &&& spec_flip_grid(cf, grid_view(final(regs)@[pid - tables.start_id].tiles@[ct as int].pixels))
                == q
            &&& (flip_h(cf) ==> final(regs)@[pid - tables.start_id].h_flippable@[ct as int])
            &&& (flip_v(cf) ==> final(regs)@[pid - tables.start_id].v_flippable@[ct as int])

            &&& (match crate::canon::spec_find_key(old(regs)@[pid - tables.start_id].keys@, q) {
                Some(j) => ct == old(regs)@[pid - tables.start_id].keys@[j].index && cf == old(
                    regs,
                )@[pid - tables.start_id].keys@[j].flip,
                None => ct == old(regs)@[pid - tables.start_id].tiles@.len() && cf
                    == Flip::Identity && final(regs)@[pid - tables.start_id].tiles@.last().collision
                    == tables.tile_types@[t8.gfx_char as int] && final(regs)@[pid
                    - tables.start_id].tiles@.last().priority == t8.priority,
            })
            &&& final(pal_bg)@[pid - tables.start_id] is Some
            &&& (forall|p: int|
                0 <= p < PALETTE_COUNT && p != pid - tables.start_id ==> (#[trigger] final(pal_bg)@[p])
                    == old(pal_bg)@[p])
            &&& (match old(pal_bg)@[pid - tables.start_id] {
                Some(c0) => (c0@ == bg_color@ ==> final(pal_bg)@[pid - tables.start_id] == Some(
                    c0,
                )) && (c0@ != bg_color@ ==> final(pal_bg)@[pid - tables.start_id]->0@ == seq![
                    0u8,
                    0u8,
                    0u8,
                ]),
                None => final(pal_bg)@[pid - tables.start_id]->0@ == bg_color@,
            })
        }),
{
    let ghost a0: Area = *area;
    if !(t8.gfx_char < 512) {
        return Err(ImportError::GfxSheetOutOfRange);
    }
    let t8i = gfx_idxs[t8.gfx_char as usize];
    if !((t8i as usize) < tables.tiles8.len()) {
        return Err(ImportError::GfxIndexOutOfRange);
    }
    let gfx_sheet = t8.gfx_char / 64;
    let pal_high = gfx_sheet == 0 || gfx_sheet == 3 || gfx_sheet == 4 || gfx_sheet == 5;
    let pal_id = match resolve_pal_id(&tables.id_tables, pal, t8.pal_idx, pal_high, tables.start_id) {
        Ok(v) => v,
        Err(e) => {
            return Err(e);
        },
    };
    let pidx = (pal_id - tables.start_id) as usize;
    let collision = tables.tile_types[t8.gfx_char as usize];
    let tile = Tile {
        priority: t8.priority,
        collision,
        h_flippable: false,
        v_flippable: false,
        pixels: tables.tiles8[t8i as usize],
    };
    let reg = &mut regs[pidx];
    let (tile_idx, flip) = reg.canonicalize(tile, t8.flip);
    if tile_idx > 0xFFFF {
        return Err(ImportError::TileIndexOverflow);
    }
    let res1 = area.set_tile(x, y, tile_idx as u16);
    proof {
        assert(res1 is Ok);
    }
    let ghost a1: Area = *area;
    let res2 = area.set_palette(x, y, pal_id);
    proof {
        assert(res2 is Ok);
    }
    let ghost a2: Area = *area;
    let res3 = area.set_flip(x, y, flip);
    proof {
        assert(res3 is Ok);
    }
    proof {
        let w = a0.size.0 as int;
        let xi = x as int;
        let yi = y as int;
        let s = (yi / 32) * w + xi / 32;
        assert forall|x2: int, y2: int|
            0 <= x2 < a0.size.0 * 32 && 0 <= y2 < a0.size.1 * 32 && !(x2 == xi && y2
                == yi) implies spec_cell_same(a0, *area, x2, y2) by {
            let s2 = (y2 / 32) * w + x2 / 32;
            let h = a0.size.1 as int;
            assert(xi / 32 < w && x2 / 32 < w) by (nonlinear_arith)
                requires
                    xi < w * 32,
                    x2 < w * 32,
                    0 <= xi,
                    0 <= x2,
                    0 < w,
            ;
            assert(0 <= s2 < h * w) by (nonlinear_arith)
                requires
                    s2 == (y2 / 32) * w + x2 / 32,
                    0 <= y2 < h * 32,
                    0 <= x2 / 32 < w,
                    0 < w,
                    0 < h,
            ;
            assert(s2 < a0.screens@.len());
            if y2 / 32 == yi / 32 && x2 / 32 == xi / 32 {
                assert(s2 == s);
                assert(x2 == 32 * (x2 / 32) + x2 % 32);
                assert(xi == 32 * (xi / 32) + xi % 32);
                assert(!(x2 % 32 == xi % 32 && y2 % 32 == yi % 32));
                assert(a1.screens@[s].tiles@[y2 % 32]@[x2 % 32] == a0.screens@[s].tiles@[y2
                    % 32]@[x2 % 32]);
                assert(a2.screens@[s].palettes@[y2 % 32]@[x2 % 32] == a1.screens@[s].palettes@[y2
                    % 32]@[x2 % 32]);
                assert(area.screens@[s].flips@[y2 % 32]@[x2 % 32] == a2.screens@[s].flips@[y2
                    % 32]@[x2 % 32]);
            } else {
                assert(s2 != s) by (nonlinear_arith)
                    requires
                        s == (yi / 32) * w + xi / 32,
                        s2 == (y2 / 32) * w + x2 / 32,
                        0 <= xi / 32 < w,
                        0 <= x2 / 32 < w,
                        !(y2 / 32 == yi / 32 && x2 / 32 == xi / 32),
                ;
                assert(a1.screens@[s2] == a0.screens@[s2]);
                assert(a2.screens@[s2] == a1.screens@[s2]);
                assert(area.screens@[s2] == a2.screens@[s2]);
            }
            assert(spec_cell_same(a0, *area, x2, y2));
        }
    }
    let ghost pb0: Seq<Option<ColorRGB>> = pal_bg@;
    let prev = pal_bg[pidx];
    match prev {
        Some(c0) => {
            if !(c0[0] == bg_color[0] && c0[1] == bg_color[1] && c0[2] == bg_color[2]) {
                pal_bg.set(pidx, Some([0, 0, 0]));
                proof {
                    assert(pal_bg@[pidx as int]->0@ =~= seq![0u8, 0u8, 0u8]);
                    assert(c0@ != bg_color@);
                }
            } else {
                proof {
                    assert(c0@ =~= bg_color@);
                }
            }
        },
        _ => {
            pal_bg.set(pidx, Some(bg_color));
        },
    }
    Ok(())
}

/// The 8x8 reference that the three composition levels select for cell
/// (`x`, `y`) of the region headed by `parent`: the cell's map slot names a
/// 32x32 composite, whose quadrant names a 16x16 composite, whose quadrant
/// is the reference.
pub open spec fn spec_cell_t8(tables: ImportTables, parent: int, x: int, y: int) -> Tile8 {
    let mi = parent + (y / 64) * 8 + x / 64;
    let t32i = tables.map_tiles@[mi]@[(y % 64) / 4]@[(x % 64) / 4] as int;
    let t16i = tables.tiles32@[t32i]@[(x % 4) / 2 + 2 * ((y % 4) / 2)] as int;
    tables.tiles16@[t16i]@[x % 2 + 2 * (y % 2)]
}

/// The region's full 1024-entry graphics-index remap, as a value.
pub open spec fn spec_region_gfx(tables: ImportTables, parent: int) -> Seq<u16> {
    Seq::new(512, |g: int| spec_gfx_idx(tables.map_gfx@[parent]@, parent, g) as u16)
}

/// Cell (`x`, `y`) holds exactly what its source reference dictates: the
/// palette resolved from the reference's selector, and a stored tile that,
/// under the recorded flip, shows the reference's sheet pixels under the
/// reference's own flip.
pub open spec fn spec_cell_content(
    a: Area,
    regs: Seq<TileRegistry>,
    tables: ImportTables,
    gfx_idxs: Seq<u16>,
    pal: MapPalettes,
    parent: int,
    x: int,
    y: int,
) -> bool {
    let t8 = spec_cell_t8(tables, parent, x, y);
    let s = (y / 32) * a.size.0 + x / 32;
    let cp = a.screens@[s].palettes@[y % 32]@[x % 32];
    let ct = a.screens@[s].tiles@[y % 32]@[x % 32];
    let cf = a.screens@[s].flips@[y % 32]@[x % 32];
    &&& cp == spec_resolve_pal_id(
        pal,
        t8.pal_idx as int,
        spec_pal_high(t8.gfx_char as int),
        tables.start_id as int,
    )->Ok_0
    &&& spec_flip_grid(cf, grid_view(regs[cp - tables.start_id].tiles@[ct as int].pixels))
        == spec_flip_grid(t8.flip, grid_view(tables.tiles8@[gfx_idxs[t8.gfx_char as int] as int]))
    &&& (flip_h(cf) ==> regs[cp - tables.start_id].h_flippable@[ct as int])
    &&& (flip_v(cf) ==> regs[cp - tables.start_id].v_flippable@[ct as int])
}

/// A displayable cell stays displayable as other cells are written and the
/// registries grow.
pub proof fn lemma_cell_valid_stable(
    a: Area,
    b: Area,
    ra: Seq<TileRegistry>,
    rb: Seq<TileRegistry>,
    start_id: int,
    x: int,
    y: int,
)
    requires
        spec_cell_valid(a, ra, start_id, x, y),
        spec_cell_same(a, b, x, y),
        regs_extend(ra, rb),
        ra.len() == PALETTE_COUNT,
        a.size == b.size,
        0 <= start_id,
    ensures
        spec_cell_valid(b, rb, start_id, x, y),
{
    let s = (y / 32) * a.size.0 + x / 32;
    let p = a.screens@[s].palettes@[y % 32]@[x % 32];
    assert(reg_extends(ra[p - start_id], rb[p - start_id]));
}

/// The first deterministic per-cell failure among the four references of a
/// 16x16 composite, in quadrant order.
pub open spec fn spec_t16_emit_status(
    tables: ImportTables,
    gfx_idxs: Seq<u16>,
    pal: MapPalettes,
    t16: Tile16,
    j: int,
) -> Result<(), ImportError>
    decreases 4 - j,
{
    if j < 0 || j >= 4 {
        Ok(())
    } else {
        match spec_emit_status(tables, gfx_idxs, pal, t16@[j]) {
            Ok(u) => spec_t16_emit_status(tables, gfx_idxs, pal, t16, j + 1),
            Err(e) => Err(e),
        }
    }
}

/// Writes the four 8x8 cells of one 16x16 composite at cell coordinates
/// (`bx`, `by`), in quadrant order.
#[verifier::loop_isolation(false)]
#[verifier::rlimit(100)]
fn emit_t16(
    area: &mut Area,
    regs: &mut Vec<TileRegistry>,
    pal_bg: &mut Vec<Option<ColorRGB>>,
    tables: &ImportTables,
    gfx_idxs: &Vec<u16>,
    pal: MapPalettes,
    t16: Tile16,
    bx: u16,
    by: u16,
    bg_color: ColorRGB,
    parent: Ghost<int>,
) -> (r: Result<(), ImportError>)
    requires
        old(area).wf(),
        bx + 1 < old(area).size.0 * 32,
        by + 1 < old(area).size.1 * 32,
        regs_ok(old(regs)@),
        old(pal_bg)@.len() == PALETTE_COUNT,
        tables.wf(),
        gfx_idxs@.len() == 512,
        forall|dx: int, dy: int|
            0 <= dx < 2 && 0 <= dy < 2 ==> #[trigger] spec_cell_t8(*tables, parent@, bx + dx, by
                + dy) == t16@[dx + 2 * dy],
    ensures
        same_shape(*old(area), *final(area)),
        regs_ok(final(regs)@),
        regs_extend(old(regs)@, final(regs)@),
        final(pal_bg)@.len() == PALETTE_COUNT,
        bg_rec_evolves(old(pal_bg)@, final(pal_bg)@),
        bg_rec_ok(old(pal_bg)@, old(regs)@) ==> bg_rec_ok(final(pal_bg)@, final(regs)@),
        (match spec_t16_emit_status(*tables, gfx_idxs@, pal, t16, 0) {
            Err(e) => r == Err::<(), ImportError>(e) || (r == Err::<(), ImportError>(
                ImportError::TileIndexOverflow,
            ) && spec_regs_overflowed(final(regs)@)),
            Ok(u) => r is Ok || (r == Err::<(), ImportError>(ImportError::TileIndexOverflow)
                && spec_regs_overflowed(final(regs)@)),
        }),
        forall|x2: int, y2: int|
            0 <= x2 < old(area).size.0 * 32 && 0 <= y2 < old(area).size.1 * 32 && !(bx <= x2 < bx
                + 2 && by <= y2 < by + 2) ==> spec_cell_same(*old(area), *final(area), x2, y2),
        r is Ok ==> forall|x2: int, y2: int|
            bx <= x2 < bx + 2 && by <= y2 < by + 2 ==> spec_cell_valid(
                *final(area),
                final(regs)@,
                tables.start_id as int,
                x2,
                y2,
            ),
        r is Ok ==> forall|dx: int, dy: int|
            0 <= dx < 2 && 0 <= dy < 2 ==> #[trigger] spec_cell_content(
                *final(area),
                final(regs)@,
                *tables,
                gfx_idxs@,
                pal,
                parent@,
                bx + dx,
                by + dy,
            ),
{
    let ghost a0: Area = *area;
    let ghost r0: Seq<TileRegistry> = regs@;
    match emit_cell(area, regs, pal_bg, tables, gfx_idxs, pal, t16[0], bx, by, bg_color) {
        Ok(u) => u,
        Err(e) => {
            proof {
                if e != ImportError::TileIndexOverflow {
                    assert(spec_t16_emit_status(*tables, gfx_idxs@, pal, t16, 0)
                        == Err::<(), ImportError>(e));
                }
            }
            return Err(e);
        },
    };
    let ghost a1: Area = *area;
    let ghost r1: Seq<TileRegistry> = regs@;
    let ghost pb1: Seq<Option<ColorRGB>> = pal_bg@;
    match emit_cell(area, regs, pal_bg, tables, gfx_idxs, pal, t16[1], bx + 1, by, bg_color) {
        Ok(u) => u,
        Err(e) => {
            proof {
                lemma_bg_rec_evolves_trans(old(pal_bg)@, pb1, pal_bg@);
                if e != ImportError::TileIndexOverflow {
                    assert(spec_emit_status(*tables, gfx_idxs@, pal, t16@[0]) is Ok);
                    assert(spec_t16_emit_status(*tables, gfx_idxs@, pal, t16, 0)
                        == spec_t16_emit_status(*tables, gfx_idxs@, pal, t16, 1));
                    assert(spec_t16_emit_status(*tables, gfx_idxs@, pal, t16, 1)
                        == Err::<(), ImportError>(e));
                }
                lemma_regs_extend_trans(r0, r1, regs@);
                assert forall|x2: int, y2: int|
                    0 <= x2 < a0.size.0 * 32 && 0 <= y2 < a0.size.1 * 32 && !(bx <= x2 < bx + 2
                        && by <= y2 < by + 2) implies spec_cell_same(a0, *area, x2, y2) by {
                    assert(spec_cell_same(a0, a1, x2, y2));
                    assert(spec_cell_same(a1, *area, x2, y2));
                }
            }
            return Err(e);
        },
    };
    let ghost a2: Area = *area;
    let ghost r2: Seq<TileRegistry> = regs@;
    let ghost pb2: Seq<Option<ColorRGB>> = pal_bg@;
    match emit_cell(area, regs, pal_bg, tables, gfx_idxs, pal, t16[2], bx, by + 1, bg_color) {
        Ok(u) => u,
        Err(e) => {
            proof {
                lemma_bg_rec_evolves_trans(old(pal_bg)@, pb1, pb2);
                lemma_bg_rec_evolves_trans(old(pal_bg)@, pb2, pal_bg@);
                if e != ImportError::TileIndexOverflow {
                    assert(spec_emit_status(*tables, gfx_idxs@, pal, t16@[0]) is Ok);
                    assert(spec_emit_status(*tables, gfx_idxs@, pal, t16@[1]) is Ok);
                    assert(spec_t16_emit_status(*tables, gfx_idxs@, pal, t16, 0)
                        == spec_t16_emit_status(*tables, gfx_idxs@, pal, t16, 1));
                    assert(spec_t16_emit_status(*tables, gfx_idxs@, pal, t16, 1)
                        == spec_t16_emit_status(*tables, gfx_idxs@, pal, t16, 2));
                    assert(spec_t16_emit_status(*tables, gfx_idxs@, pal, t16, 2)
                        == Err::<(), ImportError>(e));
                }
                lemma_regs_extend_trans(r0, r1, r2);
                lemma_regs_extend_trans(r0, r2, regs@);
                assert forall|x2: int, y2: int|
                    0 <= x2 < a0.size.0 * 32 && 0 <= y2 < a0.size.1 * 32 && !(bx <= x2 < bx + 2
                        && by <= y2 < by + 2) implies spec_cell_same(a0, *area, x2, y2) by {
                    assert(spec_cell_same(a0, a1, x2, y2));
                    assert(spec_cell_same(a1, a2, x2, y2));
                    assert(spec_cell_same(a2, *area, x2, y2));
                }
            }
            return Err(e);
        },
    };
    let ghost a3: Area = *area;
    let ghost r3: Seq<TileRegistry> = regs@;
    let ghost pb3: Seq<Option<ColorRGB>> = pal_bg@;
    match emit_cell(area, regs, pal_bg, tables, gfx_idxs, pal, t16[3], bx + 1, by + 1, bg_color) {
        Ok(u) => u,
        Err(e) => {
            proof {
                lemma_bg_rec_evolves_trans(old(pal_bg)@, pb1, pb2);
                lemma_bg_rec_evolves_trans(old(pal_bg)@, pb2, pb3);
                lemma_bg_rec_evolves_trans(old(pal_bg)@, pb3, pal_bg@);
                if e != ImportError::TileIndexOverflow {
                    assert(spec_emit_status(*tables, gfx_idxs@, pal, t16@[0]) is Ok);
                    assert(spec_emit_status(*tables, gfx_idxs@, pal, t16@[1]) is Ok);
                    assert(spec_emit_status(*tables, gfx_idxs@, pal, t16@[2]) is Ok);
                    assert(spec_t16_emit_status(*tables, gfx_idxs@, pal, t16, 0)
                        == spec_t16_emit_status(*tables, gfx_idxs@, pal, t16, 1));
                    assert(spec_t16_emit_status(*tables, gfx_idxs@, pal, t16, 1)
                        == spec_t16_emit_status(*tables, gfx_idxs@, pal, t16, 2));
                    assert(spec_t16_emit_status(*tables, gfx_idxs@, pal, t16, 2)
                        == spec_t16_emit_status(*tables, gfx_idxs@, pal, t16, 3));
                    assert(spec_t16_emit_status(*tables, gfx_idxs@, pal, t16, 3)
                        == Err::<(), ImportError>(e));
                }
                lemma_regs_extend_trans(r0, r1, r2);
                lemma_regs_extend_trans(r0, r2, r3);
                lemma_regs_extend_trans(r0, r3, regs@);
                assert forall|x2: int, y2: int|
                    0 <= x2 < a0.size.0 * 32 && 0 <= y2 < a0.size.1 * 32 && !(bx <= x2 < bx + 2
                        && by <= y2 < by + 2) implies spec_cell_same(a0, *area, x2, y2) by {
                    assert(spec_cell_same(a0, a1, x2, y2));
                    assert(spec_cell_same(a1, a2, x2, y2));
                    assert(spec_cell_same(a2, a3, x2, y2));
                    assert(spec_cell_same(a3, *area, x2, y2));
                }
            }
            return Err(e);
        },
    };
    proof {
        lemma_bg_rec_evolves_trans(old(pal_bg)@, pb1, pb2);
        lemma_bg_rec_evolves_trans(old(pal_bg)@, pb2, pb3);
        lemma_bg_rec_evolves_trans(old(pal_bg)@, pb3, pal_bg@);
        assert(spec_emit_status(*tables, gfx_idxs@, pal, t16@[0]) is Ok);
        assert(spec_emit_status(*tables, gfx_idxs@, pal, t16@[1]) is Ok);
        assert(spec_emit_status(*tables, gfx_idxs@, pal, t16@[2]) is Ok);
        assert(spec_emit_status(*tables, gfx_idxs@, pal, t16@[3]) is Ok);
        assert(spec_t16_emit_status(*tables, gfx_idxs@, pal, t16, 0) == spec_t16_emit_status(
            *tables,
            gfx_idxs@,
            pal,
            t16,
            1,
        ));
        assert(spec_t16_emit_status(*tables, gfx_idxs@, pal, t16, 1) == spec_t16_emit_status(
            *tables,
            gfx_idxs@,
            pal,
            t16,
            2,
        ));
        assert(spec_t16_emit_status(*tables, gfx_idxs@, pal, t16, 2) == spec_t16_emit_status(
            *tables,
            gfx_idxs@,
            pal,
            t16,
            3,
        ));
        assert(spec_t16_emit_status(*tables, gfx_idxs@, pal, t16, 4) is Ok);
        assert(spec_t16_emit_status(*tables, gfx_idxs@, pal, t16, 3) is Ok);
        lemma_regs_extend_trans(r0, r1, r2);
        lemma_regs_extend_trans(r0, r2, r3);
        lemma_regs_extend_trans(r0, r3, regs@);
        assert forall|x2: int, y2: int|
            0 <= x2 < a0.size.0 * 32 && 0 <= y2 < a0.size.1 * 32 && !(bx <= x2 < bx + 2 && by <= y2
                < by + 2) implies spec_cell_same(a0, *area, x2, y2) by {
            assert(spec_cell_same(a0, a1, x2, y2));
            assert(spec_cell_same(a1, a2, x2, y2));
            assert(spec_cell_same(a2, a3, x2, y2));
            assert(spec_cell_same(a3, *area, x2, y2));
        }
        let sid = tables.start_id as int;
        assert forall|x2: int, y2: int|
            bx <= x2 < bx + 2 && by <= y2 < by + 2 implies spec_cell_valid(
            *area,
            regs@,
            tables.start_id as int,
            x2,
            y2,
        ) by {
            if x2 == bx && y2 == by {
                lemma_cell_valid_stable(a1, a2, r1, r2, sid, x2, y2);
                lemma_cell_valid_stable(a2, a3, r2, r3, sid, x2, y2);
                lemma_cell_valid_stable(a3, *area, r3, regs@, sid, x2, y2);
            } else if x2 == bx + 1 && y2 == by {
                lemma_cell_valid_stable(a2, a3, r2, r3, sid, x2, y2);
                lemma_cell_valid_stable(a3, *area, r3, regs@, sid, x2, y2);
            } else if x2 == bx && y2 == by + 1 {
                lemma_cell_valid_stable(a3, *area, r3, regs@, sid, x2, y2);
            } else {
                assert(x2 == bx + 1 && y2 == by + 1);
            }
        }
        assert forall|dx: int, dy: int|
            0 <= dx < 2 && 0 <= dy < 2 implies #[trigger] spec_cell_content(
            *area,
            regs@,
            *tables,
            gfx_idxs@,
            pal,
            parent@,
            bx + dx,
            by + dy,
        ) by {
            let x2 = bx + dx;
            let y2 = by + dy;
            assert(spec_cell_t8(*tables, parent@, x2, y2) == t16@[dx + 2 * dy]);
            if dx == 0 && dy == 0 {
                assert(spec_cell_valid(a1, r1, sid, x2, y2));
                assert(spec_cell_content(a1, r1, *tables, gfx_idxs@, pal, parent@, x2, y2));
                lemma_cell_content_stable(a1, a2, r1, r2, *tables, gfx_idxs@, pal, parent@, x2, y2);
                lemma_cell_valid_stable(a1, a2, r1, r2, sid, x2, y2);
                lemma_cell_content_stable(a2, a3, r2, r3, *tables, gfx_idxs@, pal, parent@, x2, y2);
                lemma_cell_valid_stable(a2, a3, r2, r3, sid, x2, y2);
                lemma_cell_content_stable(
                    a3,
                    *area,
                    r3,
                    regs@,
                    *tables,
                    gfx_idxs@,
                    pal,
                    parent@,
                    x2,
                    y2,
                );
            } else if dx == 1 && dy == 0 {
                assert(spec_cell_valid(a2, r2, sid, x2, y2));
                assert(spec_cell_content(a2, r2, *tables, gfx_idxs@, pal, parent@, x2, y2));
                lemma_cell_content_stable(a2, a3, r2, r3, *tables, gfx_idxs@, pal, parent@, x2, y2);
                lemma_cell_valid_stable(a2, a3, r2, r3, sid, x2, y2);
                lemma_cell_content_stable(
                    a3,
                    *area,
                    r3,
                    regs@,
                    *tables,
                    gfx_idxs@,
                    pal,
                    parent@,
                    x2,
                    y2,
                );
            } else if dx == 0 && dy == 1 {
                assert(spec_cell_valid(a3, r3, sid, x2, y2));
                assert(spec_cell_content(a3, r3, *tables, gfx_idxs@, pal, parent@, x2, y2));
                lemma_cell_content_stable(
                    a3,
                    *area,
                    r3,
                    regs@,
                    *tables,
                    gfx_idxs@,
                    pal,
                    parent@,
                    x2,
                    y2,
                );
            } else {
                assert(spec_cell_content(*area, regs@, *tables, gfx_idxs@, pal, parent@, x2, y2));
            }
        }
    }
    Ok(())
}

/// The first failure while writing a 32x32 composite's quadrants `i..4`: a
/// 16x16 index past the table, then the first per-cell failure of that
/// quadrant's references.
pub open spec fn spec_t32_emit_status(
    tables: ImportTables,
    gfx_idxs: Seq<u16>,
    pal: MapPalettes,
    t32: Tile32,
    i: int,
) -> Result<(), ImportError>
    decreases 4 - i,
{
    if i < 0 || i >= 4 {
        Ok(())
    } else if t32@[i] >= tables.tiles16@.len() {
        Err(ImportError::CompositeIndexOutOfRange)
    } else {
        match spec_t16_emit_status(tables, gfx_idxs, pal, tables.tiles16@[t32@[i] as int], 0) {
            Ok(u) => spec_t32_emit_status(tables, gfx_idxs, pal, t32, i + 1),
            Err(e) => Err(e),
        }
    }
}

/// Writes the sixteen 8x8 cells of one 32x32 composite at cell coordinates
/// (`bx`, `by`): four 16x16 composites looked up in the 16x16 table, in
/// quadrant order.
#[verifier::rlimit(100)]
fn emit_t32(
    area: &mut Area,
    regs: &mut Vec<TileRegistry>,
    pal_bg: &mut Vec<Option<ColorRGB>>,
    tables: &ImportTables,
    gfx_idxs: &Vec<u16>,
    pal: MapPalettes,
    t32: Tile32,
    bx: u16,
    by: u16,
    bg_color: ColorRGB,
    parent: Ghost<int>,
) -> (r: Result<(), ImportError>)
    requires
        old(area).wf(),
        bx + 3 < old(area).size.0 * 32,
        by + 3 < old(area).size.1 * 32,
        regs_ok(old(regs)@),
        old(pal_bg)@.len() == PALETTE_COUNT,
        tables.wf(),
        gfx_idxs@.len() == 512,
        forall|dx: int, dy: int|
            0 <= dx < 4 && 0 <= dy < 4 ==> #[trigger] spec_cell_t8(*tables, parent@, bx + dx, by
                + dy) == tables.tiles16@[t32@[dx / 2 + 2 * (dy / 2)] as int]@[dx % 2 + 2 * (dy
                % 2)],
    ensures
        same_shape(*old(area), *final(area)),
        regs_ok(final(regs)@),
        regs_extend(old(regs)@, final(regs)@),
        final(pal_bg)@.len() == PALETTE_COUNT,
        bg_rec_evolves(old(pal_bg)@, final(pal_bg)@),
        bg_rec_ok(old(pal_bg)@, old(regs)@) ==> bg_rec_ok(final(pal_bg)@, final(regs)@),
        (match spec_t32_emit_status(*tables, gfx_idxs@, pal, t32, 0) {
            Err(e) => r == Err::<(), ImportError>(e) || (r == Err::<(), ImportError>(
                ImportError::TileIndexOverflow,
            ) && spec_regs_overflowed(final(regs)@)),
            Ok(u) => r is Ok || (r == Err::<(), ImportError>(ImportError::TileIndexOverflow)
                && spec_regs_overflowed(final(regs)@)),
        }),
        forall|x2: int, y2: int|
            0 <= x2 < old(area).size.0 * 32 && 0 <= y2 < old(area).size.1 * 32 && !(bx <= x2 < bx
                + 4 && by <= y2 < by + 4) ==> spec_cell_same(*old(area), *final(area), x2, y2),
        r is Ok ==> forall|x2: int, y2: int|
            bx <= x2 < bx + 4 && by <= y2 < by + 4 ==> spec_cell_valid(
                *final(area),
                final(regs)@,
                tables.start_id as int,
                x2,
                y2,
            ),
        r is Ok ==> forall|dx: int, dy: int|
            0 <= dx < 4 && 0 <= dy < 4 ==> #[trigger] spec_cell_content(
                *final(area),
                final(regs)@,
                *tables,
                gfx_idxs@,
                pal,
                parent@,
                bx + dx,
                by + dy,
            ),
{
    let ghost a0: Area = *area;
    let ghost r0: Seq<TileRegistry> = regs@;
    let mut i: usize = 0;
    while i < 4
        invariant
            0 <= i <= 4,
            a0 == *old(area),
            r0 == old(regs)@,
            a0.wf(),
            bx + 3 < a0.size.0 * 32,
            by + 3 < a0.size.1 * 32,
            tables.wf(),
            gfx_idxs@.len() == 512,
            forall|dx: int, dy: int|
                0 <= dx < 4 && 0 <= dy < 4 ==> #[trigger] spec_cell_t8(*tables, parent@, bx + dx,
                    by + dy) == tables.tiles16@[t32@[dx / 2 + 2 * (dy / 2)] as int]@[dx % 2 + 2 * (
                dy % 2)],
            area.wf(),
            same_shape(a0, *area),
            regs_ok(regs@),
            regs_extend(r0, regs@),
            pal_bg@.len() == PALETTE_COUNT,
            bg_rec_evolves(old(pal_bg)@, pal_bg@),
            bg_rec_ok(old(pal_bg)@, old(regs)@) ==> bg_rec_ok(pal_bg@, regs@),
            spec_t32_emit_status(*tables, gfx_idxs@, pal, t32, 0) == spec_t32_emit_status(
                *tables,
                gfx_idxs@,
                pal,
                t32,
                i as int,
            ),
            forall|x2: int, y2: int|
                0 <= x2 < a0.size.0 * 32 && 0 <= y2 < a0.size.1 * 32 && !(bx <= x2 < bx + 4 && by
                    <= y2 < by + 4) ==> spec_cell_same(a0, *area, x2, y2),
            forall|x2: int, y2: int|
                bx <= x2 < bx + 4 && by <= y2 < by + 4 && (x2 - bx) / 2 + 2 * ((y2 - by) / 2) < i
                    ==> #[trigger] spec_cell_valid(*area, regs@, tables.start_id as int, x2, y2),
            forall|x2: int, y2: int|
                bx <= x2 < bx + 4 && by <= y2 < by + 4 && (x2 - bx) / 2 + 2 * ((y2 - by) / 2) < i
                    ==> #[trigger] spec_cell_content(
                    *area,
                    regs@,
                    *tables,
                    gfx_idxs@,
                    pal,
                    parent@,
                    x2,
                    y2,
                ),
        decreases 4 - i,
    {
        let t16i = t32[i];
        if !((t16i as usize) < tables.tiles16.len()) {
            proof {
                assert(spec_t32_emit_status(*tables, gfx_idxs@, pal, t32, i as int)
                    == Err::<(), ImportError>(ImportError::CompositeIndexOutOfRange));
            }
            return Err(ImportError::CompositeIndexOutOfRange);
        }
        let t16 = tables.tiles16[t16i as usize];
        let ox: u16 = if i == 1 || i == 3 {
            2
        } else {
            0
        };
        let oy: u16 = if i == 2 || i == 3 {
            2
        } else {
            0
        };
        proof {
            assert(ox == 2 * (i as int % 2) && oy == 2 * (i as int / 2));
            assert forall|ddx: int, ddy: int|
                0 <= ddx < 2 && 0 <= ddy < 2 implies #[trigger] spec_cell_t8(
                *tables,
                parent@,
                bx + ox + ddx,
                by + oy + ddy,
            ) == t16@[ddx + 2 * ddy] by {
                let dx = ox as int + ddx;
                let dy = oy as int + ddy;
                assert(dx / 2 == i as int % 2 && dy / 2 == i as int / 2);
                assert(dx % 2 == ddx && dy % 2 == ddy);
                assert(dx / 2 + 2 * (dy / 2) == i);
                assert(spec_cell_t8(*tables, parent@, bx + dx, by + dy)
                    == tables.tiles16@[t32@[i as int] as int]@[ddx + 2 * ddy]);
            }
        }
        let ghost ap: Area = *area;
        let ghost rp: Seq<TileRegistry> = regs@;
        let ghost pbp: Seq<Option<ColorRGB>> = pal_bg@;
        match emit_t16(
            area,
            regs,
            pal_bg,
            tables,
            gfx_idxs,
            pal,
            t16,
            bx + ox,
            by + oy,
            bg_color,
            parent,
        ) {
            Ok(u) => u,
            Err(e) => {
                proof {
                    lemma_regs_extend_trans(r0, rp, regs@);
                    lemma_bg_rec_evolves_trans(old(pal_bg)@, pbp, pal_bg@);
                    if e != ImportError::TileIndexOverflow {
                        assert(spec_t16_emit_status(
                            *tables,
                            gfx_idxs@,
                            pal,
                            tables.tiles16@[t32@[i as int] as int],
                            0,
                        ) == Err::<(), ImportError>(e));
                        assert(spec_t32_emit_status(*tables, gfx_idxs@, pal, t32, i as int)
                            == Err::<(), ImportError>(e));
                    }
                    assert forall|x2: int, y2: int|
                        0 <= x2 < a0.size.0 * 32 && 0 <= y2 < a0.size.1 * 32 && !(bx <= x2 < bx
                            + 4 && by <= y2 < by + 4) implies spec_cell_same(a0, *area, x2, y2) by {
                        assert(spec_cell_same(a0, ap, x2, y2));
                        assert(spec_cell_same(ap, *area, x2, y2));
                    }
                }
                return Err(e);
            },
        };
        proof {
            lemma_regs_extend_trans(r0, rp, regs@);
            lemma_bg_rec_evolves_trans(old(pal_bg)@, pbp, pal_bg@);
            assert(spec_t16_emit_status(
                *tables,
                gfx_idxs@,
                pal,
                tables.tiles16@[t32@[i as int] as int],
                0,
            ) is Ok);
            assert(spec_t32_emit_status(*tables, gfx_idxs@, pal, t32, i as int)
                == spec_t32_emit_status(*tables, gfx_idxs@, pal, t32, i + 1));
            assert forall|x2: int, y2: int|
                0 <= x2 < a0.size.0 * 32 && 0 <= y2 < a0.size.1 * 32 && !(bx <= x2 < bx + 4 && by
                    <= y2 < by + 4) implies spec_cell_same(a0, *area, x2, y2) by {
                assert(spec_cell_same(a0, ap, x2, y2));
                assert(spec_cell_same(ap, *area, x2, y2));
            }
            assert forall|x2: int, y2: int|
                bx <= x2 < bx + 4 && by <= y2 < by + 4 && (x2 - bx) / 2 + 2 * ((y2 - by) / 2) < i
                    + 1 implies #[trigger] spec_cell_valid(
                *area,
                regs@,
                tables.start_id as int,
                x2,
                y2,
            ) by {
                let ii = (x2 - bx) / 2 + 2 * ((y2 - by) / 2);
                if ii < i {
                    assert(spec_cell_valid(ap, rp, tables.start_id as int, x2, y2));
                    assert(spec_cell_same(ap, *area, x2, y2));
                    lemma_cell_valid_stable(ap, *area, rp, regs@, tables.start_id as int, x2, y2);
                } else {
                    assert(ii == i);
                    assert((x2 - bx) / 2 == ii % 2 && (y2 - by) / 2 == ii / 2);
                    assert(bx + ox <= x2 < bx + ox + 2 && by + oy <= y2 < by + oy + 2);
                }
            }
            assert forall|x2: int, y2: int|
                bx <= x2 < bx + 4 && by <= y2 < by + 4 && (x2 - bx) / 2 + 2 * ((y2 - by) / 2) < i
                    + 1 implies #[trigger] spec_cell_content(
                *area,
                regs@,
                *tables,
                gfx_idxs@,
                pal,
                parent@,
                x2,
                y2,
            ) by {
                let ii = (x2 - bx) / 2 + 2 * ((y2 - by) / 2);
                if ii < i {
                    assert(spec_cell_valid(ap, rp, tables.start_id as int, x2, y2));
                    assert(spec_cell_content(ap, rp, *tables, gfx_idxs@, pal, parent@, x2, y2));
                    assert(spec_cell_same(ap, *area, x2, y2));
                    lemma_cell_content_stable(
                        ap,
                        *area,
                        rp,
                        regs@,
                        *tables,
                        gfx_idxs@,
                        pal,
                        parent@,
                        x2,
                        y2,
                    );
                } else {
                    assert(ii == i);
                    assert((x2 - bx) / 2 == ii % 2 && (y2 - by) / 2 == ii / 2);
                    assert(bx + ox <= x2 < bx + ox + 2 && by + oy <= y2 < by + oy + 2);
                    let ddx = x2 - bx - ox;
                    let ddy = y2 - by - oy;
                    assert(0 <= ddx < 2 && 0 <= ddy < 2);
                    assert(spec_cell_content(
                        *area,
                        regs@,
                        *tables,
                        gfx_idxs@,
                        pal,
                        parent@,
                        bx + ox + ddx,
                        by + oy + ddy,
                    ));
                }
            }
        }
        i = i + 1;
    }
    proof {
        assert(spec_t32_emit_status(*tables, gfx_idxs@, pal, t32, 4) is Ok);
        assert forall|x2: int, y2: int|
            bx <= x2 < bx + 4 && by <= y2 < by + 4 implies spec_cell_valid(
            *area,
            regs@,
            tables.start_id as int,
            x2,
            y2,
        ) by {
            assert((x2 - bx) / 2 + 2 * ((y2 - by) / 2) < 4);
        }
        assert forall|dx: int, dy: int|
            0 <= dx < 4 && 0 <= dy < 4 implies #[trigger] spec_cell_content(
            *area,
            regs@,
            *tables,
            gfx_idxs@,
            pal,
            parent@,
            bx + dx,
            by + dy,
        ) by {
            assert(dx / 2 + 2 * (dy / 2) < 4);
            assert(((bx + dx) - bx) / 2 + 2 * (((by + dy) - by) / 2) < 4);
            assert(spec_cell_content(*area, regs@, *tables, gfx_idxs@, pal, parent@, bx + dx, by + dy));
        }
    }
    Ok(())
}

/// What writing the 4x4 block at build rank `b` of the region can fail on
/// deterministically: a composite-32 index past the table, then the block's
/// own per-cell failures in quadrant order.
pub open spec fn spec_block_status(
    tables: ImportTables,
    gfx_idxs: Seq<u16>,
    pal: MapPalettes,
    parent: int,
    nb: int,
    b: int,
) -> Result<(), ImportError> {
    let my = b / 256 / nb;
    let mx = (b / 256) % nb;
    let ty = (b % 256) / 16;
    let tx = b % 16;
    let t32i = tables.map_tiles@[parent + my * 8 + mx]@[ty]@[tx] as int;
    if t32i >= tables.tiles32@.len() {
        Err(ImportError::CompositeIndexOutOfRange)
    } else {
        spec_t32_emit_status(tables, gfx_idxs, pal, tables.tiles32@[t32i], 0)
    }
}

/// The first deterministic failure among the region's blocks from rank `b`
/// on, in build order. Together with the background-color read this is
/// exactly when building the region is owed to succeed, short of a
/// tile-index overflow.
pub open spec fn spec_area_status(
    tables: ImportTables,
    gfx_idxs: Seq<u16>,
    pal: MapPalettes,
    parent: int,
    nb: int,
    b: int,
) -> Result<(), ImportError>
    decreases nb * nb * 256 - b,
{
    if b < 0 || b >= nb * nb * 256 {
        Ok(())
    } else {
        match spec_block_status(tables, gfx_idxs, pal, parent, nb, b) {
            Ok(u) => spec_area_status(tables, gfx_idxs, pal, parent, nb, b + 1),
            Err(e) => Err(e),
        }
    }
}

/// The decomposition of a block rank back into its loop coordinates.
pub proof fn lemma_block_rank(nbi: int, my: int, mx: int, ty: int, tx: int, b: int)
    requires
        nbi == 1 || nbi == 2,
        0 <= my < nbi,
        0 <= mx < nbi,
        0 <= ty < 16,
        0 <= tx < 16,
        b == (my * nbi + mx) * 256 + ty * 16 + tx,
    ensures
        b / 256 / nbi == my,
        (b / 256) % nbi == mx,
        (b % 256) / 16 == ty,
        b % 16 == tx,
        0 <= b < nbi * nbi * 256,
{
    assert(b / 256 / nbi == my && (b / 256) % nbi == mx && (b % 256) / 16 == ty && b % 16 == tx
        && 0 <= b < nbi * nbi * 256) by (nonlinear_arith)
        requires
            nbi == 1 || nbi == 2,
            0 <= my < nbi,
            0 <= mx < nbi,
            0 <= ty < 16,
            0 <= tx < 16,
            b == (my * nbi + mx) * 256 + ty * 16 + tx,
    ;
}

/// The order in which the builder reaches cell (`x`, `y`) of a region of
/// `nb` x `nb` map slots: slot-major, then 32x32-block-major within the
/// slot.
pub open spec fn spec_cell_order(nb: int, x: int, y: int) -> int {
    ((y / 64) * nb + x / 64) * 256 + ((y % 64) / 4) * 16 + (x % 64) / 4
}

/// Cell (`x`, `y`) lies in the 4x4 block that the builder reaches at step
/// `(my, mx, ty, tx)` exactly when its build order equals that step's rank.
pub proof fn lemma_cell_order_block(
    nbi: int,
    my: int,
    mx: int,
    ty: int,
    tx: int,
    x2: int,
    y2: int,
)
    requires
        nbi == 1 || nbi == 2,
        0 <= mx < nbi,
        0 <= my < nbi,
        0 <= tx < 16,
        0 <= ty < 16,
        0 <= x2 < nbi * 64,
        0 <= y2 < nbi * 64,
    ensures
        (mx * 64 + tx * 4 <= x2 < mx * 64 + tx * 4 + 4 && my * 64 + ty * 4 <= y2 < my * 64 + ty * 4
            + 4) <==> spec_cell_order(nbi, x2, y2) == (my * nbi + mx) * 256 + ty * 16 + tx,
{
    let sx = x2 / 64;
    let sy = y2 / 64;
    let cx = (x2 % 64) / 4;
    let cy = (y2 % 64) / 4;
    assert(0 <= sx < nbi && 0 <= sy < nbi) by (nonlinear_arith)
        requires
            sx == x2 / 64,
            sy == y2 / 64,
            0 <= x2 < nbi * 64,
            0 <= y2 < nbi * 64,
            0 < nbi,
    ;
    assert(0 <= cx < 16 && 0 <= cy < 16) by (nonlinear_arith)
        requires
            cx == (x2 % 64) / 4,
            cy == (y2 % 64) / 4,
            0 <= x2,
            0 <= y2,
    ;
    assert(x2 == sx * 64 + cx * 4 + (x2 % 64) % 4 && y2 == sy * 64 + cy * 4 + (y2 % 64) % 4 && 0
        <= (x2 % 64) % 4 < 4 && 0 <= (y2 % 64) % 4 < 4) by (nonlinear_arith)
        requires
            sx == x2 / 64,
            sy == y2 / 64,
            cx == (x2 % 64) / 4,
            cy == (y2 % 64) / 4,
            0 <= x2,
            0 <= y2,
    ;
    if spec_cell_order(nbi, x2, y2) == (my * nbi + mx) * 256 + ty * 16 + tx {
        assert(sy == my && sx == mx && cy == ty && cx == tx) by (nonlinear_arith)
            requires
                (sy * nbi + sx) * 256 + cy * 16 + cx == (my * nbi + mx) * 256 + ty * 16 + tx,
                0 <= sx < nbi,
                0 <= sy < nbi,
                0 <= mx < nbi,
                0 <= my < nbi,
                0 <= cx < 16,
                0 <= cy < 16,
                0 <= tx < 16,
                0 <= ty < 16,
                nbi == 1 || nbi == 2,
        ;
    }
    if mx * 64 + tx * 4 <= x2 < mx * 64 + tx * 4 + 4 && my * 64 + ty * 4 <= y2 < my * 64 + ty * 4
        + 4 {
        assert(sx == mx && cx == tx && sy == my && cy == ty) by (nonlinear_arith)
            requires
                x2 == sx * 64 + cx * 4 + (x2 % 64) % 4,
                y2 == sy * 64 + cy * 4 + (y2 % 64) % 4,
                0 <= (x2 % 64) % 4 < 4,
                0 <= (y2 % 64) % 4 < 4,
                mx * 64 + tx * 4 <= x2 < mx * 64 + tx * 4 + 4,
                my * 64 + ty * 4 <= y2 < my * 64 + ty * 4 + 4,
                0 <= sx < nbi,
                0 <= sy < nbi,
                0 <= mx < nbi,
                0 <= my < nbi,
                0 <= cx < 16,
                0 <= cy < 16,
                0 <= tx < 16,
                0 <= ty < 16,
        ;
    }
}

/// Builds one region's editable area: a fresh screen grid of the region's
/// size, every 8x8 cell resolved through the 32x32 and 16x16 composition
/// levels and canonicalized into the per-palette registries. `nb` is the
/// region's side length in map slots (1, or 2 for a large area).
#[verifier::rlimit(100)]
pub fn build_area(
    rom: &Rom,
    c: &Constants,
    tables: &ImportTables,
    regs: &mut Vec<TileRegistry>,
    pal_bg: &mut Vec<Option<ColorRGB>>,
    parent: u16,
    nb: u16,
) -> (r: Result<Area, ImportError>)
    requires
        parent <= 0x88,
        nb == 1 || nb == 2,
        regs_ok(old(regs)@),
        old(pal_bg)@.len() == PALETTE_COUNT,
        tables.wf(),
    ensures
        regs_ok(final(regs)@),
        regs_extend(old(regs)@, final(regs)@),
        final(pal_bg)@.len() == PALETTE_COUNT,
        bg_rec_evolves(old(pal_bg)@, final(pal_bg)@),
        bg_rec_ok(old(pal_bg)@, old(regs)@) ==> bg_rec_ok(final(pal_bg)@, final(regs)@),
        (match spec_bg_color(rom.data@, *c, parent as int) {
            Err(e) => r == Err::<Area, ImportError>(e),
            Ok(col) => (match spec_area_status(
                *tables,
                spec_region_gfx(*tables, parent as int),
                tables.map_palettes@[parent as int],
                parent as int,
                nb as int,
                0,
            ) {
                Err(e) => r matches Err(e2) && (e2 == e || (e2 == ImportError::TileIndexOverflow
                    && spec_regs_overflowed(final(regs)@))),
                Ok(u) => r is Ok || (r matches Err(e2) && e2 == ImportError::TileIndexOverflow
                    && spec_regs_overflowed(final(regs)@)),
            }),
        }),
        r matches Ok(area) ==> {
            &&& area.wf()
            &&& area.size == ((2 * nb) as u8, (2 * nb) as u8)
            &&& area.name@ == spec_area_name(parent as int)
            &&& area.theme@ == "Base"@
            &&& area.vanilla_map_id == Some(parent as u8)
            &&& area.bg_color@ == spec_bg_color(rom.data@, *c, parent as int)->Ok_0@
            &&& area.screens@.len() == 4 * nb * nb
            &&& forall|s: int|
                0 <= s < area.screens@.len() ==> (#[trigger] area.screens@[s]).position == (
                    (s % (2 * nb) as int) as u8,
                    (s / (2 * nb) as int) as u8,
                )
            &&& forall|x2: int, y2: int|
                0 <= x2 < nb * 64 && 0 <= y2 < nb * 64 ==> #[trigger] spec_cell_valid(
                    area,
                    final(regs)@,
                    tables.start_id as int,
                    x2,
                    y2,
                )
            &&& forall|x2: int, y2: int|
                0 <= x2 < nb * 64 && 0 <= y2 < nb * 64 ==> #[trigger] spec_cell_content(
                    area,
                    final(regs)@,
                    *tables,
                    spec_region_gfx(*tables, parent as int),
                    tables.map_palettes@[parent as int],
                    parent as int,
                    x2,
                    y2,
                )
        },
{
    let pal: MapPalettes = tables.map_palettes[parent as usize];
    let gfx_idxs = build_gfx_idxs(&tables.map_gfx[parent as usize], parent);
    proof {
        assert forall|g: int| 0 <= g < 512 implies gfx_idxs@[g] == #[trigger] spec_region_gfx(
            *tables,
            parent as int,
        )[g] by {
            assert(gfx_idxs@[g] == spec_gfx_idx(tables.map_gfx@[parent as int]@, parent as int, g));
        }
        assert(gfx_idxs@ =~= spec_region_gfx(*tables, parent as int));
    }
    let bg = bg_color_for(rom, c, parent)?;
    let w: u16 = 2 * nb;
    let mut area = Area {
        modified: false,
        name: area_name(parent),
        theme: "Base".to_owned(),
        vanilla_map_id: Some(parent as u8),
        bg_color: bg,
        size: (w as u8, w as u8),
        screens: Vec::new(),
    };
    let mut sy: u16 = 0;
    while sy < w
        invariant
            sy <= w,
            w == 2 * nb,
            nb == 1 || nb == 2,
            area.screens@.len() == sy * w,
            area.size == (w as u8, w as u8),
            area.name@ == spec_area_name(parent as int),
            area.theme@ == "Base"@,
            area.vanilla_map_id == Some(parent as u8),
            area.bg_color@ == spec_bg_color(rom.data@, *c, parent as int)->Ok_0@,
            forall|s: int|
                0 <= s < area.screens@.len() ==> (#[trigger] area.screens@[s]).position == ((s % (
                w as int)) as u8, (s / (w as int)) as u8),
        decreases w - sy,
    {
        let mut sx: u16 = 0;
        while sx < w
            invariant
                sx <= w,
                sy < w,
                w == 2 * nb,
                nb == 1 || nb == 2,
                area.screens@.len() == sy * w + sx,
                area.size == (w as u8, w as u8),
                area.name@ == spec_area_name(parent as int),
                area.theme@ == "Base"@,
                area.vanilla_map_id == Some(parent as u8),
                area.bg_color@ == spec_bg_color(rom.data@, *c, parent as int)->Ok_0@,
                forall|s: int|
                    0 <= s < area.screens@.len() ==> (#[trigger] area.screens@[s]).position == ((s
                        % (w as int)) as u8, (s / (w as int)) as u8),
            decreases w - sx,
        {
            let ghost len0: int = area.screens@.len() as int;
            area.screens.push(
                Screen {
                    position: (sx as u8, sy as u8),
                    palettes: [[0; 32]; 32],
                    tiles: [[0; 32]; 32],
                    flips: [[crate::flip::Flip::Identity; 32]; 32],
                },
            );
            proof {
                assert(len0 % w as int == sx as int && len0 / w as int == sy as int)
                    by (nonlinear_arith)
                    requires
                        len0 == sy * w + sx,
                        0 <= sx < w,
                        0 <= sy,
                ;
                assert forall|s: int| 0 <= s < area.screens@.len() implies (
                #[trigger] area.screens@[s]).position == ((s % (w as int)) as u8, (s / (
                w as int)) as u8) by {
                    if s < len0 {
                        assert(area.screens@[s] == area.screens@.drop_last()[s]);
                    } else {
                        assert(s == len0);
                    }
                }
            }
            sx = sx + 1;
        }
        proof {
            assert(area.screens@.len() == sy * w + w);
            assert((sy + 1) * w == sy * w + w) by (nonlinear_arith);
        }
        sy = sy + 1;
    }
    proof {
        assert(area.screens@.len() == w * w);
        assert(w * w == 4 * nb * nb) by (nonlinear_arith)
            requires
                w == 2 * nb,
        ;
        assert(area.screens@.len() == 4 * nb * nb);
        assert(area.wf()) by (nonlinear_arith)
            requires
                area.screens@.len() == (2 * nb) * (2 * nb),
                area.size == ((2 * nb) as u8, (2 * nb) as u8),
                nb == 1 || nb == 2,
                area.wf() <==> area.screens@.len() == area.size.0 * area.size.1,
        ;
    }
    let ghost a_init: Area = area;
    let mut my: u16 = 0;
    while my < nb
        invariant
            my <= nb,
            nb == 1 || nb == 2,
            parent <= 0x88,
            tables.wf(),
            gfx_idxs@.len() == 512,
            pal == tables.map_palettes@[parent as int],
            gfx_idxs@ == spec_region_gfx(*tables, parent as int),
            spec_bg_color(rom.data@, *c, parent as int) is Ok,
            area.wf(),
            same_shape(a_init, area),
            a_init.size == ((2 * nb) as u8, (2 * nb) as u8),
            a_init.screens@.len() == 4 * nb * nb,
            forall|s: int|
                0 <= s < a_init.screens@.len() ==> (#[trigger] a_init.screens@[s]).position == ((s
                    % (2 * nb) as int) as u8, (s / (2 * nb) as int) as u8),
            a_init.name@ == spec_area_name(parent as int),
            a_init.theme@ == "Base"@,
            a_init.vanilla_map_id == Some(parent as u8),
            a_init.bg_color@ == spec_bg_color(rom.data@, *c, parent as int)->Ok_0@,
            regs_ok(regs@),
            regs_extend(old(regs)@, regs@),
            pal_bg@.len() == PALETTE_COUNT,
            bg_rec_evolves(old(pal_bg)@, pal_bg@),
            bg_rec_ok(old(pal_bg)@, old(regs)@) ==> bg_rec_ok(pal_bg@, regs@),
            spec_area_status(*tables, gfx_idxs@, pal, parent as int, nb as int, 0)
                == spec_area_status(
                *tables,
                gfx_idxs@,
                pal,
                parent as int,
                nb as int,
                (my as int) * (nb as int) * 256,
            ),
            forall|x2: int, y2: int|
                0 <= x2 < nb * 64 && 0 <= y2 < nb * 64 && spec_cell_order(nb as int, x2, y2) < (
                my as int) * (nb as int) * 256 ==> #[trigger] spec_cell_valid(
                    area,
                    regs@,
                    tables.start_id as int,
                    x2,
                    y2,
                ),
            forall|x2: int, y2: int|
                0 <= x2 < nb * 64 && 0 <= y2 < nb * 64 && spec_cell_order(nb as int, x2, y2) < (
                my as int) * (nb as int) * 256 ==> #[trigger] spec_cell_content(
                    area,
                    regs@,
                    *tables,
                    gfx_idxs@,
                    pal,
                    parent as int,
                    x2,
                    y2,
                ),
        decreases nb - my,
    {
        let mut mx: u16 = 0;
        while mx < nb
            invariant
                mx <= nb,
                my < nb,
                nb == 1 || nb == 2,
                parent <= 0x88,
                tables.wf(),
                gfx_idxs@.len() == 512,
                pal == tables.map_palettes@[parent as int],
            gfx_idxs@ == spec_region_gfx(*tables, parent as int),
            spec_bg_color(rom.data@, *c, parent as int) is Ok,
                area.wf(),
                same_shape(a_init, area),
                a_init.size == ((2 * nb) as u8, (2 * nb) as u8),
                a_init.screens@.len() == 4 * nb * nb,
                forall|s: int|
                    0 <= s < a_init.screens@.len() ==> (#[trigger] a_init.screens@[s]).position
                        == ((s % (2 * nb) as int) as u8, (s / (2 * nb) as int) as u8),
                a_init.name@ == spec_area_name(parent as int),
                a_init.theme@ == "Base"@,
                a_init.vanilla_map_id == Some(parent as u8),
                a_init.bg_color@ == spec_bg_color(rom.data@, *c, parent as int)->Ok_0@,
                regs_ok(regs@),
                regs_extend(old(regs)@, regs@),
                pal_bg@.len() == PALETTE_COUNT,
                bg_rec_evolves(old(pal_bg)@, pal_bg@),
                bg_rec_ok(old(pal_bg)@, old(regs)@) ==> bg_rec_ok(pal_bg@, regs@),
                spec_area_status(*tables, gfx_idxs@, pal, parent as int, nb as int, 0)
                    == spec_area_status(
                    *tables,
                    gfx_idxs@,
                    pal,
                    parent as int,
                    nb as int,
                    ((my as int) * (nb as int) + mx as int) * 256,
                ),
                forall|x2: int, y2: int|
                    0 <= x2 < nb * 64 && 0 <= y2 < nb * 64 && spec_cell_order(nb as int, x2, y2) < (
                    (my as int) * (nb as int) + mx as int) * 256 ==> #[trigger] spec_cell_valid(
                        area,
                        regs@,
                        tables.start_id as int,
                        x2,
                        y2,
                    ),
                forall|x2: int, y2: int|
                    0 <= x2 < nb * 64 && 0 <= y2 < nb * 64 && spec_cell_order(nb as int, x2, y2) < (
                    (my as int) * (nb as int) + mx as int) * 256 ==> #[trigger] spec_cell_content(
                        area,
                        regs@,
                        *tables,
                        gfx_idxs@,
                        pal,
                        parent as int,
                        x2,
                        y2,
                    ),
            decreases nb - mx,
        {
            let map_idx: usize = parent as usize + my as usize * 8 + mx as usize;
            let block: [[u16; 16]; 16] = tables.map_tiles[map_idx];
            let mut ty: u16 = 0;
            while ty < 16
                invariant
                    map_idx == parent + my * 8 + mx,
                    forall|yy: int, xx: int|
                        0 <= yy < 16 && 0 <= xx < 16 ==> #[trigger] block@[yy]@[xx]
                            == tables.map_tiles@[map_idx as int]@[yy]@[xx],
                    ty <= 16,
                    mx < nb,
                    my < nb,
                    nb == 1 || nb == 2,
                    parent <= 0x88,
                    tables.wf(),
                    gfx_idxs@.len() == 512,
                    pal == tables.map_palettes@[parent as int],
            gfx_idxs@ == spec_region_gfx(*tables, parent as int),
            spec_bg_color(rom.data@, *c, parent as int) is Ok,
                    area.wf(),
                    same_shape(a_init, area),
                    a_init.size == ((2 * nb) as u8, (2 * nb) as u8),
                    a_init.screens@.len() == 4 * nb * nb,
                    forall|s: int|
                        0 <= s < a_init.screens@.len() ==> (#[trigger] a_init.screens@[s]).position
                            == ((s % (2 * nb) as int) as u8, (s / (2 * nb) as int) as u8),
                    a_init.name@ == spec_area_name(parent as int),
                    a_init.theme@ == "Base"@,
                    a_init.vanilla_map_id == Some(parent as u8),
                    a_init.bg_color@ == spec_bg_color(rom.data@, *c, parent as int)->Ok_0@,
                    regs_ok(regs@),
                    regs_extend(old(regs)@, regs@),
                    pal_bg@.len() == PALETTE_COUNT,
                    bg_rec_evolves(old(pal_bg)@, pal_bg@),
                    bg_rec_ok(old(pal_bg)@, old(regs)@) ==> bg_rec_ok(pal_bg@, regs@),
                    spec_area_status(*tables, gfx_idxs@, pal, parent as int, nb as int, 0)
                        == spec_area_status(
                        *tables,
                        gfx_idxs@,
                        pal,
                        parent as int,
                        nb as int,
                        ((my as int) * (nb as int) + mx as int) * 256 + (ty as int) * 16,
                    ),
                    forall|x2: int, y2: int|
                        0 <= x2 < nb * 64 && 0 <= y2 < nb * 64 && spec_cell_order(nb as int, x2, y2)
                            < ((my as int) * (nb as int) + mx as int) * 256 + (ty as int) * 16
                            ==> #[trigger] spec_cell_valid(
                            area,
                            regs@,
                            tables.start_id as int,
                            x2,
                            y2,
                        ),
                    forall|x2: int, y2: int|
                        0 <= x2 < nb * 64 && 0 <= y2 < nb * 64 && spec_cell_order(nb as int, x2, y2)
                            < ((my as int) * (nb as int) + mx as int) * 256 + (ty as int) * 16
                            ==> #[trigger] spec_cell_content(
                            area,
                            regs@,
                            *tables,
                            gfx_idxs@,
                            pal,
                            parent as int,
                            x2,
                            y2,
                        ),
                decreases 16 - ty,
            {
                let mut tx: u16 = 0;
                while tx < 16
                    invariant
                        map_idx == parent + my * 8 + mx,
                        forall|yy: int, xx: int|
                            0 <= yy < 16 && 0 <= xx < 16 ==> #[trigger] block@[yy]@[xx]
                                == tables.map_tiles@[map_idx as int]@[yy]@[xx],
                        tx <= 16,
                        ty < 16,
                        mx < nb,
                        my < nb,
                        nb == 1 || nb == 2,
                        parent <= 0x88,
                        tables.wf(),
                        gfx_idxs@.len() == 512,
                        pal == tables.map_palettes@[parent as int],
            gfx_idxs@ == spec_region_gfx(*tables, parent as int),
            spec_bg_color(rom.data@, *c, parent as int) is Ok,
                        area.wf(),
                        same_shape(a_init, area),
                        a_init.size == ((2 * nb) as u8, (2 * nb) as u8),
                        a_init.screens@.len() == 4 * nb * nb,
                        forall|s: int|
                            0 <= s < a_init.screens@.len() ==> (#[trigger] a_init.screens@[s]).position
                                == ((s % (2 * nb) as int) as u8, (s / (2 * nb) as int) as u8),
                        a_init.name@ == spec_area_name(parent as int),
                        a_init.theme@ == "Base"@,
                        a_init.vanilla_map_id == Some(parent as u8),
                        a_init.bg_color@ == spec_bg_color(rom.data@, *c, parent as int)->Ok_0@,
                        regs_ok(regs@),
                        regs_extend(old(regs)@, regs@),
                        pal_bg@.len() == PALETTE_COUNT,
                        bg_rec_evolves(old(pal_bg)@, pal_bg@),
                        bg_rec_ok(old(pal_bg)@, old(regs)@) ==> bg_rec_ok(pal_bg@, regs@),
                        spec_area_status(*tables, gfx_idxs@, pal, parent as int, nb as int, 0)
                            == spec_area_status(
                            *tables,
                            gfx_idxs@,
                            pal,
                            parent as int,
                            nb as int,
                            ((my as int) * (nb as int) + mx as int) * 256 + (ty as int) * 16
                                + tx as int,
                        ),
                        forall|x2: int, y2: int|
                            0 <= x2 < nb * 64 && 0 <= y2 < nb * 64 && spec_cell_order(
                                nb as int,
                                x2,
                                y2,
                            ) < ((my as int) * (nb as int) + mx as int) * 256 + (ty as int) * 16
                                + tx as int ==> #[trigger] spec_cell_valid(
                                area,
                                regs@,
                                tables.start_id as int,
                                x2,
                                y2,
                            ),
                        forall|x2: int, y2: int|
                            0 <= x2 < nb * 64 && 0 <= y2 < nb * 64 && spec_cell_order(
                                nb as int,
                                x2,
                                y2,
                            ) < ((my as int) * (nb as int) + mx as int) * 256 + (ty as int) * 16
                                + tx as int ==> #[trigger] spec_cell_content(
                                area,
                                regs@,
                                *tables,
                                gfx_idxs@,
                                pal,
                                parent as int,
                                x2,
                                y2,
                            ),
                    decreases 16 - tx,
                {
                    let t32i = block[ty as usize][tx as usize];
                    if !((t32i as usize) < tables.tiles32.len()) {
                        proof {
                            let nbi = nb as int;
                            let b = ((my as int) * nbi + mx as int) * 256 + (ty as int) * 16
                                + tx as int;
                            lemma_block_rank(nbi, my as int, mx as int, ty as int, tx as int, b);
                            assert(spec_block_status(*tables, gfx_idxs@, pal, parent as int, nbi, b)
                                == Err::<(), ImportError>(ImportError::CompositeIndexOutOfRange));
                            assert(spec_area_status(*tables, gfx_idxs@, pal, parent as int, nbi, b)
                                == Err::<(), ImportError>(ImportError::CompositeIndexOutOfRange));
                        }
                        return Err(ImportError::CompositeIndexOutOfRange);
                    }
                    let t32: Tile32 = tables.tiles32[t32i as usize];
                    let bx: u16 = mx * 64 + tx * 4;
                    let by: u16 = my * 64 + ty * 4;
                    proof {
                        assert(bx + 3 < (2 * nb) * 32 && by + 3 < (2 * nb) * 32) by (nonlinear_arith)
                            requires
                                bx == mx * 64 + tx * 4,
                                by == my * 64 + ty * 4,
                                mx < nb,
                                my < nb,
                                tx < 16,
                                ty < 16,
                        ;
                    }
                    proof {
                        assert forall|dx: int, dy: int|
                            0 <= dx < 4 && 0 <= dy < 4 implies #[trigger] spec_cell_t8(
                            *tables,
                            parent as int,
                            bx + dx,
                            by + dy,
                        ) == tables.tiles16@[t32@[dx / 2 + 2 * (dy / 2)] as int]@[dx % 2 + 2 * (dy
                            % 2)] by {
                            let x2 = bx as int + dx;
                            let y2 = by as int + dy;
                            assert(x2 / 64 == mx && (x2 % 64) / 4 == tx && x2 % 4 == dx)
                                by (nonlinear_arith)
                                requires
                                    bx == mx * 64 + tx * 4,
                                    x2 == bx + dx,
                                    0 <= dx < 4,
                                    mx < nb,
                                    tx < 16,
                                    nb <= 2,
                            ;
                            assert(y2 / 64 == my && (y2 % 64) / 4 == ty && y2 % 4 == dy)
                                by (nonlinear_arith)
                                requires
                                    by == my * 64 + ty * 4,
                                    y2 == by + dy,
                                    0 <= dy < 4,
                                    my < nb,
                                    ty < 16,
                                    nb <= 2,
                            ;
                            assert((x2 % 4) / 2 == dx / 2 && x2 % 2 == dx % 2 && (y2 % 4) / 2 == dy
                                / 2 && y2 % 2 == dy % 2) by (nonlinear_arith)
                                requires
                                    x2 % 4 == dx,
                                    y2 % 4 == dy,
                                    0 <= dx < 4,
                                    0 <= dy < 4,
                                    0 <= x2,
                                    0 <= y2,
                            ;
                            assert(parent as int + (y2 / 64) * 8 + x2 / 64 == map_idx);
                            assert(tables.map_tiles@[map_idx as int]@[ty as int]@[tx as int]
                                == t32i);
                        }
                    }
                    let ghost ap: Area = area;
                    let ghost rp: Seq<TileRegistry> = regs@;
                    let ghost pbp: Seq<Option<ColorRGB>> = pal_bg@;
                    match emit_t32(
                        &mut area,
                        regs,
                        pal_bg,
                        tables,
                        &gfx_idxs,
                        pal,
                        t32,
                        bx,
                        by,
                        bg,
                        Ghost(parent as int),
                    ) {
                        Ok(u) => u,
                        Err(e) => {
                            proof {
                                lemma_regs_extend_trans(old(regs)@, rp, regs@);
                                lemma_bg_rec_evolves_trans(old(pal_bg)@, pbp, pal_bg@);
                                let nbi = nb as int;
                                let b = ((my as int) * nbi + mx as int) * 256 + (ty as int) * 16
                                    + tx as int;
                                lemma_block_rank(nbi, my as int, mx as int, ty as int, tx as int, b);
                                if e != ImportError::TileIndexOverflow {
                                    assert(spec_t32_emit_status(*tables, gfx_idxs@, pal, t32, 0)
                                        == Err::<(), ImportError>(e));
                                    assert(spec_block_status(
                                        *tables,
                                        gfx_idxs@,
                                        pal,
                                        parent as int,
                                        nbi,
                                        b,
                                    ) == Err::<(), ImportError>(e));
                                    assert(spec_area_status(
                                        *tables,
                                        gfx_idxs@,
                                        pal,
                                        parent as int,
                                        nbi,
                                        b,
                                    ) == Err::<(), ImportError>(e));
                                }
                            }
                            return Err(e);
                        },
                    };
                    proof {
                        lemma_regs_extend_trans(old(regs)@, rp, regs@);
                        lemma_bg_rec_evolves_trans(old(pal_bg)@, pbp, pal_bg@);
                        let nbi = nb as int;
                        let progress = ((my as int) * nbi + mx as int) * 256 + (ty as int) * 16
                            + tx as int;
                        lemma_block_rank(
                            nbi,
                            my as int,
                            mx as int,
                            ty as int,
                            tx as int,
                            progress,
                        );
                        assert(spec_t32_emit_status(*tables, gfx_idxs@, pal, t32, 0) is Ok);
                        assert(spec_block_status(
                            *tables,
                            gfx_idxs@,
                            pal,
                            parent as int,
                            nbi,
                            progress,
                        ) is Ok);
                        assert(spec_area_status(*tables, gfx_idxs@, pal, parent as int, nbi, progress)
                            == spec_area_status(
                            *tables,
                            gfx_idxs@,
                            pal,
                            parent as int,
                            nbi,
                            progress + 1,
                        ));
                        assert forall|x2: int, y2: int|
                            0 <= x2 < nbi * 64 && 0 <= y2 < nbi * 64 && spec_cell_order(
                                nbi,
                                x2,
                                y2,
                            ) < progress + 1 implies #[trigger] spec_cell_valid(
                            area,
                            regs@,
                            tables.start_id as int,
                            x2,
                            y2,
                        ) by {
                            lemma_cell_order_block(
                                nbi,
                                my as int,
                                mx as int,
                                ty as int,
                                tx as int,
                                x2,
                                y2,
                            );
                            if spec_cell_order(nbi, x2, y2) < progress {
                                assert(!(bx <= x2 < bx + 4 && by <= y2 < by + 4));
                                assert(spec_cell_valid(ap, rp, tables.start_id as int, x2, y2));
                                assert(spec_cell_same(ap, area, x2, y2));
                                lemma_cell_valid_stable(
                                    ap,
                                    area,
                                    rp,
                                    regs@,
                                    tables.start_id as int,
                                    x2,
                                    y2,
                                );
                            } else {
                                assert(spec_cell_order(nbi, x2, y2) == progress);
                                assert(bx <= x2 < bx + 4 && by <= y2 < by + 4);
                            }
                        }
                        assert forall|x2: int, y2: int|
                            0 <= x2 < nbi * 64 && 0 <= y2 < nbi * 64 && spec_cell_order(
                                nbi,
                                x2,
                                y2,
                            ) < progress + 1 implies #[trigger] spec_cell_content(
                            area,
                            regs@,
                            *tables,
                            gfx_idxs@,
                            pal,
                            parent as int,
                            x2,
                            y2,
                        ) by {
                            lemma_cell_order_block(
                                nbi,
                                my as int,
                                mx as int,
                                ty as int,
                                tx as int,
                                x2,
                                y2,
                            );
                            if spec_cell_order(nbi, x2, y2) < progress {
                                assert(!(bx <= x2 < bx + 4 && by <= y2 < by + 4));
                                assert(spec_cell_valid(ap, rp, tables.start_id as int, x2, y2));
                                assert(spec_cell_content(
                                    ap,
                                    rp,
                                    *tables,
                                    gfx_idxs@,
                                    pal,
                                    parent as int,
                                    x2,
                                    y2,
                                ));
                                assert(spec_cell_same(ap, area, x2, y2));
                                lemma_cell_content_stable(
                                    ap,
                                    area,
                                    rp,
                                    regs@,
                                    *tables,
                                    gfx_idxs@,
                                    pal,
                                    parent as int,
                                    x2,
                                    y2,
                                );
                            } else {
                                assert(spec_cell_order(nbi, x2, y2) == progress);
                                assert(bx <= x2 < bx + 4 && by <= y2 < by + 4);
                                assert(spec_cell_content(
                                    area,
                                    regs@,
                                    *tables,
                                    gfx_idxs@,
                                    pal,
                                    parent as int,
                                    bx + (x2 - bx),
                                    by + (y2 - by),
                                ));
                            }
                        }
                    }
                    tx = tx + 1;
                }
                ty = ty + 1;
            }
            mx = mx + 1;
        }
        proof {
            assert(((my as int) * (nb as int) + nb as int) * 256 == (((my as int) + 1) * (
            nb as int)) * 256) by (nonlinear_arith);
        }
        my = my + 1;
    }
    proof {
        assert forall|x2: int, y2: int|
            0 <= x2 < nb * 64 && 0 <= y2 < nb * 64 implies #[trigger] spec_cell_valid(
            area,
            regs@,
            tables.start_id as int,
            x2,
            y2,
        ) && #[trigger] spec_cell_content(
            area,
            regs@,
            *tables,
            spec_region_gfx(*tables, parent as int),
            tables.map_palettes@[parent as int],
            parent as int,
            x2,
            y2,
        ) by {
            let nbi = nb as int;
            assert(spec_cell_order(nbi, x2, y2) < nbi * nbi * 256) by (nonlinear_arith)
                requires
                    spec_cell_order(nbi, x2, y2) == ((y2 / 64) * nbi + x2 / 64) * 256 + ((y2 % 64)
                        / 4) * 16 + (x2 % 64) / 4,
                    0 <= x2 < nbi * 64,
                    0 <= y2 < nbi * 64,
                    nbi == 1 || nbi == 2,
            ;
            assert(nb as int * (nb as int) * 256 == ((nb as int) * (nb as int) + 0) * 256);
            assert(spec_cell_content(area, regs@, *tables, gfx_idxs@, pal, parent as int, x2, y2));
        }
    }
    Ok(area)
}

/// Whether slot `p` heads a 2x2 "large area" block: it must not sit in the
/// last slot column, and the slot after it must name it as parent.
pub open spec fn spec_is_large(parents: Seq<u16>, p: int) -> bool {
    p % 8 <= 6 && parents[p + 1] == p
}

/// The first failure while building the region headed by `p`: an unreadable
/// background-color word, then the region's first per-cell failure.
pub open spec fn spec_parent_status(
    data: Seq<u8>,
    c: Constants,
    tables: ImportTables,
    p: int,
) -> Result<(), ImportError> {
    let nb: int = if spec_is_large(tables.map_parents@, p) {
        2
    } else {
        1
    };
    match spec_bg_color(data, c, p) {
        Err(e) => Err(e),
        Ok(col) => spec_area_status(
            tables,
            spec_region_gfx(tables, p),
            tables.map_palettes@[p],
            p,
            nb,
            0,
        ),
    }
}

/// The first failure among the top-level regions from slot `p` on, in slot
/// order. This is exactly when building all areas is owed to succeed, short
/// of a tile-index overflow.
pub open spec fn spec_load_areas_status(
    data: Seq<u8>,
    c: Constants,
    tables: ImportTables,
    p: int,
) -> Result<(), ImportError>
    decreases 0x82 - p,
{
    if p < 0 || p >= 0x82 {
        Ok(())
    } else if tables.map_parents@[p] != p {
        spec_load_areas_status(data, c, tables, p + 1)
    } else {
        match spec_parent_status(data, c, tables, p) {
            Ok(u) => spec_load_areas_status(data, c, tables, p + 1),
            Err(e) => Err(e),
        }
    }
}

/// Builds one editable area per top-level region (slots up to 0x81 that are
/// their own parent), filling the shared per-palette tile registries and the
/// per-palette background-color record as it goes.
#[verifier::rlimit(100)]
pub fn load_areas(rom: &Rom, c: &Constants, tables: &ImportTables) -> (r: Result<
    (Vec<Area>, Vec<TileRegistry>, Vec<Option<ColorRGB>>),
    ImportError,
>)
    requires
        tables.wf(),
    ensures
        (match spec_load_areas_status(rom.data@, *c, *tables, 0) {
            Err(e) => r matches Err(e2) && (e2 == e || e2 == ImportError::TileIndexOverflow),
            Ok(u) => r is Ok || r == Err::<
                (Vec<Area>, Vec<TileRegistry>, Vec<Option<ColorRGB>>),
                ImportError,
            >(ImportError::TileIndexOverflow),
        }),
        r matches Err(e) ==> (e == ImportError::TileIndexOverflow || spec_load_areas_status(
            rom.data@,
            *c,
            *tables,
            0,
        ) == Err::<(), ImportError>(e)),
        r matches Ok(out) ==> {
            &&& regs_ok(out.1@)
            &&& out.2@.len() == PALETTE_COUNT
            &&& bg_rec_ok(out.2@, out.1@)
            &&& forall|p: int|
                0 <= p < 0x82 ==> ((tables.map_parents@[p] == p) <==> exists|k: int|
                    0 <= k < out.0@.len() && (#[trigger] out.0@[k]).vanilla_map_id == Some(
                        p as u8,
                    ))
            &&& forall|k: int|
                0 <= k < out.0@.len() ==> {
                    let a = #[trigger] out.0@[k];
                    let p = a.vanilla_map_id->0 as int;
                    &&& a.wf()
                    &&& a.vanilla_map_id is Some
                    &&& 0 <= p <= 0x81
                    &&& tables.map_parents@[p] == p
                    &&& a.name@ == spec_area_name(p)
                    &&& a.theme@ == "Base"@
                    &&& a.bg_color@ == spec_bg_color(rom.data@, *c, p)->Ok_0@
                    &&& a.size == (if spec_is_large(tables.map_parents@, p) {
                        (4u8, 4u8)
                    } else {
                        (2u8, 2u8)
                    })
                    &&& forall|x2: int, y2: int|
                        0 <= x2 < a.size.0 * 32 && 0 <= y2 < a.size.1 * 32
                            ==> #[trigger] spec_cell_valid(
                            a,
                            out.1@,
                            tables.start_id as int,
                            x2,
                            y2,
                        )
                    &&& forall|x2: int, y2: int|
                        0 <= x2 < a.size.0 * 32 && 0 <= y2 < a.size.1 * 32
                            ==> #[trigger] spec_cell_content(
                            a,
                            out.1@,
                            *tables,
                            spec_region_gfx(*tables, p),
                            tables.map_palettes@[p],
                            p,
                            x2,
                            y2,
                        )
                }
            &&& forall|k1: int, k2: int|
                0 <= k1 < k2 < out.0@.len() ==> (#[trigger] out.0@[k1].vanilla_map_id)->0 < (
                #[trigger] out.0@[k2].vanilla_map_id)->0
        },
{
    let mut regs: Vec<TileRegistry> = Vec::new();
    let mut pal_bg: Vec<Option<ColorRGB>> = Vec::new();
    let mut k: u32 = 0;
    while k < PALETTE_COUNT
        invariant
            k <= PALETTE_COUNT,
            regs@.len() == k,
            pal_bg@.len() == k,
            forall|p: int| 0 <= p < k ==> (#[trigger] regs@[p]).wf() && regs@[p].tiles@.len() == 0,
            forall|p: int| 0 <= p < k ==> (#[trigger] pal_bg@[p]) is None,
        decreases PALETTE_COUNT - k,
    {
        regs.push(TileRegistry::new());
        pal_bg.push(None);
        k = k + 1;
    }
    let mut areas: Vec<Area> = Vec::new();
    let mut parent: u16 = 0;
    while parent <= 0x81
        invariant
            parent <= 0x82,
            tables.wf(),
            regs_ok(regs@),
            pal_bg@.len() == PALETTE_COUNT,
            bg_rec_ok(pal_bg@, regs@),
            spec_load_areas_status(rom.data@, *c, *tables, 0) == spec_load_areas_status(
                rom.data@,
                *c,
                *tables,
                parent as int,
            ),
            forall|p: int|
                0 <= p < parent && tables.map_parents@[p] == p ==> (exists|k: int|
                    0 <= k < areas@.len() && (#[trigger] areas@[k]).vanilla_map_id == Some(
                        p as u8,
                    )),
            forall|k2: int|
                0 <= k2 < areas@.len() ==> {
                    let a = #[trigger] areas@[k2];
                    let p = a.vanilla_map_id->0 as int;
                    &&& a.wf()
                    &&& a.vanilla_map_id is Some
                    &&& 0 <= p < parent
                    &&& tables.map_parents@[p] == p
                    &&& a.name@ == spec_area_name(p)
                    &&& a.theme@ == "Base"@
                    &&& a.bg_color@ == spec_bg_color(rom.data@, *c, p)->Ok_0@
                    &&& a.size == (if spec_is_large(tables.map_parents@, p) {
                        (4u8, 4u8)
                    } else {
                        (2u8, 2u8)
                    })
                    &&& forall|x2: int, y2: int|
                        0 <= x2 < a.size.0 * 32 && 0 <= y2 < a.size.1 * 32
                            ==> #[trigger] spec_cell_valid(
                            a,
                            regs@,
                            tables.start_id as int,
                            x2,
                            y2,
                        )
                    &&& forall|x2: int, y2: int|
                        0 <= x2 < a.size.0 * 32 && 0 <= y2 < a.size.1 * 32
                            ==> #[trigger] spec_cell_content(
                            a,
                            regs@,
                            *tables,
                            spec_region_gfx(*tables, p),
                            tables.map_palettes@[p],
                            p,
                            x2,
                            y2,
                        )
                },
            forall|k1: int, k2: int|
                0 <= k1 < k2 < areas@.len() ==> (#[trigger] areas@[k1].vanilla_map_id)->0 < (
                #[trigger] areas@[k2].vanilla_map_id)->0,
        decreases 0x82 - parent,
    {
        if tables.map_parents[parent as usize] != parent {
            proof {
                assert(spec_load_areas_status(rom.data@, *c, *tables, parent as int)
                    == spec_load_areas_status(rom.data@, *c, *tables, parent + 1));
            }
            parent = parent + 1;
            continue ;
        }
        let block_x = parent % 8;
        let nb: u16 = if block_x <= 6 && tables.map_parents[parent as usize + 1] == parent {
            2
        } else {
            1
        };
        let ghost rp: Seq<TileRegistry> = regs@;
        let ghost areas0: Seq<Area> = areas@;
        let area = match build_area(rom, c, tables, &mut regs, &mut pal_bg, parent, nb) {
            Ok(a) => a,
            Err(e) => {
                proof {
                    if e != ImportError::TileIndexOverflow {
                        assert(spec_parent_status(rom.data@, *c, *tables, parent as int)
                            == Err::<(), ImportError>(e));
                        assert(spec_load_areas_status(rom.data@, *c, *tables, parent as int)
                            == Err::<(), ImportError>(e));
                    }
                }
                return Err(e);
            },
        };
        proof {
            assert(area.size == (if spec_is_large(tables.map_parents@, parent as int) {
                (4u8, 4u8)
            } else {
                (2u8, 2u8)
            }));
            assert forall|k2: int| 0 <= k2 < areas@.len() implies {
                let a = #[trigger] areas@[k2];
                let p = a.vanilla_map_id->0 as int;
                &&& a.wf()
                &&& a.vanilla_map_id is Some
                &&& 0 <= p < parent + 1
                &&& tables.map_parents@[p] == p
                &&& a.name@ == spec_area_name(p)
                &&& a.theme@ == "Base"@
                &&& a.bg_color@ == spec_bg_color(rom.data@, *c, p)->Ok_0@
                &&& a.size == (if spec_is_large(tables.map_parents@, p) {
                    (4u8, 4u8)
                } else {
                    (2u8, 2u8)
                })
                &&& forall|x2: int, y2: int|
                    0 <= x2 < a.size.0 * 32 && 0 <= y2 < a.size.1 * 32
                        ==> #[trigger] spec_cell_valid(a, regs@, tables.start_id as int, x2, y2)
                &&& forall|x2: int, y2: int|
                    0 <= x2 < a.size.0 * 32 && 0 <= y2 < a.size.1 * 32
                        ==> #[trigger] spec_cell_content(
                        a,
                        regs@,
                        *tables,
                        spec_region_gfx(*tables, a.vanilla_map_id->0 as int),
                        tables.map_palettes@[a.vanilla_map_id->0 as int],
                        a.vanilla_map_id->0 as int,
                        x2,
                        y2,
                    )
            } by {
                let a = areas@[k2];
                assert(a == areas0[k2]);
                let p = a.vanilla_map_id->0 as int;
                assert forall|x2: int, y2: int|
                    0 <= x2 < a.size.0 * 32 && 0 <= y2 < a.size.1
                        * 32 implies #[trigger] spec_cell_valid(
                    a,
                    regs@,
                    tables.start_id as int,
                    x2,
                    y2,
                ) by {
                    assert(spec_cell_valid(a, rp, tables.start_id as int, x2, y2));
                    lemma_cell_valid_stable(a, a, rp, regs@, tables.start_id as int, x2, y2);
                }
                assert forall|x2: int, y2: int|
                    0 <= x2 < a.size.0 * 32 && 0 <= y2 < a.size.1
                        * 32 implies #[trigger] spec_cell_content(
                    a,
                    regs@,
                    *tables,
                    spec_region_gfx(*tables, p),
                    tables.map_palettes@[p],
                    p,
                    x2,
                    y2,
                ) by {
                    assert(spec_cell_valid(a, rp, tables.start_id as int, x2, y2));
                    assert(spec_cell_content(
                        a,
                        rp,
                        *tables,
                        spec_region_gfx(*tables, p),
                        tables.map_palettes@[p],
                        p,
                        x2,
                        y2,
                    ));
                    lemma_cell_content_stable(
                        a,
                        a,
                        rp,
                        regs@,
                        *tables,
                        spec_region_gfx(*tables, p),
                        tables.map_palettes@[p],
                        p,
                        x2,
                        y2,
                    );
                }
            }
        }
        areas.push(area);
        proof {
            assert(spec_parent_status(rom.data@, *c, *tables, parent as int) is Ok);
            assert(spec_load_areas_status(rom.data@, *c, *tables, parent as int)
                == spec_load_areas_status(rom.data@, *c, *tables, parent + 1));
            assert forall|p: int|
                0 <= p < parent + 1 && tables.map_parents@[p] == p implies (exists|k: int|
                0 <= k < areas@.len() && (#[trigger] areas@[k]).vanilla_map_id == Some(
                    p as u8,
                )) by {
                if p < parent {
                    let k0 = choose|k: int|
                        0 <= k < areas0.len() && (#[trigger] areas0[k]).vanilla_map_id == Some(
                            p as u8,
                        );
                    assert(areas@[k0] == areas0[k0]);
                    assert(areas@[k0].vanilla_map_id == Some(p as u8));
                } else {
                    assert(areas@[areas@.len() - 1].vanilla_map_id == Some(p as u8));
                }
            }
        }
        parent = parent + 1;
    }
    Ok((areas, regs, pal_bg))
}

} // verus!
