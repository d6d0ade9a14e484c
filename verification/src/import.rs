//! The import pipeline: detects the ROM format, runs every stage in order,
//! and produces the editable palettes and areas. Each stage fully produces
//! its output before the next stage reads it; on any failure the whole run
//! aborts and publishes nothing.

use vstd::prelude::*;

use crate::areas::{
    load_areas, spec_area_name, spec_bg_color, spec_cell_t8, spec_cell_valid, spec_is_large,
    spec_load_areas_status, spec_pal_high, spec_region_gfx, spec_resolve_pal_id, ImportTables,
};
use crate::flip::{grid_view, spec_flip_grid};
use crate::map::MapPalettes;
use crate::canon::TileRegistry;
use crate::constants::Constants;
use crate::error::ImportError;
use crate::graphics::load_graphics;
use crate::map::{load_map_gfx, load_map_palettes, load_map_parents, load_map_tiles, load_tile_types};
use crate::palettes::{import_all_palettes, spec_palette_base_wf, PALETTE_COUNT};
use crate::rom::Rom;
use crate::state::{Area, ColorRGB, Palette};
use crate::tiles::{load_16x16_tiles, load_32x32_tiles};

verus! {

/// The identity every import run assigns to its first palette.
pub const STARTING_PALETTE_ID: u16 = 100;

/// Everything one import run produces: the palettes with their deduplicated
/// tile lists, and the per-region areas.
#[derive(Debug)]
pub struct ImportOutput {
    pub palettes: Vec<Palette>,
    pub areas: Vec<Area>,
}

/// Whether the cell's palette id names a palette of the list, with enough
/// stored tiles for the cell's tile index.
pub open spec fn spec_cell_resolvable(a: Area, ps: Seq<Palette>, x: int, y: int) -> bool {
    let s = (y / 32) * a.size.0 + x / 32;
    let p = a.screens@[s].palettes@[y % 32]@[x % 32];
    exists|j: int|
        0 <= j < ps.len() && (#[trigger] ps[j]).id == p && a.screens@[s].tiles@[y % 32]@[x % 32]
            < ps[j].tiles@.len()
}

/// What the published output shows at one cell: the palette resolved from
/// the cell's source reference is present in the list, the cell's tile
/// index names one of its stored tiles, and that tile, under the cell's
/// recorded flip, shows the reference's sheet pixels under the reference's
/// own flip.
pub open spec fn spec_cell_published(
    a: Area,
    ps: Seq<Palette>,
    tables: ImportTables,
    pal: MapPalettes,
    parent: int,
    x: int,
    y: int,
) -> bool {
    let t8 = spec_cell_t8(tables, parent, x, y);
    let s = (y / 32) * a.size.0 + x / 32;
    let cp = a.screens@[s].palettes@[y % 32]@[x % 32];
    let ct = a.screens@[s].tiles@[y % 32]@[x % 32];
    let cf = a.screens@[s].flips@[y % 32]@[x % 32];
    &&& cp == spec_resolve_pal_id(
        pal,
        t8.pal_idx as int,
        spec_pal_high(t8.gfx_char as int),
        tables.start_id as int,
    )->Ok_0
    &&& exists|j: int|
        0 <= j < ps.len() && (#[trigger] ps[j]).id == cp && ct < ps[j].tiles@.len()
            && spec_flip_grid(cf, grid_view(ps[j].tiles@[ct as int].pixels)) == spec_flip_grid(
            t8.flip,
            grid_view(
                tables.tiles8@[spec_region_gfx(tables, parent)[t8.gfx_char as int] as int],
            ),
        ) && (crate::flip::flip_h(cf) ==> ps[j].tiles@[ct as int].h_flippable) && (
        crate::flip::flip_v(cf) ==> ps[j].tiles@[ct as int].v_flippable)
}

/// What the published palette list guarantees: identities in the assigned
/// range in strictly ascending order, each palette's name and colors as its
/// group table pins them, a non-empty tile list padded to a multiple of
/// sixteen, and, for every palette whose registry was used, an entry whose
/// tiles carry the registry's pixel patterns and learned flip bits.
pub open spec fn spec_published_palettes(
    data: Seq<u8>,
    c: Constants,
    regs: Seq<TileRegistry>,
    out: Seq<Palette>,
) -> bool {
    &&& forall|j: int|
        0 <= j < out.len() ==> {
            let p = #[trigger] out[j];
            &&& STARTING_PALETTE_ID <= p.id < STARTING_PALETTE_ID + PALETTE_COUNT
            &&& crate::palettes::spec_palette_base_wf(
                data,
                c,
                p.id - STARTING_PALETTE_ID,
                STARTING_PALETTE_ID as int,
                p,
            )
            &&& p.name@ == crate::palettes::spec_pal_name(p.id - STARTING_PALETTE_ID)
            &&& p.tiles@.len() > 0
            &&& p.tiles@.len() % 16 == 0
        }
    &&& forall|j1: int, j2: int|
        0 <= j1 < j2 < out.len() ==> (#[trigger] out[j1]).id < (#[trigger] out[j2]).id
    &&& forall|kk: int|
        0 <= kk < PALETTE_COUNT && regs[kk].tiles@.len() > 0 ==> (exists|j: int|
            0 <= j < out.len() && (#[trigger] out[j]).id == STARTING_PALETTE_ID + kk
                && regs[kk].tiles@.len() <= out[j].tiles@.len() && (forall|t: int|
                0 <= t < regs[kk].tiles@.len() ==> (#[trigger] out[j].tiles@[t]).pixels
                    == regs[kk].tiles@[t].pixels && out[j].tiles@[t].h_flippable
                    == regs[kk].h_flippable@[t] && out[j].tiles@[t].v_flippable
                    == regs[kk].v_flippable@[t]))
}

/// Whether `tables` holds exactly the stage outputs that the loaders'
/// contracts pin for this ROM image: the decoded sheet tiles, the two
/// composite-tile tables, the per-slot grids, parents, palette groups and
/// graphics sets, the collision table, and the identity tables.
pub open spec fn spec_tables_of(data: Seq<u8>, c: Constants, tables: ImportTables) -> bool {
    &&& tables.start_id == STARTING_PALETTE_ID
    &&& tables.wf()
    &&& tables.tiles8@.len() == crate::graphics::SHEET_COUNT * 64
    &&& forall|i: int, j: int, y: int, x: int|
        #![trigger grid_view(tables.tiles8@[i * 64 + j])[y][x]]
        0 <= i < crate::graphics::SHEET_COUNT && 0 <= j < 64 && 0 <= y < 8 && 0 <= x < 8
            ==> grid_view(tables.tiles8@[i * 64 + j])[y][x] == crate::graphics::spec_sheet_pixel(
            crate::graphics::spec_sheet_bytes(data, c, i)->Ok_0,
            j,
            y,
            x,
        )
    &&& tables.tiles16@.len() == c.tiles16_cnt
    &&& forall|i: int, q: int|
        0 <= i < c.tiles16_cnt && 0 <= q < 4 ==> (#[trigger] tables.tiles16@[i]@[q])
            == crate::tiles::spec_tile16_quadrant(data, c, i, q)
    &&& tables.tiles32@.len() == 4 * ((crate::tiles::spec_t32_size(c) + 5) / 6)
    &&& forall|w: int, i: int, t: int|
        0 <= w && 6 * w < crate::tiles::spec_t32_size(c) && 0 <= i < 4 && 0 <= t < 4
            ==> (#[trigger] tables.tiles32@[4 * w + i]@[t]) == crate::tiles::spec_t32_quadrant(
            data,
            c,
            6 * w,
            i,
            t,
        )->Ok_0
    &&& tables.map_tiles@.len() == c.map_cnt
    &&& forall|i: int, y: int, x: int|
        #![trigger tables.map_tiles@[i]@[y]@[x]]
        0 <= i < c.map_cnt && 0 <= y < 16 && 0 <= x < 16 ==> tables.map_tiles@[i]@[y]@[x]
            == crate::map::spec_map_t32(data, c, i, y, x)
    &&& tables.map_parents@.len() == c.map_cnt
    &&& forall|i: int|
        0 <= i < c.map_cnt ==> (#[trigger] tables.map_parents@[i])
            == crate::map::spec_map_parent(i)
    &&& tables.map_palettes@.len() == c.map_cnt
    &&& forall|i: int|
        0 <= i < c.map_cnt ==> (#[trigger] tables.map_palettes@[i])
            == crate::map::spec_map_palettes(
            data,
            c,
            tables.map_parents@[i] as int,
            i,
        )->Ok_0
    &&& tables.map_gfx@.len() == c.map_cnt
    &&& forall|i: int, g: int|
        0 <= i < c.map_cnt && 0 <= g < 8 ==> (#[trigger] tables.map_gfx@[i]@[g])
            == crate::map::spec_map_gfx(data, c, tables.map_parents@[i] as int)->Ok_0[g]
    &&& crate::rom::spec_snes_n(data, c.tile_types.0 as int, 512) == Ok::<Seq<u8>, ImportError>(
        tables.tile_types@,
    )
    &&& tables.id_tables.wf(STARTING_PALETTE_ID as int)
}

/// The canonical parent table as a value, for stating the later stages'
/// conditions without naming their outputs.
pub open spec fn spec_canon_parents(c: Constants) -> Seq<u16> {
    Seq::new(c.map_cnt as nat, |i: int| crate::map::spec_map_parent(i) as u16)
}

/// The first failure among the stages that run before the area build, in
/// pipeline order: the collision table, the palettes, the graphics sheets,
/// the two composite-tile tables, the map grids, the palette groups and the
/// graphics sets. A function of the ROM bytes and the constants alone.
#[verifier::opaque]
pub open spec fn spec_pre_area_status(data: Seq<u8>, c: Constants) -> Result<(), ImportError> {
    let tt = crate::rom::spec_snes_n(data, c.tile_types.0 as int, 512);
    if tt is Err {
        Err(tt->Err_0)
    } else {
        match crate::palettes::spec_palettes_status(data, c, 0) {
            Err(e) => Err(e),
            Ok(u1) => match crate::graphics::spec_graphics_status(data, c, 0) {
                Err(e) => Err(e),
                Ok(u2) => match crate::tiles::spec_tiles16_status(data, c, 0) {
                    Err(e) => Err(e),
                    Ok(u3) => match crate::tiles::spec_t32_status(
                        data,
                        c,
                        0,
                        0,
                        c.tiles16_cnt as int,
                    ) {
                        Err(e) => Err(e),
                        Ok(u4) => match crate::map::spec_map_tiles_status(data, c, 0) {
                            Err(e) => Err(e),
                            Ok(u5) => match crate::map::spec_map_palettes_status(
                                data,
                                c,
                                spec_canon_parents(c),
                                0,
                            ) {
                                Err(e) => Err(e),
                                Ok(u6) => match crate::map::spec_map_gfx_status(
                                    data,
                                    c,
                                    spec_canon_parents(c),
                                    0,
                                ) {
                                    Err(e) => Err(e),
                                    Ok(u7) => Ok(()),
                                },
                            },
                        },
                    },
                },
            },
        }
    }
}

/// Every cell of every area resolves into the published palette list, and
/// shows there exactly what its source reference dictates: the list entry
/// with the cell's palette id holds the stored tile at the cell's index,
/// with the pattern and the learned flip marks the registries pinned.
proof fn lemma_publish_cells(
    areas: Seq<Area>,
    ps: Seq<Palette>,
    regs: Seq<TileRegistry>,
    tables: ImportTables,
)
    requires
        regs.len() == PALETTE_COUNT,
        tables.start_id == STARTING_PALETTE_ID,
        forall|k: int|
            0 <= k < areas.len() ==> {
                let a = #[trigger] areas[k];
                let p = a.vanilla_map_id->0 as int;
                &&& (forall|x2: int, y2: int|
                    0 <= x2 < a.size.0 * 32 && 0 <= y2 < a.size.1 * 32
                        ==> #[trigger] spec_cell_valid(a, regs, STARTING_PALETTE_ID as int, x2, y2))
                &&& (forall|x2: int, y2: int|
                    0 <= x2 < a.size.0 * 32 && 0 <= y2 < a.size.1 * 32
                        ==> #[trigger] crate::areas::spec_cell_content(
                        a,
                        regs,
                        tables,
                        spec_region_gfx(tables, p),
                        tables.map_palettes@[p],
                        p,
                        x2,
                        y2,
                    ))
            },
        forall|kk: int|
            0 <= kk < PALETTE_COUNT && regs[kk].tiles@.len() > 0 ==> (exists|j: int|
                0 <= j < ps.len() && (#[trigger] ps[j]).id == STARTING_PALETTE_ID + kk
                    && regs[kk].tiles@.len() <= ps[j].tiles@.len() && (forall|t: int|
                    0 <= t < regs[kk].tiles@.len() ==> (#[trigger] ps[j].tiles@[t]).pixels
                        == regs[kk].tiles@[t].pixels && ps[j].tiles@[t].h_flippable
                        == regs[kk].h_flippable@[t] && ps[j].tiles@[t].v_flippable
                        == regs[kk].v_flippable@[t])),
    ensures
        forall|k: int, x2: int, y2: int|
            0 <= k < areas.len() && 0 <= x2 < areas[k].size.0 * 32 && 0 <= y2 < areas[k].size.1
                * 32 ==> #[trigger] spec_cell_published(
                areas[k],
                ps,
                tables,
                tables.map_palettes@[areas[k].vanilla_map_id->0 as int],
                areas[k].vanilla_map_id->0 as int,
                x2,
                y2,
            ),
        forall|k: int|
            0 <= k < areas.len() ==> {
                let a = #[trigger] areas[k];
                forall|x2: int, y2: int|
                    0 <= x2 < a.size.0 * 32 && 0 <= y2 < a.size.1 * 32
                        ==> #[trigger] spec_cell_resolvable(a, ps, x2, y2)
            },
{
    assert forall|k2: int, x2: int, y2: int|
        0 <= k2 < areas.len() && 0 <= x2 < areas[k2].size.0 * 32 && 0 <= y2 < areas[k2].size.1
            * 32 implies #[trigger] spec_cell_published(
        areas[k2],
        ps,
        tables,
        tables.map_palettes@[areas[k2].vanilla_map_id->0 as int],
        areas[k2].vanilla_map_id->0 as int,
        x2,
        y2,
    ) && spec_cell_resolvable(areas[k2], ps, x2, y2) by {
        let a = areas[k2];
        let pr = a.vanilla_map_id->0 as int;
        assert(spec_cell_valid(a, regs, STARTING_PALETTE_ID as int, x2, y2));
        assert(crate::areas::spec_cell_content(
            a,
            regs,
            tables,
            spec_region_gfx(tables, pr),
            tables.map_palettes@[pr],
            pr,
            x2,
            y2,
        ));
        let s = (y2 / 32) * a.size.0 + x2 / 32;
        let p = a.screens@[s].palettes@[y2 % 32]@[x2 % 32];
        let ct = a.screens@[s].tiles@[y2 % 32]@[x2 % 32];
        let kk = p - STARTING_PALETTE_ID;
        assert(regs[kk].tiles@.len() > 0);
        let cf = a.screens@[s].flips@[y2 % 32]@[x2 % 32];
        let t8 = spec_cell_t8(tables, pr, x2, y2);
        let j0 = choose|j: int|
            0 <= j < ps.len() && (#[trigger] ps[j]).id == STARTING_PALETTE_ID + kk
                && regs[kk].tiles@.len() <= ps[j].tiles@.len() && (forall|t: int|
                0 <= t < regs[kk].tiles@.len() ==> (#[trigger] ps[j].tiles@[t]).pixels
                    == regs[kk].tiles@[t].pixels && ps[j].tiles@[t].h_flippable
                    == regs[kk].h_flippable@[t] && ps[j].tiles@[t].v_flippable
                    == regs[kk].v_flippable@[t]);
        assert(ps[j0].tiles@[ct as int].pixels == regs[kk].tiles@[ct as int].pixels);
        assert(ps[j0].tiles@[ct as int].h_flippable == regs[kk].h_flippable@[ct as int]);
        assert(ps[j0].tiles@[ct as int].v_flippable == regs[kk].v_flippable@[ct as int]);
        assert(ps[j0].id == p && ct < ps[j0].tiles@.len());
        assert(spec_flip_grid(cf, grid_view(ps[j0].tiles@[ct as int].pixels)) == spec_flip_grid(
            t8.flip,
            grid_view(tables.tiles8@[spec_region_gfx(tables, pr)[t8.gfx_char as int] as int]),
        ));
        assert(crate::flip::flip_h(cf) ==> ps[j0].tiles@[ct as int].h_flippable);
        assert(crate::flip::flip_v(cf) ==> ps[j0].tiles@[ct as int].v_flippable);
    }
    assert forall|k2: int| 0 <= k2 < areas.len() implies {
        let a = #[trigger] areas[k2];
        forall|x2: int, y2: int|
            0 <= x2 < a.size.0 * 32 && 0 <= y2 < a.size.1 * 32
                ==> #[trigger] spec_cell_resolvable(a, ps, x2, y2)
    } by {
        let a = areas[k2];
        assert forall|x2: int, y2: int|
            0 <= x2 < a.size.0 * 32 && 0 <= y2 < a.size.1 * 32 implies #[trigger] spec_cell_resolvable(
            a,
            ps,
            x2,
            y2,
        ) by {
            assert(spec_cell_published(
                areas[k2],
                ps,
                tables,
                tables.map_palettes@[areas[k2].vanilla_map_id->0 as int],
                areas[k2].vanilla_map_id->0 as int,
                x2,
                y2,
            ));
        }
    }
}

/// One import run: the ROM bytes and the constants the format detector
/// resolved for them.
pub struct Importer {
    pub rom: Rom,
    pub constants: Constants,
}

impl Importer {
    /// The constants are the ones the detector derives from these bytes.
    pub open spec fn wf(self) -> bool {
        Constants::spec_auto(self.rom.data@) == Ok::<Constants, ImportError>(self.constants)
    }

    /// Detects the ROM format and prepares an import run.
    pub fn new(rom_bytes: Vec<u8>) -> (r: Result<Importer, ImportError>)
        ensures
            (match Constants::spec_auto(rom_bytes@) {
                Ok(c) => r matches Ok(im) && im.rom.data@ == rom_bytes@ && im.constants == c
                    && im.wf(),
                Err(e) => r == Err::<Importer, ImportError>(e),
            }),
    {
        let rom = Rom::new(rom_bytes);
        let constants = Constants::auto(&rom)?;
        Ok(Importer { rom, constants })
    }

    /// Detects the format and runs the whole pipeline on the ROM bytes.
    pub fn import(rom_bytes: Vec<u8>) -> (r: Result<ImportOutput, ImportError>)
        ensures
            Constants::spec_auto(rom_bytes@) matches Err(e) ==> r == Err::<
                ImportOutput,
                ImportError,
            >(e),
            (match Constants::spec_auto(rom_bytes@) {
                Ok(c0) => (match spec_pre_area_status(rom_bytes@, c0) {
                    Err(e0) => r == Err::<ImportOutput, ImportError>(e0),
                    Ok(u) => true,
                }),
                Err(e1) => true,
            }),
            r matches Err(e) ==> (Constants::spec_auto(rom_bytes@) == Err::<
                Constants,
                ImportError,
            >(e) || {
                let c0 = Constants::spec_auto(rom_bytes@)->Ok_0;
                ||| e == ImportError::TileIndexOverflow
                ||| spec_pre_area_status(rom_bytes@, c0) == Err::<(), ImportError>(e)
                ||| exists|tables: ImportTables|
                    #[trigger] spec_tables_of(rom_bytes@, c0, tables) && spec_load_areas_status(
                        rom_bytes@,
                        c0,
                        tables,
                        0,
                    ) == Err::<(), ImportError>(e)
            }),
            r matches Ok(out) ==> (forall|p: int|
                0 <= p < 0x82 ==> ((crate::map::spec_map_parent(p) == p) <==> exists|k: int|
                    0 <= k < out.areas@.len() && (#[trigger] out.areas@[k]).vanilla_map_id == Some(
                        p as u8,
                    ))),
            r matches Ok(out) ==> {
                let c = Constants::spec_auto(rom_bytes@)->Ok_0;
                &&& forall|j: int|
                    0 <= j < out.palettes@.len() ==> {
                        let p = #[trigger] out.palettes@[j];
                        &&& STARTING_PALETTE_ID <= p.id < STARTING_PALETTE_ID + PALETTE_COUNT
                        &&& p.name@ == crate::palettes::spec_pal_name(p.id - STARTING_PALETTE_ID)
                        &&& p.tiles@.len() > 0
                        &&& p.tiles@.len() % 16 == 0
                    }
                &&& forall|j1: int, j2: int|
                    0 <= j1 < j2 < out.palettes@.len() ==> (#[trigger] out.palettes@[j1]).id < (
                    #[trigger] out.palettes@[j2]).id
                &&& forall|k: int|
                    0 <= k < out.areas@.len() ==> {
                        let a = #[trigger] out.areas@[k];
                        let p = a.vanilla_map_id->0 as int;
                        &&& a.wf()
                        &&& a.vanilla_map_id is Some
                        &&& 0 <= p <= 0x81
                        &&& a.name@ == spec_area_name(p)
                        &&& a.theme@ == "Base"@
                        &&& a.bg_color@ == spec_bg_color(rom_bytes@, c, p)->Ok_0@
                        &&& (forall|x2: int, y2: int|
                            0 <= x2 < a.size.0 * 32 && 0 <= y2 < a.size.1 * 32
                                ==> #[trigger] spec_cell_resolvable(a, out.palettes@, x2, y2))
                    }
                &&& exists|tables: ImportTables|
                    #[trigger] spec_tables_of(rom_bytes@, c, tables) && (forall|
                        k: int,
                        x2: int,
                        y2: int,
                    |
                        0 <= k < out.areas@.len() && 0 <= x2 < out.areas@[k].size.0 * 32 && 0 <= y2
                            < out.areas@[k].size.1 * 32 ==> #[trigger] spec_cell_published(
                            out.areas@[k],
                            out.palettes@,
                            tables,
                            tables.map_palettes@[out.areas@[k].vanilla_map_id->0 as int],
                            out.areas@[k].vanilla_map_id->0 as int,
                            x2,
                            y2,
                        ))
            },
    {
        let importer = Importer::new(rom_bytes)?;
        importer.import_all()
    }

    /// Runs every import stage in order: collision codes, palettes,
    /// graphics sheets, the two composite-tile tables, the map grids,
    /// parents, palette groups and graphics sets, then the per-region area
    /// build, and finally the palette tile lists with their learned flip
    /// bits, background colors, and the pruning of unused palettes.
    #[verifier::rlimit(100)]
    pub fn import_all(&self) -> (r: Result<ImportOutput, ImportError>)
        requires
            self.wf(),
        ensures
            spec_pre_area_status(self.rom.data@, self.constants) matches Err(e0) ==> r == Err::<
                ImportOutput,
                ImportError,
            >(e0),
            r matches Err(e) ==> (e == ImportError::TileIndexOverflow || spec_pre_area_status(
                self.rom.data@,
                self.constants,
            ) == Err::<(), ImportError>(e) || (exists|tables: ImportTables|
                #[trigger] spec_tables_of(self.rom.data@, self.constants, tables)
                    && spec_load_areas_status(self.rom.data@, self.constants, tables, 0) == Err::<
                    (),
                    ImportError,
                >(e))),
            r matches Ok(out) ==> (forall|p: int|
                0 <= p < 0x82 ==> ((crate::map::spec_map_parent(p) == p) <==> exists|k: int|
                    0 <= k < out.areas@.len() && (#[trigger] out.areas@[k]).vanilla_map_id == Some(
                        p as u8,
                    ))),
            r matches Ok(out) ==> {
                &&& forall|j: int|
                    0 <= j < out.palettes@.len() ==> {
                        let p = #[trigger] out.palettes@[j];
                        &&& STARTING_PALETTE_ID <= p.id < STARTING_PALETTE_ID + PALETTE_COUNT
                        &&& crate::palettes::spec_palette_base_wf(
                            self.rom.data@,
                            self.constants,
                            p.id - STARTING_PALETTE_ID,
                            STARTING_PALETTE_ID as int,
                            p,
                        )
                        &&& p.name@ == crate::palettes::spec_pal_name(p.id - STARTING_PALETTE_ID)
                        &&& p.tiles@.len() > 0
                        &&& p.tiles@.len() % 16 == 0
                    }
                &&& forall|j1: int, j2: int|
                    0 <= j1 < j2 < out.palettes@.len() ==> (#[trigger] out.palettes@[j1]).id < (
                    #[trigger] out.palettes@[j2]).id
                &&& forall|k: int|
                    0 <= k < out.areas@.len() ==> {
                        let a = #[trigger] out.areas@[k];
                        let p = a.vanilla_map_id->0 as int;
                        &&& a.wf()
                        &&& a.vanilla_map_id is Some
                        &&& 0 <= p <= 0x81
                        &&& a.name@ == spec_area_name(p)
                        &&& a.theme@ == "Base"@
                        &&& a.bg_color@ == spec_bg_color(self.rom.data@, self.constants, p)->Ok_0@
                        &&& (forall|x2: int, y2: int|
                            0 <= x2 < a.size.0 * 32 && 0 <= y2 < a.size.1 * 32
                                ==> #[trigger] spec_cell_resolvable(a, out.palettes@, x2, y2))
                    }
                &&& exists|tables: ImportTables|
                    #[trigger] spec_tables_of(self.rom.data@, self.constants, tables) && (forall|
                        k: int,
                        x2: int,
                        y2: int,
                    |
                        0 <= k < out.areas@.len() && 0 <= x2 < out.areas@[k].size.0 * 32 && 0 <= y2
                            < out.areas@[k].size.1 * 32 ==> #[trigger] spec_cell_published(
                            out.areas@[k],
                            out.palettes@,
                            tables,
                            tables.map_palettes@[out.areas@[k].vanilla_map_id->0 as int],
                            out.areas@[k].vanilla_map_id->0 as int,
                            x2,
                            y2,
                        ))
            },
    {
        let c = &self.constants;
        let rom = &self.rom;
        proof {
            assert(c.map_cnt == 160);
            assert(c.tiles32_cnt * 6 < 0x1_0000_0000);
        }
        let (tables, palettes) = match Self::load_stage_tables(rom, c) {
            Ok(t) => t,
            Err(e) => {
                return Err(e);
            },
        };
        let (areas, regs, pal_bg) = match load_areas(rom, c, &tables) {
            Ok(t) => t,
            Err(e) => {
                proof {
                    if e != ImportError::TileIndexOverflow {
                        assert(spec_load_areas_status(self.rom.data@, *c, tables, 0) == Err::<
                            (),
                            ImportError,
                        >(e));
                    }
                }
                return Err(e);
            },
        };
        let ghost areas_g: Seq<Area> = areas@;
        match Self::publish_output(
            palettes,
            areas,
            regs,
            pal_bg,
            Ghost(tables),
            Ghost(self.rom.data@),
            Ghost(self.constants),
        ) {
            Ok(out) => {
                proof {
                    assert forall|p: int| 0 <= p < 0x82 implies ((crate::map::spec_map_parent(p)
                        == p) <==> exists|k: int|
                        0 <= k < out.areas@.len() && (#[trigger] out.areas@[k]).vanilla_map_id
                            == Some(p as u8)) by {
                        assert(tables.map_parents@[p] == crate::map::spec_map_parent(p));
                        if crate::map::spec_map_parent(p) == p {
                            let k0 = choose|k: int|
                                0 <= k < areas_g.len() && (#[trigger] areas_g[k]).vanilla_map_id
                                    == Some(p as u8);
                            assert(out.areas@[k0].vanilla_map_id == Some(p as u8));
                        } else {
                            if exists|k: int|
                                0 <= k < out.areas@.len() && (
                                #[trigger] out.areas@[k]).vanilla_map_id == Some(p as u8) {
                                let k0 = choose|k: int|
                                    0 <= k < out.areas@.len() && (
                                    #[trigger] out.areas@[k]).vanilla_map_id == Some(p as u8);
                                assert(areas_g[k0].vanilla_map_id == Some(p as u8));
                                assert(tables.map_parents@[p] == p);
                            }
                        }
                    }
                }
                Ok(out)
            },
            Err(e) => Err(e),
        }
    }

    /// Runs every stage before the area build, in pipeline order, and
    /// assembles their outputs into the table set the builder reads,
    /// together with the freshly imported palettes.
    #[verifier::rlimit(100)]
    fn load_stage_tables(rom: &Rom, c: &Constants) -> (r: Result<
        (ImportTables, Vec<Palette>),
        ImportError,
    >)
        requires
            c.map_cnt == 160,
            c.tiles32_cnt * 6 < 0x1_0000_0000,
        ensures
            r matches Err(e) ==> spec_pre_area_status(rom.data@, *c) == Err::<(), ImportError>(e),
            r matches Ok(out) ==> {
                &&& spec_pre_area_status(rom.data@, *c) is Ok
                &&& spec_tables_of(rom.data@, *c, out.0)
                &&& out.1@.len() == PALETTE_COUNT
                &&& forall|kk: int|
                    0 <= kk < PALETTE_COUNT ==> crate::palettes::spec_palette_wf(
                        rom.data@,
                        *c,
                        kk,
                        STARTING_PALETTE_ID as int,
                        #[trigger] out.1@[kk],
                    )
            },
    {
        let data = &rom.data;
        let tile_types = match load_tile_types(rom, c) {
            Ok(t) => t,
            Err(e) => {
                proof {
                    reveal(spec_pre_area_status);
                    assert(spec_pre_area_status(data@, *c) == Err::<(), ImportError>(e));
                }
                return Err(e);
            },
        };
        let (palettes, id_tables) = match import_all_palettes(rom, c, STARTING_PALETTE_ID) {
            Ok(t) => t,
            Err(e) => {
                proof {
                    reveal(spec_pre_area_status);
                    assert(spec_pre_area_status(data@, *c) == Err::<(), ImportError>(e));
                }
                return Err(e);
            },
        };
        let tiles8 = match load_graphics(rom, c) {
            Ok(t) => t,
            Err(e) => {
                proof {
                    reveal(spec_pre_area_status);
                    assert(spec_pre_area_status(data@, *c) == Err::<(), ImportError>(e));
                }
                return Err(e);
            },
        };
        let tiles16 = match load_16x16_tiles(rom, c) {
            Ok(t) => t,
            Err(e) => {
                proof {
                    reveal(spec_pre_area_status);
                    assert(spec_pre_area_status(data@, *c) == Err::<(), ImportError>(e));
                }
                return Err(e);
            },
        };
        let tiles32 = match load_32x32_tiles(rom, c, tiles16.len()) {
            Ok(t) => t,
            Err(e) => {
                proof {
                    reveal(spec_pre_area_status);
                    assert(spec_pre_area_status(data@, *c) == Err::<(), ImportError>(e));
                }
                return Err(e);
            },
        };
        let map_tiles = match load_map_tiles(rom, c) {
            Ok(t) => t,
            Err(e) => {
                proof {
                    reveal(spec_pre_area_status);
                    assert(spec_pre_area_status(data@, *c) == Err::<(), ImportError>(e));
                }
                return Err(e);
            },
        };
        let map_parents = load_map_parents(c.map_cnt);
        proof {
            assert forall|i: int| 0 <= i < c.map_cnt implies map_parents@[i]
                == spec_canon_parents(*c)[i] by {
                assert(map_parents@[i] == crate::map::spec_map_parent(i));
            }
            assert(map_parents@ =~= spec_canon_parents(*c));
        }
        let map_palettes = match load_map_palettes(rom, c, &map_parents) {
            Ok(t) => t,
            Err(e) => {
                proof {
                    reveal(spec_pre_area_status);
                    assert(spec_pre_area_status(data@, *c) == Err::<(), ImportError>(e));
                }
                return Err(e);
            },
        };
        let map_gfx = match load_map_gfx(rom, c, &map_parents) {
            Ok(t) => t,
            Err(e) => {
                proof {
                    reveal(spec_pre_area_status);
                    assert(spec_pre_area_status(data@, *c) == Err::<(), ImportError>(e));
                }
                return Err(e);
            },
        };
        proof {
            reveal(spec_pre_area_status);
            assert(spec_pre_area_status(data@, *c) is Ok);
        }
        let tables = ImportTables {
            tiles8,
            tiles16,
            tiles32,
            map_tiles,
            map_parents,
            map_palettes,
            map_gfx,
            tile_types,
            id_tables,
            start_id: STARTING_PALETTE_ID,
        };
        proof {
            assert(tables.wf());
            assert(spec_tables_of(data@, *c, tables));
        }
        Ok((tables, palettes))
    }

    /// Publishes one run's output: merges each used palette's learned flip
    /// bits into its tile list, assigns the background color seen with it,
    /// drops the palettes no area cell refers to, and pairs the result with
    /// the areas. Fails only when a palette outgrew its index space.
    #[verifier::rlimit(100)]
    fn publish_output(
        palettes: Vec<Palette>,
        areas: Vec<Area>,
        regs: Vec<TileRegistry>,
        pal_bg: Vec<Option<ColorRGB>>,
        tables: Ghost<ImportTables>,
        data: Ghost<Seq<u8>>,
        c: Ghost<Constants>,
    ) -> (r: Result<ImportOutput, ImportError>)
        requires
            spec_tables_of(data@, c@, tables@),
            palettes@.len() == PALETTE_COUNT,
            forall|kk: int|
                0 <= kk < PALETTE_COUNT ==> crate::palettes::spec_palette_wf(
                    data@,
                    c@,
                    kk,
                    STARTING_PALETTE_ID as int,
                    #[trigger] palettes@[kk],
                ),
            crate::areas::regs_ok(regs@),
            pal_bg@.len() == PALETTE_COUNT,
            forall|k: int|
                0 <= k < areas@.len() ==> {
                    let a = #[trigger] areas@[k];
                    let p = a.vanilla_map_id->0 as int;
                    &&& a.wf()
                    &&& a.vanilla_map_id is Some
                    &&& 0 <= p <= 0x81
                    &&& (forall|x2: int, y2: int|
                        0 <= x2 < a.size.0 * 32 && 0 <= y2 < a.size.1 * 32
                            ==> #[trigger] spec_cell_valid(
                            a,
                            regs@,
                            STARTING_PALETTE_ID as int,
                            x2,
                            y2,
                        ))
                    &&& (forall|x2: int, y2: int|
                        0 <= x2 < a.size.0 * 32 && 0 <= y2 < a.size.1 * 32
                            ==> #[trigger] crate::areas::spec_cell_content(
                            a,
                            regs@,
                            tables@,
                            spec_region_gfx(tables@, p),
                            tables@.map_palettes@[p],
                            p,
                            x2,
                            y2,
                        ))
                },
        ensures
            r matches Err(e) ==> e == ImportError::TileIndexOverflow,
            r matches Ok(out) ==> out.areas@ == areas@,
            r matches Ok(out) ==> forall|j: int|
                0 <= j < out.palettes@.len() ==> (match pal_bg@[(#[trigger] out.palettes@[j]).id
                    - STARTING_PALETTE_ID] {
                    Some(cb) => out.palettes@[j].colors@[0]@ == cb@,
                    None => out.palettes@[j].colors@[0]@ == seq![0u8, 0u8, 0u8],
                }),
            r matches Ok(out) ==> {
                &&& forall|j: int|
                    0 <= j < out.palettes@.len() ==> {
                        let p = #[trigger] out.palettes@[j];
                        &&& STARTING_PALETTE_ID <= p.id < STARTING_PALETTE_ID + PALETTE_COUNT
                        &&& crate::palettes::spec_palette_base_wf(
                            data@,
                            c@,
                            p.id - STARTING_PALETTE_ID,
                            STARTING_PALETTE_ID as int,
                            p,
                        )
                        &&& p.name@ == crate::palettes::spec_pal_name(p.id - STARTING_PALETTE_ID)
                        &&& p.tiles@.len() > 0
                        &&& p.tiles@.len() % 16 == 0
                    }
                &&& forall|j1: int, j2: int|
                    0 <= j1 < j2 < out.palettes@.len() ==> (#[trigger] out.palettes@[j1]).id < (
                    #[trigger] out.palettes@[j2]).id
                &&& forall|k: int|
                    0 <= k < out.areas@.len() ==> {
                        let a = #[trigger] out.areas@[k];
                        forall|x2: int, y2: int|
                            0 <= x2 < a.size.0 * 32 && 0 <= y2 < a.size.1 * 32
                                ==> #[trigger] spec_cell_resolvable(a, out.palettes@, x2, y2)
                    }
                &&& forall|k: int, x2: int, y2: int|
                    0 <= k < out.areas@.len() && 0 <= x2 < out.areas@[k].size.0 * 32 && 0 <= y2
                        < out.areas@[k].size.1 * 32 ==> #[trigger] spec_cell_published(
                        out.areas@[k],
                        out.palettes@,
                        tables@,
                        tables@.map_palettes@[out.areas@[k].vanilla_map_id->0 as int],
                        out.areas@[k].vanilla_map_id->0 as int,
                        x2,
                        y2,
                    )
            },
    {
        let out_palettes = match Self::finalize_palettes(palettes, &regs, &pal_bg, data, c) {
            Ok(v) => v,
            Err(e) => {
                return Err(e);
            },
        };
        proof {
            lemma_publish_cells(areas@, out_palettes@, regs@, tables@);
        }
        Ok(ImportOutput { palettes: out_palettes, areas })
    }

    /// Builds the published palette list: each palette whose registry holds
    /// at least one stored tile keeps its colors (slot 0 taken from the
    /// background record), and its tile list becomes the registry's stored
    /// tiles with the learned flip bits merged in, padded to a multiple of
    /// sixteen. Unused palettes are dropped. Fails only when a registry
    /// outgrew the 16-bit tile index space.
    #[verifier::rlimit(100)]
    fn finalize_palettes(
        palettes: Vec<Palette>,
        regs: &Vec<TileRegistry>,
        pal_bg: &Vec<Option<ColorRGB>>,
        data: Ghost<Seq<u8>>,
        c: Ghost<Constants>,
    ) -> (r: Result<Vec<Palette>, ImportError>)
        requires
            palettes@.len() == PALETTE_COUNT,
            forall|kk: int|
                0 <= kk < PALETTE_COUNT ==> crate::palettes::spec_palette_wf(
                    data@,
                    c@,
                    kk,
                    STARTING_PALETTE_ID as int,
                    #[trigger] palettes@[kk],
                ),
            crate::areas::regs_ok(regs@),
            pal_bg@.len() == PALETTE_COUNT,
        ensures
            r matches Err(e) ==> e == ImportError::TileIndexOverflow,
            r matches Ok(out) ==> spec_published_palettes(data@, c@, regs@, out@),
            r matches Ok(out) ==> forall|j: int|
                0 <= j < out@.len() ==> (match pal_bg@[(#[trigger] out@[j]).id
                    - STARTING_PALETTE_ID] {
                    Some(cb) => out@[j].colors@[0]@ == cb@,
                    None => out@[j].colors@[0]@ == seq![0u8, 0u8, 0u8],
                }),
    {
        let mut out_palettes: Vec<Palette> = Vec::new();
        let mut k: usize = 0;
        while k < PALETTE_COUNT as usize
            invariant
                k <= PALETTE_COUNT,
                palettes@.len() == PALETTE_COUNT,
                regs@.len() == PALETTE_COUNT,
                pal_bg@.len() == PALETTE_COUNT,
                forall|kk: int| 0 <= kk < PALETTE_COUNT ==> (#[trigger] regs@[kk]).wf(),
                forall|kk: int|
                    0 <= kk < PALETTE_COUNT ==> crate::palettes::spec_palette_wf(
                        data@,
                        c@,
                        kk,
                        STARTING_PALETTE_ID as int,
                        #[trigger] palettes@[kk],
                    ),
                forall|j: int|
                    0 <= j < out_palettes@.len() ==> {
                        let p = #[trigger] out_palettes@[j];
                        &&& STARTING_PALETTE_ID <= p.id < STARTING_PALETTE_ID + k
                        &&& crate::palettes::spec_palette_base_wf(
                            data@,
                            c@,
                            p.id - STARTING_PALETTE_ID,
                            STARTING_PALETTE_ID as int,
                            p,
                        )
                        &&& p.name@ == crate::palettes::spec_pal_name(p.id - STARTING_PALETTE_ID)
                        &&& p.tiles@.len() > 0
                        &&& p.tiles@.len() % 16 == 0
                    },
                forall|j1: int, j2: int|
                    0 <= j1 < j2 < out_palettes@.len() ==> (#[trigger] out_palettes@[j1]).id < (
                    #[trigger] out_palettes@[j2]).id,
                forall|j: int|
                    0 <= j < out_palettes@.len() ==> (match pal_bg@[(#[trigger] out_palettes@[j]).id
                        - STARTING_PALETTE_ID] {
                        Some(cb) => out_palettes@[j].colors@[0]@ == cb@,
                        None => out_palettes@[j].colors@[0]@ == seq![0u8, 0u8, 0u8],
                    }),
                forall|kk: int|
                    0 <= kk < k && regs@[kk].tiles@.len() > 0 ==> (exists|j: int|
                        0 <= j < out_palettes@.len() && (#[trigger] out_palettes@[j]).id
                            == STARTING_PALETTE_ID + kk && regs@[kk].tiles@.len()
                            <= out_palettes@[j].tiles@.len() && (forall|t: int|
                            0 <= t < regs@[kk].tiles@.len()
                                ==> (#[trigger] out_palettes@[j].tiles@[t]).pixels
                                == regs@[kk].tiles@[t].pixels
                                && out_palettes@[j].tiles@[t].h_flippable
                                == regs@[kk].h_flippable@[t]
                                && out_palettes@[j].tiles@[t].v_flippable
                                == regs@[kk].v_flippable@[t])),
            decreases PALETTE_COUNT - k,
        {
            let ghost out0: Seq<Palette> = out_palettes@;
            if regs[k].tiles.len() > 0 {
                let n = regs[k].tiles.len();
                if n > usize::MAX - 15 {
                    return Err(ImportError::TileIndexOverflow);
                }
                let tiles = regs[k].finalize_tiles();
                proof {
                    assert(tiles@.len() >= n) by (nonlinear_arith)
                        requires
                            tiles@.len() == ((n as int + 15) / 16) * 16,
                            n >= 0,
                    ;
                    assert(tiles@.len() % 16 == 0) by (nonlinear_arith)
                        requires
                            tiles@.len() == ((n as int + 15) / 16) * 16,
                    ;
                }
                let src = &palettes[k];
                let mut colors = src.colors;
                match pal_bg[k] {
                    Some(cbg) => {
                        colors[0] = cbg;
                    },
                    _ => {},
                }
                out_palettes.push(
                    Palette {
                        modified: true,
                        name: src.name.clone(),
                        id: src.id,
                        colors,
                        tiles,
                    },
                );
                proof {
                    assert(crate::palettes::spec_palette_base_wf(
                        data@,
                        c@,
                        k as int,
                        STARTING_PALETTE_ID as int,
                        out_palettes@.last(),
                    ));
                    assert forall|ch: int| 0 <= ch < 3 implies palettes@[k as int].colors@[0]@[ch]
                        == 0 by {
                        assert(palettes@[k as int].colors@[0]@[ch + 0] == 0);
                    }
                    assert(match pal_bg@[k as int] {
                        Some(cb) => out_palettes@.last().colors@[0]@ =~= cb@,
                        None => out_palettes@.last().colors@[0]@ =~= seq![0u8, 0u8, 0u8],
                    });
                    assert forall|kk: int|
                        0 <= kk < k + 1 && regs@[kk].tiles@.len() > 0 implies (exists|j: int|
                        0 <= j < out_palettes@.len() && (#[trigger] out_palettes@[j]).id
                            == STARTING_PALETTE_ID + kk && regs@[kk].tiles@.len()
                            <= out_palettes@[j].tiles@.len() && (forall|t: int|
                            0 <= t < regs@[kk].tiles@.len()
                                ==> (#[trigger] out_palettes@[j].tiles@[t]).pixels
                                == regs@[kk].tiles@[t].pixels
                                && out_palettes@[j].tiles@[t].h_flippable
                                == regs@[kk].h_flippable@[t]
                                && out_palettes@[j].tiles@[t].v_flippable
                                == regs@[kk].v_flippable@[t])) by {
                        if kk < k {
                            let j0 = choose|j: int|
                                0 <= j < out0.len() && (#[trigger] out0[j]).id
                                    == STARTING_PALETTE_ID + kk && regs@[kk].tiles@.len()
                                    <= out0[j].tiles@.len() && (forall|t: int|
                                    0 <= t < regs@[kk].tiles@.len()
                                        ==> (#[trigger] out0[j].tiles@[t]).pixels
                                        == regs@[kk].tiles@[t].pixels
                                        && out0[j].tiles@[t].h_flippable
                                        == regs@[kk].h_flippable@[t]
                                        && out0[j].tiles@[t].v_flippable
                                        == regs@[kk].v_flippable@[t]);
                            assert(out_palettes@[j0].id == STARTING_PALETTE_ID + kk
                                && regs@[kk].tiles@.len() <= out_palettes@[j0].tiles@.len() && (
                            forall|t: int|
                                0 <= t < regs@[kk].tiles@.len()
                                    ==> (#[trigger] out_palettes@[j0].tiles@[t]).pixels
                                    == regs@[kk].tiles@[t].pixels
                                    && out_palettes@[j0].tiles@[t].h_flippable
                                    == regs@[kk].h_flippable@[t]
                                    && out_palettes@[j0].tiles@[t].v_flippable
                                    == regs@[kk].v_flippable@[t]));
                        } else {
                            let j0 = out_palettes@.len() - 1;
                            assert(out_palettes@[j0].id == STARTING_PALETTE_ID + kk
                                && regs@[kk].tiles@.len() <= out_palettes@[j0].tiles@.len() && (
                            forall|t: int|
                                0 <= t < regs@[kk].tiles@.len()
                                    ==> (#[trigger] out_palettes@[j0].tiles@[t]).pixels
                                    == regs@[kk].tiles@[t].pixels
                                    && out_palettes@[j0].tiles@[t].h_flippable
                                    == regs@[kk].h_flippable@[t]
                                    && out_palettes@[j0].tiles@[t].v_flippable
                                    == regs@[kk].v_flippable@[t]));
                        }
                    }
                }
            } else {
                proof {
                    assert forall|kk: int|
                        0 <= kk < k + 1 && regs@[kk].tiles@.len() > 0 implies (exists|j: int|
                        0 <= j < out_palettes@.len() && (#[trigger] out_palettes@[j]).id
                            == STARTING_PALETTE_ID + kk && regs@[kk].tiles@.len()
                            <= out_palettes@[j].tiles@.len() && (forall|t: int|
                            0 <= t < regs@[kk].tiles@.len()
                                ==> (#[trigger] out_palettes@[j].tiles@[t]).pixels
                                == regs@[kk].tiles@[t].pixels
                                && out_palettes@[j].tiles@[t].h_flippable
                                == regs@[kk].h_flippable@[t]
                                && out_palettes@[j].tiles@[t].v_flippable
                                == regs@[kk].v_flippable@[t])) by {
                        assert(kk < k);
                    }
                }
            }
            k = k + 1;
        }
        proof {
            assert(spec_published_palettes(data@, c@, regs@, out_palettes@));
        }
        Ok(out_palettes)
    }
}

} // verus!
