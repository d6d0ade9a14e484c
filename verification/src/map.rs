//! The map assembler's tables: per-slot parent resolution, the collision
//! code table, per-slot composite-index grids, palette selection and
//! graphics-set selection.

use vstd::prelude::*;

use crate::addr::spec_pc;
use crate::codec::{decompress, spec_decompress};
use crate::constants::Constants;
use crate::error::ImportError;
use crate::rom::{spec_snes_n, spec_snes_u24, spec_snes_u8, Rom};

verus! {

/// Whether slot `k` is the top-left slot of a 2x2 "large area" block, within
/// one world of 64 slots. A hardware-format fact.
pub open spec fn spec_large_base(k: int) -> bool {
    k == 0 || k == 3 || k == 5 || k == 24 || k == 27 || k == 30 || k == 48 || k == 53
}

/// The parent of map slot `i`: itself for a top-level slot, else the
/// top-level slot whose block it belongs to. The three other slots of each
/// 2x2 block point at its top-left slot, in both worlds; a short list of
/// irregular slots above 0x80 is remapped one by one. Hardware-format facts.
pub open spec fn spec_map_parent(i: int) -> int {
    if i == 130 || i == 137 || i == 138 {
        129
    } else if i == 148 {
        128
    } else if i == 149 {
        3
    } else if i == 150 {
        91
    } else if i == 151 {
        0
    } else if i == 156 {
        67
    } else if i == 157 {
        0
    } else if i == 158 {
        0
    } else if i == 159 {
        44
    } else if i < 128 && spec_large_base(i % 64 - 1) {
        i - 1
    } else if i < 128 && spec_large_base(i % 64 - 8) {
        i - 8
    } else if i < 128 && spec_large_base(i % 64 - 9) {
        i - 9
    } else {
        i
    }
}

/// Whether `k` is the top-left slot of a 2x2 block within its world.
fn is_large_base(k: u16) -> (r: bool)
    ensures
        r == spec_large_base(k as int),
{
    k == 0 || k == 3 || k == 5 || k == 24 || k == 27 || k == 30 || k == 48 || k == 53
}

/// Builds the parent table for `map_cnt` slots.
pub fn load_map_parents(map_cnt: u32) -> (r: Vec<u16>)
    requires
        map_cnt <= 0x8000,
    ensures
        r@.len() == map_cnt,
        forall|i: int| 0 <= i < map_cnt ==> (#[trigger] r@[i]) == spec_map_parent(i),
{
    let mut v: Vec<u16> = Vec::new();
    let mut i: u16 = 0;
    while (i as u32) < map_cnt
        invariant
            map_cnt <= 0x8000,
            i <= map_cnt,
            v@.len() == i,
            forall|j: int| 0 <= j < i ==> (#[trigger] v@[j]) == spec_map_parent(j),
        decreases map_cnt - i,
    {
        let b = i % 64;
        let p: u16 = if i == 130 || i == 137 || i == 138 {
            129
        } else if i == 148 {
            128
        } else if i == 149 {
            3
        } else if i == 150 {
            91
        } else if i == 151 {
            0
        } else if i == 156 {
            67
        } else if i == 157 {
            0
        } else if i == 158 {
            0
        } else if i == 159 {
            44
        } else if i < 128 && b >= 1 && is_large_base(b - 1) {
            i - 1
        } else if i < 128 && b >= 8 && is_large_base(b - 8) {
            i - 8
        } else if i < 128 && b >= 9 && is_large_base(b - 9) {
            i - 9
        } else {
            i
        };
        v.push(p);
        i = i + 1;
    }
    v
}

/// Reads the flat 512-entry collision-code table.
pub fn load_tile_types(rom: &Rom, c: &Constants) -> (r: Result<Vec<u8>, ImportError>)
    ensures
        (match spec_snes_n(rom.data@, c.tile_types.0 as int, 512) {
            Ok(s) => r matches Ok(v) && v@ == s,
            Err(e) => r == Err::<Vec<u8>, ImportError>(e),
        }),
{
    rom.snes_n(c.tile_types, 0, 512)
}

/// One decompressed tile-index plane of map slot `i`: the plane's pointer is
/// read from the table at `base + 3 * i`, must select the ROM-mapped half of
/// a bank, and is decompressed with big-endian back-reference offsets.
pub open spec fn spec_map_plane(data: Seq<u8>, base: int, i: int) -> Result<Seq<u8>, ImportError> {
    let ptr = spec_snes_u24(data, base + 3 * i);
    if ptr is Err {
        Err(ptr->Err_0)
    } else if ptr->Ok_0 % 0x10000 < 0x8000 {
        Err(ImportError::NotRomMapped)
    } else {
        spec_decompress(data, spec_pc(ptr->Ok_0), true)
    }
}

/// The first failure while decoding map slot `i`'s two planes: a failed
/// read or decompression, then a plane that is not exactly 256 bytes.
pub open spec fn spec_map_block_status(data: Seq<u8>, c: Constants, i: int) -> Result<
    (),
    ImportError,
> {
    let hi = spec_map_plane(data, c.map_high_addr.0 as int, i);
    let lo = spec_map_plane(data, c.map_low_addr.0 as int, i);
    if hi is Err {
        Err(hi->Err_0)
    } else if lo is Err {
        Err(lo->Err_0)
    } else if hi->Ok_0.len() != 256 {
        Err(ImportError::BadMapPlaneLength)
    } else if lo->Ok_0.len() != 256 {
        Err(ImportError::BadMapPlaneLength)
    } else {
        Ok(())
    }
}

/// The composite-32 index of cell (`x`, `y`) of map slot `i`: high and low
/// plane bytes combined, with an index at or past the table count clamped to
/// zero (a tolerated quirk of at least one ROM release).
pub open spec fn spec_map_t32(data: Seq<u8>, c: Constants, i: int, y: int, x: int) -> int {
    let hi = spec_map_plane(data, c.map_high_addr.0 as int, i)->Ok_0;
    let lo = spec_map_plane(data, c.map_low_addr.0 as int, i)->Ok_0;
    let v = hi[y * 16 + x] * 0x100 + lo[y * 16 + x];
    if v >= c.tiles32_cnt {
        0
    } else {
        v
    }
}

/// The first failure among map slots `i` on, if any.
pub open spec fn spec_map_tiles_status(data: Seq<u8>, c: Constants, i: int) -> Result<
    (),
    ImportError,
>
    decreases c.map_cnt - i,
{
    if i < 0 || i >= c.map_cnt {
        Ok(())
    } else {
        match spec_map_block_status(data, c, i) {
            Ok(u) => spec_map_tiles_status(data, c, i + 1),
            Err(e) => Err(e),
        }
    }
}

/// Decodes the 16x16 composite-index grid of one map slot.
#[verifier::loop_isolation(false)]
#[verifier::rlimit(60)]
fn load_map_block(rom: &Rom, c: &Constants, i: u32) -> (r: Result<[[u16; 16]; 16], ImportError>)
    requires
        i < c.map_cnt,
        c.map_cnt <= 0x8000,
    ensures
        r is Ok <==> spec_map_block_status(rom.data@, *c, i as int) is Ok,
        r matches Err(e) ==> spec_map_block_status(rom.data@, *c, i as int) == Err::<
            (),
            ImportError,
        >(e),
        r matches Ok(b) ==> forall|y: int, x: int|
            #![trigger b@[y]@[x]]
            0 <= y < 16 && 0 <= x < 16 ==> b@[y]@[x] == spec_map_t32(rom.data@, *c, i as int, y, x),
{
    let high_ptr = rom.snes_u24(c.map_high_addr, i as u64 * 3)?;
    let high_sa = crate::addr::SnesAddr(high_ptr);
    if !high_sa.rom_mapped() {
        return Err(ImportError::NotRomMapped);
    }
    let high_data = decompress(rom, high_sa.to_pc(), true)?;
    let low_ptr = rom.snes_u24(c.map_low_addr, i as u64 * 3)?;
    let low_sa = crate::addr::SnesAddr(low_ptr);
    if !low_sa.rom_mapped() {
        return Err(ImportError::NotRomMapped);
    }
    let low_data = decompress(rom, low_sa.to_pc(), true)?;
    if high_data.len() != 256 {
        return Err(ImportError::BadMapPlaneLength);
    }
    if low_data.len() != 256 {
        return Err(ImportError::BadMapPlaneLength);
    }
    let mut block: [[u16; 16]; 16] = [[0; 16]; 16];
    for y in 0..16usize
        invariant
            forall|yy: int, xx: int|
                #![trigger block@[yy]@[xx]]
                0 <= yy < y && 0 <= xx < 16 ==> block@[yy]@[xx] == spec_map_t32(
                    rom.data@,
                    *c,
                    i as int,
                    yy,
                    xx,
                ),
    {
        for x in 0..16usize
            invariant
                0 <= y < 16,
                forall|yy: int, xx: int|
                    #![trigger block@[yy]@[xx]]
                    0 <= yy < y && 0 <= xx < 16 ==> block@[yy]@[xx] == spec_map_t32(
                        rom.data@,
                        *c,
                        i as int,
                        yy,
                        xx,
                    ),
                forall|xx: int|
                    #![trigger block@[y as int]@[xx]]
                    0 <= xx < x ==> block@[y as int]@[xx] == spec_map_t32(
                        rom.data@,
                        *c,
                        i as int,
                        y as int,
                        xx,
                    ),
        {
            let j = y * 16 + x;
            let mut t32: u16 = (high_data[j] as u16) * 0x100 + low_data[j] as u16;
            if (t32 as u32) >= c.tiles32_cnt {
                t32 = 0;
            }
            block[y][x] = t32;
        }
    }
    Ok(block)
}

/// Decodes every map slot's 16x16 composite-index grid.
pub fn load_map_tiles(rom: &Rom, c: &Constants) -> (r: Result<Vec<[[u16; 16]; 16]>, ImportError>)
    requires
        c.map_cnt <= 0x8000,
    ensures
        r is Ok <==> spec_map_tiles_status(rom.data@, *c, 0) is Ok,
        r matches Err(e) ==> spec_map_tiles_status(rom.data@, *c, 0) == Err::<(), ImportError>(e),
        r matches Ok(v) ==> v@.len() == c.map_cnt && (forall|i: int, y: int, x: int|
            #![trigger v@[i]@[y]@[x]]
            0 <= i < c.map_cnt && 0 <= y < 16 && 0 <= x < 16 ==> v@[i]@[y]@[x] == spec_map_t32(
                rom.data@,
                *c,
                i,
                y,
                x,
            )),
{
    let mut v: Vec<[[u16; 16]; 16]> = Vec::new();
    let mut i: u32 = 0;
    while i < c.map_cnt
        invariant
            c.map_cnt <= 0x8000,
            i <= c.map_cnt,
            v@.len() == i,
            spec_map_tiles_status(rom.data@, *c, 0) == spec_map_tiles_status(
                rom.data@,
                *c,
                i as int,
            ),
            forall|j: int, y: int, x: int|
                #![trigger v@[j]@[y]@[x]]
                0 <= j < i && 0 <= y < 16 && 0 <= x < 16 ==> v@[j]@[y]@[x] == spec_map_t32(
                    rom.data@,
                    *c,
                    j,
                    y,
                    x,
                ),
        decreases c.map_cnt - i,
    {
        let block = match load_map_block(rom, c, i) {
            Ok(b) => b,
            Err(e) => {
                return Err(e);
            },
        };
        v.push(block);
        proof {
            assert(spec_map_tiles_status(rom.data@, *c, i as int) == spec_map_tiles_status(
                rom.data@,
                *c,
                i + 1,
            ));
        }
        i = i + 1;
    }
    Ok(v)
}

/// The palette-group selection of one region: one of 6 main groups, two
/// auxiliary groups, and an animated group.
#[derive(Copy, Clone, Debug, PartialEq, Eq, Structural)]
pub struct MapPalettes {
    pub main: u8,
    pub aux1: u8,
    pub aux2: u8,
    pub animated: u8,
}

/// The main palette group hard-coded for slot `i` when no override table
/// exists: death-mountain slots, the two worlds, the triforce room and the
/// special world. A hardware-format fact.
pub open spec fn spec_default_main(i: int) -> int {
    if i == 3 || i == 5 || i == 7 {
        2
    } else if i < 0x40 {
        0
    } else if i == 0x43 || i == 0x45 || i == 0x47 {
        3
    } else if i < 0x80 {
        1
    } else if i == 0x88 {
        4
    } else {
        0
    }
}

/// The resolved palette groups of slot `i` with parent `parent`, or the
/// first failed read. The palette-set index comes from a special table for
/// parents at or above 0x80 and is forced to zero for the triforce room; an
/// out-of-range first auxiliary or animated selector is corrected to zero;
/// an out-of-range second auxiliary selector falls back to the previous
/// slot's palette-set entry, a documented quirk of the source format.
pub open spec fn spec_map_palettes(data: Seq<u8>, c: Constants, parent: int, i: int) -> Result<
    MapPalettes,
    ImportError,
> {
    let main_r = match c.custom_map_main_pal_set_addr {
        Some(a) => spec_snes_u8(data, a.0 + parent),
        None => Ok(spec_default_main(i) as u8),
    };
    let ps_r = if i == 0x88 {
        Ok(0u8)
    } else if parent >= 0x80 {
        spec_snes_u8(data, c.special_map_pal_set_addr.0 + (parent - 0x80))
    } else {
        spec_snes_u8(data, c.map_aux_pal_set_addr.0 + parent)
    };
    let prev_r = if parent >= 1 {
        spec_snes_u8(data, c.map_aux_pal_set_addr.0 + parent - 1)
    } else {
        Ok(0u8)
    };
    if main_r is Err {
        Err(main_r->Err_0)
    } else if ps_r is Err {
        Err(ps_r->Err_0)
    } else if prev_r is Err {
        Err(prev_r->Err_0)
    } else {
        let ps = ps_r->Ok_0;
        let aux1_r = spec_snes_u8(data, c.pal_set_addr.0 + ps * 4);
        let aux2_r = spec_snes_u8(data, c.pal_set_addr.0 + ps * 4 + 1);
        let anim_r = spec_snes_u8(data, c.pal_set_addr.0 + ps * 4 + 2);
        if aux1_r is Err {
            Err(aux1_r->Err_0)
        } else if aux2_r is Err {
            Err(aux2_r->Err_0)
        } else if anim_r is Err {
            Err(anim_r->Err_0)
        } else if aux2_r->Ok_0 >= 20 && spec_snes_u8(
            data,
            c.pal_set_addr.0 + prev_r->Ok_0 * 4 + 1,
        ) is Err {
            Err(spec_snes_u8(data, c.pal_set_addr.0 + prev_r->Ok_0 * 4 + 1)->Err_0)
        } else {
            Ok(
                MapPalettes {
                    main: main_r->Ok_0,
                    aux1: if aux1_r->Ok_0 >= 20 {
                        0
                    } else {
                        aux1_r->Ok_0
                    },
                    aux2: if aux2_r->Ok_0 >= 20 {
                        spec_snes_u8(data, c.pal_set_addr.0 + prev_r->Ok_0 * 4 + 1)->Ok_0
                    } else {
                        aux2_r->Ok_0
                    },
                    animated: if anim_r->Ok_0 >= 14 {
                        0
                    } else {
                        anim_r->Ok_0
                    },
                },
            )
        }
    }
}

/// When a slot's own second-auxiliary selector is out of range, the
/// resolver reads entry `prev_pal_set * 4 + 1` -- the previous slot's
/// palette-set -- and never uses the out-of-range value itself.
pub proof fn lemma_aux2_fallback(data: Seq<u8>, c: Constants, parent: int, i: int)
    requires
        spec_map_palettes(data, c, parent, i) is Ok,
        ({
            let ps = (if i == 0x88 {
                Ok(0u8)
            } else if parent >= 0x80 {
                spec_snes_u8(data, c.special_map_pal_set_addr.0 + (parent - 0x80))
            } else {
                spec_snes_u8(data, c.map_aux_pal_set_addr.0 + parent)
            })->Ok_0;
            spec_snes_u8(data, c.pal_set_addr.0 + ps * 4 + 1)->Ok_0 >= 20
        }),
    ensures
        ({
            let prev = (if parent >= 1 {
                spec_snes_u8(data, c.map_aux_pal_set_addr.0 + parent - 1)
            } else {
                Ok(0u8)
            })->Ok_0;
            spec_map_palettes(data, c, parent, i)->Ok_0.aux2 == spec_snes_u8(
                data,
                c.pal_set_addr.0 + prev * 4 + 1,
            )->Ok_0
        }),
{
}

/// The first failure among the palette resolutions of slots `i` on, if any.
pub open spec fn spec_map_palettes_status(
    data: Seq<u8>,
    c: Constants,
    parents: Seq<u16>,
    i: int,
) -> Result<(), ImportError>
    decreases c.map_cnt - i,
{
    if i < 0 || i >= c.map_cnt {
        Ok(())
    } else {
        match spec_map_palettes(data, c, parents[i] as int, i) {
            Ok(p) => spec_map_palettes_status(data, c, parents, i + 1),
            Err(e) => Err(e),
        }
    }
}

/// Resolves the palette groups of one slot.
#[verifier::loop_isolation(false)]
#[verifier::rlimit(60)]
fn resolve_map_palettes(rom: &Rom, c: &Constants, parent: u16, i: u32) -> (r: Result<
    MapPalettes,
    ImportError,
>)
    requires
        i < 0xA0,
    ensures
        r == spec_map_palettes(rom.data@, *c, parent as int, i as int),
{
    let main: u8 = match c.custom_map_main_pal_set_addr {
        Some(a) => rom.snes_u8(a, parent as u64)?,
        None => {
            if i == 3 || i == 5 || i == 7 {
                2
            } else if i < 0x40 {
                0
            } else if i == 0x43 || i == 0x45 || i == 0x47 {
                3
            } else if i < 0x80 {
                1
            } else if i == 0x88 {
                4
            } else {
                0
            }
        },
    };
    let pal_set: u8 = if i == 0x88 {
        0
    } else if parent >= 0x80 {
        rom.snes_u8(c.special_map_pal_set_addr, parent as u64 - 0x80)?
    } else {
        rom.snes_u8(c.map_aux_pal_set_addr, parent as u64)?
    };
    let prev_pal_set: u8 = if parent >= 1 {
        rom.snes_u8(c.map_aux_pal_set_addr, parent as u64 - 1)?
    } else {
        0
    };
    let mut aux1 = rom.snes_u8(c.pal_set_addr, pal_set as u64 * 4)?;
    let mut aux2 = rom.snes_u8(c.pal_set_addr, pal_set as u64 * 4 + 1)?;
    let mut animated = rom.snes_u8(c.pal_set_addr, pal_set as u64 * 4 + 2)?;
    if aux1 >= 20 {
        aux1 = 0;
    }
    if aux2 >= 20 {
        aux2 = rom.snes_u8(c.pal_set_addr, prev_pal_set as u64 * 4 + 1)?;
    }
    if animated >= 14 {
        animated = 0;
    }
    Ok(MapPalettes { main, aux1, aux2, animated })
}

/// Resolves the palette groups of every slot.
pub fn load_map_palettes(rom: &Rom, c: &Constants, parents: &Vec<u16>) -> (r: Result<
    Vec<MapPalettes>,
    ImportError,
>)
    requires
        c.map_cnt <= 0xA0,
        parents@.len() == c.map_cnt,
    ensures
        r is Ok <==> spec_map_palettes_status(rom.data@, *c, parents@, 0) is Ok,
        r matches Err(e) ==> spec_map_palettes_status(rom.data@, *c, parents@, 0) == Err::<
            (),
            ImportError,
        >(e),
        r matches Ok(v) ==> v@.len() == c.map_cnt && (forall|i: int|
            0 <= i < c.map_cnt ==> (#[trigger] v@[i]) == spec_map_palettes(
                rom.data@,
                *c,
                parents@[i] as int,
                i,
            )->Ok_0),
{
    let mut v: Vec<MapPalettes> = Vec::new();
    let mut i: u32 = 0;
    while i < c.map_cnt
        invariant
            c.map_cnt <= 0xA0,
            parents@.len() == c.map_cnt,
            i <= c.map_cnt,
            v@.len() == i,
            spec_map_palettes_status(rom.data@, *c, parents@, 0) == spec_map_palettes_status(
                rom.data@,
                *c,
                parents@,
                i as int,
            ),
            forall|j: int|
                0 <= j < i ==> (#[trigger] v@[j]) == spec_map_palettes(
                    rom.data@,
                    *c,
                    parents@[j] as int,
                    j,
                )->Ok_0,
        decreases c.map_cnt - i,
    {
        let p = match resolve_map_palettes(rom, c, parents[i as usize], i) {
            Ok(p) => p,
            Err(e) => {
                return Err(e);
            },
        };
        v.push(p);
        proof {
            assert(spec_map_palettes_status(rom.data@, *c, parents@, i as int)
                == spec_map_palettes_status(rom.data@, *c, parents@, i + 1));
        }
        i = i + 1;
    }
    Ok(v)
}

/// The eight graphics-sheet codes of the region with parent `parent`, or
/// the first failed read: a global set selected by world, patched either by
/// a variant-specific per-region table (a 0xFF byte keeps the global entry)
/// or by a four-entry local set (a zero byte keeps the global entry).
pub open spec fn spec_map_gfx(data: Seq<u8>, c: Constants, parent: int) -> Result<
    Seq<u8>,
    ImportError,
> {
    let gidx: int = if 0x40 <= parent < 0x80 {
        0x21
    } else if parent == 0x88 {
        0x24
    } else {
        0x20
    };
    let g_r = spec_snes_n(data, c.global_gfx_set_addr.0 + gidx * 8, 8);
    if g_r is Err {
        Err(g_r->Err_0)
    } else {
        let g = g_r->Ok_0;
        match c.custom_gfx_set_addr {
            Some(a) => {
                let l_r = spec_snes_n(data, a.0 + parent * 8, 8);
                if l_r is Err {
                    Err(l_r->Err_0)
                } else {
                    Ok(
                        Seq::new(
                            8,
                            |k: int|
                                if l_r->Ok_0[k] != 0xFF {
                                    l_r->Ok_0[k]
                                } else {
                                    g[k]
                                },
                        ),
                    )
                }
            },
            None => {
                let li_r = if parent == 0x88 {
                    Ok(81u8)
                } else if parent >= 0x80 {
                    spec_snes_u8(data, c.special_gfx_set_addr.0 + parent - 0x80)
                } else {
                    spec_snes_u8(data, c.map_gfx_set_addr.0 + parent)
                };
                if li_r is Err {
                    Err(li_r->Err_0)
                } else {
                    let l_r = spec_snes_n(data, c.local_gfx_set_addr.0 + li_r->Ok_0 * 4, 4);
                    if l_r is Err {
                        Err(l_r->Err_0)
                    } else {
                        Ok(
                            Seq::new(
                                8,
                                |k: int|
                                    if 3 <= k < 7 && l_r->Ok_0[k - 3] != 0 {
                                        l_r->Ok_0[k - 3]
                                    } else {
                                        g[k]
                                    },
                            ),
                        )
                    }
                }
            },
        }
    }
}

/// The first failure among the graphics-set resolutions of slots `i` on.
pub open spec fn spec_map_gfx_status(data: Seq<u8>, c: Constants, parents: Seq<u16>, i: int) -> Result<
    (),
    ImportError,
>
    decreases c.map_cnt - i,
{
    if i < 0 || i >= c.map_cnt {
        Ok(())
    } else {
        match spec_map_gfx(data, c, parents[i] as int) {
            Ok(g) => spec_map_gfx_status(data, c, parents, i + 1),
            Err(e) => Err(e),
        }
    }
}

/// Resolves the eight graphics-sheet codes of one slot.
#[verifier::loop_isolation(false)]
#[verifier::rlimit(60)]
fn resolve_map_gfx(rom: &Rom, c: &Constants, parent: u16) -> (r: Result<[u8; 8], ImportError>)
    ensures
        r is Ok <==> spec_map_gfx(rom.data@, *c, parent as int) is Ok,
        r matches Err(e) ==> spec_map_gfx(rom.data@, *c, parent as int) == Err::<
            Seq<u8>,
            ImportError,
        >(e),
        r matches Ok(g) ==> forall|k: int|
            0 <= k < 8 ==> (#[trigger] g@[k]) == spec_map_gfx(rom.data@, *c, parent as int)->Ok_0[k],
{
    let gidx: u64 = if 0x40 <= parent && parent < 0x80 {
        0x21
    } else if parent == 0x88 {
        0x24
    } else {
        0x20
    };
    let global = rom.snes_n(c.global_gfx_set_addr, gidx * 8, 8)?;
    let mut gfx: [u8; 8] = [0; 8];
    for k in 0..8usize
        invariant
            global@.len() == 8,
            forall|kk: int| 0 <= kk < k ==> (#[trigger] gfx@[kk]) == global@[kk],
    {
        gfx[k] = global[k];
    }
    match c.custom_gfx_set_addr {
        Some(a) => {
            let local = rom.snes_n(a, parent as u64 * 8, 8)?;
            for k in 0..8usize
                invariant
                    global@.len() == 8,
                    local@.len() == 8,
                    forall|kk: int|
                        0 <= kk < k ==> (#[trigger] gfx@[kk]) == (if local@[kk] != 0xFF {
                            local@[kk]
                        } else {
                            global@[kk]
                        }),
                    forall|kk: int| k <= kk < 8 ==> (#[trigger] gfx@[kk]) == global@[kk],
            {
                if local[k] != 0xFF {
                    gfx[k] = local[k];
                }
            }
            Ok(gfx)
        },
        None => {
            let local_idx: u8 = if parent == 0x88 {
                81
            } else if parent >= 0x80 {
                rom.snes_u8(c.special_gfx_set_addr, parent as u64 - 0x80)?
            } else {
                rom.snes_u8(c.map_gfx_set_addr, parent as u64)?
            };
            let local = rom.snes_n(c.local_gfx_set_addr, local_idx as u64 * 4, 4)?;
            for j in 0..4usize
                invariant
                    global@.len() == 8,
                    local@.len() == 4,
                    forall|kk: int|
                        3 <= kk < 3 + j ==> (#[trigger] gfx@[kk]) == (if local@[kk - 3] != 0 {
                            local@[kk - 3]
                        } else {
                            global@[kk]
                        }),
                    forall|kk: int|
                        0 <= kk < 8 && !(3 <= kk < 3 + j) ==> (#[trigger] gfx@[kk]) == global@[kk],
            {
                if local[j] != 0 {
                    gfx[3 + j] = local[j];
                }
            }
            Ok(gfx)
        },
    }
}

/// Resolves the graphics-sheet codes of every slot.
pub fn load_map_gfx(rom: &Rom, c: &Constants, parents: &Vec<u16>) -> (r: Result<
    Vec<[u8; 8]>,
    ImportError,
>)
    requires
        c.map_cnt <= 0xA0,
        parents@.len() == c.map_cnt,
    ensures
        r is Ok <==> spec_map_gfx_status(rom.data@, *c, parents@, 0) is Ok,
        r matches Err(e) ==> spec_map_gfx_status(rom.data@, *c, parents@, 0) == Err::<
            (),
            ImportError,
        >(e),
        r matches Ok(v) ==> v@.len() == c.map_cnt && (forall|i: int, k: int|
            0 <= i < c.map_cnt && 0 <= k < 8 ==> (#[trigger] v@[i]@[k]) == spec_map_gfx(
                rom.data@,
                *c,
                parents@[i] as int,
            )->Ok_0[k]),
{
    let mut v: Vec<[u8; 8]> = Vec::new();
    let mut i: u32 = 0;
    while i < c.map_cnt
        invariant
            c.map_cnt <= 0xA0,
            parents@.len() == c.map_cnt,
            i <= c.map_cnt,
            v@.len() == i,
            spec_map_gfx_status(rom.data@, *c, parents@, 0) == spec_map_gfx_status(
                rom.data@,
                *c,
                parents@,
                i as int,
            ),
            forall|j: int, k: int|
                0 <= j < i && 0 <= k < 8 ==> (#[trigger] v@[j]@[k]) == spec_map_gfx(
                    rom.data@,
                    *c,
                    parents@[j] as int,
                )->Ok_0[k],
        decreases c.map_cnt - i,
    {
        let g = match resolve_map_gfx(rom, c, parents[i as usize]) {
            Ok(g) => g,
            Err(e) => {
                return Err(e);
            },
        };
        v.push(g);
        proof {
            assert(spec_map_gfx_status(rom.data@, *c, parents@, i as int) == spec_map_gfx_status(
                rom.data@,
                *c,
                parents@,
                i + 1,
            ));
        }
        i = i + 1;
    }
    Ok(v)
}

} // verus!
