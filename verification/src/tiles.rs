//! The tile composer: 16x16 composite tiles built from four packed 8x8
//! graphics references, and 32x32 composite tiles whose four quadrant
//! indices are packed across a rolling 6-byte window per group of four
//! entries.

use vstd::prelude::*;

use crate::addr::SnesAddr;
use crate::constants::Constants;
use crate::error::ImportError;
use crate::flip::{flip_from_code, Flip};
use crate::rom::{spec_snes_u16, spec_snes_u8, Rom};

verus! {

/// A decoded reference into the flat graphics-sheet tile array: a
/// graphics-character index (0-1023), a palette-group selector (0-7), a
/// priority bit and a flip state.
#[derive(Copy, Clone, Debug, PartialEq, Eq, Structural)]
pub struct Tile8 {
    pub gfx_char: u16,
    pub pal_idx: u8,
    pub priority: bool,
    pub flip: Flip,
}

/// A 16x16 composite tile: four 8x8 references in quadrant order top-left,
/// top-right, bottom-left, bottom-right.
pub type Tile16 = [Tile8; 4];

/// A 32x32 composite tile: four indices into the 16x16 table, in the same
/// quadrant order.
pub type Tile32 = [u16; 4];

/// The reference packed into one 16-bit tilemap word: bits 0-9 the
/// graphics-character index, 10-12 the palette-group selector, 13 the
/// priority bit, 14-15 the flip code.
pub open spec fn spec_tile8_from_word(w: int) -> Tile8 {
    Tile8 {
        gfx_char: (w % 0x400) as u16,
        pal_idx: ((w / 0x400) % 8) as u8,
        priority: (w / 0x2000) % 2 == 1,
        flip: flip_from_code((w / 0x4000) % 4),
    }
}

impl Tile8 {
    /// Decodes the reference packed into one 16-bit tilemap word.
    pub fn from_vram_tilemap_word(w: u16) -> (r: Tile8)
        ensures
            r == spec_tile8_from_word(w as int),
    {
        let code = w / 0x4000;
        Tile8 {
            gfx_char: w % 0x400,
            pal_idx: ((w / 0x400) % 8) as u8,
            priority: (w / 0x2000) % 2 == 1,
            flip: if code == 0 {
                Flip::Identity
            } else if code == 1 {
                Flip::Horizontal
            } else if code == 2 {
                Flip::Vertical
            } else {
                Flip::Both
            },
        }
    }
}

/// The first failure among the four word reads of 16x16 entry `i`, if any.
pub open spec fn spec_tile16_entry_status(data: Seq<u8>, c: Constants, i: int) -> Result<
    (),
    ImportError,
> {
    let a = c.tiles16_addr.0 + 8 * i;
    if spec_snes_u16(data, a) is Err {
        Err(spec_snes_u16(data, a)->Err_0)
    } else if spec_snes_u16(data, a + 2) is Err {
        Err(spec_snes_u16(data, a + 2)->Err_0)
    } else if spec_snes_u16(data, a + 4) is Err {
        Err(spec_snes_u16(data, a + 4)->Err_0)
    } else if spec_snes_u16(data, a + 6) is Err {
        Err(spec_snes_u16(data, a + 6)->Err_0)
    } else {
        Ok(())
    }
}

/// The first failure among the 16x16 entries from `i` on, if any.
pub open spec fn spec_tiles16_status(data: Seq<u8>, c: Constants, i: int) -> Result<
    (),
    ImportError,
>
    decreases c.tiles16_cnt - i,
{
    if i < 0 || i >= c.tiles16_cnt {
        Ok(())
    } else {
        match spec_tile16_entry_status(data, c, i) {
            Ok(u) => spec_tiles16_status(data, c, i + 1),
            Err(e) => Err(e),
        }
    }
}

/// One decoded 8x8 reference of 16x16 entry `i` (quadrant `k`), given that
/// its word read succeeds.
pub open spec fn spec_tile16_quadrant(data: Seq<u8>, c: Constants, i: int, k: int) -> Tile8 {
    spec_tile8_from_word(spec_snes_u16(data, c.tiles16_addr.0 + 8 * i + 2 * k)->Ok_0 as int)
}

/// Reads the whole 16x16 composite-tile table: for each entry, four
/// consecutive 16-bit words decoded as 8x8 references.
#[verifier::loop_isolation(false)]
pub fn load_16x16_tiles(rom: &Rom, c: &Constants) -> (r: Result<Vec<Tile16>, ImportError>)
    ensures
        r is Ok <==> spec_tiles16_status(rom.data@, *c, 0) is Ok,
        r matches Err(e) ==> spec_tiles16_status(rom.data@, *c, 0) == Err::<(), ImportError>(e),
        r matches Ok(v) ==> v@.len() == c.tiles16_cnt && (forall|i: int, k: int|
            0 <= i < c.tiles16_cnt && 0 <= k < 4 ==> (#[trigger] v@[i]@[k])
                == spec_tile16_quadrant(rom.data@, *c, i, k)),
{
    let mut v: Vec<Tile16> = Vec::new();
    let cnt = c.tiles16_cnt;
    let mut i: u32 = 0;
    while i < cnt
        invariant
            i <= cnt,
            v@.len() == i,
            spec_tiles16_status(rom.data@, *c, 0) == spec_tiles16_status(rom.data@, *c, i as int),
            forall|j: int, k: int|
                0 <= j < i && 0 <= k < 4 ==> (#[trigger] v@[j]@[k]) == spec_tile16_quadrant(
                    rom.data@,
                    *c,
                    j,
                    k,
                ),
        decreases cnt - i,
    {
        let off = i as u64 * 8;
        let tl = rom.snes_u16(c.tiles16_addr, off)?;
        let tr = rom.snes_u16(c.tiles16_addr, off + 2)?;
        let bl = rom.snes_u16(c.tiles16_addr, off + 4)?;
        let br = rom.snes_u16(c.tiles16_addr, off + 6)?;
        v.push(
            [
                Tile8::from_vram_tilemap_word(tl),
                Tile8::from_vram_tilemap_word(tr),
                Tile8::from_vram_tilemap_word(bl),
                Tile8::from_vram_tilemap_word(br),
            ],
        );
        proof {
            assert(spec_tile16_entry_status(rom.data@, *c, i as int) is Ok);
            assert(spec_tiles16_status(rom.data@, *c, i as int) == spec_tiles16_status(
                rom.data@,
                *c,
                i + 1,
            ));
        }
        i = i + 1;
    }
    Ok(v)
}

/// The number of bytes each quadrant table holds for `cnt` 32x32 entries.
pub open spec fn spec_t32_size(c: Constants) -> int {
    c.tiles32_cnt * 6 / 4
}

/// The quadrant base table for each position in top-left, top-right,
/// bottom-left, bottom-right order.
pub open spec fn spec_t32_base(c: Constants, t: int) -> SnesAddr {
    if t == 0 {
        c.tiles32_tl_addr
    } else if t == 1 {
        c.tiles32_tr_addr
    } else if t == 2 {
        c.tiles32_bl_addr
    } else {
        c.tiles32_br_addr
    }
}

/// The 16x16 index packed for group position `i` of the window at `off` in
/// quadrant table `t`: a low byte of its own, and the upper or lower nibble
/// of a shared high-byte slot. Fails when a byte read fails.
pub open spec fn spec_t32_quadrant(data: Seq<u8>, c: Constants, off: int, i: int, t: int) -> Result<
    int,
    ImportError,
> {
    let base = spec_t32_base(c, t).0 as int;
    let lo = spec_snes_u8(data, base + off + i);
    let hi = spec_snes_u8(
        data,
        base + off + (if i < 2 {
            4int
        } else {
            5int
        }),
    );
    if lo is Err {
        Err(lo->Err_0)
    } else if hi is Err {
        Err(hi->Err_0)
    } else {
        Ok(
            lo->Ok_0 + 0x100 * (if i % 2 == 0 {
                hi->Ok_0 / 16
            } else {
                hi->Ok_0 % 16
            }),
        )
    }
}

/// The first failure while decoding group position `i` of the window at
/// `off`: a failed read, or a 16x16 index at or past `t16len`.
pub open spec fn spec_t32_entry_status(
    data: Seq<u8>,
    c: Constants,
    off: int,
    i: int,
    t16len: int,
    t: int,
) -> Result<(), ImportError>
    decreases 4 - t,
{
    if t >= 4 {
        Ok(())
    } else {
        match spec_t32_quadrant(data, c, off, i, t) {
            Ok(q) => {
                if q < t16len {
                    spec_t32_entry_status(data, c, off, i, t16len, t + 1)
                } else {
                    Err(ImportError::Tile16IndexOutOfRange)
                }
            },
            Err(e) => Err(e),
        }
    }
}

/// The first failure among group positions `i..4` of the window at `off`,
/// then among all later windows.
pub open spec fn spec_t32_status(
    data: Seq<u8>,
    c: Constants,
    off: int,
    i: int,
    t16len: int,
) -> Result<(), ImportError>
    decreases spec_t32_size(c) - off, 4 - i,
{
    if off >= spec_t32_size(c) {
        Ok(())
    } else if i >= 4 {
        if off + 6 >= spec_t32_size(c) {
            Ok(())
        } else {
            spec_t32_status(data, c, off + 6, 0, t16len)
        }
    } else {
        match spec_t32_entry_status(data, c, off, i, t16len, 0) {
            Ok(u) => spec_t32_status(data, c, off, i + 1, t16len),
            Err(e) => Err(e),
        }
    }
}

/// Decodes group position `i` of the window at `offset`: one 16x16 index
/// from each of the four quadrant tables, each checked against `t16len`.
#[verifier::loop_isolation(false)]
fn read_t32_group(rom: &Rom, c: &Constants, offset: u64, i: usize, t16len: usize) -> (r: Result<
    Tile32,
    ImportError,
>)
    requires
        offset <= 0x1_0000_0000,
        i < 4,
    ensures
        r is Ok <==> spec_t32_entry_status(rom.data@, *c, offset as int, i as int, t16len as int, 0)
            is Ok,
        r matches Err(e) ==> spec_t32_entry_status(
            rom.data@,
            *c,
            offset as int,
            i as int,
            t16len as int,
            0,
        ) == Err::<(), ImportError>(e),
        r matches Ok(q) ==> forall|t: int|
            0 <= t < 4 ==> (#[trigger] q@[t]) == spec_t32_quadrant(
                rom.data@,
                *c,
                offset as int,
                i as int,
                t,
            )->Ok_0,
{
    let mut quad: Tile32 = [0; 4];
    let mut t: usize = 0;
    while t < 4
        invariant
            0 <= t <= 4,
            spec_t32_entry_status(rom.data@, *c, offset as int, i as int, t16len as int, 0)
                == spec_t32_entry_status(
                rom.data@,
                *c,
                offset as int,
                i as int,
                t16len as int,
                t as int,
            ),
            forall|tt: int|
                0 <= tt < t ==> (#[trigger] quad@[tt]) == spec_t32_quadrant(
                    rom.data@,
                    *c,
                    offset as int,
                    i as int,
                    tt,
                )->Ok_0,
        decreases 4 - t,
    {
        let base = if t == 0 {
            c.tiles32_tl_addr
        } else if t == 1 {
            c.tiles32_tr_addr
        } else if t == 2 {
            c.tiles32_bl_addr
        } else {
            c.tiles32_br_addr
        };
        let lo = match rom.snes_u8(base, offset + i as u64) {
            Ok(b) => b,
            Err(e) => {
                return Err(e);
            },
        };
        let hi_slot: u64 = if i < 2 {
            4
        } else {
            5
        };
        let hi = match rom.snes_u8(base, offset + hi_slot) {
            Ok(b) => b,
            Err(e) => {
                return Err(e);
            },
        };
        let nibble: u16 = if i % 2 == 0 {
            (hi / 16) as u16
        } else {
            (hi % 16) as u16
        };
        let q: u16 = lo as u16 + 0x100 * nibble;
        if !((q as usize) < t16len) {
            return Err(ImportError::Tile16IndexOutOfRange);
        }
        quad[t] = q;
        t = t + 1;
    }
    Ok(quad)
}

/// Reads the whole 32x32 composite-tile table. Every produced 16x16 index is
/// checked against the 16x16 table length `t16len`.
#[verifier::rlimit(100)]
pub fn load_32x32_tiles(rom: &Rom, c: &Constants, t16len: usize) -> (r: Result<
    Vec<Tile32>,
    ImportError,
>)
    requires
        c.tiles32_cnt * 6 < 0x1_0000_0000,
    ensures
        r is Ok <==> spec_t32_status(rom.data@, *c, 0, 0, t16len as int) is Ok,
        r matches Err(e) ==> spec_t32_status(rom.data@, *c, 0, 0, t16len as int) == Err::<
            (),
            ImportError,
        >(e),
        r matches Ok(v) ==> {
            &&& v@.len() == 4 * ((spec_t32_size(*c) + 5) / 6)
            &&& forall|w: int, i: int, t: int|
                0 <= w && 6 * w < spec_t32_size(*c) && 0 <= i < 4 && 0 <= t < 4
                    ==> (#[trigger] v@[4 * w + i]@[t]) == spec_t32_quadrant(
                    rom.data@,
                    *c,
                    6 * w,
                    i,
                    t,
                )->Ok_0
        },
{
    let mut v: Vec<Tile32> = Vec::new();
    let size: u64 = c.tiles32_cnt as u64 * 6 / 4;
    let mut offset: u64 = 0;
    while offset < size
        invariant
            offset % 6 == 0,
            offset <= size + 5,
            size < 0x1_0000_0000,
            size == spec_t32_size(*c),
            v@.len() == 4 * (offset / 6),
            spec_t32_status(rom.data@, *c, 0, 0, t16len as int) == spec_t32_status(
                rom.data@,
                *c,
                offset as int,
                0,
                t16len as int,
            ),
            forall|w: int, i: int, t: int|
                0 <= w && 6 * w < offset && 0 <= i < 4 && 0 <= t < 4 ==> (#[trigger] v@[4 * w
                    + i]@[t]) == spec_t32_quadrant(rom.data@, *c, 6 * w, i, t)->Ok_0,
        decreases size + 6 - offset,
    {
        let ghost w0: int = offset as int / 6;
        proof {
            assert(6 * w0 == offset) by (nonlinear_arith)
                requires
                    offset % 6 == 0,
                    w0 == offset as int / 6,
            ;
        }
        let mut i: usize = 0;
        while i < 4
            invariant
                0 <= i <= 4,
                offset % 6 == 0,
                offset < size,
                size < 0x1_0000_0000,
                size == spec_t32_size(*c),
                6 * w0 == offset,
                v@.len() == 4 * w0 + i,
                spec_t32_status(rom.data@, *c, 0, 0, t16len as int) == spec_t32_status(
                    rom.data@,
                    *c,
                    offset as int,
                    i as int,
                    t16len as int,
                ),
                forall|w: int, ii: int, t: int|
                    0 <= w && 6 * w < offset && 0 <= ii < 4 && 0 <= t < 4 ==> (#[trigger] v@[4 * w
                        + ii]@[t]) == spec_t32_quadrant(rom.data@, *c, 6 * w, ii, t)->Ok_0,
                forall|ii: int, t: int|
                    0 <= ii < i && 0 <= t < 4 ==> (#[trigger] v@[4 * w0 + ii]@[t])
                        == spec_t32_quadrant(rom.data@, *c, offset as int, ii, t)->Ok_0,
            decreases 4 - i,
        {
            let quad = match read_t32_group(rom, c, offset, i, t16len) {
                Ok(q) => q,
                Err(e) => {
                    return Err(e);
                },
            };
            v.push(quad);
            proof {
                assert(spec_t32_status(rom.data@, *c, offset as int, i as int, t16len as int)
                    == spec_t32_status(rom.data@, *c, offset as int, i + 1, t16len as int));
            }
            i = i + 1;
        }
        offset = offset + 6;
        proof {
            assert(offset as int / 6 == w0 + 1) by (nonlinear_arith)
                requires
                    offset == 6 * w0 + 6,
            ;
        }
    }
    proof {
        assert(4 * (offset as int / 6) == 4 * ((spec_t32_size(*c) + 5) / 6)) by (nonlinear_arith)
            requires
                offset % 6 == 0,
                size <= offset <= size + 5,
                size == spec_t32_size(*c),
                0 <= size,
        ;
    }
    Ok(v)
}

} // verus!
