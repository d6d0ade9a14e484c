//! The graphics decoder: resolves each compressed graphics sheet from three
//! parallel bank/high/low byte tables, decompresses it, and unpacks the
//! 3-bits-per-pixel planar layout into indexed 8x8 tiles.

use vstd::prelude::*;

use crate::addr::{spec_pc, SnesAddr};
use crate::codec::{decompress, spec_decompress};
use crate::constants::Constants;
use crate::error::ImportError;
use crate::flip::{grid_view, PixelGrid};
use crate::rom::{spec_snes_u16, spec_snes_u8, Rom};

verus! {

/// The number of graphics sheets the hardware format defines.
pub const SHEET_COUNT: u32 = 113;

/// The byte length every decompressed graphics sheet must have.
pub const SHEET_LEN: usize = 0x600;

/// The power of two that selects bit `7 - x` of a plane byte.
pub open spec fn spec_bit_divisor(x: int) -> int {
    if x == 0 {
        128
    } else if x == 1 {
        64
    } else if x == 2 {
        32
    } else if x == 3 {
        16
    } else if x == 4 {
        8
    } else if x == 5 {
        4
    } else if x == 6 {
        2
    } else {
        1
    }
}

/// Pixel (`x`, `y`) of tile `j` in a decompressed sheet: bit 0 from byte
/// `j*24 + y*2`, bit 1 from the byte after it, bit 2 from `j*24 + y + 16`,
/// each at bit position `7 - x`.
pub open spec fn spec_sheet_pixel(s: Seq<u8>, j: int, y: int, x: int) -> int {
    (s[j * 24 + y * 2] as int / spec_bit_divisor(x)) % 2 + 2 * ((s[j * 24 + y * 2 + 1] as int
        / spec_bit_divisor(x)) % 2) + 4 * ((s[j * 24 + y + 16] as int / spec_bit_divisor(x)) % 2)
}

/// Decoding a graphics sheet is a function of the sheet bytes alone: equal
/// bytes always yield bit-identical 8x8 tile grids.
pub proof fn lemma_sheet_decode_deterministic(s1: Seq<u8>, s2: Seq<u8>)
    requires
        s1 == s2,
    ensures
        forall|j: int, y: int, x: int|
            #[trigger] spec_sheet_pixel(s1, j, y, x) == spec_sheet_pixel(s2, j, y, x),
{
}

/// Unpacks one decompressed sheet into its 64 8x8 tiles of 3-bit color
/// indices.
#[verifier::loop_isolation(false)]
#[verifier::rlimit(60)]
pub fn decode_sheet(data: &Vec<u8>) -> (r: Vec<PixelGrid>)
    requires
        data@.len() == SHEET_LEN,
    ensures
        r@.len() == 64,
        forall|j: int, y: int, x: int|
            #![trigger grid_view(r@[j])[y][x]]
            0 <= j < 64 && 0 <= y < 8 && 0 <= x < 8 ==> grid_view(r@[j])[y][x]
                == spec_sheet_pixel(data@, j, y, x),
{
    let divisors: [u8; 8] = [128, 64, 32, 16, 8, 4, 2, 1];
    let mut r: Vec<PixelGrid> = Vec::new();
    for j in 0..64usize
        invariant
            r@.len() == j,
            forall|jj: int, y: int, x: int|
                #![trigger grid_view(r@[jj])[y][x]]
                0 <= jj < j && 0 <= y < 8 && 0 <= x < 8 ==> grid_view(r@[jj])[y][x]
                    == spec_sheet_pixel(data@, jj, y, x),
    {
        let mut tile: PixelGrid = [[0; 8]; 8];
        for y in 0..8usize
            invariant
                0 <= j < 64,
                forall|yy: int, x: int|
                    0 <= yy < y && 0 <= x < 8 ==> tile@[yy]@[x] == spec_sheet_pixel(
                        data@,
                        j as int,
                        yy,
                        x,
                    ),
        {
            for x in 0..8usize
                invariant
                    0 <= j < 64,
                    0 <= y < 8,
                    forall|yy: int, xx: int|
                        0 <= yy < y && 0 <= xx < 8 ==> tile@[yy]@[xx] == spec_sheet_pixel(
                            data@,
                            j as int,
                            yy,
                            xx,
                        ),
                    forall|xx: int|
                        0 <= xx < x ==> tile@[y as int]@[xx] == spec_sheet_pixel(
                            data@,
                            j as int,
                            y as int,
                            xx,
                        ),
            {
                let d = divisors[x];
                let c0 = (data[j * 24 + y * 2] / d) % 2;
                let c1 = (data[j * 24 + y * 2 + 1] / d) % 2;
                let c2 = (data[j * 24 + y + 16] / d) % 2;
                tile[y][x] = c0 + 2 * c1 + 4 * c2;
            }
        }
        r.push(tile);
        proof {
            assert forall|yy: int, xx: int|
                0 <= yy < 8 && 0 <= xx < 8 implies grid_view(r@[j as int])[yy][xx]
                == spec_sheet_pixel(data@, j as int, yy, xx) by {
                assert(grid_view(r@[j as int])[yy][xx] == tile@[yy]@[xx]);
            }
        }
    }
    r
}

/// The decompressed bytes of sheet `i`: its address is formed from one byte
/// of each of the three parallel tables, must select the ROM-mapped half of
/// its bank, and must decompress to exactly `SHEET_LEN` bytes.
pub open spec fn spec_sheet_bytes(data: Seq<u8>, c: Constants, i: int) -> Result<
    Seq<u8>,
    ImportError,
> {
    let bank16 = spec_snes_u16(data, c.gfx_bank_addr.0 as int);
    let high16 = spec_snes_u16(data, c.gfx_high_addr.0 as int);
    let low16 = spec_snes_u16(data, c.gfx_low_addr.0 as int);
    if bank16 is Err {
        Err(bank16->Err_0)
    } else if high16 is Err {
        Err(high16->Err_0)
    } else if low16 is Err {
        Err(low16->Err_0)
    } else {
        let bank = spec_snes_u8(data, bank16->Ok_0 + i);
        let high = spec_snes_u8(data, high16->Ok_0 + i);
        let low = spec_snes_u8(data, low16->Ok_0 + i);
        if bank is Err {
            Err(bank->Err_0)
        } else if high is Err {
            Err(high->Err_0)
        } else if low is Err {
            Err(low->Err_0)
        } else {
            let sa = bank->Ok_0 * 0x10000 + high->Ok_0 * 0x100 + low->Ok_0;
            if sa % 0x10000 < 0x8000 {
                Err(ImportError::NotRomMapped)
            } else {
                match spec_decompress(data, spec_pc(sa as u32), false) {
                    Ok(s) => {
                        if s.len() == SHEET_LEN {
                            Ok(s)
                        } else {
                            Err(ImportError::BadGraphicsSheetLength)
                        }
                    },
                    Err(e) => Err(e),
                }
            }
        }
    }
}

/// The first failure among the sheets from `i` on, if any.
pub open spec fn spec_graphics_status(data: Seq<u8>, c: Constants, i: int) -> Result<
    (),
    ImportError,
>
    decreases SHEET_COUNT - i,
{
    if i < 0 || i >= SHEET_COUNT {
        Ok(())
    } else {
        match spec_sheet_bytes(data, c, i) {
            Ok(s) => spec_graphics_status(data, c, i + 1),
            Err(e) => Err(e),
        }
    }
}

/// Resolves, decompresses and unpacks one graphics sheet. The three table
/// base values are the ones read from the constants table.
#[verifier::loop_isolation(false)]
fn load_sheet(rom: &Rom, c: &Constants, gfx_bank: u16, gfx_high: u16, gfx_low: u16, i: u32) -> (r:
    Result<Vec<PixelGrid>, ImportError>)
    requires
        i < SHEET_COUNT,
        spec_snes_u16(rom.data@, c.gfx_bank_addr.0 as int) == Ok::<u16, ImportError>(gfx_bank),
        spec_snes_u16(rom.data@, c.gfx_high_addr.0 as int) == Ok::<u16, ImportError>(gfx_high),
        spec_snes_u16(rom.data@, c.gfx_low_addr.0 as int) == Ok::<u16, ImportError>(gfx_low),
    ensures
        r is Ok <==> spec_sheet_bytes(rom.data@, *c, i as int) is Ok,
        r matches Err(e) ==> spec_sheet_bytes(rom.data@, *c, i as int) == Err::<Seq<u8>, ImportError>(e),
        r matches Ok(tiles) ==> tiles@.len() == 64 && (forall|j: int, y: int, x: int|
            #![trigger grid_view(tiles@[j])[y][x]]
            0 <= j < 64 && 0 <= y < 8 && 0 <= x < 8 ==> grid_view(tiles@[j])[y][x]
                == spec_sheet_pixel(spec_sheet_bytes(rom.data@, *c, i as int)->Ok_0, j, y, x)),
{
    let bank = rom.snes_u8(SnesAddr(0), gfx_bank as u64 + i as u64)?;
    let high = rom.snes_u8(SnesAddr(0), gfx_high as u64 + i as u64)?;
    let low = rom.snes_u8(SnesAddr(0), gfx_low as u64 + i as u64)?;
    let sa = SnesAddr::from_bytes(bank, high, low);
    if !sa.rom_mapped() {
        return Err(ImportError::NotRomMapped);
    }
    let bytes = decompress(rom, sa.to_pc(), false)?;
    if bytes.len() != SHEET_LEN {
        return Err(ImportError::BadGraphicsSheetLength);
    }
    proof {
        assert(spec_sheet_bytes(rom.data@, *c, i as int) matches Ok(s) && s == bytes@);
    }
    Ok(decode_sheet(&bytes))
}

/// Resolves, decompresses and unpacks every graphics sheet, producing the
/// flat array of all their 8x8 tiles in sheet order.
pub fn load_graphics(rom: &Rom, c: &Constants) -> (r: Result<Vec<PixelGrid>, ImportError>)
    ensures
        r is Ok <==> spec_graphics_status(rom.data@, *c, 0) is Ok,
        r matches Err(e) ==> spec_graphics_status(rom.data@, *c, 0) == Err::<(), ImportError>(e),
        r matches Ok(v) ==> v@.len() == SHEET_COUNT * 64 && (forall|i: int, j: int, y: int, x: int|
            #![trigger grid_view(v@[i * 64 + j])[y][x]]
            0 <= i < SHEET_COUNT && 0 <= j < 64 && 0 <= y < 8 && 0 <= x < 8 ==> grid_view(
                v@[i * 64 + j],
            )[y][x] == spec_sheet_pixel(spec_sheet_bytes(rom.data@, *c, i)->Ok_0, j, y, x)),
{
    let gfx_bank = rom.snes_u16(c.gfx_bank_addr, 0)?;
    let gfx_high = rom.snes_u16(c.gfx_high_addr, 0)?;
    let gfx_low = rom.snes_u16(c.gfx_low_addr, 0)?;
    let mut v: Vec<PixelGrid> = Vec::new();
    let mut i: u32 = 0;
    while i < SHEET_COUNT
        invariant
            i <= SHEET_COUNT,
            v@.len() == i * 64,
            spec_snes_u16(rom.data@, c.gfx_bank_addr.0 as int) == Ok::<u16, ImportError>(gfx_bank),
            spec_snes_u16(rom.data@, c.gfx_high_addr.0 as int) == Ok::<u16, ImportError>(gfx_high),
            spec_snes_u16(rom.data@, c.gfx_low_addr.0 as int) == Ok::<u16, ImportError>(gfx_low),
            spec_graphics_status(rom.data@, *c, 0) == spec_graphics_status(rom.data@, *c, i as int),
            forall|ii: int, j: int, y: int, x: int|
                #![trigger grid_view(v@[ii * 64 + j])[y][x]]
                0 <= ii < i && 0 <= j < 64 && 0 <= y < 8 && 0 <= x < 8 ==> grid_view(
                    v@[ii * 64 + j],
                )[y][x] == spec_sheet_pixel(spec_sheet_bytes(rom.data@, *c, ii)->Ok_0, j, y, x),
        decreases SHEET_COUNT - i,
    {
        let tiles = match load_sheet(rom, c, gfx_bank, gfx_high, gfx_low, i) {
            Ok(t) => t,
            Err(e) => {
                return Err(e);
            },
        };
        let ghost v0: Seq<PixelGrid> = v@;
        let mut k: usize = 0;
        while k < 64
            invariant
                0 <= k <= 64,
                tiles@.len() == 64,
                v@.len() == v0.len() + k,
                forall|j: int| 0 <= j < v0.len() ==> v@[j] == v0[j],
                forall|j: int| 0 <= j < k ==> v@[v0.len() + j] == tiles@[j],
            decreases 64 - k,
        {
            v.push(tiles[k]);
            k = k + 1;
        }
        proof {
            assert(spec_graphics_status(rom.data@, *c, i as int) == spec_graphics_status(
                rom.data@,
                *c,
                i + 1,
            ));
            assert forall|ii: int, j: int, y: int, x: int|
                #![trigger grid_view(v@[ii * 64 + j])[y][x]]
                0 <= ii < i + 1 && 0 <= j < 64 && 0 <= y < 8 && 0 <= x < 8 implies grid_view(
                v@[ii * 64 + j],
            )[y][x] == spec_sheet_pixel(spec_sheet_bytes(rom.data@, *c, ii)->Ok_0, j, y, x) by {
                if ii < i {
                    assert(v@[ii * 64 + j] == v0[ii * 64 + j]);
                } else {
                    assert(v@[ii * 64 + j] == tiles@[j]);
                }
            }
        }
        i = i + 1;
    }
    Ok(v)
}

} // verus!
