//! The palette import: 106 palettes in four groups (HUD, main, auxiliary,
//! animated), each a row of 5-bit color triples read from its group's table,
//! with sequentially assigned identities.

use vstd::prelude::*;

use crate::addr::{spec_pc, SnesAddr};
use crate::constants::Constants;
use crate::error::ImportError;
use crate::rom::{spec_pc_u16, Rom};
use crate::state::{Palette, PaletteId, Tile};

verus! {

/// How many palettes one import produces: 1x2 HUD rows, 6x5 main rows,
/// 20x3 auxiliary rows and 14 animated rows.
pub const PALETTE_COUNT: u32 = 106;

/// The group's base address in the constants table.
pub open spec fn spec_pal_base(c: Constants, k: int) -> SnesAddr {
    if k < 2 {
        c.hud_palettes_addr
    } else if k < 32 {
        c.main_palettes_addr
    } else if k < 92 {
        c.aux_palettes_addr
    } else {
        c.animated_palettes_addr
    }
}

/// How many colors the palette's row holds (besides the background slot).
pub open spec fn spec_pal_size(k: int) -> int {
    if k < 2 {
        15
    } else {
        7
    }
}

/// The palette's position within its group: which palette of the group.
pub open spec fn spec_pal_i(k: int) -> int {
    if k < 2 {
        0
    } else if k < 32 {
        (k - 2) / 5
    } else if k < 92 {
        (k - 32) / 3
    } else {
        k - 92
    }
}

/// The palette's position within its group: which row of that palette.
pub open spec fn spec_pal_j(k: int) -> int {
    if k < 2 {
        k
    } else if k < 32 {
        (k - 2) % 5
    } else if k < 92 {
        (k - 32) % 3
    } else {
        0
    }
}

/// The byte offset of the palette's row within its group's table.
pub open spec fn spec_pal_offset(k: int) -> int {
    if k < 2 {
        30 * k
    } else if k < 32 {
        14 * (k - 2)
    } else if k < 92 {
        14 * (k - 32)
    } else {
        14 * (k - 92)
    }
}

/// The hexadecimal digit character for `d` (0-15).
pub open spec fn spec_hex_seq1(d: int) -> Seq<char> {
    if d == 0 {
        "0"@
    } else if d == 1 {
        "1"@
    } else if d == 2 {
        "2"@
    } else if d == 3 {
        "3"@
    } else if d == 4 {
        "4"@
    } else if d == 5 {
        "5"@
    } else if d == 6 {
        "6"@
    } else if d == 7 {
        "7"@
    } else if d == 8 {
        "8"@
    } else if d == 9 {
        "9"@
    } else if d == 10 {
        "a"@
    } else if d == 11 {
        "b"@
    } else if d == 12 {
        "c"@
    } else if d == 13 {
        "d"@
    } else if d == 14 {
        "e"@
    } else {
        "f"@
    }
}

/// The lower-case hexadecimal rendering of `i` (0-31).
pub open spec fn spec_hex_seq(i: int) -> Seq<char> {
    if i < 16 {
        spec_hex_seq1(i)
    } else {
        "1"@ + spec_hex_seq1(i - 16)
    }
}

/// The group's display tag.
pub open spec fn spec_pal_tag(k: int) -> Seq<char> {
    if k < 2 {
        "HUD"@
    } else if k < 32 {
        "Main"@
    } else if k < 92 {
        "Aux"@
    } else {
        "Animated"@
    }
}

/// The palette's display name: its group tag, its palette number in
/// hexadecimal, and its row number.
pub open spec fn spec_pal_name(k: int) -> Seq<char> {
    spec_pal_tag(k) + " "@ + spec_hex_seq(spec_pal_i(k)) + "-"@ + spec_hex_seq1(spec_pal_j(k))
}

/// Channel `ch` of the 15-bit color word `w`: red in the low 5 bits, then
/// green, then blue.
pub open spec fn spec_color_channel(w: int, ch: int) -> int {
    if ch == 0 {
        w % 32
    } else if ch == 1 {
        (w / 32) % 32
    } else {
        (w / 1024) % 32
    }
}

/// The color word of slot `ci` of palette `k`, read from the group's table.
pub open spec fn spec_pal_word(data: Seq<u8>, c: Constants, k: int, ci: int) -> Result<
    u16,
    ImportError,
> {
    spec_pc_u16(data, spec_pc(spec_pal_base(c, k).0) + spec_pal_offset(k) + 2 * ci)
}

/// The first failure while reading palette `k`: an untranslatable group
/// base, then the first failed color read.
pub open spec fn spec_pal_status1(data: Seq<u8>, c: Constants, k: int, ci: int) -> Result<
    (),
    ImportError,
>
    decreases spec_pal_size(k) - ci,
{
    if ci < 0 || ci >= spec_pal_size(k) {
        Ok(())
    } else {
        match spec_pal_word(data, c, k, ci) {
            Ok(w) => spec_pal_status1(data, c, k, ci + 1),
            Err(e) => Err(e),
        }
    }
}

/// The first failure while reading palette `k`.
pub open spec fn spec_pal_status(data: Seq<u8>, c: Constants, k: int) -> Result<(), ImportError> {
    if !spec_pal_base(c, k).spec_rom_mapped() {
        Err(ImportError::NotRomMapped)
    } else {
        spec_pal_status1(data, c, k, 0)
    }
}

/// The first failure among palettes `k` on, if any.
pub open spec fn spec_palettes_status(data: Seq<u8>, c: Constants, k: int) -> Result<
    (),
    ImportError,
>
    decreases PALETTE_COUNT - k,
{
    if k < 0 || k >= PALETTE_COUNT {
        Ok(())
    } else {
        match spec_pal_status(data, c, k) {
            Ok(u) => spec_palettes_status(data, c, k + 1),
            Err(e) => Err(e),
        }
    }
}

/// What an imported palette `k` holds besides its tile list: its identity,
/// its name, and its colors read from the group table (slots past its row
/// size left black; slot 0 is owned by the background-color pass).
pub open spec fn spec_palette_base_wf(
    data: Seq<u8>,
    c: Constants,
    k: int,
    start_id: int,
    p: Palette,
) -> bool {
    &&& p.modified
    &&& p.id == start_id + k
    &&& p.name@ == spec_pal_name(k)
    &&& forall|ci: int, ch: int|
        #![trigger p.colors@[ci]@[ch]]
        1 <= ci < 16 && 0 <= ch < 3 ==> p.colors@[ci]@[ch] == (if ci <= spec_pal_size(k) {
            spec_color_channel(spec_pal_word(data, c, k, ci - 1)->Ok_0 as int, ch)
        } else {
            0
        })
}

/// What a freshly imported palette `k` holds: its base contents, a black
/// background slot, and sixteen blank tile slots.
pub open spec fn spec_palette_wf(
    data: Seq<u8>,
    c: Constants,
    k: int,
    start_id: int,
    p: Palette,
) -> bool {
    &&& spec_palette_base_wf(data, c, k, start_id, p)
    &&& p.tiles@.len() == 16
    &&& forall|t: int| 0 <= t < 16 ==> crate::canon::spec_blank_tile(#[trigger] p.tiles@[t])
    &&& forall|ch: int| 0 <= ch < 3 ==> p.colors@[0]@[#[trigger] (ch + 0)] == 0
}

/// The hexadecimal digit character for `d`.
pub fn hex_digit_str(d: u32) -> (r: &'static str)
    requires
        d < 16,
    ensures
        r@ == spec_hex_seq1(d as int),
{
    if d == 0 {
        "0"
    } else if d == 1 {
        "1"
    } else if d == 2 {
        "2"
    } else if d == 3 {
        "3"
    } else if d == 4 {
        "4"
    } else if d == 5 {
        "5"
    } else if d == 6 {
        "6"
    } else if d == 7 {
        "7"
    } else if d == 8 {
        "8"
    } else if d == 9 {
        "9"
    } else if d == 10 {
        "a"
    } else if d == 11 {
        "b"
    } else if d == 12 {
        "c"
    } else if d == 13 {
        "d"
    } else if d == 14 {
        "e"
    } else {
        "f"
    }
}

/// Builds the display name of palette `k`.
fn palette_name(k: u32) -> (r: String)
    requires
        k < PALETTE_COUNT,
    ensures
        r@ == spec_pal_name(k as int),
{
    let tag: &str = if k < 2 {
        "HUD"
    } else if k < 32 {
        "Main"
    } else if k < 92 {
        "Aux"
    } else {
        "Animated"
    };
    let i: u32 = if k < 2 {
        0
    } else if k < 32 {
        (k - 2) / 5
    } else if k < 92 {
        (k - 32) / 3
    } else {
        k - 92
    };
    let j: u32 = if k < 2 {
        k
    } else if k < 32 {
        (k - 2) % 5
    } else if k < 92 {
        (k - 32) % 3
    } else {
        0
    };
    let mut s = tag.to_owned();
    s.append(" ");
    if i >= 16 {
        s.append("1");
        s.append(hex_digit_str(i - 16));
    } else {
        s.append(hex_digit_str(i));
    }
    s.append("-");
    s.append(hex_digit_str(j));
    s
}

/// Imports one palette row: `size` color words read from the group table,
/// unpacked into 5-bit channels, stored from slot 1 on.
#[verifier::loop_isolation(false)]
#[verifier::rlimit(60)]
fn import_palette(rom: &Rom, c: &Constants, k: u32, start_id: u16) -> (r: Result<
    Palette,
    ImportError,
>)
    requires
        k < PALETTE_COUNT,
        start_id + PALETTE_COUNT <= u16::MAX,
    ensures
        r is Ok <==> spec_pal_status(rom.data@, *c, k as int) is Ok,
        r matches Err(e) ==> spec_pal_status(rom.data@, *c, k as int) == Err::<(), ImportError>(e),
        r matches Ok(p) ==> spec_palette_wf(rom.data@, *c, k as int, start_id as int, p),
{
    let base = if k < 2 {
        c.hud_palettes_addr
    } else if k < 32 {
        c.main_palettes_addr
    } else if k < 92 {
        c.aux_palettes_addr
    } else {
        c.animated_palettes_addr
    };
    if !base.rom_mapped() {
        return Err(ImportError::NotRomMapped);
    }
    let size: u32 = if k < 2 {
        15
    } else {
        7
    };
    let offset: u64 = if k < 2 {
        30 * k as u64
    } else if k < 32 {
        14 * (k as u64 - 2)
    } else if k < 92 {
        14 * (k as u64 - 32)
    } else {
        14 * (k as u64 - 92)
    };
    let pc_base = base.to_pc();
    let mut colors: [[u8; 3]; 16] = [[0; 3]; 16];
    let mut ci: u32 = 0;
    while ci < size
        invariant
            ci <= size,
            size == spec_pal_size(k as int),
            offset == spec_pal_offset(k as int),
            pc_base.0 == spec_pc(spec_pal_base(*c, k as int).0),
            spec_pal_status1(rom.data@, *c, k as int, 0) == spec_pal_status1(
                rom.data@,
                *c,
                k as int,
                ci as int,
            ),
            forall|cc: int, ch: int|
                #![trigger colors@[cc]@[ch]]
                0 <= cc < 16 && 0 <= ch < 3 ==> colors@[cc]@[ch] == (if 1 <= cc <= ci {
                    spec_color_channel(
                        spec_pal_word(rom.data@, *c, k as int, cc - 1)->Ok_0 as int,
                        ch,
                    )
                } else {
                    0
                }),
        decreases size - ci,
    {
        let w = rom.pc_u16(pc_base, offset + 2 * ci as u64)?;
        colors[ci as usize + 1][0] = (w % 32) as u8;
        colors[ci as usize + 1][1] = ((w / 32) % 32) as u8;
        colors[ci as usize + 1][2] = ((w / 1024) % 32) as u8;
        proof {
            assert(spec_pal_status1(rom.data@, *c, k as int, ci as int) == spec_pal_status1(
                rom.data@,
                *c,
                k as int,
                ci + 1,
            ));
        }
        ci = ci + 1;
    }
    let mut tiles: Vec<Tile> = Vec::new();
    let mut t: u32 = 0;
    while t < 16
        invariant
            t <= 16,
            tiles@.len() == t,
            forall|tt: int| 0 <= tt < t ==> crate::canon::spec_blank_tile(#[trigger] tiles@[tt]),
        decreases 16 - t,
    {
        tiles.push(Tile::default());
        t = t + 1;
    }
    Ok(
        Palette {
            modified: true,
            name: palette_name(k),
            id: start_id + k as u16,
            colors,
            tiles,
        },
    )
}

/// The palette identity tables the area builder indexes into: HUD pairs,
/// main groups of five, auxiliary groups of three, and single animated
/// palettes.
pub struct PaletteIdTables {
    pub hud: Vec<[PaletteId; 2]>,
    pub main: Vec<[PaletteId; 5]>,
    pub aux: Vec<[PaletteId; 3]>,
    pub animated: Vec<PaletteId>,
}

impl PaletteIdTables {
    /// The identity tables spell out the sequential assignment: HUD first,
    /// then the main groups, the auxiliary groups, and the animated ones.
    pub open spec fn wf(self, start_id: int) -> bool {
        &&& self.hud@.len() == 1
        &&& self.main@.len() == 6
        &&& self.aux@.len() == 20
        &&& self.animated@.len() == 14
        &&& forall|j: int| 0 <= j < 2 ==> (#[trigger] self.hud@[0]@[j]) == start_id + j
        &&& forall|g: int, j: int|
            0 <= g < 6 && 0 <= j < 5 ==> (#[trigger] self.main@[g]@[j]) == start_id + 2 + 5 * g + j
        &&& forall|g: int, j: int|
            0 <= g < 20 && 0 <= j < 3 ==> (#[trigger] self.aux@[g]@[j]) == start_id + 32 + 3 * g
                + j
        &&& forall|g: int| 0 <= g < 14 ==> (#[trigger] self.animated@[g]) == start_id + 92 + g
    }
}

/// Imports all four palette groups, assigning identities sequentially from
/// `start_id`, and returns the palettes together with the identity tables.
#[verifier::loop_isolation(false)]
#[verifier::rlimit(60)]
pub fn import_all_palettes(rom: &Rom, c: &Constants, start_id: u16) -> (r: Result<
    (Vec<Palette>, PaletteIdTables),
    ImportError,
>)
    requires
        start_id + PALETTE_COUNT <= u16::MAX,
    ensures
        r is Ok <==> spec_palettes_status(rom.data@, *c, 0) is Ok,
        r matches Err(e) ==> spec_palettes_status(rom.data@, *c, 0) == Err::<(), ImportError>(e),
        r matches Ok(out) ==> {
            &&& out.0@.len() == PALETTE_COUNT
            &&& forall|k: int|
                0 <= k < PALETTE_COUNT ==> spec_palette_wf(
                    rom.data@,
                    *c,
                    k,
                    start_id as int,
                    #[trigger] out.0@[k],
                )
            &&& out.1.wf(start_id as int)
        },
{
    let mut palettes: Vec<Palette> = Vec::new();
    let mut k: u32 = 0;
    while k < PALETTE_COUNT
        invariant
            k <= PALETTE_COUNT,
            start_id + PALETTE_COUNT <= u16::MAX,
            palettes@.len() == k,
            spec_palettes_status(rom.data@, *c, 0) == spec_palettes_status(rom.data@, *c, k as int),
            forall|j: int|
                0 <= j < k ==> spec_palette_wf(
                    rom.data@,
                    *c,
                    j,
                    start_id as int,
                    #[trigger] palettes@[j],
                ),
        decreases PALETTE_COUNT - k,
    {
        let p = match import_palette(rom, c, k, start_id) {
            Ok(p) => p,
            Err(e) => {
                return Err(e);
            },
        };
        palettes.push(p);
        proof {
            assert(spec_palettes_status(rom.data@, *c, k as int) == spec_palettes_status(
                rom.data@,
                *c,
                k + 1,
            ));
        }
        k = k + 1;
    }
    let mut hud: Vec<[PaletteId; 2]> = Vec::new();
    hud.push([start_id, start_id + 1]);
    let mut main: Vec<[PaletteId; 5]> = Vec::new();
    let mut g: u16 = 0;
    while g < 6
        invariant
            g <= 6,
            start_id + PALETTE_COUNT <= u16::MAX,
            main@.len() == g,
            forall|gg: int, j: int|
                0 <= gg < g && 0 <= j < 5 ==> (#[trigger] main@[gg]@[j]) == start_id + 2 + 5 * gg
                    + j,
        decreases 6 - g,
    {
        let b = start_id + 2 + 5 * g;
        main.push([b, b + 1, b + 2, b + 3, b + 4]);
        g = g + 1;
    }
    let mut aux: Vec<[PaletteId; 3]> = Vec::new();
    let mut g2: u16 = 0;
    while g2 < 20
        invariant
            g2 <= 20,
            start_id + PALETTE_COUNT <= u16::MAX,
            aux@.len() == g2,
            forall|gg: int, j: int|
                0 <= gg < g2 && 0 <= j < 3 ==> (#[trigger] aux@[gg]@[j]) == start_id + 32 + 3 * gg
                    + j,
        decreases 20 - g2,
    {
        let b = start_id + 32 + 3 * g2;
        aux.push([b, b + 1, b + 2]);
        g2 = g2 + 1;
    }
    let mut animated: Vec<PaletteId> = Vec::new();
    let mut g3: u16 = 0;
    while g3 < 14
        invariant
            g3 <= 14,
            start_id + PALETTE_COUNT <= u16::MAX,
            animated@.len() == g3,
            forall|gg: int| 0 <= gg < g3 ==> (#[trigger] animated@[gg]) == start_id + 92 + gg,
        decreases 14 - g3,
    {
        animated.push(start_id + 92 + g3);
        g3 = g3 + 1;
    }
    Ok((palettes, PaletteIdTables { hud, main, aux, animated }))
}

} // verus!
