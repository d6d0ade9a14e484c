//! The resolved table of addresses and counts that the rest of the import
//! reads through ("Constants"), and the format detector that selects it.
//!
//! Three layouts are known: two localized retail layouts and a
//! community-tooling layout with relocated, enlarged composite-tile tables
//! and optional per-variant override tables, each gated by a flag byte.
//! The addresses are hardware-format facts, not derivable from general rules.

use vstd::prelude::*;

use crate::addr::{spec_pc, SnesAddr};
use crate::error::ImportError;
use crate::rom::{spec_u16_at, spec_u24_at, Rom};

verus! {

/// Where the ROM keeps each table the import needs. Selected once by
/// `Constants::auto` and immutable thereafter.
#[derive(Clone, Debug)]
pub struct Constants {
    pub hud_palettes_addr: SnesAddr,
    pub main_palettes_addr: SnesAddr,
    pub aux_palettes_addr: SnesAddr,
    pub animated_palettes_addr: SnesAddr,
    pub gfx_bank_addr: SnesAddr,
    pub gfx_high_addr: SnesAddr,
    pub gfx_low_addr: SnesAddr,
    pub tiles16_addr: SnesAddr,
    pub tiles16_cnt: u32,
    pub tiles32_tl_addr: SnesAddr,
    pub tiles32_tr_addr: SnesAddr,
    pub tiles32_bl_addr: SnesAddr,
    pub tiles32_br_addr: SnesAddr,
    pub tiles32_cnt: u32,
    pub map_high_addr: SnesAddr,
    pub map_low_addr: SnesAddr,
    pub map_cnt: u32,
    pub custom_map_main_pal_set_addr: Option<SnesAddr>,
    pub map_aux_pal_set_addr: SnesAddr,
    pub special_map_pal_set_addr: SnesAddr,
    pub pal_set_addr: SnesAddr,
    pub global_gfx_set_addr: SnesAddr,
    pub local_gfx_set_addr: SnesAddr,
    pub map_gfx_set_addr: SnesAddr,
    pub custom_gfx_set_addr: Option<SnesAddr>,
    pub special_gfx_set_addr: SnesAddr,
    pub tile_types: SnesAddr,
    pub custom_bg_colors_addr: Option<SnesAddr>,
}

impl Constants {
    /// The first localized retail layout.
    pub open spec fn spec_jp() -> Constants {
        Constants {
            hud_palettes_addr: SnesAddr(0x1BD660),
            main_palettes_addr: SnesAddr(0x1BE6C8),
            aux_palettes_addr: SnesAddr(0x1BE86C),
            animated_palettes_addr: SnesAddr(0x1BE604),
            gfx_bank_addr: SnesAddr(0x00E7D0),
            gfx_high_addr: SnesAddr(0x00E7D5),
            gfx_low_addr: SnesAddr(0x00E7DA),
            tiles16_addr: SnesAddr(0x0F8000),
            tiles16_cnt: 3742,
            tiles32_tl_addr: SnesAddr(0x038000),
            tiles32_tr_addr: SnesAddr(0x03B3C0),
            tiles32_bl_addr: SnesAddr(0x048000),
            tiles32_br_addr: SnesAddr(0x04B3C0),
            tiles32_cnt: 8828,
            map_high_addr: SnesAddr(0x02F6B1),
            map_low_addr: SnesAddr(0x02F891),
            map_cnt: 160,
            custom_map_main_pal_set_addr: None,
            map_aux_pal_set_addr: SnesAddr(0x00FD1C),
            special_map_pal_set_addr: SnesAddr(0x02E595),
            pal_set_addr: SnesAddr(0x0CFE74),
            global_gfx_set_addr: SnesAddr(0x00E0B3),
            local_gfx_set_addr: SnesAddr(0x00DDD7),
            map_gfx_set_addr: SnesAddr(0x00FC9C),
            custom_gfx_set_addr: None,
            special_gfx_set_addr: SnesAddr(0x02E585),
            tile_types: SnesAddr(0x0FFD94),
            custom_bg_colors_addr: None,
        }
    }

    /// The second localized retail layout.
    pub open spec fn spec_us() -> Constants {
        Constants {
            hud_palettes_addr: SnesAddr(0x1BD660),
            main_palettes_addr: SnesAddr(0x1BE6C8),
            aux_palettes_addr: SnesAddr(0x1BE86C),
            animated_palettes_addr: SnesAddr(0x1BE604),
            gfx_bank_addr: SnesAddr(0x00E790),
            gfx_high_addr: SnesAddr(0x00E795),
            gfx_low_addr: SnesAddr(0x00E79A),
            tiles16_addr: SnesAddr(0x0F8000),
            tiles16_cnt: 3742,
            tiles32_tl_addr: SnesAddr(0x038000),
            tiles32_tr_addr: SnesAddr(0x03B400),
            tiles32_bl_addr: SnesAddr(0x048000),
            tiles32_br_addr: SnesAddr(0x04B400),
            tiles32_cnt: 8864,
            map_high_addr: SnesAddr(0x02F94D),
            map_low_addr: SnesAddr(0x02FB2D),
            map_cnt: 160,
            custom_map_main_pal_set_addr: None,
            map_aux_pal_set_addr: SnesAddr(0x00FD1C),
            special_map_pal_set_addr: SnesAddr(0x02E831),
            pal_set_addr: SnesAddr(0x0ED504),
            global_gfx_set_addr: SnesAddr(0x00E073),
            local_gfx_set_addr: SnesAddr(0x0DD97),
            map_gfx_set_addr: SnesAddr(0x00FC9C),
            custom_gfx_set_addr: None,
            special_gfx_set_addr: SnesAddr(0x02E821),
            tile_types: SnesAddr(0x0E9459),
            custom_bg_colors_addr: None,
        }
    }

    /// The community-tooling layout: the second retail layout with relocated
    /// and enlarged composite-tile tables, and override tables switched on by
    /// the three flag bytes.
    pub open spec fn spec_zscream(data: Seq<u8>) -> Result<Constants, ImportError> {
        if spec_pc(0x288148) >= data.len() || spec_pc(0x288141) >= data.len() || spec_pc(0x288140)
            >= data.len() {
            Err(ImportError::OutOfBounds)
        } else {
            Ok(
                Constants {
                    tiles16_addr: SnesAddr(0xBD8000),
                    tiles16_cnt: 4096,
                    tiles32_tr_addr: SnesAddr(0x048000),
                    tiles32_bl_addr: SnesAddr(0x3E8000),
                    tiles32_br_addr: SnesAddr(0x3F8000),
                    tiles32_cnt: 17728,
                    custom_gfx_set_addr: if data[spec_pc(0x288148)] != 0 {
                        Some(SnesAddr(0x288480))
                    } else {
                        None
                    },
                    custom_map_main_pal_set_addr: if data[spec_pc(0x288141)] != 0 {
                        Some(SnesAddr(0x288160))
                    } else {
                        None
                    },
                    custom_bg_colors_addr: if data[spec_pc(0x288140)] != 0 {
                        Some(SnesAddr(0x288000))
                    } else {
                        None
                    },
                    ..Self::spec_us()
                },
            )
        }
    }

    /// Which layout the signature bytes select, in priority order: the
    /// community-tooling marker first, then the two retail signatures; no
    /// match is a format error, and an unreadable signature location is an
    /// out-of-bounds error.
    pub open spec fn spec_auto(data: Seq<u8>) -> Result<Constants, ImportError> {
        if spec_pc(0x008865) + 2 >= data.len() {
            Err(ImportError::OutOfBounds)
        } else if spec_u24_at(data, spec_pc(0x008865)) == 0xBD8000 {
            Self::spec_zscream(data)
        } else if spec_pc(0x00E7D2) + 1 >= data.len() {
            Err(ImportError::OutOfBounds)
        } else if spec_u16_at(data, spec_pc(0x00E7D2)) == 0xCA85 {
            Ok(Self::spec_jp())
        } else if spec_pc(0x00E792) + 1 >= data.len() {
            Err(ImportError::OutOfBounds)
        } else if spec_u16_at(data, spec_pc(0x00E792)) == 0xCA85 {
            Ok(Self::spec_us())
        } else {
            Err(ImportError::UnknownRomFormat)
        }
    }

    /// The first localized retail layout.
    pub fn jp() -> (r: Constants)
        ensures
            r == Self::spec_jp(),
    {
        Constants {
            hud_palettes_addr: SnesAddr(0x1BD660),
            main_palettes_addr: SnesAddr(0x1BE6C8),
            aux_palettes_addr: SnesAddr(0x1BE86C),
            animated_palettes_addr: SnesAddr(0x1BE604),
            gfx_bank_addr: SnesAddr(0x00E7D0),
            gfx_high_addr: SnesAddr(0x00E7D5),
            gfx_low_addr: SnesAddr(0x00E7DA),
            tiles16_addr: SnesAddr(0x0F8000),
            tiles16_cnt: 3742,
            tiles32_tl_addr: SnesAddr(0x038000),
            tiles32_tr_addr: SnesAddr(0x03B3C0),
            tiles32_bl_addr: SnesAddr(0x048000),
            tiles32_br_addr: SnesAddr(0x04B3C0),
            tiles32_cnt: 8828,
            map_high_addr: SnesAddr(0x02F6B1),
            map_low_addr: SnesAddr(0x02F891),
            map_cnt: 160,
            custom_map_main_pal_set_addr: None,
            map_aux_pal_set_addr: SnesAddr(0x00FD1C),
            special_map_pal_set_addr: SnesAddr(0x02E595),
            pal_set_addr: SnesAddr(0x0CFE74),
            global_gfx_set_addr: SnesAddr(0x00E0B3),
            local_gfx_set_addr: SnesAddr(0x00DDD7),
            map_gfx_set_addr: SnesAddr(0x00FC9C),
            custom_gfx_set_addr: None,
            special_gfx_set_addr: SnesAddr(0x02E585),
            tile_types: SnesAddr(0x0FFD94),
            custom_bg_colors_addr: None,
        }
    }

    /// The second localized retail layout.
    pub fn us() -> (r: Constants)
        ensures
            r == Self::spec_us(),
    {
        Constants {
            hud_palettes_addr: SnesAddr(0x1BD660),
            main_palettes_addr: SnesAddr(0x1BE6C8),
            aux_palettes_addr: SnesAddr(0x1BE86C),
            animated_palettes_addr: SnesAddr(0x1BE604),
            gfx_bank_addr: SnesAddr(0x00E790),
            gfx_high_addr: SnesAddr(0x00E795),
            gfx_low_addr: SnesAddr(0x00E79A),
            tiles16_addr: SnesAddr(0x0F8000),
            tiles16_cnt: 3742,
            tiles32_tl_addr: SnesAddr(0x038000),
            tiles32_tr_addr: SnesAddr(0x03B400),
            tiles32_bl_addr: SnesAddr(0x048000),
            tiles32_br_addr: SnesAddr(0x04B400),
            tiles32_cnt: 8864,
            map_high_addr: SnesAddr(0x02F94D),
            map_low_addr: SnesAddr(0x02FB2D),
            map_cnt: 160,
            custom_map_main_pal_set_addr: None,
            map_aux_pal_set_addr: SnesAddr(0x00FD1C),
            special_map_pal_set_addr: SnesAddr(0x02E831),
            pal_set_addr: SnesAddr(0x0ED504),
            global_gfx_set_addr: SnesAddr(0x00E073),
            local_gfx_set_addr: SnesAddr(0x0DD97),
            map_gfx_set_addr: SnesAddr(0x00FC9C),
            custom_gfx_set_addr: None,
            special_gfx_set_addr: SnesAddr(0x02E821),
            tile_types: SnesAddr(0x0E9459),
            custom_bg_colors_addr: None,
        }
    }

    /// Inspects the signature locations and resolves the constants table.
    pub fn auto(rom: &Rom) -> (r: Result<Constants, ImportError>)
        ensures
            r == Self::spec_auto(rom.data@),
    {
        let marker = rom.read_u24(SnesAddr(0x008865).to_pc())?;
        if marker == 0xBD8000 {
            let mut constants = Constants::us();
            constants.tiles16_addr = SnesAddr(0xBD8000);
            constants.tiles16_cnt = 4096;
            constants.tiles32_tr_addr = SnesAddr(0x048000);
            constants.tiles32_bl_addr = SnesAddr(0x3E8000);
            constants.tiles32_br_addr = SnesAddr(0x3F8000);
            constants.tiles32_cnt = 17728;
            let gfx_flag = rom.read_u8(SnesAddr(0x288148).to_pc())?;
            if gfx_flag != 0 {
                constants.custom_gfx_set_addr = Some(SnesAddr(0x288480));
            }
            let pal_flag = rom.read_u8(SnesAddr(0x288141).to_pc())?;
            if pal_flag != 0 {
                constants.custom_map_main_pal_set_addr = Some(SnesAddr(0x288160));
            }
            let bg_flag = rom.read_u8(SnesAddr(0x288140).to_pc())?;
            if bg_flag != 0 {
                constants.custom_bg_colors_addr = Some(SnesAddr(0x288000));
            }
            Ok(constants)
        } else if rom.read_u16(SnesAddr(0x00E7D2).to_pc())? == 0xCA85 {
            Ok(Constants::jp())
        } else if rom.read_u16(SnesAddr(0x00E792).to_pc())? == 0xCA85 {
            Ok(Constants::us())
        } else {
            Err(ImportError::UnknownRomFormat)
        }
    }
}

} // verus!
