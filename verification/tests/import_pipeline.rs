use z3_overworld_editor::addr::SnesAddr;
use z3_overworld_editor::error::ImportError;
use z3_overworld_editor::flip::Flip;
use z3_overworld_editor::graphics::decode_sheet;
use z3_overworld_editor::import::{ImportOutput, Importer};
use z3_overworld_editor::state::Area;

fn poke(data: &mut Vec<u8>, addr: u32, bytes: &[u8]) {
    let pc = SnesAddr(addr).to_pc().0 as usize;
    data[pc..pc + bytes.len()].copy_from_slice(bytes);
}

/// A minimal image in the first retail layout: every table readable, every
/// graphics sheet an all-zero 0x600-byte stream, every map slot an all-zero
/// grid -- except that the low tile plane of slot 1 (a child of the large
/// area headed by slot 0) selects composite 1, which resolves to a 16x16
/// entry whose references carry palette selector 2.
fn synthetic_rom() -> Vec<u8> {
    let mut data = vec![0u8; 0x200000];
    // Format signature.
    poke(&mut data, 0x00E7D2, &[0x85, 0xCA]);
    // The three graphics-table base pointers, as bank-0 offsets.
    poke(&mut data, 0x00E7D0, &[0x00, 0x90]);
    poke(&mut data, 0x00E7D5, &[0x00, 0x91]);
    poke(&mut data, 0x00E7DA, &[0x00, 0x92]);
    // All 113 sheets share one compressed stream at 0x0A8000.
    for i in 0..113u32 {
        poke(&mut data, 0x009000 + i, &[0x0A]);
        poke(&mut data, 0x009100 + i, &[0x80]);
        poke(&mut data, 0x009200 + i, &[0x00]);
    }
    // 1024 + 512 zero bytes: a 0x600-byte sheet.
    poke(&mut data, 0x0A8000, &[0xE7, 0xFF, 0x00, 0xE5, 0xFF, 0x00, 0xFF]);
    // 16x16 entry 1: four words with palette selector 2.
    poke(
        &mut data,
        0x0F8000 + 8,
        &[0x00, 0x08, 0x00, 0x08, 0x00, 0x08, 0x00, 0x08],
    );
    // 32x32 entry 1: group position 1 of the first window reads its low
    // byte at offset 1 of each quadrant table.
    for base in [0x038000u32, 0x03B3C0, 0x048000, 0x04B3C0] {
        poke(&mut data, base + 1, &[0x01]);
    }
    // Map plane pointers: every plane decodes 256 zeros from 0x0B8000,
    // except slot 1's low plane, which decodes 256 ones from 0x0B8010.
    for i in 0..160u32 {
        poke(&mut data, 0x02F6B1 + 3 * i, &[0x00, 0x80, 0x0B]);
        poke(&mut data, 0x02F891 + 3 * i, &[0x00, 0x80, 0x0B]);
    }
    poke(&mut data, 0x02F891 + 3, &[0x10, 0x80, 0x0B]);
    poke(&mut data, 0x0B8000, &[0xE4, 0xFF, 0x00, 0xFF]);
    poke(&mut data, 0x0B8010, &[0xE4, 0xFF, 0x01, 0xFF]);
    data
}

fn area_with_slot(out: &ImportOutput, slot: u8) -> &Area {
    out.areas
        .iter()
        .find(|a| a.vanilla_map_id == Some(slot))
        .unwrap()
}

#[test]
fn import_builds_all_top_level_areas() {
    let out = Importer::import(synthetic_rom()).unwrap();
    // 130 slots up to 0x81, minus 3 child slots for each of the 8 large
    // blocks in each of the two worlds.
    assert_eq!(out.areas.len(), 82);
    let a0 = area_with_slot(&out, 0);
    assert_eq!(a0.name, "00 Light World");
    assert_eq!(a0.theme, "Base");
    assert_eq!(a0.bg_color, [9, 19, 9]);
    let dark = area_with_slot(&out, 0x40);
    assert_eq!(dark.name, "40 Dark World");
    assert_eq!(dark.bg_color, [18, 17, 10]);
    let special = area_with_slot(&out, 0x80);
    assert_eq!(special.name, "80 Special World");
    assert_eq!(special.bg_color, [6, 14, 6]);
    assert_eq!(area_with_slot(&out, 0x81).bg_color, [9, 19, 9]);
}

#[test]
fn large_region_spans_four_slots() {
    let out = Importer::import(synthetic_rom()).unwrap();
    // Slot 0 heads a 2x2 slot block: 4x4 screens. Slot 2 stands alone:
    // 2x2 screens.
    let a0 = area_with_slot(&out, 0);
    assert_eq!(a0.size, (4, 4));
    assert_eq!(a0.screens.len(), 16);
    let a2 = area_with_slot(&out, 2);
    assert_eq!(a2.size, (2, 2));
    assert_eq!(a2.screens.len(), 4);
    // The grid reaches into all four child slots: the cell at (64, 0)
    // comes from slot 1, whose tile data selects the auxiliary palette,
    // while the other three slots hold the HUD palette.
    assert_eq!(a0.get_palette(0, 0).unwrap(), 100);
    assert_eq!(a0.get_palette(64, 0).unwrap(), 132);
    assert_eq!(a0.get_palette(127, 63).unwrap(), 132);
    assert_eq!(a0.get_palette(0, 64).unwrap(), 100);
    assert_eq!(a0.get_palette(64, 64).unwrap(), 100);
    // Out-of-range coordinates are rejected.
    assert_eq!(a0.get_palette(128, 0).unwrap_err(), ImportError::CoordOutOfRange);
}

#[test]
fn import_deduplicates_tiles_per_palette() {
    let out = Importer::import(synthetic_rom()).unwrap();
    // Only the two referenced palettes survive the pruning, in id order.
    assert_eq!(out.palettes.len(), 2);
    assert_eq!(out.palettes[0].id, 100);
    assert_eq!(out.palettes[0].name, "HUD 0-0");
    assert_eq!(out.palettes[1].id, 132);
    assert_eq!(out.palettes[1].name, "Aux 0-0");
    // Each holds one deduplicated (all-zero) tile, padded to 16 entries.
    assert_eq!(out.palettes[0].tiles.len(), 16);
    assert_eq!(out.palettes[1].tiles.len(), 16);
    // The all-zero tile is symmetric under every flip, so the content
    // itself taught the importer that both flips are legal.
    assert!(out.palettes[0].tiles[0].h_flippable);
    assert!(out.palettes[0].tiles[0].v_flippable);
    // The HUD palette is seen with several background colors, which is
    // marked with black; the auxiliary palette only with the light-world
    // background.
    assert_eq!(out.palettes[0].colors[0], [0, 0, 0]);
    assert_eq!(out.palettes[1].colors[0], [9, 19, 9]);
    // Every cell's tile index resolves within its palette.
    for a in &out.areas {
        for y in 0..(a.size.1 as u16 * 32) {
            for x in 0..(a.size.0 as u16 * 32) {
                let pid = a.get_palette(x, y).unwrap();
                let ti = a.get_tile(x, y).unwrap();
                let p = out.palettes.iter().find(|p| p.id == pid).unwrap();
                assert!((ti as usize) < p.tiles.len());
            }
        }
    }
}

#[test]
fn first_use_is_unflipped_then_variants_reuse_the_entry() {
    let out = Importer::import(synthetic_rom()).unwrap();
    let a0 = area_with_slot(&out, 0);
    // The very first cell allocated the tile, so it is recorded unflipped;
    // later cells match the last-inserted variant of the symmetric
    // pattern, which is the 180-degree one.
    assert_eq!(a0.get_flip(0, 0).unwrap(), Flip::Identity);
    assert_eq!(a0.get_flip(1, 0).unwrap(), Flip::Both);
    assert_eq!(a0.get_tile(0, 0).unwrap(), 0);
    assert_eq!(a0.get_tile(1, 0).unwrap(), 0);
}

#[test]
fn wrong_sheet_length_is_fatal() {
    let mut data = synthetic_rom();
    // Make every sheet's stream decode to 100 bytes instead of 0x600.
    poke(&mut data, 0x0A8000, &[0xE0, 0x63, 0x00, 0xFF, 0x00, 0x00, 0x00]);
    assert_eq!(
        Importer::import(data).unwrap_err(),
        ImportError::BadGraphicsSheetLength
    );
}

#[test]
fn unmapped_sheet_pointer_is_fatal() {
    let mut data = synthetic_rom();
    // Sheet 0's address gets a high byte below 0x80: the lower half of a
    // bank, which never maps to ROM.
    poke(&mut data, 0x009100, &[0x00]);
    assert_eq!(Importer::import(data).unwrap_err(), ImportError::NotRomMapped);
}

#[test]
fn wrong_map_plane_length_is_fatal() {
    let mut data = synthetic_rom();
    // Slot 0's high plane decodes to 10 bytes instead of 256.
    poke(&mut data, 0x02F6B1, &[0x20, 0x80, 0x0B]);
    poke(&mut data, 0x0B8020, &[0x29, 0x00, 0xFF]);
    assert_eq!(
        Importer::import(data).unwrap_err(),
        ImportError::BadMapPlaneLength
    );
}

#[test]
fn composite16_index_past_table_is_fatal() {
    let mut data = synthetic_rom();
    // The high nibble slot of the first 32x32 window makes quadrant 0's
    // 16x16 index 0xF00, past the 3742-entry table.
    poke(&mut data, 0x038000 + 4, &[0xF0]);
    assert_eq!(
        Importer::import(data).unwrap_err(),
        ImportError::Tile16IndexOutOfRange
    );
}

#[test]
fn graphics_character_past_region_table_is_fatal() {
    let mut data = synthetic_rom();
    // 16x16 entry 0 references graphics character 512, past the 512-entry
    // region remap table.
    poke(&mut data, 0x0F8000, &[0x00, 0x02]);
    assert_eq!(
        Importer::import(data).unwrap_err(),
        ImportError::GfxSheetOutOfRange
    );
}

#[test]
fn sheet_code_past_decoded_sheets_is_fatal() {
    let mut data = synthetic_rom();
    // The light-world global graphics set names sheet 200; only 113 sheets
    // exist.
    poke(&mut data, 0x00E0B3 + 0x20 * 8, &[200]);
    assert_eq!(
        Importer::import(data).unwrap_err(),
        ImportError::GfxIndexOutOfRange
    );
}

#[test]
fn unknown_image_fails_without_output() {
    assert_eq!(
        Importer::import(vec![0u8; 0x200000]).unwrap_err(),
        ImportError::UnknownRomFormat
    );
}

#[test]
fn sheet_decoding_is_deterministic_and_planar() {
    let mut bytes = vec![0u8; 0x600];
    for (i, b) in bytes.iter_mut().enumerate() {
        *b = (i * 7 + 3) as u8;
    }
    let once = decode_sheet(&bytes);
    let twice = decode_sheet(&bytes);
    assert_eq!(once.len(), 64);
    for j in 0..64 {
        assert_eq!(once[j], twice[j]);
    }
    // One hand-checked pixel: tile 0, row 0, column 0 draws bit 7 of bytes
    // 0, 1 and 16.
    let mut simple = vec![0u8; 0x600];
    simple[0] = 0x80;
    simple[16] = 0x80;
    let tiles = decode_sheet(&simple);
    assert_eq!(tiles[0][0][0], 5);
    assert_eq!(tiles[0][0][1], 0);
}
