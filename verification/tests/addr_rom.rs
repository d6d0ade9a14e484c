use z3_overworld_editor::addr::{PcAddr, SnesAddr};
use z3_overworld_editor::error::ImportError;
use z3_overworld_editor::rom::Rom;

#[test]
fn snes_addr_from_bytes() {
    assert_eq!(SnesAddr::from_bytes(0x1B, 0xD6, 0x60).0, 0x1BD660);
    assert_eq!(SnesAddr::from_bank_offset(0x0A, 0x8123).0, 0x0A8123);
}

#[test]
fn translation_maps_banks_to_half_banks() {
    // The upper half of bank 0 maps to the start of the file.
    assert_eq!(SnesAddr(0x008000).to_pc().0, 0x0000);
    assert_eq!(SnesAddr(0x00FFFF).to_pc().0, 0x7FFF);
    // Each following bank lands one 32KB block further.
    assert_eq!(SnesAddr(0x018000).to_pc().0, 0x8000);
    assert_eq!(SnesAddr(0x028123).to_pc().0, 0x10123);
    assert_eq!(SnesAddr(0x1BD660).to_pc().0, 0xDD660);
}

#[test]
fn ram_and_register_space_is_not_mapped() {
    assert!(!SnesAddr(0x7E0000).rom_mapped());
    assert!(!SnesAddr(0x002100).rom_mapped());
    assert!(SnesAddr(0x008000).rom_mapped());
    assert!(SnesAddr(0x3FFFFF).rom_mapped());
}

#[test]
fn reads_are_little_endian_and_bounds_checked() {
    let rom = Rom::new(vec![0x11, 0x22, 0x33, 0x44]);
    assert_eq!(rom.read_u8(PcAddr(0)).unwrap(), 0x11);
    assert_eq!(rom.read_u8(PcAddr(3)).unwrap(), 0x44);
    assert_eq!(rom.read_u8(PcAddr(4)).unwrap_err(), ImportError::OutOfBounds);
    assert_eq!(rom.read_u16(PcAddr(0)).unwrap(), 0x2211);
    assert_eq!(rom.read_u16(PcAddr(2)).unwrap(), 0x4433);
    assert_eq!(rom.read_u16(PcAddr(3)).unwrap_err(), ImportError::OutOfBounds);
    assert_eq!(rom.read_u24(PcAddr(0)).unwrap(), 0x332211);
    assert_eq!(rom.read_u24(PcAddr(1)).unwrap(), 0x443322);
    assert_eq!(rom.read_u24(PcAddr(2)).unwrap_err(), ImportError::OutOfBounds);
    assert_eq!(rom.read_n(PcAddr(1), 3).unwrap(), vec![0x22, 0x33, 0x44]);
    assert_eq!(rom.read_n(PcAddr(2), 3).unwrap_err(), ImportError::OutOfBounds);
    assert_eq!(rom.read_n(PcAddr(4), 0).unwrap(), Vec::<u8>::new());
}

#[test]
fn scale_color_expands_five_bits_to_eight() {
    assert_eq!(z3_overworld_editor::helpers::scale_color(0), 0);
    assert_eq!(z3_overworld_editor::helpers::scale_color(31), 255);
    assert_eq!(z3_overworld_editor::helpers::scale_color(16), 131);
    assert_eq!(z3_overworld_editor::helpers::scale_color(1), 8);
}

#[test]
fn neighbor_table_covers_all_vanilla_areas() {
    let neighbors = z3_overworld_editor::neighbors::get_area_neighbors();
    assert_eq!(neighbors.len(), 82);
    // Slot order is ascending and every neighbor pair is symmetric.
    for w in neighbors.windows(2) {
        assert!(w[0].0 < w[1].0);
    }
    for (slot, ns) in &neighbors {
        for n in ns {
            let back = neighbors.iter().find(|(s, _)| s == n).unwrap();
            assert!(back.1.contains(slot), "asymmetric pair {slot:#x} {n:#x}");
        }
    }
}
