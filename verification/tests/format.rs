use z3_overworld_editor::addr::SnesAddr;
use z3_overworld_editor::constants::Constants;
use z3_overworld_editor::error::ImportError;
use z3_overworld_editor::rom::Rom;

fn poke(data: &mut Vec<u8>, addr: u32, bytes: &[u8]) {
    let pc = SnesAddr(addr).to_pc().0 as usize;
    data[pc..pc + bytes.len()].copy_from_slice(bytes);
}

#[test]
fn detects_first_retail_layout() {
    let mut data = vec![0u8; 0x200000];
    poke(&mut data, 0x00E7D2, &[0x85, 0xCA]);
    let c = Constants::auto(&Rom::new(data)).unwrap();
    assert_eq!(c.tiles16_cnt, 3742);
    assert_eq!(c.tiles32_cnt, 8828);
    assert_eq!(c.map_cnt, 160);
    assert_eq!(c.pal_set_addr.0, 0x0CFE74);
    assert!(c.custom_gfx_set_addr.is_none());
}

#[test]
fn detects_second_retail_layout() {
    let mut data = vec![0u8; 0x200000];
    poke(&mut data, 0x00E792, &[0x85, 0xCA]);
    let c = Constants::auto(&Rom::new(data)).unwrap();
    assert_eq!(c.tiles32_cnt, 8864);
    assert_eq!(c.pal_set_addr.0, 0x0ED504);
    assert_eq!(c.gfx_bank_addr.0, 0x00E790);
}

#[test]
fn detects_community_layout_with_overrides() {
    let mut data = vec![0u8; 0x200000];
    poke(&mut data, 0x008865, &[0x00, 0x80, 0xBD]);
    poke(&mut data, 0x288148, &[1]);
    poke(&mut data, 0x288140, &[1]);
    let c = Constants::auto(&Rom::new(data)).unwrap();
    assert_eq!(c.tiles16_cnt, 4096);
    assert_eq!(c.tiles32_cnt, 17728);
    assert_eq!(c.tiles16_addr.0, 0xBD8000);
    assert_eq!(c.custom_gfx_set_addr.map(|a| a.0), Some(0x288480));
    assert_eq!(c.custom_bg_colors_addr.map(|a| a.0), Some(0x288000));
    assert!(c.custom_map_main_pal_set_addr.is_none());
    // The retail fields it inherits.
    assert_eq!(c.pal_set_addr.0, 0x0ED504);
}

#[test]
fn unknown_format_is_rejected() {
    let data = vec![0u8; 0x200000];
    assert_eq!(
        Constants::auto(&Rom::new(data)).unwrap_err(),
        ImportError::UnknownRomFormat
    );
}

#[test]
fn tiny_image_is_out_of_bounds() {
    let data = vec![0u8; 16];
    assert_eq!(
        Constants::auto(&Rom::new(data)).unwrap_err(),
        ImportError::OutOfBounds
    );
}
