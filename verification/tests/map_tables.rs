use z3_overworld_editor::addr::SnesAddr;
use z3_overworld_editor::constants::Constants;
use z3_overworld_editor::map::{load_map_palettes, load_map_parents};
use z3_overworld_editor::rom::Rom;

#[test]
fn parent_table_links_large_areas() {
    let parents = load_map_parents(160);
    assert_eq!(parents.len(), 160);
    // A plain slot is its own parent.
    assert_eq!(parents[2], 2);
    assert_eq!(parents[20], 20);
    // Slot 91 heads the dark-world block of slot 27, claiming slot 100.
    assert_eq!(parents[91], 91);
    assert_eq!(parents[100], 91);
    // The 2x2 block headed by slot 0 claims slots 1, 8 and 9, in both
    // worlds.
    assert_eq!(parents[0], 0);
    assert_eq!(parents[1], 0);
    assert_eq!(parents[8], 0);
    assert_eq!(parents[9], 0);
    assert_eq!(parents[64], 64);
    assert_eq!(parents[65], 64);
    assert_eq!(parents[72], 64);
    assert_eq!(parents[73], 64);
    // Another block head.
    assert_eq!(parents[4], 3);
    assert_eq!(parents[11], 3);
    assert_eq!(parents[12], 3);
    // The irregular slots above 0x80.
    assert_eq!(parents[130], 129);
    assert_eq!(parents[137], 129);
    assert_eq!(parents[138], 129);
    assert_eq!(parents[148], 128);
    assert_eq!(parents[149], 3);
    assert_eq!(parents[150], 91);
    assert_eq!(parents[151], 0);
    assert_eq!(parents[156], 67);
    assert_eq!(parents[157], 0);
    assert_eq!(parents[158], 0);
    assert_eq!(parents[159], 44);
}

/// A constants table whose palette-selection tables live at the very start
/// of the buffer, so a test can lay the bytes out by hand.
fn test_constants() -> Constants {
    let mut c = Constants::us();
    c.map_cnt = 2;
    // Bank 0 upper half: file offset equals the low 15 bits.
    c.map_aux_pal_set_addr = SnesAddr(0x008000);  // file 0x0000
    c.special_map_pal_set_addr = SnesAddr(0x008100);  // file 0x0100
    c.pal_set_addr = SnesAddr(0x008200);  // file 0x0200
    c
}

#[test]
fn out_of_range_aux2_falls_back_to_previous_slot() {
    let mut data = vec![0u8; 0x1000];
    // Slot 1's palette set is 5; the previous slot's set is 2.
    data[0x0000] = 2;
    data[0x0001] = 5;
    // Set 5 holds an out-of-range second auxiliary selector.
    data[0x0200 + 5 * 4] = 1;  // aux1
    data[0x0200 + 5 * 4 + 1] = 30;  // aux2, out of range
    data[0x0200 + 5 * 4 + 2] = 3;  // animated
    // Set 2 (the previous slot's) holds the value the resolver must use.
    data[0x0200 + 2 * 4 + 1] = 7;
    let c = test_constants();
    let parents = vec![0u16, 1u16];
    let pals = load_map_palettes(&Rom::new(data), &c, &parents).unwrap();
    assert_eq!(pals[1].aux1, 1);
    assert_eq!(pals[1].aux2, 7);
    assert_eq!(pals[1].animated, 3);
}

#[test]
fn out_of_range_aux1_and_animated_are_corrected_to_zero() {
    let mut data = vec![0u8; 0x1000];
    data[0x0001] = 4;
    data[0x0200 + 4 * 4] = 25;  // aux1 out of range
    data[0x0200 + 4 * 4 + 1] = 6;  // aux2 in range
    data[0x0200 + 4 * 4 + 2] = 14;  // animated out of range
    let c = test_constants();
    let parents = vec![0u16, 1u16];
    let pals = load_map_palettes(&Rom::new(data), &c, &parents).unwrap();
    assert_eq!(pals[1].aux1, 0);
    assert_eq!(pals[1].aux2, 6);
    assert_eq!(pals[1].animated, 0);
}

#[test]
fn main_group_is_selected_by_slot_range() {
    let data = vec![0u8; 0x1000];
    let mut c = test_constants();
    c.map_cnt = 2;
    let parents = vec![0u16, 1u16];
    let pals = load_map_palettes(&Rom::new(data), &c, &parents).unwrap();
    // Light-world slots outside death mountain use main group 0.
    assert_eq!(pals[0].main, 0);
    assert_eq!(pals[1].main, 0);
}
