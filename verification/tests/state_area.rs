use z3_overworld_editor::error::ImportError;
use z3_overworld_editor::flip::Flip;
use z3_overworld_editor::state::{Area, AreaId, Screen, Tile};

fn screen(x: u8, y: u8) -> Screen {
    Screen {
        position: (x, y),
        palettes: [[0; 32]; 32],
        tiles: [[0; 32]; 32],
        flips: [[Flip::Identity; 32]; 32],
    }
}

fn two_by_one_area() -> Area {
    Area {
        modified: false,
        name: "Sample".to_string(),
        theme: "Base".to_string(),
        vanilla_map_id: None,
        bg_color: [9, 19, 9],
        size: (2, 1),
        screens: vec![screen(0, 0), screen(1, 0)],
    }
}

#[test]
fn area_id_pairs_name_and_theme() {
    let a = two_by_one_area();
    assert_eq!(
        a.id(),
        AreaId { area: "Sample".to_string(), theme: "Base".to_string() }
    );
}

#[test]
fn screen_coords_split_row_major() {
    let a = two_by_one_area();
    assert_eq!(a.get_screen_coords(0, 0).unwrap(), (0, 0, 0));
    assert_eq!(a.get_screen_coords(31, 31).unwrap(), (0, 31, 31));
    assert_eq!(a.get_screen_coords(32, 0).unwrap(), (1, 0, 0));
    assert_eq!(a.get_screen_coords(63, 31).unwrap(), (1, 31, 31));
    assert_eq!(a.get_screen_coords(64, 0).unwrap_err(), ImportError::CoordOutOfRange);
    assert_eq!(a.get_screen_coords(0, 32).unwrap_err(), ImportError::CoordOutOfRange);
}

#[test]
fn setters_and_getters_round_trip() {
    let mut a = two_by_one_area();
    a.set_tile(40, 5, 7).unwrap();
    a.set_palette(40, 5, 103).unwrap();
    a.set_flip(40, 5, Flip::Vertical).unwrap();
    assert_eq!(a.get_tile(40, 5).unwrap(), 7);
    assert_eq!(a.get_palette(40, 5).unwrap(), 103);
    assert_eq!(a.get_flip(40, 5).unwrap(), Flip::Vertical);
    // The neighboring cell is untouched.
    assert_eq!(a.get_tile(41, 5).unwrap(), 0);
    assert_eq!(a.get_palette(40, 6).unwrap(), 0);
    // Writes outside the area are rejected and change nothing.
    assert_eq!(a.set_tile(64, 0, 9).unwrap_err(), ImportError::CoordOutOfRange);
    assert_eq!(a.get_tile(40, 5).unwrap(), 7);
}

#[test]
fn unique_palettes_are_sorted_without_duplicates() {
    let mut a = two_by_one_area();
    a.set_palette(0, 0, 120).unwrap();
    a.set_palette(5, 9, 105).unwrap();
    a.set_palette(40, 20, 120).unwrap();
    assert_eq!(a.get_unique_palettes(), vec![0, 105, 120]);
}

#[test]
fn apply_to_tile_keeps_flags() {
    let mut pixels = [[0u8; 8]; 8];
    pixels[0][0] = 3;
    let t = Tile { priority: true, collision: 9, h_flippable: true, v_flippable: false, pixels };
    let flipped = Flip::Horizontal.apply_to_tile(t);
    assert_eq!(flipped.pixels[0][7], 3);
    assert_eq!(flipped.pixels[0][0], 0);
    assert!(flipped.priority);
    assert_eq!(flipped.collision, 9);
    assert!(flipped.h_flippable);
    assert!(!flipped.v_flippable);
}

#[test]
fn default_tile_is_blank() {
    let t = Tile::default();
    assert_eq!(t.pixels, [[0u8; 8]; 8]);
    assert!(!t.priority && !t.h_flippable && !t.v_flippable);
    assert_eq!(t.collision, 0);
}

#[test]
fn error_descriptions_name_the_failure() {
    assert_eq!(ImportError::UnknownRomFormat.describe(), "unknown ROM format");
    assert_eq!(ImportError::OutOfBounds.describe(), "read address out of bounds");
}
