use z3_overworld_editor::canon::TileRegistry;
use z3_overworld_editor::flip::Flip;
use z3_overworld_editor::state::Tile;

fn grid(seed: u8) -> [[u8; 8]; 8] {
    let mut g = [[0u8; 8]; 8];
    for y in 0..8 {
        for x in 0..8 {
            g[y][x] = ((seed as usize + y * 3 + x) % 8) as u8;
        }
    }
    g
}

fn tile(pixels: [[u8; 8]; 8]) -> Tile {
    Tile { priority: false, collision: 0, h_flippable: false, v_flippable: false, pixels }
}

#[test]
fn flip_state_composition() {
    assert_eq!(Flip::Identity.flip_horizontally(), Flip::Horizontal);
    assert_eq!(Flip::Horizontal.flip_horizontally(), Flip::Identity);
    assert_eq!(Flip::Vertical.flip_horizontally(), Flip::Both);
    assert_eq!(Flip::Both.flip_horizontally(), Flip::Vertical);
    assert_eq!(Flip::Identity.flip_vertically(), Flip::Vertical);
    assert_eq!(Flip::Horizontal.flip_vertically(), Flip::Both);
    assert_eq!(Flip::Vertical.flip_vertically(), Flip::Identity);
    assert_eq!(Flip::Both.flip_vertically(), Flip::Horizontal);
}

#[test]
fn apply_to_pixels_mirrors() {
    let g = grid(1);
    let h = Flip::Horizontal.apply_to_pixels(g);
    let v = Flip::Vertical.apply_to_pixels(g);
    let b = Flip::Both.apply_to_pixels(g);
    for y in 0..8 {
        for x in 0..8 {
            assert_eq!(h[y][x], g[y][7 - x]);
            assert_eq!(v[y][x], g[7 - y][x]);
            assert_eq!(b[y][x], g[7 - y][7 - x]);
        }
    }
    assert_eq!(Flip::Identity.apply_to_pixels(g), g);
    // Every flip is its own inverse.
    assert_eq!(Flip::Horizontal.apply_to_pixels(h), g);
    assert_eq!(Flip::Vertical.apply_to_pixels(v), g);
    assert_eq!(Flip::Both.apply_to_pixels(b), g);
}

#[test]
fn canonicalize_collapses_flip_variants() {
    let mut reg = TileRegistry::new();
    let t = tile(grid(1));
    let (i0, f0) = reg.canonicalize(t, Flip::Identity);
    assert_eq!((i0, f0), (0, Flip::Identity));
    // The same tile under each flip resolves to the same stored entry,
    // with the flip that reaches it.
    let (i1, f1) = reg.canonicalize(t, Flip::Horizontal);
    assert_eq!((i1, f1), (0, Flip::Horizontal));
    let (i2, f2) = reg.canonicalize(t, Flip::Vertical);
    assert_eq!((i2, f2), (0, Flip::Vertical));
    let (i3, f3) = reg.canonicalize(t, Flip::Both);
    assert_eq!((i3, f3), (0, Flip::Both));
    assert_eq!(reg.tiles.len(), 1);
    // A genuinely different pattern allocates a new entry.
    let (i4, f4) = reg.canonicalize(tile(grid(2)), Flip::Identity);
    assert_eq!((i4, f4), (1, Flip::Identity));
}

#[test]
fn canonicalize_pre_flipped_agrees() {
    // canonicalize(apply(f, t), none) picks the same stored index as
    // canonicalize(t, f), from the same starting state.
    for f in [Flip::Horizontal, Flip::Vertical, Flip::Both] {
        let t = tile(grid(3));
        let mut reg_a = TileRegistry::new();
        reg_a.canonicalize(t, Flip::Identity);
        let mut reg_b = TileRegistry::new();
        reg_b.canonicalize(t, Flip::Identity);
        let (ia, _) = reg_a.canonicalize(tile(f.apply_to_pixels(t.pixels)), Flip::Identity);
        let (ib, _) = reg_b.canonicalize(t, f);
        assert_eq!(ia, ib);
        assert_eq!(ia, 0);
    }
}

#[test]
fn half_turn_symmetric_tile_is_marked_both_flippable() {
    // A pattern identical under a 180-degree flip: registering it and then
    // querying its flipped form yields the same stored index, reached
    // through the Both variant, so both legal-flip bits are learned.
    let mut g = [[0u8; 8]; 8];
    for y in 0..8 {
        for x in 0..8 {
            g[y][x] = ((y * 8 + x) % 3) as u8;
        }
    }
    let sym = {
        let mut s = g;
        for y in 0..8 {
            for x in 0..8 {
                // Symmetrize: combine the pattern with its half turn.
                s[y][x] = g[y][x].max(g[7 - y][7 - x]);
            }
        }
        s
    };
    assert_eq!(Flip::Both.apply_to_pixels(sym), sym);
    let mut reg = TileRegistry::new();
    let (i0, _) = reg.canonicalize(tile(sym), Flip::Identity);
    let (i1, f1) = reg.canonicalize(tile(Flip::Both.apply_to_pixels(sym)), Flip::Identity);
    assert_eq!(i0, i1);
    assert_eq!(f1, Flip::Both);
    assert!(reg.h_flippable[i0]);
    assert!(reg.v_flippable[i0]);
}

#[test]
fn finalize_pads_to_a_multiple_of_sixteen() {
    let mut reg = TileRegistry::new();
    let (_, _) = reg.canonicalize(tile(grid(1)), Flip::Identity);
    let (i1, _) = reg.canonicalize(tile(grid(2)), Flip::Horizontal);
    let tiles = reg.finalize_tiles();
    assert_eq!(tiles.len(), 16);
    assert_eq!(tiles[0].pixels, grid(1));
    // The second tile was stored in its mirrored (queried) form.
    assert_eq!(tiles[i1].pixels, Flip::Horizontal.apply_to_pixels(grid(2)));
    // Padding entries are blank.
    assert_eq!(tiles[15].pixels, [[0u8; 8]; 8]);
    assert!(!tiles[15].priority);
}

#[test]
fn flip_marks_only_used_directions() {
    let mut reg = TileRegistry::new();
    let t = tile(grid(5));
    reg.canonicalize(t, Flip::Identity);
    assert!(!reg.h_flippable[0] && !reg.v_flippable[0]);
    reg.canonicalize(t, Flip::Horizontal);
    assert!(reg.h_flippable[0] && !reg.v_flippable[0]);
    reg.canonicalize(t, Flip::Vertical);
    assert!(reg.h_flippable[0] && reg.v_flippable[0]);
}
