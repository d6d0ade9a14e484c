//! The tile canonicalizer: per palette, collapses tiles that are identical
//! under a flip into one stored entry, and records which flips the ROM
//! content actually uses to reach each stored tile.
//!
//! Every stored tile owns four lookup keys, one per flip variant of its pixel
//! pattern. A query pattern that matches any variant resolves to that stored
//! tile together with the flip that reaches it; an unmatched pattern is
//! allocated as a new stored tile. Patterns of distinct stored tiles never
//! collide: a colliding variant would itself have been found at allocation.

use vstd::prelude::*;

use crate::flip::{
    flip_compose, flip_from_code, flip_h, flip_v, grid_view, grid_wf, lemma_flip_grid_compose,
    lemma_flip_grid_identity, lemma_flip_grid_involution, lemma_flip_grid_wf, spec_flip_grid,
    Flip, PixelGrid,
};
use crate::state::Tile;

verus! {

/// The fixed order in which a new tile's four flip-variant keys are added.
/// Later entries win a lookup, so a pattern symmetric under some flip
/// resolves to the largest flip that reaches it.
pub open spec fn flip_order(j: int) -> Flip {
    flip_from_code(j)
}

/// One lookup key: a pixel pattern, the stored tile it belongs to, and the
/// flip that takes that stored tile to this pattern.
pub struct KeyEntry {
    pub pixels: PixelGrid,
    pub index: usize,
    pub flip: Flip,
}

/// The position of the last key whose pattern equals `q`, if any. The last
/// match wins, as the newest insertion into a keyed table would.
pub open spec fn spec_find_key(keys: Seq<KeyEntry>, q: Seq<Seq<u8>>) -> Option<int>
    decreases keys.len(),
{
    if keys.len() == 0 {
        None
    } else if grid_view(keys.last().pixels) == q {
        Some(keys.len() - 1)
    } else {
        spec_find_key(keys.drop_last(), q)
    }
}

/// What a found position means, and what `None` rules out.
pub proof fn lemma_find_key_properties(keys: Seq<KeyEntry>, q: Seq<Seq<u8>>)
    ensures
        (match spec_find_key(keys, q) {
            Some(j) => 0 <= j < keys.len() && grid_view(keys[j].pixels) == q && (forall|j2: int|
                j < j2 < keys.len() ==> grid_view(#[trigger] keys[j2].pixels) != q),
            None => forall|j: int| 0 <= j < keys.len() ==> grid_view(#[trigger] keys[j].pixels) != q,
        }),
    decreases keys.len(),
{
    if keys.len() > 0 {
        if grid_view(keys.last().pixels) != q {
            lemma_find_key_properties(keys.drop_last(), q);
            assert forall|j: int| 0 <= j < keys.len() - 1 implies keys.drop_last()[j]
                == keys[j] by {}
        }
    }
}

/// The per-palette registry of stored tiles, their lookup keys, and the
/// legal-flip bits learned from the ROM content.
pub struct TileRegistry {
    pub tiles: Vec<Tile>,
    pub keys: Vec<KeyEntry>,
    pub h_flippable: Vec<bool>,
    pub v_flippable: Vec<bool>,
}

impl TileRegistry {
    /// Every stored tile owns exactly the four keys at positions
    /// `4 * index ..`, in `flip_order`, each carrying the corresponding flip
    /// variant of the stored pattern; patterns of distinct stored tiles never
    /// collide.
    pub open spec fn wf(self) -> bool {
        &&& self.keys.len() == 4 * self.tiles.len()
        &&& self.h_flippable.len() == self.tiles.len()
        &&& self.v_flippable.len() == self.tiles.len()
        &&& forall|j: int|
            0 <= j < self.keys.len() ==> (#[trigger] self.keys[j].index) == j / 4
        &&& forall|j: int|
            0 <= j < self.keys.len() ==> (#[trigger] self.keys[j].flip) == flip_order(j % 4)
        &&& forall|j: int|
            0 <= j < self.keys.len() ==> grid_view(#[trigger] self.keys[j].pixels)
                == spec_flip_grid(flip_order(j % 4), grid_view(self.tiles[j / 4].pixels))
        &&& forall|j1: int, j2: int|
            0 <= j1 < self.keys.len() && 0 <= j2 < self.keys.len() && j1 / 4 != j2 / 4
                ==> grid_view(#[trigger] self.keys[j1].pixels) != grid_view(
                #[trigger] self.keys[j2].pixels,
            )
    }

    /// An empty registry.
    pub fn new() -> (r: TileRegistry)
        ensures
            r.wf(),
            r.tiles@.len() == 0,
            r.keys@.len() == 0,
    {
        TileRegistry { tiles: Vec::new(), keys: Vec::new(), h_flippable: Vec::new(), v_flippable: Vec::new() }
    }
}

/// A pixel grid's view always has the 8x8 shape.
pub proof fn lemma_grid_view_wf(p: PixelGrid)
    ensures
        grid_wf(grid_view(p)),
{
}

/// Every flip occurs in `flip_order`, at the position given here.
pub open spec fn flip_order_index(f: Flip) -> int {
    if f == Flip::Identity {
        0
    } else if f == Flip::Horizontal {
        1
    } else if f == Flip::Vertical {
        2
    } else {
        3
    }
}

impl TileRegistry {
    /// The position of the last key matching the pattern, if any.
    fn find_key(&self, q: &PixelGrid) -> (r: Option<usize>)
        ensures
            (match spec_find_key(self.keys@, grid_view(*q)) {
                Some(j) => r matches Some(u) && u as int == j,
                None => r is None,
            }),
    {
        let mut m = self.keys.len();
        proof {
            assert(self.keys@.take(m as int) =~= self.keys@);
        }
        while m > 0
            invariant
                m <= self.keys.len(),
                spec_find_key(self.keys@, grid_view(*q)) == spec_find_key(
                    self.keys@.take(m as int),
                    grid_view(*q),
                ),
            decreases m,
        {
            proof {
                assert(self.keys@.take(m as int).last() == self.keys@[m - 1]);
            }
            if pixels_equal(&self.keys[m - 1].pixels, q) {
                return Some(m - 1);
            }
            proof {
                assert(self.keys@.take(m as int).drop_last() =~= self.keys@.take(m as int - 1));
            }
            m = m - 1;
        }
        proof {
            assert(self.keys@.take(0) =~= Seq::<KeyEntry>::empty());
        }
        None
    }

    /// Resolves the tile's pattern, mirrored by `desired`, to a stored tile
    /// and the flip that reaches it, allocating a new stored tile (and its
    /// four flip-variant keys) when no existing variant matches. A hit
    /// through a mirroring flip marks the stored tile's legal-flip bits.
    #[verifier::rlimit(60)]
    pub fn canonicalize(&mut self, tile: Tile, desired: Flip) -> (r: (usize, Flip))
        requires
            old(self).wf(),
        ensures
            final(self).wf(),
            r.0 < final(self).tiles@.len(),
            spec_flip_grid(r.1, grid_view(final(self).tiles@[r.0 as int].pixels))
                == spec_flip_grid(desired, grid_view(tile.pixels)),
            ({
                let q = spec_flip_grid(desired, grid_view(tile.pixels));
                match spec_find_key(old(self).keys@, q) {
                    Some(j) => {
                        &&& r.0 == old(self).keys@[j].index
                        &&& r.1 == old(self).keys@[j].flip
                        &&& final(self).tiles@ == old(self).tiles@
                        &&& final(self).keys@ == old(self).keys@
                        &&& final(self).h_flippable@ == (if flip_h(old(self).keys@[j].flip) {
                            old(self).h_flippable@.update(r.0 as int, true)
                        } else {
                            old(self).h_flippable@
                        })
                        &&& final(self).v_flippable@ == (if flip_v(old(self).keys@[j].flip) {
                            old(self).v_flippable@.update(r.0 as int, true)
                        } else {
                            old(self).v_flippable@
                        })
                    },
                    None => {
                        &&& r.0 == old(self).tiles@.len()
                        &&& r.1 == Flip::Identity
                        &&& final(self).tiles@.len() == old(self).tiles@.len() + 1
                        &&& forall|i: int|
                            0 <= i < old(self).tiles@.len() ==> final(self).tiles@[i] == old(
                                self,
                            ).tiles@[i]
                        &&& grid_view(final(self).tiles@.last().pixels) == q
                        &&& final(self).tiles@.last().priority == tile.priority
                        &&& final(self).tiles@.last().collision == tile.collision
                        &&& !final(self).tiles@.last().h_flippable
                        &&& !final(self).tiles@.last().v_flippable
                        &&& final(self).keys@.len() == old(self).keys@.len() + 4
                        &&& forall|j: int|
                            0 <= j < old(self).keys@.len() ==> final(self).keys@[j] == old(
                                self,
                            ).keys@[j]
                        &&& final(self).h_flippable@ == old(self).h_flippable@.push(false)
                        &&& final(self).v_flippable@ == old(self).v_flippable@.push(false)
                    },
                }
            }),
    {
        let flipped = desired.apply_to_pixels(tile.pixels);
        let ghost q = grid_view(flipped);
        match self.find_key(&flipped) {
            Some(j) => {
                proof {
                    lemma_find_key_properties(self.keys@, q);
                }
                let idx = self.keys[j].index;
                let f = self.keys[j].flip;
                assert(idx < self.tiles.len()) by {
                    assert(self.keys@[j as int].index == j as int / 4);
                }
                match f {
                    Flip::Identity => {},
                    Flip::Horizontal => {
                        self.h_flippable.set(idx, true);
                    },
                    Flip::Vertical => {
                        self.v_flippable.set(idx, true);
                    },
                    Flip::Both => {
                        self.h_flippable.set(idx, true);
                        self.v_flippable.set(idx, true);
                    },
                }
                (idx, f)
            },
            _ => {
                proof {
                    lemma_find_key_properties(self.keys@, q);
                }
                let idx = self.tiles.len();
                let stored = Tile {
                    priority: tile.priority,
                    collision: tile.collision,
                    h_flippable: false,
                    v_flippable: false,
                    pixels: flipped,
                };
                self.tiles.push(stored);
                self.h_flippable.push(false);
                self.v_flippable.push(false);
                let k0 = Flip::Identity.apply_to_pixels(flipped);
                let k1 = Flip::Horizontal.apply_to_pixels(flipped);
                let k2 = Flip::Vertical.apply_to_pixels(flipped);
                let k3 = Flip::Both.apply_to_pixels(flipped);
                self.keys.push(KeyEntry { pixels: k0, index: idx, flip: Flip::Identity });
                self.keys.push(KeyEntry { pixels: k1, index: idx, flip: Flip::Horizontal });
                self.keys.push(KeyEntry { pixels: k2, index: idx, flip: Flip::Vertical });
                self.keys.push(KeyEntry { pixels: k3, index: idx, flip: Flip::Both });
                proof {
                    lemma_grid_view_wf(tile.pixels);
                    lemma_flip_grid_identity(q);
                    self.lemma_insert_wf(*old(self), q, idx as int);
                }
                (idx, Flip::Identity)
            },
        }
    }

    /// After an unmatched pattern `q` and its four variants are appended, the
    /// registry is well-formed again: a variant of `q` colliding with an
    /// older key would make `q` itself a variant of that key's stored tile,
    /// and so an older key too.
    proof fn lemma_insert_wf(self, prev: TileRegistry, q: Seq<Seq<u8>>, idx: int)
        requires
            prev.wf(),
            grid_wf(q),
            spec_find_key(prev.keys@, q) is None,
            idx == prev.tiles@.len(),
            self.tiles@.len() == prev.tiles@.len() + 1,
            forall|i: int| 0 <= i < prev.tiles@.len() ==> self.tiles@[i] == prev.tiles@[i],
            grid_view(self.tiles@.last().pixels) == q,
            self.h_flippable@ == prev.h_flippable@.push(false),
            self.v_flippable@ == prev.v_flippable@.push(false),
            self.keys@.len() == prev.keys@.len() + 4,
            forall|j: int| 0 <= j < prev.keys@.len() ==> self.keys@[j] == prev.keys@[j],
            forall|j: int|
                prev.keys@.len() <= j < self.keys@.len() ==> (#[trigger] self.keys@[j].index)
                    == idx && self.keys@[j].flip == flip_order(j % 4) && grid_view(
                    self.keys@[j].pixels,
                ) == spec_flip_grid(flip_order(j % 4), q),
        ensures
            self.wf(),
    {
        lemma_find_key_properties(prev.keys@, q);
        let old_len = prev.keys@.len() as int;
        assert forall|j: int| 0 <= j < self.keys@.len() implies (#[trigger] self.keys@[j].index)
            == j / 4 by {
            if j < old_len {
                assert(self.keys@[j] == prev.keys@[j]);
                assert(prev.keys@[j].index == j / 4);
            } else {
                assert(self.keys@[j].index == idx);
                assert(j / 4 == idx);
            }
        }
        assert forall|j: int| 0 <= j < self.keys@.len() implies (#[trigger] self.keys@[j].flip)
            == flip_order(j % 4) by {
            if j < old_len {
                assert(self.keys@[j] == prev.keys@[j]);
                assert(self.keys@[j].index == j / 4);
                assert(prev.keys@[j].flip == flip_order(j % 4));
            } else {
                assert(self.keys@[j].index == idx);
            }
        }
        assert forall|j: int| 0 <= j < self.keys@.len() implies grid_view(
            #[trigger] self.keys@[j].pixels,
        ) == spec_flip_grid(flip_order(j % 4), grid_view(self.tiles@[j / 4].pixels)) by {
            if j < old_len {
                assert(self.keys@[j] == prev.keys@[j]);
                assert(self.keys@[j].index == j / 4);
                assert(grid_view(prev.keys@[j].pixels) == spec_flip_grid(
                    flip_order(j % 4),
                    grid_view(prev.tiles@[j / 4].pixels),
                ));
                assert(self.tiles@[j / 4] == prev.tiles@[j / 4]);
            } else {
                assert(self.keys@[j].index == idx);
                assert(j / 4 == idx);
                assert(self.tiles@[j / 4] == self.tiles@.last());
            }
        }
        assert forall|j1: int, j2: int|
            0 <= j1 < self.keys@.len() && 0 <= j2 < self.keys@.len() && j1 / 4
                != j2 / 4 implies grid_view(#[trigger] self.keys@[j1].pixels) != grid_view(
            #[trigger] self.keys@[j2].pixels,
        ) by {
            if j1 < old_len && j2 < old_len {
                assert(grid_view(prev.keys@[j1].pixels) != grid_view(prev.keys@[j2].pixels));
            } else if j1 < old_len || j2 < old_len {
                let jo = if j1 < old_len {
                    j1
                } else {
                    j2
                };
                let jn = if j1 < old_len {
                    j2
                } else {
                    j1
                };
                // Suppose the old key `jo` matched the new variant `jn`.
                if grid_view(self.keys@[jo].pixels) == grid_view(self.keys@[jn].pixels) {
                    let g = flip_order(jn % 4);
                    let fo = flip_order(jo % 4);
                    let t1 = grid_view(prev.tiles@[jo / 4].pixels);
                    lemma_grid_view_wf(prev.tiles@[jo / 4].pixels);
                    assert(self.keys@[jn].index == idx);
                    assert(self.keys@[jo] == prev.keys@[jo]);
                    assert(grid_view(prev.keys@[jo].pixels) == spec_flip_grid(fo, t1));
                    assert(grid_view(self.keys@[jn].pixels) == spec_flip_grid(g, q));
                    // The old key `jo` holds the `g` variant of `q`, so `q`
                    // is itself a variant of the stored tile behind `jo`.
                    lemma_flip_grid_involution(g, q);
                    assert(spec_flip_grid(g, spec_flip_grid(fo, t1)) == spec_flip_grid(
                        g,
                        spec_flip_grid(g, q),
                    ));
                    lemma_flip_grid_compose(g, fo, t1);
                    assert(q == spec_flip_grid(flip_compose(g, fo), t1));
                    // That variant is itself one of the old keys.
                    let jq = 4 * (jo / 4) + flip_order_index(flip_compose(g, fo));
                    assert(flip_order(jq % 4) == flip_compose(g, fo));
                    assert(jq / 4 == jo / 4);
                    assert(0 <= jq < old_len);
                    assert(grid_view(prev.keys@[jq].pixels) == q);
                    assert(false);
                }
            }
        }
    }
}

/// A tile with no flags set and every pixel zero, as the padding entries of
/// a finalized tile list are.
pub open spec fn spec_blank_tile(t: Tile) -> bool {
    &&& !t.priority
    &&& t.collision == 0
    &&& !t.h_flippable
    &&& !t.v_flippable
    &&& forall|y: int, x: int| 0 <= y < 8 && 0 <= x < 8 ==> grid_view(t.pixels)[y][x] == 0
}

impl TileRegistry {
    /// The stored tiles with the learned legal-flip bits merged in, padded
    /// with blank tiles up to a multiple of 16.
    pub fn finalize_tiles(&self) -> (r: Vec<Tile>)
        requires
            self.wf(),
            self.tiles@.len() + 15 <= usize::MAX,
        ensures
            r@.len() == ((self.tiles@.len() + 15) / 16) * 16,
            forall|i: int|
                0 <= i < self.tiles@.len() ==> {
                    let t = #[trigger] r@[i];
                    &&& t.priority == self.tiles@[i].priority
                    &&& t.collision == self.tiles@[i].collision
                    &&& t.pixels == self.tiles@[i].pixels
                    &&& t.h_flippable == self.h_flippable@[i]
                    &&& t.v_flippable == self.v_flippable@[i]
                },
            forall|i: int| self.tiles@.len() <= i < r@.len() ==> spec_blank_tile(#[trigger] r@[i]),
    {
        let n = self.tiles.len();
        let mut r: Vec<Tile> = Vec::new();
        for i in 0..n
            invariant
                n == self.tiles@.len(),
                self.h_flippable@.len() == n,
                self.v_flippable@.len() == n,
                r@.len() == i,
                forall|k: int|
                    0 <= k < i ==> {
                        let t = #[trigger] r@[k];
                        &&& t.priority == self.tiles@[k].priority
                        &&& t.collision == self.tiles@[k].collision
                        &&& t.pixels == self.tiles@[k].pixels
                        &&& t.h_flippable == self.h_flippable@[k]
                        &&& t.v_flippable == self.v_flippable@[k]
                    },
        {
            let t = self.tiles[i];
            r.push(
                Tile {
                    h_flippable: self.h_flippable[i],
                    v_flippable: self.v_flippable[i],
                    ..t
                },
            );
        }
        let target = (n + 15) / 16 * 16;
        assert(n <= target);
        while r.len() < target
            invariant
                n == self.tiles@.len(),
                self.h_flippable@.len() == n,
                self.v_flippable@.len() == n,
                n <= r@.len() <= target,
                forall|k: int|
                    0 <= k < n ==> {
                        let t = #[trigger] r@[k];
                        &&& t.priority == self.tiles@[k].priority
                        &&& t.collision == self.tiles@[k].collision
                        &&& t.pixels == self.tiles@[k].pixels
                        &&& t.h_flippable == self.h_flippable@[k]
                        &&& t.v_flippable == self.v_flippable@[k]
                    },
                forall|k: int| n <= k < r@.len() ==> spec_blank_tile(#[trigger] r@[k]),
            decreases target - r@.len(),
        {
            r.push(Tile::default());
        }
        r
    }
}

/// Canonicalizing an already-flipped tile with no further flip queries the
/// same pattern as canonicalizing the bare tile with that flip does, so on
/// one registry state both calls resolve to the same stored entry.
pub proof fn lemma_pre_flip_queries_same_pattern(t: PixelGrid, f: Flip)
    ensures
        spec_flip_grid(Flip::Identity, spec_flip_grid(f, grid_view(t))) == spec_flip_grid(
            f,
            grid_view(t),
        ),
{
    lemma_grid_view_wf(t);
    lemma_flip_grid_wf(f, grid_view(t));
    lemma_flip_grid_identity(spec_flip_grid(f, grid_view(t)));
}

/// Once some key holds a pattern, every flip variant of that pattern
/// resolves to the same stored tile. In particular a tile registered once
/// and queried again under a 180-degree flip yields the index it was given,
/// and a tile self-identical under that flip got its key overwritten by the
/// `Both` variant, so it is legally marked flippable both ways.
pub proof fn lemma_variant_resolves_to_same_index(reg: TileRegistry, j: int, g: Flip)
    requires
        reg.wf(),
        0 <= j < reg.keys@.len(),
    ensures
        (spec_find_key(reg.keys@, spec_flip_grid(g, grid_view(reg.keys@[j].pixels)))
            matches Some(j2) && 0 <= j2 < reg.keys@.len() && reg.keys@[j2].index
            == reg.keys@[j].index),
{
    let q = grid_view(reg.keys@[j].pixels);
    let fo = flip_order(j % 4);
    let t1 = grid_view(reg.tiles@[j / 4].pixels);
    lemma_grid_view_wf(reg.tiles@[j / 4].pixels);
    assert(reg.keys@[j].index == j / 4);
    assert(q == spec_flip_grid(fo, t1));
    lemma_flip_grid_compose(g, fo, t1);
    let gc = flip_compose(g, fo);
    let jq = 4 * (j / 4) + flip_order_index(gc);
    assert(jq / 4 == j / 4);
    assert(flip_order(jq % 4) == gc);
    assert(0 <= jq < reg.keys@.len());
    assert(reg.keys@[jq].index == jq / 4);
    assert(grid_view(reg.keys@[jq].pixels) == spec_flip_grid(gc, t1));
    assert(spec_flip_grid(g, q) == spec_flip_grid(gc, t1));
    lemma_find_key_properties(reg.keys@, spec_flip_grid(g, q));
    match spec_find_key(reg.keys@, spec_flip_grid(g, q)) {
        Some(j2) => {
            assert(grid_view(reg.keys@[j2].pixels) == grid_view(reg.keys@[jq].pixels));
            if j2 / 4 != jq / 4 {
                assert(grid_view(reg.keys@[j2].pixels) != grid_view(reg.keys@[jq].pixels));
            }
            assert(reg.keys@[j2].index == j2 / 4);
        },
        _ => {
            assert(grid_view(reg.keys@[jq].pixels) != spec_flip_grid(g, q));
        },
    }
}

/// Whether two pixel grids hold the same pattern.
pub fn pixels_equal(a: &PixelGrid, b: &PixelGrid) -> (r: bool)
    ensures
        r == (grid_view(*a) == grid_view(*b)),
{
    for y in 0..8usize
        invariant
            forall|yy: int, xx: int|
                0 <= yy < y && 0 <= xx < 8 ==> a@[yy]@[xx] == b@[yy]@[xx],
    {
        for x in 0..8usize
            invariant
                0 <= y < 8,
                forall|yy: int, xx: int|
                    0 <= yy < y && 0 <= xx < 8 ==> a@[yy]@[xx] == b@[yy]@[xx],
                forall|xx: int| 0 <= xx < x ==> a@[y as int]@[xx] == b@[y as int]@[xx],
        {
            if a[y][x] != b[y][x] {
                proof {
                    assert(grid_view(*a)[y as int][x as int] != grid_view(*b)[y as int][x as int]);
                }
                return false;
            }
        }
    }
    assert(grid_view(*a) =~~= grid_view(*b));
    true
}

} // verus!
