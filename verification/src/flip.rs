//! The four-element flip symmetry group on 8x8 pixel tiles, and its action on
//! pixel grids. The canonical-form deduplication of tiles rests on the little
//! group theory proved here: composition, identity and involution.

use vstd::prelude::*;

verus! {

/// An 8x8 grid of 3-bit color indices, row-major.
pub type PixelGrid = [[u8; 8]; 8];

/// A flip state: none, horizontal, vertical, or both (a 180-degree rotation).
#[derive(Copy, Clone, Debug, PartialEq, Eq, Structural)]
pub enum Flip {
    Identity,
    Horizontal,
    Vertical,
    Both,
}

/// Whether `f` mirrors left-right.
pub open spec fn flip_h(f: Flip) -> bool {
    f == Flip::Horizontal || f == Flip::Both
}

/// Whether `f` mirrors top-bottom.
pub open spec fn flip_v(f: Flip) -> bool {
    f == Flip::Vertical || f == Flip::Both
}

/// The flip with the given mirror components.
pub open spec fn flip_from_bits(h: bool, v: bool) -> Flip {
    if h && v {
        Flip::Both
    } else if h {
        Flip::Horizontal
    } else if v {
        Flip::Vertical
    } else {
        Flip::Identity
    }
}

/// The flip named by a 2-bit code: 0 is none, 1 horizontal, 2 vertical,
/// 3 both.
pub open spec fn flip_from_code(c: int) -> Flip {
    if c == 0 {
        Flip::Identity
    } else if c == 1 {
        Flip::Horizontal
    } else if c == 2 {
        Flip::Vertical
    } else {
        Flip::Both
    }
}

/// The composition of two flips: mirror components combine by exclusive or.
pub open spec fn flip_compose(f: Flip, g: Flip) -> Flip {
    flip_from_bits(flip_h(f) != flip_h(g), flip_v(f) != flip_v(g))
}

/// The mathematical view of a `PixelGrid`: a sequence of 8 rows of 8 pixels.
pub open spec fn grid_view(p: PixelGrid) -> Seq<Seq<u8>> {
    Seq::new(8, |y: int| Seq::new(8, |x: int| p@[y]@[x]))
}

/// An 8x8 grid of rows of 8 pixels, as the view of a `PixelGrid` is.
pub open spec fn grid_wf(p: Seq<Seq<u8>>) -> bool {
    &&& p.len() == 8
    &&& forall|y: int| 0 <= y < 8 ==> (#[trigger] p[y]).len() == 8
}

/// The grid `p` mirrored according to `f`.
pub open spec fn spec_flip_grid(f: Flip, p: Seq<Seq<u8>>) -> Seq<Seq<u8>> {
    Seq::new(
        8,
        |y: int|
            Seq::new(
                8,
                |x: int|
                    p[if flip_v(f) {
                        7 - y
                    } else {
                        y
                    }][if flip_h(f) {
                        7 - x
                    } else {
                        x
                    }],
            ),
    )
}

/// Mirroring preserves the grid shape.
pub proof fn lemma_flip_grid_wf(f: Flip, p: Seq<Seq<u8>>)
    ensures
        grid_wf(spec_flip_grid(f, p)),
{
}

/// The flip without mirror components leaves every grid unchanged.
pub proof fn lemma_flip_grid_identity(p: Seq<Seq<u8>>)
    requires
        grid_wf(p),
    ensures
        spec_flip_grid(Flip::Identity, p) == p,
{
    assert(spec_flip_grid(Flip::Identity, p) =~~= p);
}

/// Mirroring by `f` after mirroring by `g` is mirroring by their composition.
pub proof fn lemma_flip_grid_compose(f: Flip, g: Flip, p: Seq<Seq<u8>>)
    requires
        grid_wf(p),
    ensures
        spec_flip_grid(f, spec_flip_grid(g, p)) == spec_flip_grid(flip_compose(f, g), p),
{
    assert(spec_flip_grid(f, spec_flip_grid(g, p)) =~~= spec_flip_grid(flip_compose(f, g), p));
}

/// Every flip is its own inverse.
pub proof fn lemma_flip_grid_involution(f: Flip, p: Seq<Seq<u8>>)
    requires
        grid_wf(p),
    ensures
        spec_flip_grid(f, spec_flip_grid(f, p)) == p,
{
    lemma_flip_grid_compose(f, f, p);
    lemma_flip_grid_identity(p);
}

impl Flip {
    /// The flip reached from `self` by one further left-right mirror.
    pub fn flip_horizontally(self) -> (r: Flip)
        ensures
            r == flip_compose(self, Flip::Horizontal),
    {
        match self {
            Flip::Identity => Flip::Horizontal,
            Flip::Horizontal => Flip::Identity,
            Flip::Vertical => Flip::Both,
            Flip::Both => Flip::Vertical,
        }
    }

    /// The flip reached from `self` by one further top-bottom mirror.
    pub fn flip_vertically(self) -> (r: Flip)
        ensures
            r == flip_compose(self, Flip::Vertical),
    {
        match self {
            Flip::Identity => Flip::Vertical,
            Flip::Horizontal => Flip::Both,
            Flip::Vertical => Flip::Identity,
            Flip::Both => Flip::Horizontal,
        }
    }

    /// The grid mirrored by `self`.
    pub fn apply_to_pixels(self, pixels: PixelGrid) -> (r: PixelGrid)
        ensures
            grid_view(r) == spec_flip_grid(self, grid_view(pixels)),
    {
        let hf = match self {
            Flip::Horizontal | Flip::Both => true,
            _ => false,
        };
        let vf = match self {
            Flip::Vertical | Flip::Both => true,
            _ => false,
        };
        let mut out: PixelGrid = [[0; 8]; 8];
        for y in 0..8usize
            invariant
                forall|yy: int, xx: int|
                    0 <= yy < y && 0 <= xx < 8 ==> out@[yy]@[xx] == spec_flip_grid(
                        self,
                        grid_view(pixels),
                    )[yy][xx],
                hf == flip_h(self),
                vf == flip_v(self),
        {
            for x in 0..8usize
                invariant
                    0 <= y < 8,
                    forall|yy: int, xx: int|
                        0 <= yy < y && 0 <= xx < 8 ==> out@[yy]@[xx] == spec_flip_grid(
                            self,
                            grid_view(pixels),
                        )[yy][xx],
                    forall|xx: int|
                        0 <= xx < x ==> out@[y as int]@[xx] == spec_flip_grid(
                            self,
                            grid_view(pixels),
                        )[y as int][xx],
                    hf == flip_h(self),
                    vf == flip_v(self),
            {
                let sy: usize = if vf {
                    7 - y
                } else {
                    y
                };
                let sx: usize = if hf {
                    7 - x
                } else {
                    x
                };
                out[y][x] = pixels[sy][sx];
            }
        }
        assert(grid_view(out) =~~= spec_flip_grid(self, grid_view(pixels)));
        out
    }
}

} // verus!
