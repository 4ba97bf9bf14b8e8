//! The stone-and-diamond cell tier: adds a non-occluding collectible.

use vstd::prelude::*;
use crate::cell::{back_spec, DisplayCell};
use crate::grid::{cell_at, VoxelGrid};

verus! {

/// A cell of the stone-and-diamond tier: besides stone and empty space it
/// can hold a diamond, which draws a glyph but does not occlude the layers
/// behind it.
#[derive(Clone, Copy)]
pub enum StoneDiamondCell {
    Empty,
    Stone,
    Diamond,
}

impl DisplayCell for StoneDiamondCell {
    open spec fn spec_foreground(self) -> Option<u32> {
        match self {
            StoneDiamondCell::Stone => Some('#' as u32),
            StoneDiamondCell::Diamond => Some(0x2666),  // diamond suit symbol
            StoneDiamondCell::Empty => None,
        }
    }

    open spec fn spec_floor(self) -> Option<u32> {
        match self {
            StoneDiamondCell::Stone => Some('.' as u32),
            StoneDiamondCell::Diamond => None,
            StoneDiamondCell::Empty => None,
        }
    }

    open spec fn spec_color_in_background(self) -> Option<u16> {
        match self {
            StoneDiamondCell::Stone => Some(243),  // medium grey
            StoneDiamondCell::Diamond => Some(23),  // dark cyan
            StoneDiamondCell::Empty => None,
        }
    }

    open spec fn spec_color_in_foreground(self) -> u16 {
        match self {
            StoneDiamondCell::Stone => 254,  // light grey
            StoneDiamondCell::Diamond => 51,  // cyan
            StoneDiamondCell::Empty => 0,  // never consulted: Empty draws no glyph
        }
    }

    open spec fn spec_occludes_background(self) -> bool {
        match self {
            StoneDiamondCell::Stone => true,
            StoneDiamondCell::Diamond => false,
            StoneDiamondCell::Empty => false,
        }
    }

    fn foreground(&self) -> (r: Option<u32>) {
        match *self {
            StoneDiamondCell::Stone => Some('#' as u32),
            StoneDiamondCell::Diamond => Some(0x2666),
            StoneDiamondCell::Empty => None,
        }
    }

    fn floor(&self) -> (r: Option<u32>) {
        match *self {
            StoneDiamondCell::Stone => Some('.' as u32),
            StoneDiamondCell::Diamond => None,
            StoneDiamondCell::Empty => None,
        }
    }

    fn color_in_background(&self) -> (r: Option<u16>) {
        match *self {
            StoneDiamondCell::Stone => Some(243),
            StoneDiamondCell::Diamond => Some(23),
            StoneDiamondCell::Empty => None,
        }
    }

    fn color_in_foreground(&self) -> (r: u16) {
        match *self {
            StoneDiamondCell::Stone => 254,
            StoneDiamondCell::Diamond => 51,
            StoneDiamondCell::Empty => 0,
        }
    }

    fn occludes_background(&self) -> (r: bool) {
        match *self {
            StoneDiamondCell::Stone => true,
            StoneDiamondCell::Diamond => false,
            StoneDiamondCell::Empty => false,
        }
    }
}

/// Scatters `numstones` stones and then `numdiamonds` diamonds over the
/// grid, each at an independently random coordinate within the given
/// bounds; a later placement silently overwrites an earlier one at the same
/// coordinate, so the grid may end up with fewer entries than were asked
/// for. Every entry of the result is an in-bounds stone or diamond; the
/// grid is non-empty whenever a placement was asked for, and the last
/// diamond placed is never overwritten.
pub fn random_diamond_map(
    numstones: usize,
    numdiamonds: usize,
    height: u8,
    width: u8,
    depth: u8,
) -> (m: VoxelGrid<StoneDiamondCell>)
    requires
        height > 0,
        width > 0,
        depth > 0,
    ensures
        forall|p: (u8, u8, u8)| #[trigger]
            m@.dom().contains(p) ==> p.0 < height && p.1 < width && p.2 < depth && (m@[p]
                == StoneDiamondCell::Stone || m@[p] == StoneDiamondCell::Diamond),
        numstones == 0 && numdiamonds == 0 ==> m@ == Map::<(u8, u8, u8), StoneDiamondCell>::empty(),
        numstones + numdiamonds > 0 ==> exists|p: (u8, u8, u8)| #[trigger] m@.dom().contains(p),
        numdiamonds > 0 ==> exists|p: (u8, u8, u8)| #[trigger]
            m@.dom().contains(p) && m@[p] == StoneDiamondCell::Diamond,
        m@.dom().finite(),
        m@.len() <= numstones + numdiamonds,
{
    let mut m = VoxelGrid::<StoneDiamondCell>::new();
    let mut i: usize = 0;
    while i < numstones
        invariant
            i <= numstones,
            height > 0,
            width > 0,
            depth > 0,
            forall|p: (u8, u8, u8)| #[trigger]
                m@.dom().contains(p) ==> p.0 < height && p.1 < width && p.2 < depth && m@[p]
                    == StoneDiamondCell::Stone,
            i == 0 ==> m@ == Map::<(u8, u8, u8), StoneDiamondCell>::empty(),
            i > 0 ==> exists|p: (u8, u8, u8)| #[trigger] m@.dom().contains(p),
            m@.len() <= i,
        decreases numstones - i,
    {
        let k = (
            crate::rng::random_u8() % height,
            crate::rng::random_u8() % width,
            crate::rng::random_u8() % depth,
        );
        let ghost before = m@;
        proof {
            m.lemma_view_finite();
        }
        m.insert(k.0, k.1, k.2, StoneDiamondCell::Stone);
        proof {
            assert(m@.dom().contains((k.0, k.1, k.2)));
            vstd::set::axiom_set_insert_len(before.dom(), (k.0, k.1, k.2));
        }
        i = i + 1;
    }
    let mut j: usize = 0;
    while j < numdiamonds
        invariant
            j <= numdiamonds,
            height > 0,
            width > 0,
            depth > 0,
            forall|p: (u8, u8, u8)| #[trigger]
                m@.dom().contains(p) ==> p.0 < height && p.1 < width && p.2 < depth && (m@[p]
                    == StoneDiamondCell::Stone || m@[p] == StoneDiamondCell::Diamond),
            numstones == 0 && j == 0 ==> m@ == Map::<(u8, u8, u8), StoneDiamondCell>::empty(),
            numstones > 0 || j > 0 ==> exists|p: (u8, u8, u8)| #[trigger] m@.dom().contains(p),
            j > 0 ==> exists|p: (u8, u8, u8)| #[trigger]
                m@.dom().contains(p) && m@[p] == StoneDiamondCell::Diamond,
            m@.len() <= numstones + j,
        decreases numdiamonds - j,
    {
        let k = (
            crate::rng::random_u8() % height,
            crate::rng::random_u8() % width,
            crate::rng::random_u8() % depth,
        );
        let ghost before = m@;
        proof {
            m.lemma_view_finite();
        }
        m.insert(k.0, k.1, k.2, StoneDiamondCell::Diamond);
        proof {
            assert(m@.dom().contains((k.0, k.1, k.2)) && m@[(k.0, k.1, k.2)]
                == StoneDiamondCell::Diamond);
            vstd::set::axiom_set_insert_len(before.dom(), (k.0, k.1, k.2));
        }
        j = j + 1;
    }
    proof {
        m.lemma_view_finite();
    }
    m
}

/// A non-occluding diamond on top of a stone one layer down does not hide
/// it: the column's background is the stone's color, not the fallback —
/// non-occlusion lets the downward scan proceed, and the stone is the first
/// layer to lend a color.
pub proof fn lemma_diamond_over_stone(
    g: Map<(u8, u8, u8), StoneDiamondCell>,
    d: StoneDiamondCell,
    x: u8,
    y: u8,
    topz: u8,
    bottomz: u8,
)
    requires
        topz < bottomz,
        cell_at(g, d, x, y, topz) == StoneDiamondCell::Diamond,
        cell_at(g, d, x, y, (topz + 1) as u8) == StoneDiamondCell::Stone,
    ensures
        back_spec(g, d, x, y, topz, bottomz) == 243u16,
{
}

} // verus!
