//! The simplest cell tier: a coordinate either holds stone or nothing.

use vstd::prelude::*;
use crate::cell::DisplayCell;
use crate::grid::VoxelGrid;

verus! {

/// A cell of the stone-or-not tier: solid, occluding stone, or empty space.
#[derive(Clone, Copy)]
pub enum StoneOrNotCell {
    Empty,
    Stone,
}

impl DisplayCell for StoneOrNotCell {
    open spec fn spec_foreground(self) -> Option<u32> {
        match self {
            StoneOrNotCell::Stone => Some('#' as u32),
            StoneOrNotCell::Empty => None,
        }
    }

    open spec fn spec_floor(self) -> Option<u32> {
        match self {
            StoneOrNotCell::Stone => Some('.' as u32),
            StoneOrNotCell::Empty => None,
        }
    }

    open spec fn spec_color_in_background(self) -> Option<u16> {
        match self {
            StoneOrNotCell::Stone => Some(243),  // medium grey
            StoneOrNotCell::Empty => None,
        }
    }

    open spec fn spec_color_in_foreground(self) -> u16 {
        match self {
            StoneOrNotCell::Stone => 254,  // light grey
            StoneOrNotCell::Empty => 0,  // never consulted: Empty draws no glyph
        }
    }

    open spec fn spec_occludes_background(self) -> bool {
        match self {
            StoneOrNotCell::Stone => true,
            StoneOrNotCell::Empty => false,
        }
    }

    fn foreground(&self) -> (r: Option<u32>) {
        match *self {
            StoneOrNotCell::Stone => Some('#' as u32),
            StoneOrNotCell::Empty => None,
        }
    }

    fn floor(&self) -> (r: Option<u32>) {
        match *self {
            StoneOrNotCell::Stone => Some('.' as u32),
            StoneOrNotCell::Empty => None,
        }
    }

    fn color_in_background(&self) -> (r: Option<u16>) {
        match *self {
            StoneOrNotCell::Stone => Some(243),
            StoneOrNotCell::Empty => None,
        }
    }

    fn color_in_foreground(&self) -> (r: u16) {
        match *self {
            StoneOrNotCell::Stone => 254,
            StoneOrNotCell::Empty => 0,
        }
    }

    fn occludes_background(&self) -> (r: bool) {
        match *self {
            StoneOrNotCell::Stone => true,
            StoneOrNotCell::Empty => false,
        }
    }
}

/// Scatters `numstones` stones over the grid, each at an independently
/// random coordinate within the given bounds; a later placement at a
/// coordinate already taken silently overwrites the earlier one, so the
/// grid may end up with fewer than `numstones` entries. Every entry of the
/// result is a stone at an in-bounds coordinate, and at least one stone was
/// placed whenever a placement was asked for.
pub fn random_stone_map(numstones: usize, height: u8, width: u8, depth: u8) -> (m: VoxelGrid<
    StoneOrNotCell,
>)
    requires
        height > 0,
        width > 0,
        depth > 0,
    ensures
        forall|p: (u8, u8, u8)| #[trigger]
            m@.dom().contains(p) ==> p.0 < height && p.1 < width && p.2 < depth && m@[p]
                == StoneOrNotCell::Stone,
        numstones == 0 ==> m@ == Map::<(u8, u8, u8), StoneOrNotCell>::empty(),
        numstones > 0 ==> exists|p: (u8, u8, u8)| #[trigger]
            m@.dom().contains(p) && m@[p] == StoneOrNotCell::Stone,
        m@.dom().finite(),
        m@.len() <= numstones,
{
    let mut m = VoxelGrid::<StoneOrNotCell>::new();
    let mut i: usize = 0;
    while i < numstones
        invariant
            i <= numstones,
            height > 0,
            width > 0,
            depth > 0,
            forall|p: (u8, u8, u8)| #[trigger]
                m@.dom().contains(p) ==> p.0 < height && p.1 < width && p.2 < depth && m@[p]
                    == StoneOrNotCell::Stone,
            i == 0 ==> m@ == Map::<(u8, u8, u8), StoneOrNotCell>::empty(),
            i > 0 ==> exists|p: (u8, u8, u8)| #[trigger]
                m@.dom().contains(p) && m@[p] == StoneOrNotCell::Stone,
            m@.len() <= i,
        decreases numstones - i,
    {
        let k = (
            crate::rng::random_u8() % height,
            crate::rng::random_u8() % width,
            crate::rng::random_u8() % depth,
        );
        let ghost before = m@;
        proof {
            m.lemma_view_finite();
        }
        m.insert(k.0, k.1, k.2, StoneOrNotCell::Stone);
        proof {
            assert(m@.dom().contains((k.0, k.1, k.2)) && m@[(k.0, k.1, k.2)]
                == StoneOrNotCell::Stone);
            vstd::set::axiom_set_insert_len(before.dom(), (k.0, k.1, k.2));
        }
        i = i + 1;
    }
    proof {
        m.lemma_view_finite();
    }
    m
}

} // verus!
