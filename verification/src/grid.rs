//! The sparse voxel grid: a mapping from (x, y, z) coordinates to cells.
//!
//! Keys are unique; a coordinate absent from the grid stands for "empty" and
//! is read through a caller-supplied default cell, so that absence and an
//! explicit default entry are indistinguishable to the renderer.

use vstd::prelude::*;
use vstd::arithmetic::div_mod::lemma_fundamental_div_mod_converse;
use vstd::set_lib::lemma_set_subset_finite;
use std::collections::HashMap;

verus! {

broadcast use vstd::std_specs::hash::group_hash_axioms;

/// Packs a coordinate into the single integer key under which the cell is
/// actually stored (x, y and z each take one byte of the key).
pub open spec fn coord_key(x: u8, y: u8, z: u8) -> u32 {
    ((x as int) * 0x10000 + (y as int) * 0x100 + (z as int)) as u32
}

/// Distinct coordinates are stored under distinct keys.
pub proof fn lemma_coord_key_injective(x1: u8, y1: u8, z1: u8, x2: u8, y2: u8, z2: u8)
    requires
        coord_key(x1, y1, z1) == coord_key(x2, y2, z2),
    ensures
        x1 == x2 && y1 == y2 && z1 == z2,
{
}

/// Unpacks a stored key back into the coordinate it encodes.
pub open spec fn key_coord(k: u32) -> (u8, u8, u8) {
    (
        ((k as int) / 0x10000) as u8,
        (((k as int) % 0x10000) / 0x100) as u8,
        ((k as int) % 0x100) as u8,
    )
}

/// Unpacking undoes packing.
proof fn lemma_key_coord_of_coord_key(x: u8, y: u8, z: u8)
    ensures
        key_coord(coord_key(x, y, z)) == (x, y, z),
{
    let low = (y as int) * 0x100 + (z as int);
    lemma_fundamental_div_mod_converse(
        (x as int) * 0x10000 + low,
        0x10000,
        x as int,
        low,
    );
    lemma_fundamental_div_mod_converse(low, 0x100, y as int, z as int);
}

/// The cell a resolution algorithm sees at a coordinate: the grid's entry if
/// one exists, the default cell otherwise.
pub open spec fn cell_at<C>(g: Map<(u8, u8, u8), C>, d: C, x: u8, y: u8, z: u8) -> C {
    if g.dom().contains((x, y, z)) {
        g[(x, y, z)]
    } else {
        d
    }
}

/// A sparse mapping from (x, y, z) coordinates to cells, frozen for the
/// duration of a render pass (the renderer only ever borrows it).
pub struct VoxelGrid<C> {
    cells: HashMap<u32, C>,
}

impl<C> View for VoxelGrid<C> {
    type V = Map<(u8, u8, u8), C>;

    closed spec fn view(&self) -> Map<(u8, u8, u8), C> {
        Map::new(
            |p: (u8, u8, u8)| self.cells@.dom().contains(coord_key(p.0, p.1, p.2)),
            |p: (u8, u8, u8)| self.cells@[coord_key(p.0, p.1, p.2)],
        )
    }
}

fn key_of(x: u8, y: u8, z: u8) -> (k: u32)
    ensures
        k == coord_key(x, y, z),
{
    (x as u32) * 0x10000 + (y as u32) * 0x100 + (z as u32)
}

impl<C> VoxelGrid<C> {
    /// An empty grid: every coordinate reads as the default cell.
    pub fn new() -> (g: Self)
        ensures
            g@ == Map::<(u8, u8, u8), C>::empty(),
    {
        let g = VoxelGrid { cells: HashMap::new() };
        proof {
            assert(g@ =~= Map::<(u8, u8, u8), C>::empty());
        }
        g
    }

    /// Stores a cell at a coordinate; a later insertion at the same
    /// coordinate overwrites an earlier one.
    pub fn insert(&mut self, x: u8, y: u8, z: u8, cell: C)
        ensures
            final(self)@ == old(self)@.insert((x, y, z), cell),
    {
        let k = key_of(x, y, z);
        self.cells.insert(k, cell);
        proof {
            assert forall|p: (u8, u8, u8)|
                coord_key(p.0, p.1, p.2) == coord_key(x, y, z) implies p == (x, y, z) by {
                lemma_coord_key_injective(p.0, p.1, p.2, x, y, z);
            }
            assert(self@ =~= old(self)@.insert((x, y, z), cell));
        }
    }

    /// The cell stored at a coordinate, if any.
    pub fn get(&self, x: u8, y: u8, z: u8) -> (r: Option<&C>)
        ensures
            (match r {
                Some(c) => self@.dom().contains((x, y, z)) && *c == self@[(x, y, z)],
                None => !self@.dom().contains((x, y, z)),
            }),
    {
        let k = key_of(x, y, z);
        self.cells.get(&k)
    }

    /// The set of coordinates a grid holds is finite: it is covered by the
    /// image of the finite set of stored keys.
    pub proof fn lemma_view_finite(&self)
        ensures
            self@.dom().finite(),
    {
        let unpack = |k: u32| key_coord(k);
        let keys = self.cells@.dom();
        let image = keys.map(unpack);
        assert(keys.finite());
        keys.lemma_map_finite(unpack);
        assert forall|p: (u8, u8, u8)| self@.dom().contains(p) implies image.contains(p) by {
            let k = coord_key(p.0, p.1, p.2);
            lemma_key_coord_of_coord_key(p.0, p.1, p.2);
            assert(keys.contains(k) && unpack(k) == p);
        }
        assert(self@.dom().subset_of(image));
        lemma_set_subset_finite(image, self@.dom());
    }

    /// The uniform grid access both resolution algorithms go through: the
    /// entry at the coordinate, or the caller's default cell where there is
    /// none.
    pub fn get_or_default<'a>(&'a self, default: &'a C, x: u8, y: u8, z: u8) -> (c: &'a C)
        ensures
            *c == cell_at(self@, *default, x, y, z),
    {
        match self.get(x, y, z) {
            Some(c) => c,
            None => default,
        }
    }
}

} // verus!
