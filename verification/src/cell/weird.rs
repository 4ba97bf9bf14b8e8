//! The occupant cell tier: empty space that may hold an immobile mob.

use vstd::prelude::*;
use crate::cell::DisplayCell;

verus! {

/// An occupant of a space cell: its glyph and color override the space's
/// (absent) visuals; it never occludes.
#[derive(Clone, Copy)]
pub enum Mob {
    Bat,
    At,
}

impl Mob {
    pub open spec fn spec_foreground(self) -> Option<u32> {
        match self {
            Mob::Bat => Some('b' as u32),
            Mob::At => Some('@' as u32),
        }
    }

    pub open spec fn spec_color_in_foreground(self) -> u16 {
        match self {
            Mob::Bat => 130,  // medium reddish brown
            Mob::At => 15,  // white
        }
    }

    pub fn foreground(&self) -> (r: Option<u32>)
        ensures
            r == self.spec_foreground(),
    {
        match *self {
            Mob::Bat => Some('b' as u32),
            Mob::At => Some('@' as u32),
        }
    }

    pub fn color_in_foreground(&self) -> (r: u16)
        ensures
            r == self.spec_color_in_foreground(),
    {
        match *self {
            Mob::Bat => 130,
            Mob::At => 15,
        }
    }
}

/// A cell of the occupant tier: occluding stone, or a space that may hold a
/// mob whose visuals stand in for the space's own.
#[derive(Clone, Copy)]
pub enum WeirdCell {
    Space(Option<Mob>),
    Stone,
}

impl DisplayCell for WeirdCell {
    open spec fn spec_foreground(self) -> Option<u32> {
        match self {
            WeirdCell::Stone => Some('#' as u32),
            WeirdCell::Space(Some(mob)) => mob.spec_foreground(),
            WeirdCell::Space(None) => None,
        }
    }

    open spec fn spec_floor(self) -> Option<u32> {
        match self {
            WeirdCell::Stone => Some('.' as u32),
            WeirdCell::Space(_) => None,
        }
    }

    open spec fn spec_color_in_background(self) -> Option<u16> {
        match self {
            WeirdCell::Stone => Some(243),  // medium grey
            WeirdCell::Space(_) => None,
        }
    }

    open spec fn spec_color_in_foreground(self) -> u16 {
        match self {
            WeirdCell::Stone => 254,  // light grey
            WeirdCell::Space(Some(mob)) => mob.spec_color_in_foreground(),
            WeirdCell::Space(None) => 0,  // never consulted: bare space draws no glyph
        }
    }

    open spec fn spec_occludes_background(self) -> bool {
        match self {
            WeirdCell::Stone => true,
            WeirdCell::Space(_) => false,
        }
    }

    fn foreground(&self) -> (r: Option<u32>) {
        match *self {
            WeirdCell::Stone => Some('#' as u32),
            WeirdCell::Space(Some(mob)) => mob.foreground(),
            WeirdCell::Space(None) => None,
        }
    }

    fn floor(&self) -> (r: Option<u32>) {
        match *self {
            WeirdCell::Stone => Some('.' as u32),
            WeirdCell::Space(_) => None,
        }
    }

    fn color_in_background(&self) -> (r: Option<u16>) {
        match *self {
            WeirdCell::Stone => Some(243),
            WeirdCell::Space(_) => None,
        }
    }

    fn color_in_foreground(&self) -> (r: u16) {
        match *self {
            WeirdCell::Stone => 254,
            WeirdCell::Space(Some(mob)) => mob.color_in_foreground(),
            WeirdCell::Space(None) => 0,
        }
    }

    fn occludes_background(&self) -> (r: bool) {
        match *self {
            WeirdCell::Stone => true,
            WeirdCell::Space(_) => false,
        }
    }
}

} // verus!
