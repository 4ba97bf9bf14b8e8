//! The cell capability contract and the column-compositing algorithms.

pub mod diamond;
pub mod stone;
pub mod weird;

use vstd::prelude::*;
use vstd::arithmetic::div_mod::lemma_fundamental_div_mod_converse;
use crate::grid::{cell_at, VoxelGrid};

verus! {

/// The capability contract a cell kind offers the renderer: what to draw
/// when the cell is on top, what to draw when it is the floor underneath an
/// empty layer, what color it lends the background, and whether it blocks
/// deeper layers from contributing a background color.
pub trait DisplayCell: Sized {
    /// The glyph drawn when this cell is the nearest non-empty thing in its
    /// column; `None` means "nothing to draw, fall through to floor logic".
    spec fn spec_foreground(self) -> Option<u32>;

    /// The glyph drawn when this cell is viewed as the layer immediately
    /// behind a foreground-less cell; `None` if it has no floor form.
    spec fn spec_floor(self) -> Option<u32>;

    /// The color this cell contributes when visible as a background layer;
    /// `None` means deeper layers must be consulted.
    spec fn spec_color_in_background(self) -> Option<u16>;

    /// The color paired with whatever glyph is drawn for this cell; only
    /// consulted when `spec_foreground` or `spec_floor` returns a glyph.
    spec fn spec_color_in_foreground(self) -> u16;

    /// Whether no cell below this one may contribute a background color.
    spec fn spec_occludes_background(self) -> bool;

    fn foreground(&self) -> (r: Option<u32>)
        ensures
            r == self.spec_foreground(),
    ;

    fn floor(&self) -> (r: Option<u32>)
        ensures
            r == self.spec_floor(),
    ;

    fn color_in_background(&self) -> (r: Option<u16>)
        ensures
            r == self.spec_color_in_background(),
    ;

    fn color_in_foreground(&self) -> (r: u16)
        ensures
            r == self.spec_color_in_foreground(),
    ;

    fn occludes_background(&self) -> (r: bool)
        ensures
            r == self.spec_occludes_background(),
    ;
}

/// The glyph of a column with nothing to draw.
pub const SPACE_GLYPH: u32 = 32;

/// The foreground color paired with the space glyph: the terminal's default
/// light grey.
pub const FALLBACK_FORE_COLOR: u16 = 7;

/// The background color of a column no layer lends a color to: black/unset.
pub const FALLBACK_BACK_COLOR: u16 = 0;

/// What foreground resolution returns for a column: the topmost cell's own
/// glyph if it has one; otherwise the floor glyph of the cell one layer
/// deeper; otherwise a space in the fallback color. Only the two depths
/// `topz` and `topz + 1` are ever consulted (a coordinate beyond the
/// deepest addressable layer reads as the default cell).
pub open spec fn fore_spec<C: DisplayCell>(
    g: Map<(u8, u8, u8), C>,
    d: C,
    x: u8,
    y: u8,
    topz: u8,
) -> (u32, u16) {
    let first = cell_at(g, d, x, y, topz);
    match first.spec_foreground() {
        Some(glyph) => (glyph, first.spec_color_in_foreground()),
        None => {
            let second = if topz < 255 {
                cell_at(g, d, x, y, (topz + 1) as u8)
            } else {
                d
            };
            match second.spec_floor() {
                Some(glyph) => (glyph, second.spec_color_in_foreground()),
                None => (SPACE_GLYPH, FALLBACK_FORE_COLOR),
            }
        },
    }
}

/// The downward scan of background resolution over depths `z ..= bottomz`:
/// the first defined background color wins; an exhausted scan yields the
/// fallback.
pub open spec fn back_scan_spec<C: DisplayCell>(
    g: Map<(u8, u8, u8), C>,
    d: C,
    x: u8,
    y: u8,
    z: int,
    bottomz: int,
) -> u16
    decreases bottomz + 1 - z,
{
    if z > bottomz {
        FALLBACK_BACK_COLOR
    } else {
        match cell_at(g, d, x, y, z as u8).spec_color_in_background() {
            Some(color) => color,
            None => back_scan_spec(g, d, x, y, z + 1, bottomz),
        }
    }
}

/// What background resolution returns for a column: if the topmost cell
/// occludes, its own background color (or the fallback where it has none)
/// and no deeper layer is consulted; otherwise the first defined background
/// color over depths `topz + 1 ..= bottomz`, or the fallback where the scan
/// exhausts. Occlusion is only ever checked on the topmost cell.
pub open spec fn back_spec<C: DisplayCell>(
    g: Map<(u8, u8, u8), C>,
    d: C,
    x: u8,
    y: u8,
    topz: u8,
    bottomz: u8,
) -> u16 {
    let first = cell_at(g, d, x, y, topz);
    if first.spec_occludes_background() {
        match first.spec_color_in_background() {
            Some(color) => color,
            None => FALLBACK_BACK_COLOR,
        }
    } else {
        back_scan_spec(g, d, x, y, topz as int + 1, bottomz as int)
    }
}

/// The full triple a column displays: foreground glyph, its color, and the
/// background color.
pub open spec fn repr_spec<C: DisplayCell>(
    g: Map<(u8, u8, u8), C>,
    d: C,
    x: u8,
    y: u8,
    topz: u8,
    bottomz: u8,
) -> (u32, u16, u16) {
    let fore = fore_spec(g, d, x, y, topz);
    (fore.0, fore.1, back_spec(g, d, x, y, topz, bottomz))
}

/// Foreground resolution for column (x, y): the topmost cell's glyph, or
/// the floor of the layer beneath it, or a space in the fallback color.
pub fn column_fore<C: DisplayCell>(
    grid: &VoxelGrid<C>,
    default: &C,
    x: u8,
    y: u8,
    topz: u8,
) -> (r: (u32, u16))
    ensures
        r == fore_spec(grid@, *default, x, y, topz),
{
    let firstcell = grid.get_or_default(default, x, y, topz);
    match firstcell.foreground() {
        Some(glyph) => (glyph, firstcell.color_in_foreground()),
        None => {
            let secondcell = if topz < 255 {
                grid.get_or_default(default, x, y, topz + 1)
            } else {
                default
            };
            match secondcell.floor() {
                Some(glyph) => (glyph, secondcell.color_in_foreground()),
                None => (SPACE_GLYPH, FALLBACK_FORE_COLOR),
            }
        },
    }
}

/// Background resolution for column (x, y): the topmost cell's own
/// background color where it occludes, else the first defined background
/// color among the layers `topz + 1 ..= bottomz`.
pub fn column_back<C: DisplayCell>(
    grid: &VoxelGrid<C>,
    default: &C,
    x: u8,
    y: u8,
    topz: u8,
    bottomz: u8,
) -> (r: u16)
    ensures
        r == back_spec(grid@, *default, x, y, topz, bottomz),
{
    let firstcell = grid.get_or_default(default, x, y, topz);
    if firstcell.occludes_background() {
        match firstcell.color_in_background() {
            Some(color) => color,
            None => FALLBACK_BACK_COLOR,
        }
    } else {
        let mut z: u16 = topz as u16 + 1;
        while z <= bottomz as u16
            invariant
                topz as int + 1 <= z as int <= bottomz as int + 1 || z as int == topz as int + 1,
                !cell_at(grid@, *default, x, y, topz).spec_occludes_background(),
                back_scan_spec(grid@, *default, x, y, z as int, bottomz as int)
                    == back_scan_spec(grid@, *default, x, y, topz as int + 1, bottomz as int),
            decreases bottomz as int + 1 - z as int,
        {
            let cell = grid.get_or_default(default, x, y, z as u8);
            match cell.color_in_background() {
                Some(color) => {
                    return color;
                },
                None => {},
            }
            z = z + 1;
        }
        FALLBACK_BACK_COLOR
    }
}

/// The displayed triple for column (x, y): foreground glyph and color from
/// `column_fore`, background color from `column_back`.
pub fn column_repr<C: DisplayCell>(
    grid: &VoxelGrid<C>,
    default: &C,
    x: u8,
    y: u8,
    topz: u8,
    bottomz: u8,
) -> (r: (u32, u16, u16))
    ensures
        r == repr_spec(grid@, *default, x, y, topz, bottomz),
{
    let (glyph, fore) = column_fore(grid, default, x, y, topz);
    let back = column_back(grid, default, x, y, topz, bottomz);
    (glyph, fore, back)
}

/// One frame of the whole viewport: the displayed triple of every column
/// (x, y) with x in [0, width) and y in [0, height), in x-major, y-minor
/// order; the triple of column (x, y) stands at index x * height + y.
pub open spec fn frame_spec<C: DisplayCell>(
    g: Map<(u8, u8, u8), C>,
    d: C,
    width: u8,
    height: u8,
    topz: u8,
    bottomz: u8,
) -> Seq<(u32, u16, u16)> {
    Seq::new(
        (width as nat) * (height as nat),
        |i: int|
            repr_spec(
                g,
                d,
                (i / (height as int)) as u8,
                (i % (height as int)) as u8,
                topz,
                bottomz,
            ),
    )
}

/// Renders one frame of the viewport: computes the displayed triple of
/// every column, in x-major, y-minor order. The caller forwards each triple
/// to whatever paints the screen.
pub fn render_frame<C: DisplayCell>(
    grid: &VoxelGrid<C>,
    default: &C,
    width: u8,
    height: u8,
    topz: u8,
    bottomz: u8,
) -> (frame: Vec<(u32, u16, u16)>)
    ensures
        frame@ == frame_spec(grid@, *default, width, height, topz, bottomz),
{
    let ghost target = frame_spec(grid@, *default, width, height, topz, bottomz);
    let mut frame: Vec<(u32, u16, u16)> = Vec::new();
    let mut x: u8 = 0;
    while x < width
        invariant
            x <= width,
            frame@.len() == x as int * height as int,
            forall|i: int| 0 <= i < frame@.len() ==> frame@[i] == target[i],
            target == frame_spec(grid@, *default, width, height, topz, bottomz),
        decreases width as int - x as int,
    {
        let mut y: u8 = 0;
        while y < height
            invariant
                x < width,
                y <= height,
                frame@.len() == x as int * height as int + y as int,
                forall|i: int| 0 <= i < frame@.len() ==> frame@[i] == target[i],
                target == frame_spec(grid@, *default, width, height, topz, bottomz),
            decreases height as int - y as int,
        {
            let triple = column_repr(grid, default, x, y, topz, bottomz);
            proof {
                let i = x as int * height as int + y as int;
                lemma_fundamental_div_mod_converse(i, height as int, x as int, y as int);
                assert((x as int) * (height as int) + (y as int) < (width as int) * (height
                    as int)) by (nonlinear_arith)
                    requires
                        (x as int) < (width as int),
                        (y as int) < (height as int),
                ;
                assert(target[i] == repr_spec(grid@, *default, x, y, topz, bottomz));
            }
            frame.push(triple);
            y = y + 1;
        }
        proof {
            assert((x as int + 1) * (height as int) == (x as int) * (height as int) + (height
                as int)) by (nonlinear_arith);
        }
        x = x + 1;
    }
    proof {
        assert(frame@ =~= target);
    }
    frame
}

/// Two background scans over the same depth range agree wherever the cells
/// they see agree, whatever grid and default each reads them through.
proof fn lemma_back_scan_congruence<C: DisplayCell>(
    g1: Map<(u8, u8, u8), C>,
    d1: C,
    g2: Map<(u8, u8, u8), C>,
    d2: C,
    x: u8,
    y: u8,
    z: int,
    bottomz: int,
)
    requires
        0 <= z,
        bottomz <= 255,
        forall|zz: u8|
            z <= zz as int <= bottomz ==> #[trigger] cell_at(g1, d1, x, y, zz) == cell_at(
                g2,
                d2,
                x,
                y,
                zz,
            ),
    ensures
        back_scan_spec(g1, d1, x, y, z, bottomz) == back_scan_spec(g2, d2, x, y, z, bottomz),
    decreases bottomz + 1 - z,
{
    if z <= bottomz {
        lemma_back_scan_congruence(g1, d1, g2, d2, x, y, z + 1, bottomz);
    }
}

/// Substitution equivalence: a coordinate absent from the grid resolves
/// exactly as an explicit default-cell entry at that coordinate would, for
/// the foreground, the background, and the whole displayed triple.
pub proof fn lemma_default_substitution<C: DisplayCell>(
    g: Map<(u8, u8, u8), C>,
    d: C,
    q: (u8, u8, u8),
    x: u8,
    y: u8,
    topz: u8,
    bottomz: u8,
)
    requires
        !g.dom().contains(q),
    ensures
        fore_spec(g.insert(q, d), d, x, y, topz) == fore_spec(g, d, x, y, topz),
        back_spec(g.insert(q, d), d, x, y, topz, bottomz) == back_spec(g, d, x, y, topz, bottomz),
        repr_spec(g.insert(q, d), d, x, y, topz, bottomz) == repr_spec(g, d, x, y, topz, bottomz),
{
    assert forall|xx: u8, yy: u8, zz: u8| #[trigger]
        cell_at(g.insert(q, d), d, xx, yy, zz) == cell_at(g, d, xx, yy, zz) by {
        if (xx, yy, zz) == q {
            assert(cell_at(g.insert(q, d), d, xx, yy, zz) == d);
            assert(cell_at(g, d, xx, yy, zz) == d);
        }
    }
    lemma_back_scan_congruence(
        g.insert(q, d),
        d,
        g,
        d,
        x,
        y,
        topz as int + 1,
        bottomz as int,
    );
}

/// Occlusion short-circuit: when the topmost cell occludes, background
/// resolution depends on that cell alone — any two columns whose topmost
/// cells agree resolve to the same background color, whatever stands in the
/// deeper layers of either, and that color is the topmost cell's own
/// background color, or the fallback where it has none.
pub proof fn lemma_occlusion_short_circuit<C: DisplayCell>(
    g1: Map<(u8, u8, u8), C>,
    d1: C,
    g2: Map<(u8, u8, u8), C>,
    d2: C,
    x: u8,
    y: u8,
    topz: u8,
    bottomz1: u8,
    bottomz2: u8,
)
    requires
        cell_at(g1, d1, x, y, topz) == cell_at(g2, d2, x, y, topz),
        cell_at(g1, d1, x, y, topz).spec_occludes_background(),
    ensures
        back_spec(g1, d1, x, y, topz, bottomz1) == back_spec(g2, d2, x, y, topz, bottomz2),
        back_spec(g1, d1, x, y, topz, bottomz1) == (match cell_at(
            g1,
            d1,
            x,
            y,
            topz,
        ).spec_color_in_background() {
            Some(color) => color,
            None => FALLBACK_BACK_COLOR,
        }),
{
}

/// Exhausted scan: when the topmost cell does not occlude and no layer in
/// `topz + 1 ..= bottomz` defines a background color, background resolution
/// yields the fixed fallback.
pub proof fn lemma_background_fallback<C: DisplayCell>(
    g: Map<(u8, u8, u8), C>,
    d: C,
    x: u8,
    y: u8,
    topz: u8,
    bottomz: u8,
)
    requires
        !cell_at(g, d, x, y, topz).spec_occludes_background(),
        forall|zz: u8|
            topz < zz <= bottomz ==> (#[trigger] cell_at(
                g,
                d,
                x,
                y,
                zz,
            )).spec_color_in_background() is None,
    ensures
        back_spec(g, d, x, y, topz, bottomz) == FALLBACK_BACK_COLOR,
{
    lemma_back_scan_exhausted(g, d, x, y, topz as int + 1, bottomz as int);
}

/// A scan over depths whose cells all decline to lend a background color
/// ends in the fallback.
proof fn lemma_back_scan_exhausted<C: DisplayCell>(
    g: Map<(u8, u8, u8), C>,
    d: C,
    x: u8,
    y: u8,
    z: int,
    bottomz: int,
)
    requires
        0 <= z,
        bottomz <= 255,
        forall|zz: u8|
            z <= zz as int <= bottomz ==> (#[trigger] cell_at(
                g,
                d,
                x,
                y,
                zz,
            )).spec_color_in_background() is None,
    ensures
        back_scan_spec(g, d, x, y, z, bottomz) == FALLBACK_BACK_COLOR,
    decreases bottomz + 1 - z,
{
    if z <= bottomz {
        lemma_back_scan_exhausted(g, d, x, y, z + 1, bottomz);
    }
}

/// Foreground resolution inspects exactly the two depths `topz` and
/// `topz + 1`: any two columns that agree on those two cells resolve to the
/// same glyph and color, so changing a cell at any other depth never
/// affects foreground output.
pub proof fn lemma_fore_two_depths<C: DisplayCell>(
    g1: Map<(u8, u8, u8), C>,
    g2: Map<(u8, u8, u8), C>,
    d: C,
    x: u8,
    y: u8,
    topz: u8,
)
    requires
        cell_at(g1, d, x, y, topz) == cell_at(g2, d, x, y, topz),
        topz < 255 ==> cell_at(g1, d, x, y, (topz + 1) as u8) == cell_at(
            g2,
            d,
            x,
            y,
            (topz + 1) as u8,
        ),
    ensures
        fore_spec(g1, d, x, y, topz) == fore_spec(g2, d, x, y, topz),
{
}

/// Idempotence of rendering: the frame of a frozen grid is a function of
/// the grid, the default cell and the viewport arguments alone, so two
/// render passes over the same frozen grid with identical arguments emit
/// identical output sequences.
pub proof fn lemma_render_deterministic<C: DisplayCell>(
    g: Map<(u8, u8, u8), C>,
    d: C,
    width: u8,
    height: u8,
    topz: u8,
    bottomz: u8,
    frame1: Seq<(u32, u16, u16)>,
    frame2: Seq<(u32, u16, u16)>,
)
    requires
        frame1 == frame_spec(g, d, width, height, topz, bottomz),
        frame2 == frame_spec(g, d, width, height, topz, bottomz),
    ensures
        frame1 == frame2,
{
}

} // verus!
