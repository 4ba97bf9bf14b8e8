use voxel_render::cell::{column_back, column_fore, column_repr, render_frame};
use voxel_render::cell::diamond::StoneDiamondCell;
use voxel_render::cell::stone::StoneOrNotCell;
use voxel_render::grid::VoxelGrid;

fn stone_map() -> VoxelGrid<StoneOrNotCell> {
    let mut m = VoxelGrid::new();
    m.insert(0, 0, 0, StoneOrNotCell::Stone);
    m.insert(1, 0, 1, StoneOrNotCell::Stone);
    m.insert(2, 0, 5, StoneOrNotCell::Stone);
    m
}

// A coordinate absent from the grid resolves exactly as an explicit
// default-cell entry at that coordinate.
#[test]
fn test_default_substitution() {
    let bare = stone_map();
    let mut explicit = stone_map();
    explicit.insert(3, 0, 0, StoneOrNotCell::Empty);
    explicit.insert(3, 0, 4, StoneOrNotCell::Empty);
    for y in 0..2u8 {
        for x in 0..5u8 {
            assert_eq!(
                column_repr(&bare, &StoneOrNotCell::Empty, x, y, 0, 10),
                column_repr(&explicit, &StoneOrNotCell::Empty, x, y, 0, 10),
            );
        }
    }
}

// When the top cell occludes, the background never depends on deeper
// layers: burying different cells under the stone changes nothing.
#[test]
fn test_occlusion_short_circuit() {
    let shallow = stone_map();
    let mut deep = stone_map();
    deep.insert(0, 0, 1, StoneOrNotCell::Stone);
    deep.insert(0, 0, 9, StoneOrNotCell::Stone);
    assert_eq!(
        column_back(&shallow, &StoneOrNotCell::Empty, 0, 0, 0, 10),
        column_back(&deep, &StoneOrNotCell::Empty, 0, 0, 0, 10),
    );
    // The occluding stone's own background color is what is reported.
    assert_eq!(243, column_back(&deep, &StoneOrNotCell::Empty, 0, 0, 0, 10));
}

// A non-occluding top cell with no background-defining layer beneath it
// yields the fixed fallback, color 0.
#[test]
fn test_background_fallback() {
    let m = stone_map();
    assert_eq!(0, column_back(&m, &StoneOrNotCell::Empty, 3, 0, 0, 10));
    // A stone just past the bottom of the scanned range stays invisible.
    let mut deep = stone_map();
    deep.insert(3, 0, 11, StoneOrNotCell::Stone);
    assert_eq!(0, column_back(&deep, &StoneOrNotCell::Empty, 3, 0, 0, 10));
}

// Foreground resolution inspects only the depths topz and topz + 1:
// changing a cell at topz + 2 never affects it.
#[test]
fn test_fore_ignores_deeper_layers() {
    let before = stone_map();
    let mut after = stone_map();
    after.insert(0, 0, 2, StoneOrNotCell::Stone);
    after.insert(1, 0, 2, StoneOrNotCell::Stone);
    after.insert(3, 0, 2, StoneOrNotCell::Stone);
    for x in 0..5u8 {
        assert_eq!(
            column_fore(&before, &StoneOrNotCell::Empty, x, 0, 0),
            column_fore(&after, &StoneOrNotCell::Empty, x, 0, 0),
        );
    }
}

// Background resolution on the stone-or-not tier, scanned down to depth 10.
// The stone variant in use defines its own background color (243), so the
// occluding column at x = 0 reports it rather than the fallback.
#[test]
fn test_background_stone_tier() {
    let m = stone_map();
    assert_eq!(243, column_back(&m, &StoneOrNotCell::Empty, 0, 0, 0, 10));
    assert_eq!(243, column_back(&m, &StoneOrNotCell::Empty, 1, 0, 0, 10));
    assert_eq!(243, column_back(&m, &StoneOrNotCell::Empty, 2, 0, 0, 10));
    assert_eq!(0, column_back(&m, &StoneOrNotCell::Empty, 3, 0, 0, 10));
}

// A non-occluding diamond at the top with a stone one layer down reports
// the stone's background color, not the fallback: non-occlusion lets the
// scan proceed.
#[test]
fn test_diamond_over_stone() {
    let mut m: VoxelGrid<StoneDiamondCell> = VoxelGrid::new();
    m.insert(4, 2, 3, StoneDiamondCell::Diamond);
    m.insert(4, 2, 4, StoneDiamondCell::Stone);
    assert_eq!(243, column_back(&m, &StoneDiamondCell::Empty, 4, 2, 3, 10));
    assert_eq!((0x2666, 51, 243), column_repr(&m, &StoneDiamondCell::Empty, 4, 2, 3, 10));
}

// Rendering the same frozen grid twice with identical arguments produces
// identical output sequences.
#[test]
fn test_render_idempotent() {
    let m = stone_map();
    let first = render_frame(&m, &StoneOrNotCell::Empty, 5, 5, 0, 10);
    let second = render_frame(&m, &StoneOrNotCell::Empty, 5, 5, 0, 10);
    assert_eq!(first, second);
}

// One frame holds one triple per column, in x-major, y-minor order.
#[test]
fn test_render_frame_order() {
    let mut m: VoxelGrid<StoneOrNotCell> = VoxelGrid::new();
    m.insert(1, 0, 0, StoneOrNotCell::Stone);
    let frame = render_frame(&m, &StoneOrNotCell::Empty, 2, 2, 0, 10);
    assert_eq!(4, frame.len());
    assert_eq!((32, 7, 0), frame[0]); // column (0, 0)
    assert_eq!((32, 7, 0), frame[1]); // column (0, 1)
    assert_eq!((35, 254, 243), frame[2]); // column (1, 0)
    assert_eq!((32, 7, 0), frame[3]); // column (1, 1)
}

// An empty viewport renders an empty frame.
#[test]
fn test_render_frame_empty_viewport() {
    let m = stone_map();
    assert_eq!(0, render_frame(&m, &StoneOrNotCell::Empty, 0, 5, 0, 10).len());
    assert_eq!(0, render_frame(&m, &StoneOrNotCell::Empty, 5, 0, 0, 10).len());
}

// A degenerate depth range (bottomz above topz) scans nothing: only the
// topmost cell can speak.
#[test]
fn test_degenerate_depth_range() {
    let m = stone_map();
    // Column x = 1 has its stone at depth 1; with bottomz = 0 the scan from
    // depth 1 is empty and the background falls back to 0.
    assert_eq!(0, column_back(&m, &StoneOrNotCell::Empty, 1, 0, 0, 0));
    // The occluding column is unaffected: its top cell decides alone.
    assert_eq!(243, column_back(&m, &StoneOrNotCell::Empty, 0, 0, 0, 0));
}
