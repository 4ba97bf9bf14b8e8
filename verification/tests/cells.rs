use voxel_render::cell::{column_back, column_fore};
use voxel_render::cell::diamond::{random_diamond_map, StoneDiamondCell};
use voxel_render::cell::stone::{random_stone_map, StoneOrNotCell};
use voxel_render::cell::weird::{Mob, WeirdCell};
use voxel_render::grid::VoxelGrid;

// An occupied space draws its mob's glyph and color; a bare space draws
// nothing; stone behaves as in the other tiers.
#[test]
fn test_weird_cell_foreground() {
    let mut m: VoxelGrid<WeirdCell> = VoxelGrid::new();
    m.insert(0, 0, 0, WeirdCell::Space(Some(Mob::Bat)));
    m.insert(1, 0, 0, WeirdCell::Space(Some(Mob::At)));
    m.insert(2, 0, 0, WeirdCell::Stone);
    m.insert(3, 0, 1, WeirdCell::Stone);
    assert_eq!((98, 130), column_fore(&m, &WeirdCell::Space(None), 0, 0, 0)); // 'b'
    assert_eq!((64, 15), column_fore(&m, &WeirdCell::Space(None), 1, 0, 0)); // '@'
    assert_eq!((35, 254), column_fore(&m, &WeirdCell::Space(None), 2, 0, 0)); // '#'
    assert_eq!((46, 254), column_fore(&m, &WeirdCell::Space(None), 3, 0, 0)); // floor '.'
    assert_eq!((32, 7), column_fore(&m, &WeirdCell::Space(None), 4, 0, 0)); // nothing
}

// A mob does not occlude: the scan runs past it to the stone below; stone
// still occludes with its own background color.
#[test]
fn test_weird_cell_background() {
    let mut m: VoxelGrid<WeirdCell> = VoxelGrid::new();
    m.insert(0, 0, 0, WeirdCell::Space(Some(Mob::Bat)));
    m.insert(0, 0, 3, WeirdCell::Stone);
    m.insert(1, 0, 0, WeirdCell::Stone);
    assert_eq!(243, column_back(&m, &WeirdCell::Space(None), 0, 0, 0, 10));
    assert_eq!(243, column_back(&m, &WeirdCell::Space(None), 1, 0, 0, 10));
    assert_eq!(0, column_back(&m, &WeirdCell::Space(None), 2, 0, 0, 10));
}

// With 1x1x1 bounds every placement lands on the single coordinate, so a
// populated map must hold a stone there.
#[test]
fn test_random_stone_map_population() {
    let m = random_stone_map(4, 1, 1, 1);
    assert!(matches!(m.get(0, 0, 0), Some(StoneOrNotCell::Stone)));
    assert!(m.get(0, 0, 1).is_none());
}

// Asking for no stones gives an empty grid.
#[test]
fn test_random_stone_map_empty() {
    let m = random_stone_map(0, 8, 8, 8);
    for x in 0..8u8 {
        for y in 0..8u8 {
            for z in 0..8u8 {
                assert!(m.get(x, y, z).is_none());
            }
        }
    }
}

// Every placement stays inside the requested bounds.
#[test]
fn test_random_stone_map_bounds() {
    let m = random_stone_map(64, 2, 2, 2);
    for x in 2..=255u8 {
        assert!(m.get(x, 0, 0).is_none());
        assert!(m.get(0, x, 0).is_none());
        assert!(m.get(0, 0, x).is_none());
    }
}

// Diamonds are placed after stones, so the last diamond always survives:
// with 1x1x1 bounds the single coordinate must end up holding one.
#[test]
fn test_random_diamond_map_population() {
    let m = random_diamond_map(2, 3, 1, 1, 1);
    assert!(matches!(m.get(0, 0, 0), Some(StoneDiamondCell::Diamond)));
}

// A diamond map built without placements is empty.
#[test]
fn test_random_diamond_map_empty() {
    let m = random_diamond_map(0, 0, 4, 4, 4);
    for x in 0..4u8 {
        for y in 0..4u8 {
            for z in 0..4u8 {
                assert!(m.get(x, y, z).is_none());
            }
        }
    }
}
