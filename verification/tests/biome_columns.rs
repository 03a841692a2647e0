use voxel_quest::biomes::{
    badland_column, desert_column, lake_column, mountain_column, ocean_column, plains_column,
    top_biomes, DebugBiome, DebugBiomeType,
};
use voxel_quest::blocks::Block;

#[test]
fn top_biomes_picks_three_highest() {
    let r = top_biomes(&vec![10, 50, 0, 30, 40]);
    assert_eq!(r, [(1, 50), (4, 40), (3, 30)]);
}

#[test]
fn top_biomes_ties_keep_list_order() {
    let r = top_biomes(&vec![20, 20, 20, 20]);
    assert_eq!(r, [(0, 20), (1, 20), (2, 20)]);
    let r = top_biomes(&vec![5, 9, 9]);
    assert_eq!(r, [(1, 9), (2, 9), (0, 5)]);
}

#[test]
fn top_biomes_pads_with_zero() {
    assert_eq!(top_biomes(&vec![]), [(0, 0), (0, 0), (0, 0)]);
    assert_eq!(top_biomes(&vec![0, 0, 7]), [(2, 7), (0, 0), (0, 0)]);
    assert_eq!(top_biomes(&vec![0, 255]), [(1, 255), (0, 0), (0, 0)]);
}

#[test]
fn badland_fills_to_ground() {
    let c = badland_column(0, 10);
    assert_eq!(c[9], Block::Other(127));
    assert_eq!(c[10], Block::Void);
    assert!(badland_column(20, 10).iter().all(|b| *b == Block::Void));
    assert!(badland_column(-100, 10).iter().all(|b| *b == Block::Other(127)));
}

#[test]
fn desert_sand_over_stone() {
    let c = desert_column(0, 10, 3);
    assert_eq!(c[6], Block::Stone);
    assert_eq!(c[7], Block::Sand);
    assert_eq!(c[9], Block::Sand);
    assert_eq!(c[10], Block::Void);
}

#[test]
fn lake_has_grass_rim_water_and_stone() {
    let c = lake_column(0, 10, 4);
    assert_eq!(c[9], Block::Grass);
    assert_eq!(c[8], Block::Water);
    assert_eq!(c[7], Block::Water);
    assert_eq!(c[6], Block::Stone);
    assert_eq!(c[10], Block::Void);
    assert!(lake_column(11, 10, 4).iter().all(|b| *b == Block::Void));
}

#[test]
fn mountain_is_capped_with_snow() {
    let c = mountain_column(0, 10, 2, 100, 5);
    assert_eq!(c[10], Block::Snow);
    assert_eq!(c[9], Block::Dirt);
    assert_eq!(c[8], Block::Stone);
    assert_eq!(c[11], Block::Void);
    let high = mountain_column(100, 110, 20, 100, 5);
    assert_eq!(high[0], Block::Dirt);
    assert_eq!(high[1], Block::Stone);
    assert_eq!(high[10], Block::Snow);
    let deep = mountain_column(0, 64, 2, 100, 5);
    assert_eq!(deep[63], Block::Dirt);
}

#[test]
fn mountain_is_grassed_below_the_snow_line() {
    let c = mountain_column(0, 10, 2, 100, 128);
    assert_eq!(c[10], Block::Grass);
    assert_eq!(c[9], Block::Dirt);
    let at_line = mountain_column(0, 20, 2, 100, 20);
    assert_eq!(at_line[20], Block::Grass);
    let above = mountain_column(0, 21, 2, 100, 20);
    assert_eq!(above[21], Block::Snow);
}

#[test]
fn plains_grass_only_when_fertile() {
    let c = plains_column(0, 10, true, 3);
    assert_eq!(c[10], Block::Grass);
    assert_eq!(c[7], Block::Stone);
    assert_eq!(c[8], Block::Dirt);
    let d = plains_column(0, 10, false, 3);
    assert_eq!(d[10], Block::Void);
}

#[test]
fn ocean_water_over_stone_below_sea_level() {
    let c = ocean_column(-32, -40);
    assert_eq!(c[0], Block::Water);
    let c = ocean_column(-64, -40);
    assert_eq!(c[24], Block::Stone);
    assert_eq!(c[25], Block::Water);
    assert!(ocean_column(1, -40).iter().all(|b| *b == Block::Void));
}

#[test]
fn debug_biome_column() {
    let b = DebugBiome::new(DebugBiomeType::Rainfall, 2);
    assert_eq!(b.scale, 2);
    assert_eq!(b.param, DebugBiomeType::Rainfall);
    assert_eq!(b.priority(), 255);
    let c = b.column(5, 10);
    assert_eq!(c[4], Block::Other(40));
    assert_eq!(c[5], Block::Void);
}
