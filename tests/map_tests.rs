use std::cell::RefCell;

use mapgen::ids::{map_directory, map_file, region_file};
use mapgen::tile::generate_grid;
use mapgen::{get_biome_name, BiomeType, MapError, Region, Tile, TileGrid, TileType, WorldMap};

fn stone() -> Tile {
    Tile { solid: true, tile_type: TileType::Stone }
}

fn air() -> Tile {
    Tile { solid: false, tile_type: TileType::Air }
}

fn generated(width: u32, height: u32, size: u32) -> (WorldMap, Vec<i32>) {
    let mut map = WorldMap::new(width, height, size);
    let seen = RefCell::new(Vec::new());
    let _ = map.generate_regions(|p| seen.borrow_mut().push(p));
    (map, seen.into_inner())
}

fn assert_generated_grid(grid: &TileGrid, size: usize) {
    assert_eq!(grid.len(), size);
    for column in grid {
        assert_eq!(column.len(), size);
        for stack in column {
            assert_eq!(stack.len(), 16);
            for (z, tile) in stack.iter().enumerate() {
                if z < 8 {
                    assert_eq!(*tile, stone());
                } else {
                    assert_eq!(*tile, air());
                }
            }
        }
    }
}

/// Rebuilds the metadata of `map` as a separate value, as a stored copy would.
fn metadata_copy(map: &WorldMap) -> WorldMap {
    let mut regions = Vec::new();
    for column in map.regions() {
        let mut copy = Vec::new();
        for r in column {
            copy.push(Region::from_parts(r.id(), r.width(), r.height(), r.biome()));
        }
        regions.push(copy);
    }
    WorldMap::from_parts(
        map.id(),
        map.get_width(),
        map.get_height(),
        map.region_size(),
        map.seed(),
        regions,
    )
    .unwrap()
}

#[test]
fn new_map_starts_unseeded_and_empty() {
    let map = WorldMap::new(3, 5, 7);
    assert_eq!(map.get_width(), 3);
    assert_eq!(map.get_height(), 5);
    assert_eq!(map.region_size(), 7);
    assert_eq!(map.seed(), -1);
    assert!(map.regions().is_empty());
}

#[test]
fn set_seed_stores_seed() {
    let mut map = WorldMap::new(1, 1, 1);
    map.set_seed(42);
    assert_eq!(map.seed(), 42);
    map.set_seed(-7);
    assert_eq!(map.seed(), -7);
}

#[test]
fn generation_fills_every_region() {
    let (map, _) = generated(3, 2, 5);
    assert_eq!(map.regions().len(), 3);
    for column in map.regions() {
        assert_eq!(column.len(), 2);
        for region in column {
            assert_eq!(region.width(), 5);
            assert_eq!(region.height(), 5);
            assert_eq!(region.biome(), BiomeType::Arid);
            assert_generated_grid(region.tiles().unwrap(), 5);
        }
    }
}

#[test]
fn generation_replaces_previous_regions() {
    let mut map = WorldMap::new(2, 3, 2);
    let _ = map.generate_regions(|_| {});
    let _ = map.generate_regions(|_| {});
    assert_eq!(map.regions().len(), 2);
    assert_eq!(map.regions()[0].len(), 3);
}

#[test]
fn progress_reports_once_per_region_and_ends_at_hundred() {
    let (_, seen) = generated(3, 4, 1);
    assert_eq!(seen.len(), 12);
    for pair in seen.windows(2) {
        assert!(pair[0] <= pair[1]);
    }
    assert_eq!(*seen.last().unwrap(), 100);
    assert!(seen[..11].iter().all(|p| *p == 0));
}

#[test]
fn progress_single_region_is_hundred() {
    let (_, seen) = generated(1, 1, 1);
    assert_eq!(seen, vec![100]);
}

#[test]
fn progress_empty_map_never_reports() {
    let (map, seen) = generated(0, 4, 3);
    assert!(seen.is_empty());
    assert!(map.regions().is_empty());
}

#[test]
fn save_disposes_every_region_and_keeps_metadata() {
    let (mut map, _) = generated(2, 3, 3);
    map.set_seed(9);
    let ids: Vec<Vec<u128>> =
        map.regions().iter().map(|c| c.iter().map(|r| r.id()).collect()).collect();
    let id = map.id();
    let saved = map.save().unwrap();
    assert_eq!(map.id(), id);
    assert_eq!(map.seed(), 9);
    assert_eq!(saved.len(), 2);
    for (x, column) in map.regions().iter().enumerate() {
        assert_eq!(saved[x].len(), 3);
        for (y, region) in column.iter().enumerate() {
            assert!(region.tiles().is_err());
            assert_eq!(region.id(), ids[x][y]);
            assert_eq!(region.width(), 3);
            assert_eq!(region.biome(), BiomeType::Arid);
            assert_generated_grid(&saved[x][y], 3);
        }
    }
}

#[test]
fn save_then_load_round_trips() {
    let (mut map, _) = generated(2, 2, 4);
    map.set_seed(42);
    let id = map.id();
    let stored = metadata_copy(&map);
    let saved = map.save().unwrap();
    let stored_after_save = metadata_copy(&map);
    assert_eq!(stored.id(), stored_after_save.id());

    let mut loaded = WorldMap::new(1, 1, 1);
    assert_eq!(loaded.load(stored_after_save, saved), Ok(()));
    assert_eq!(loaded.id(), id);
    assert_eq!(loaded.seed(), 42);
    assert_eq!(loaded.get_width(), 2);
    assert_eq!(loaded.get_height(), 2);
    assert_eq!(loaded.region_size(), 4);
    assert_eq!(loaded.regions().len(), 2);
    for (x, column) in loaded.regions().iter().enumerate() {
        assert_eq!(column.len(), 2);
        for (y, region) in column.iter().enumerate() {
            assert_eq!(region.id(), stored.regions()[x][y].id());
            assert_generated_grid(region.tiles().unwrap(), 4);
        }
    }
}

#[test]
fn example_two_by_two_map() {
    let mut map = WorldMap::new(2, 2, 4);
    map.set_seed(42);
    let _ = map.generate_regions(|_| {});
    let mut count = 0;
    for column in map.regions() {
        for region in column {
            count += 1;
            assert_generated_grid(region.tiles().unwrap(), 4);
        }
    }
    assert_eq!(count, 4);
    let saved = map.save().unwrap();
    let meta = metadata_copy(&map);
    let mut loaded = WorldMap::new(0, 0, 0);
    loaded.load(meta, saved).unwrap();
    assert_eq!(loaded.seed(), 42);
    for column in loaded.regions() {
        for region in column {
            assert_generated_grid(region.tiles().unwrap(), 4);
        }
    }
}

#[test]
fn load_rejects_grid_of_wrong_shape() {
    let (mut map, _) = generated(1, 2, 2);
    let mut saved = map.save().unwrap();
    saved[0][1] = generate_grid(3, 2);
    let meta = metadata_copy(&map);
    let before_id = map.id();
    let bad_id = map.regions()[0][1].id();
    assert_eq!(map.load(meta, saved), Err(MapError::RegionShapeMismatch { id: bad_id }));
    assert_eq!(map.id(), before_id);
    assert!(map.regions()[0][0].tiles().is_err());
}

#[test]
fn load_rejects_missing_column() {
    let (mut map, _) = generated(2, 1, 2);
    let mut saved = map.save().unwrap();
    saved.pop();
    let meta = metadata_copy(&map);
    assert_eq!(map.load(meta, saved), Err(MapError::InvariantViolation));
}

#[test]
fn biome_lookup_in_and_out_of_bounds() {
    let (map, _) = generated(2, 3, 1);
    assert_eq!(map.get_biome_at_offset(1, 2), Ok(BiomeType::Arid));
    assert_eq!(map.get_biome_at_offset(2, 0), Err(MapError::OutOfBounds));
    assert_eq!(map.get_biome_at_offset(0, 3), Err(MapError::OutOfBounds));
    let empty = WorldMap::new(2, 3, 1);
    assert_eq!(empty.get_biome_at_offset(0, 0), Err(MapError::OutOfBounds));
}

#[test]
fn biome_names() {
    assert_eq!(get_biome_name(&BiomeType::Arid), "Arid");
    assert_eq!(get_biome_name(&BiomeType::Grassland), "Grassland");
    assert_eq!(get_biome_name(&BiomeType::Ocean), "Ocean");
    assert_eq!(get_biome_name(&BiomeType::Rocky), "Rocky");
}

#[test]
fn from_parts_rejects_wrong_dimensions() {
    let regions = vec![vec![Region::from_parts(1, 4, 4, BiomeType::Ocean)]];
    assert!(WorldMap::from_parts(5, 2, 1, 4, 0, regions).is_err());
    let regions = vec![vec![Region::from_parts(1, 3, 3, BiomeType::Ocean)]];
    assert_eq!(
        WorldMap::from_parts(5, 1, 1, 4, 0, regions).err(),
        Some(MapError::InvariantViolation)
    );
    let regions = vec![vec![Region::from_parts(1, 4, 4, BiomeType::Rocky)]];
    let map = WorldMap::from_parts(5, 1, 1, 4, 3, regions).unwrap();
    assert_eq!(map.get_biome_at_offset(0, 0), Ok(BiomeType::Rocky));
    assert!(WorldMap::from_parts(5, 7, 7, 4, 3, Vec::new()).is_ok());
}

#[test]
fn region_tiles_lifecycle() {
    let mut region = Region::new(3, BiomeType::Grassland);
    assert!(region.tiles().is_err());
    region.generate_tiles();
    assert_generated_grid(region.tiles().unwrap(), 3);
    region.dispose_tiles();
    assert!(region.tiles().is_err());
    region.generate_tiles();
    let taken = region.take_tiles();
    assert_generated_grid(&taken, 3);
    assert!(region.tiles().is_err());
    let id = region.id();
    assert_eq!(region.load_tiles(generate_grid(3, 2)), Err(MapError::RegionShapeMismatch { id }));
    assert!(region.tiles().is_err());
    assert_eq!(region.load_tiles(taken), Ok(()));
    assert_generated_grid(region.tiles().unwrap(), 3);
}

#[test]
fn zero_sized_region_has_empty_grid() {
    let mut region = Region::new(0, BiomeType::Arid);
    region.generate_tiles();
    assert!(region.tiles().unwrap().is_empty());
}

#[test]
fn storage_paths() {
    let map = WorldMap::new(1, 1, 1);
    let text = uuid::Uuid::from_u128(map.id()).to_string();
    assert_eq!(text.len(), 36);
    let dir = map.directory();
    assert_eq!(dir, format!("maps/{}/", text));
    assert_eq!(map.metadata_file(&dir), format!("maps/{}/{}.map", text, text));
    let region = Region::from_parts(0x1234, 2, 2, BiomeType::Arid);
    assert_eq!(
        region.tile_file("maps/x/"),
        "maps/x/00000000-0000-0000-0000-000000001234.region"
    );
    assert_eq!(map_directory("abc"), "maps/abc/");
    assert_eq!(map_file("maps/abc/", "abc"), "maps/abc/abc.map");
    assert_eq!(region_file("d/", "r"), "d/r.region");
}

#[test]
fn fresh_ids_differ() {
    let a = WorldMap::new(1, 1, 1);
    let b = WorldMap::new(1, 1, 1);
    assert_ne!(a.id(), b.id());
    let r1 = Region::new(1, BiomeType::Arid);
    let r2 = Region::new(1, BiomeType::Arid);
    assert_ne!(r1.id(), r2.id());
}

#[test]
fn second_save_without_load_is_refused() {
    let (mut map, _) = generated(2, 2, 3);
    assert!(map.save().is_ok());
    assert_eq!(map.save().err(), Some(MapError::NotLoaded));
    for column in map.regions() {
        for region in column {
            assert!(!region.is_populated());
        }
    }
}

#[test]
fn save_of_ungenerated_map_hands_over_nothing() {
    let mut map = WorldMap::new(2, 2, 2);
    assert_eq!(map.save().unwrap().len(), 0);
}

#[test]
fn load_rejects_malformed_metadata_counts() {
    let (mut map, _) = generated(1, 2, 2);
    let mut saved = map.save().unwrap();
    saved[0].pop();
    let meta = metadata_copy(&map);
    assert_eq!(map.load(meta, saved), Err(MapError::InvariantViolation));
}
