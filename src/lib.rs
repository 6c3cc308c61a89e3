//! A chunked world store: a map is a grid of square regions, each holding a
//! `size × size × REGION_DEPTH` grid of tiles that can be generated, handed
//! over for storage (leaving the region disposed), and loaded back.

pub mod ids;
pub mod laws;
pub mod map;
pub mod region;
pub mod tile;

pub use map::{TileGrid, WorldMap};
pub use region::{MapError, Region};
pub use tile::{get_biome_name, BiomeType, Tile, TileType, REGION_DEPTH};
