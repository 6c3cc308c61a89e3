use vstd::prelude::*;

use crate::ids::{id_text, new_id, region_file, uuid_text};
use crate::tile::{
    generate_grid, generated_grid, grid_view, is_full_grid, BiomeType, Tile, REGION_DEPTH,
};

verus! {

/// Why a storage operation failed.
#[derive(PartialEq, Eq, Structural, Clone, Copy, Debug)]
pub enum MapError {
    /// A directory or file could not be created, read or written.
    Io,
    /// Stored bytes could not be encoded or decoded.
    Serialization,
    /// No metadata file exists for the requested map id.
    NotFound,
    /// A region offset lies outside the region grid.
    OutOfBounds,
    /// Stored map dimensions do not match the stored region grid.
    InvariantViolation,
    /// The stored tile grid of the region with this id does not have the
    /// region's shape.
    RegionShapeMismatch { id: u128 },
    /// A region's tiles were read or saved while disposed.
    NotLoaded,
}

/// A square patch of the world: a biome and a `width × height × REGION_DEPTH`
/// grid of tiles, which is either fully populated or empty (disposed).
pub struct Region {
    id: u128,
    width: u32,
    height: u32,
    biome: BiomeType,
    tiles: Vec<Vec<Vec<Tile>>>,
}

/// The mathematical content of a region.
pub struct RegionView {
    pub id: u128,
    pub width: u32,
    pub height: u32,
    pub biome: BiomeType,
    pub tiles: Seq<Seq<Seq<Tile>>>,
}

impl RegionView {
    /// The tile grid is empty or exactly `width × height × REGION_DEPTH`.
    pub open spec fn wf(self) -> bool {
        self.tiles.len() == 0 || self.populated()
    }

    /// The tile grid is fully populated.
    pub open spec fn populated(self) -> bool {
        is_full_grid(self.tiles, self.width as int, self.height as int)
    }

    /// The same region with another tile grid.
    pub open spec fn with_tiles(self, tiles: Seq<Seq<Seq<Tile>>>) -> RegionView {
        RegionView { tiles, ..self }
    }
}

impl View for Region {
    type V = RegionView;

    closed spec fn view(&self) -> RegionView {
        RegionView {
            id: self.id,
            width: self.width,
            height: self.height,
            biome: self.biome,
            tiles: grid_view(self.tiles),
        }
    }
}

/// Whether `g` is a fully populated `w × h × REGION_DEPTH` grid.
pub fn grid_has_shape(g: &Vec<Vec<Vec<Tile>>>, w: u32, h: u32) -> (r: bool)
    ensures
        r == is_full_grid(grid_view(*g), w as int, h as int),
{
    if g.len() != w as usize {
        return false;
    }
    let mut x: usize = 0;
    while x < g.len()
        invariant
            x <= g@.len(),
            g@.len() == w,
            forall|i: int| 0 <= i < x ==> #[trigger] g@[i]@.len() == h,
            forall|i: int, j: int|
                0 <= i < x && 0 <= j < h ==> #[trigger] g@[i]@[j]@.len() == REGION_DEPTH,
        decreases g@.len() - x,
    {
        let column = &g[x];
        if column.len() != h as usize {
            assert(grid_view(*g)[x as int].len() != h);
            return false;
        }
        let mut y: usize = 0;
        while y < column.len()
            invariant
                y <= column@.len(),
                column@.len() == h,
                x < g@.len(),
                g@.len() == w,
                column == g@[x as int],
                forall|j: int| 0 <= j < y ==> #[trigger] column@[j]@.len() == REGION_DEPTH,
            decreases column@.len() - y,
        {
            if column[y].len() != REGION_DEPTH as usize {
                assert(grid_view(*g)[x as int] == column@.map_values(|s: Vec<Tile>| s@));
                assert(grid_view(*g)[x as int][y as int].len() != REGION_DEPTH);
                return false;
            }
            y = y + 1;
        }
        x = x + 1;
    }
    assert forall|i: int| 0 <= i < w implies #[trigger] grid_view(*g)[i] == g@[i]@.map_values(
        |s: Vec<Tile>| s@,
    ) by {}
    true
}

impl Region {
    /// A new region of `size × size` tiles with a fresh id and no tiles yet.
    pub fn new(size: u32, biome: BiomeType) -> (r: Region)
        ensures
            r@.width == size,
            r@.height == size,
            r@.biome == biome,
            r@.tiles.len() == 0,
    {
        Region { id: new_id(), width: size, height: size, biome, tiles: Vec::new() }
    }

    /// A region rebuilt from stored metadata; its tiles are not loaded yet.
    pub fn from_parts(id: u128, width: u32, height: u32, biome: BiomeType) -> (r: Region)
        ensures
            r@ == (RegionView { id, width, height, biome, tiles: Seq::empty() }),
    {
        let r = Region { id, width, height, biome, tiles: Vec::new() };
        assert(grid_view(r.tiles) =~= Seq::empty());
        r
    }

    pub fn id(&self) -> (r: u128)
        ensures
            r == self@.id,
    {
        self.id
    }

    pub fn width(&self) -> (r: u32)
        ensures
            r == self@.width,
    {
        self.width
    }

    pub fn height(&self) -> (r: u32)
        ensures
            r == self@.height,
    {
        self.height
    }

    pub fn biome(&self) -> (r: BiomeType)
        ensures
            r == self@.biome,
    {
        self.biome
    }

    /// Whether the tile grid is empty or exactly `width × height × REGION_DEPTH`.
    pub fn has_valid_tiles(&self) -> (r: bool)
        ensures
            r == self@.wf(),
    {
        self.tiles.len() == 0 || grid_has_shape(&self.tiles, self.width, self.height)
    }

    /// Whether the tile grid is fully populated (not disposed).
    pub fn is_populated(&self) -> (r: bool)
        ensures
            r == self@.populated(),
    {
        grid_has_shape(&self.tiles, self.width, self.height)
    }

    /// Read access to the tile grid; fails with `NotLoaded` while the region
    /// is disposed.
    pub fn tiles(&self) -> (r: Result<&Vec<Vec<Vec<Tile>>>, MapError>)
        ensures
            r is Ok <==> self@.populated(),
            r matches Ok(g) ==> grid_view(*g) == self@.tiles,
            r is Err ==> r == Err::<&Vec<Vec<Vec<Tile>>>, MapError>(MapError::NotLoaded),
    {
        if self.is_populated() {
            Ok(&self.tiles)
        } else {
            Err(MapError::NotLoaded)
        }
    }

    /// Fills the tile grid with the placeholder terrain, replacing what was there.
    pub fn generate_tiles(&mut self)
        ensures
            final(self)@ == old(self)@.with_tiles(
                generated_grid(old(self)@.width as nat, old(self)@.height as nat),
            ),
    {
        self.tiles = generate_grid(self.width, self.height);
    }

    /// Drops the tile grid from memory.
    pub fn dispose_tiles(&mut self)
        ensures
            final(self)@ == old(self)@.with_tiles(Seq::empty()),
    {
        self.tiles = Vec::new();
        assert(grid_view(self.tiles) =~= Seq::empty());
    }

    /// Hands the tile grid over for storage and leaves the region disposed.
    pub fn take_tiles(&mut self) -> (r: Vec<Vec<Vec<Tile>>>)
        ensures
            grid_view(r) == old(self)@.tiles,
            final(self)@ == old(self)@.with_tiles(Seq::empty()),
    {
        let mut taken: Vec<Vec<Vec<Tile>>> = Vec::new();
        std::mem::swap(&mut taken, &mut self.tiles);
        assert(grid_view(self.tiles) =~= Seq::empty());
        taken
    }

    /// Installs a stored tile grid, which must have the region's exact shape.
    pub fn load_tiles(&mut self, tiles: Vec<Vec<Vec<Tile>>>) -> (r: Result<(), MapError>)
        ensures
            r is Ok <==> is_full_grid(grid_view(tiles), old(self)@.width as int, old(self)@.height as int),
            r is Ok ==> final(self)@ == old(self)@.with_tiles(grid_view(tiles)),
            r is Err ==> r == Err::<(), MapError>(MapError::RegionShapeMismatch { id: old(self)@.id })
                && final(self)@ == old(self)@,
    {
        if grid_has_shape(&tiles, self.width, self.height) {
            self.tiles = tiles;
            Ok(())
        } else {
            Err(MapError::RegionShapeMismatch { id: self.id })
        }
    }

    /// Path of this region's tile file inside `dir`.
    pub fn tile_file(&self, dir: &str) -> (r: String)
        ensures
            r@ == dir@ + uuid_text(self@.id) + ".region"@,
    {
        let text = id_text(self.id);
        region_file(dir, text.as_str())
    }
}

} // verus!
