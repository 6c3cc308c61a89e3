use vstd::prelude::*;

use crate::ids::{id_text, map_directory, map_file, new_id, uuid_text};
use crate::region::{grid_has_shape, MapError, Region, RegionView};
use crate::tile::{generated_grid, grid_view, is_full_grid, BiomeType, Tile};

verus! {

/// A tile grid indexed `[x][y][z]`.
pub type TileGrid = Vec<Vec<Vec<Tile>>>;

/// The progress reported after `done` of `total` regions: the completed
/// fraction, truncated to an integer, times one hundred.
pub open spec fn progress_value(done: int, total: int) -> int {
    (done / total) * 100
}

/// Every progress value reported while generating `total` regions, in order.
pub open spec fn progress_trace(total: nat) -> Seq<i32> {
    Seq::new(total, |i: int| progress_value(i + 1, total as int) as i32)
}

/// `r` is a freshly generated region of a map whose regions are `size` tiles wide.
pub open spec fn is_generated_region(r: RegionView, size: u32) -> bool {
    &&& r.width == size
    &&& r.height == size
    &&& r.biome == BiomeType::Arid
    &&& r.tiles == generated_grid(size as nat, size as nat)
}

/// The mathematical content of a nested vector of regions.
pub open spec fn regions_view(v: Vec<Vec<Region>>) -> Seq<Seq<RegionView>> {
    v@.map_values(|c: Vec<Region>| c@.map_values(|r: Region| r@))
}

/// The mathematical content of a nested vector of tile grids.
pub open spec fn grids_view(v: Vec<Vec<TileGrid>>) -> Seq<Seq<Seq<Seq<Seq<Tile>>>>> {
    v@.map_values(|c: Vec<TileGrid>| c@.map_values(|g: TileGrid| grid_view(g)))
}

/// A world: a `width × height` grid of regions, each `region_size` tiles wide.
pub struct WorldMap {
    id: u128,
    width: u32,
    height: u32,
    region_size: u32,
    regions: Vec<Vec<Region>>,
    seed: i32,
}

/// The mathematical content of a map.
pub struct WorldMapView {
    pub id: u128,
    pub width: u32,
    pub height: u32,
    pub region_size: u32,
    pub seed: i32,
    pub regions: Seq<Seq<RegionView>>,
}

impl WorldMapView {
    /// The region grid is empty, or is `width × height` regions of the map's
    /// region size, each with an empty or fully populated tile grid.
    pub open spec fn wf(self) -> bool {
        self.regions.len() == 0 || {
            &&& self.regions.len() == self.width
            &&& forall|x: int| 0 <= x < self.width ==> #[trigger] self.regions[x].len() == self.height
            &&& forall|x: int, y: int|
                0 <= x < self.width && 0 <= y < self.height ==> {
                    let r = #[trigger] self.regions[x][y];
                    r.wf() && r.width == self.region_size && r.height == self.region_size
                }
        }
    }

    /// The same map with every region's tile grid dropped.
    pub open spec fn disposed(self) -> WorldMapView {
        WorldMapView {
            regions: Seq::new(
                self.regions.len(),
                |x: int|
                    Seq::new(
                        self.regions[x].len(),
                        |y: int| self.regions[x][y].with_tiles(Seq::empty()),
                    ),
            ),
            ..self
        }
    }

    /// The tile grid of every region, indexed like the regions.
    pub open spec fn tile_grids(self) -> Seq<Seq<Seq<Seq<Seq<Tile>>>>> {
        Seq::new(
            self.regions.len(),
            |x: int| Seq::new(self.regions[x].len(), |y: int| self.regions[x][y].tiles),
        )
    }

    /// `grids` holds one grid per region, indexed like the regions.
    pub open spec fn counts_match(self, grids: Seq<Seq<Seq<Seq<Seq<Tile>>>>>) -> bool {
        &&& grids.len() == self.regions.len()
        &&& forall|x: int| 0 <= x < grids.len() ==> #[trigger] grids[x].len() == self.regions[x].len()
    }

    /// `grids` holds one fully populated tile grid of the right shape per region.
    pub open spec fn accepts_tiles(self, grids: Seq<Seq<Seq<Seq<Seq<Tile>>>>>) -> bool {
        &&& self.counts_match(grids)
        &&& forall|x: int, y: int|
            0 <= x < grids.len() && 0 <= y < grids[x].len() ==> is_full_grid(
                #[trigger] grids[x][y],
                self.regions[x][y].width as int,
                self.regions[x][y].height as int,
            )
    }

    /// The same map with region `[x][y]` holding `grids[x][y]`.
    pub open spec fn with_tiles(self, grids: Seq<Seq<Seq<Seq<Seq<Tile>>>>>) -> WorldMapView {
        WorldMapView {
            regions: Seq::new(
                self.regions.len(),
                |x: int|
                    Seq::new(
                        self.regions[x].len(),
                        |y: int| self.regions[x][y].with_tiles(grids[x][y]),
                    ),
            ),
            ..self
        }
    }

    /// `next` is this map with its region grid replaced by `width × height`
    /// freshly generated regions.
    pub open spec fn regenerated(self, next: WorldMapView) -> bool {
        &&& next.id == self.id
        &&& next.width == self.width
        &&& next.height == self.height
        &&& next.region_size == self.region_size
        &&& next.seed == self.seed
        &&& next.regions.len() == self.width
        &&& forall|x: int| 0 <= x < self.width ==> #[trigger] next.regions[x].len() == self.height
        &&& forall|x: int, y: int|
            0 <= x < self.width && 0 <= y < self.height ==> is_generated_region(
                #[trigger] next.regions[x][y],
                self.region_size,
            )
    }

    /// Every region in the grid holds a fully populated tile grid.
    pub open spec fn all_regions_populated(self) -> bool {
        forall|x: int, y: int|
            0 <= x < self.regions.len() && 0 <= y < self.regions[x].len() ==> (#[trigger] self.regions[x][y]).populated()
    }

    /// Every region is present with a fully populated tile grid.
    pub open spec fn populated(self) -> bool {
        &&& self.wf()
        &&& self.regions.len() == self.width
        &&& forall|x: int| 0 <= x < self.width ==> #[trigger] self.regions[x].len() == self.height
        &&& forall|x: int, y: int|
            0 <= x < self.width && 0 <= y < self.height ==> (#[trigger] self.regions[x][y]).populated()
    }
}

impl View for WorldMap {
    type V = WorldMapView;

    closed spec fn view(&self) -> WorldMapView {
        WorldMapView {
            id: self.id,
            width: self.width,
            height: self.height,
            region_size: self.region_size,
            seed: self.seed,
            regions: regions_view(self.regions),
        }
    }
}

/// Whether a map of these dimensions with this region grid is well formed.
fn regions_well_formed(width: u32, height: u32, region_size: u32, regions: &Vec<Vec<Region>>) -> (r: bool)
    ensures
        r == (WorldMapView { id: 0, width, height, region_size, seed: 0, regions: regions_view(*regions) }).wf(),
{
    let ghost v = WorldMapView { id: 0, width, height, region_size, seed: 0, regions: regions_view(*regions) };
    let n = regions.len();
    if n != 0 {
        if n != width as usize {
            return false;
        }
        let mut x: usize = 0;
        while x < n
            invariant
                x <= n,
                n == width,
                n == regions@.len(),
                v.regions == regions_view(*regions),
                v.width == width,
                v.height == height,
                v.region_size == region_size,
                forall|i: int| 0 <= i < x ==> #[trigger] v.regions[i].len() == height,
                forall|i: int, j: int|
                    0 <= i < x && 0 <= j < height ==> {
                        let r = #[trigger] v.regions[i][j];
                        r.wf() && r.width == region_size && r.height == region_size
                    },
            decreases n - x,
        {
            let column = &regions[x];
            assert(v.regions[x as int] == column@.map_values(|r: Region| r@));
            if column.len() != height as usize {
                assert(v.regions[x as int].len() != v.height);
                assert(v.regions.len() != 0);
                return false;
            }
            let mut y: usize = 0;
            while y < column.len()
                invariant
                    x < n,
                    y <= column@.len(),
                    column@.len() == height,
                    n == width,
                    n == regions@.len(),
                    column == regions@[x as int],
                    v.regions == regions_view(*regions),
                    v.regions[x as int] == column@.map_values(|r: Region| r@),
                    v.width == width,
                    v.height == height,
                    v.region_size == region_size,
                    forall|j: int|
                        0 <= j < y ==> {
                            let r = #[trigger] v.regions[x as int][j];
                            r.wf() && r.width == region_size && r.height == region_size
                        },
                decreases column@.len() - y,
            {
                let region = &column[y];
                assert(v.regions[x as int][y as int] == region@);
                if region.width() != region_size || region.height() != region_size {
                    return false;
                }
                if !region.has_valid_tiles() {
                    return false;
                }
                y = y + 1;
            }
            x = x + 1;
        }
    }
    true
}

/// Whether every region in `regions` holds a fully populated tile grid.
fn regions_populated(regions: &Vec<Vec<Region>>) -> (r: bool)
    ensures
        r == (forall|x: int, y: int|
            0 <= x < regions_view(*regions).len() && 0 <= y < regions_view(*regions)[x].len()
                ==> (#[trigger] regions_view(*regions)[x][y]).populated()),
{
    let ghost v = regions_view(*regions);
    assert(v.len() == regions@.len());
    let mut x: usize = 0;
    while x < regions.len()
        invariant
            x <= regions@.len(),
            v == regions_view(*regions),
            v.len() == regions@.len(),
            forall|i: int, j: int| 0 <= i < x && 0 <= j < v[i].len() ==> (#[trigger] v[i][j]).populated(),
        decreases regions@.len() - x,
    {
        let column = &regions[x];
        assert(v[x as int] == column@.map_values(|r: Region| r@));
        let mut y: usize = 0;
        while y < column.len()
            invariant
                x < regions@.len(),
                y <= column@.len(),
                column == regions@[x as int],
                v == regions_view(*regions),
                v[x as int] == column@.map_values(|r: Region| r@),
                forall|i: int, j: int| 0 <= i < x && 0 <= j < v[i].len() ==> (#[trigger] v[i][j]).populated(),
                forall|j: int| 0 <= j < y ==> (#[trigger] v[x as int][j]).populated(),
            decreases column@.len() - y,
        {
            assert(v[x as int][y as int] == column@[y as int]@);
            if !column[y].is_populated() {
                return false;
            }
            y = y + 1;
        }
        x = x + 1;
    }
    true
}

/// Whether `grids` holds one grid per region of `regions`, indexed alike.
fn grid_counts_match(regions: &Vec<Vec<Region>>, grids: &Vec<Vec<TileGrid>>) -> (r: bool)
    ensures
        r == (WorldMapView { id: 0, width: 0, height: 0, region_size: 0, seed: 0, regions: regions_view(*regions) }).counts_match(
            grids_view(*grids),
        ),
{
    let ghost v = WorldMapView { id: 0, width: 0, height: 0, region_size: 0, seed: 0, regions: regions_view(*regions) };
    let ghost g = grids_view(*grids);
    if grids.len() != regions.len() {
        return false;
    }
    let mut x: usize = 0;
    while x < grids.len()
        invariant
            x <= grids@.len(),
            grids@.len() == regions@.len(),
            v.regions == regions_view(*regions),
            g == grids_view(*grids),
            forall|i: int| 0 <= i < x ==> #[trigger] g[i].len() == v.regions[i].len(),
        decreases grids@.len() - x,
    {
        assert(g[x as int].len() == grids@[x as int]@.len());
        assert(v.regions[x as int].len() == regions@[x as int]@.len());
        if grids[x].len() != regions[x].len() {
            return false;
        }
        x = x + 1;
    }
    true
}

fn progress_percent(done: u32, total: u32) -> (r: i32)
    requires
        0 < total,
        done <= total,
    ensures
        r == progress_value(done as int, total as int),
{
    let q = done / total;
    assert(q <= 1) by (nonlinear_arith)
        requires
            q == done / total,
            done <= total,
            0 < total,
    ;
    (q * 100) as i32
}

impl WorldMap {
    /// A new map of `width × height` regions, with a fresh id, no regions and
    /// the seed unset (`-1`).
    pub fn new(width: u32, height: u32, region_size: u32) -> (r: WorldMap)
        ensures
            r@.width == width,
            r@.height == height,
            r@.region_size == region_size,
            r@.seed == -1,
            r@.regions.len() == 0,
    {
        let r = WorldMap { id: new_id(), width, height, region_size, regions: Vec::new(), seed: -1 };
        assert(regions_view(r.regions) =~= Seq::empty());
        r
    }

    pub fn set_seed(&mut self, seed: i32)
        ensures
            final(self)@ == (WorldMapView { seed, ..old(self)@ }),
    {
        self.seed = seed;
    }

    pub fn id(&self) -> (r: u128)
        ensures
            r == self@.id,
    {
        self.id
    }

    pub fn get_width(&self) -> (r: u32)
        ensures
            r == self@.width,
    {
        self.width
    }

    pub fn get_height(&self) -> (r: u32)
        ensures
            r == self@.height,
    {
        self.height
    }

    pub fn region_size(&self) -> (r: u32)
        ensures
            r == self@.region_size,
    {
        self.region_size
    }

    pub fn seed(&self) -> (r: i32)
        ensures
            r == self@.seed,
    {
        self.seed
    }

    /// Read access to the region grid.
    pub fn regions(&self) -> (r: &Vec<Vec<Region>>)
        ensures
            regions_view(*r) == self@.regions,
    {
        &self.regions
    }

    /// The biome of region `[x][y]`, or `OutOfBounds` where no such region exists.
    pub fn get_biome_at_offset(&self, x: u32, y: u32) -> (r: Result<BiomeType, MapError>)
        ensures
            r is Ok <==> x < self@.regions.len() && y < self@.regions[x as int].len(),
            r matches Ok(b) ==> b == self@.regions[x as int][y as int].biome,
            r is Err ==> r == Err::<BiomeType, MapError>(MapError::OutOfBounds),
    {
        if (x as usize) < self.regions.len() && (y as usize) < self.regions[x as usize].len() {
            Ok(self.regions[x as usize][y as usize].biome())
        } else {
            Err(MapError::OutOfBounds)
        }
    }

    /// Replaces the region grid with `width × height` freshly generated Arid
    /// regions, built column by column (`x` outer, `y` inner). After each
    /// region `progress_callback` receives the progress so far; the values
    /// passed, in order, are returned as a ghost trace, and each of those
    /// calls has completed.
    pub fn generate_regions<F: Fn(i32)>(&mut self, progress_callback: F) -> (reported: Ghost<Seq<i32>>)
        requires
            old(self)@.width * old(self)@.height <= u32::MAX,
            forall|p: i32| progress_callback.requires((p,)),
        ensures
            old(self)@.regenerated(final(self)@),
            reported@ == progress_trace((old(self)@.width * old(self)@.height) as nat),
            forall|k: int|
                0 <= k < reported@.len() ==> progress_callback.ensures((#[trigger] reported@[k],), ()),
    {
        let w = self.width;
        let h = self.height;
        let total: u32 = w * h;
        let mut done: u32 = 0;
        let ghost mut trace: Seq<i32> = Seq::empty();
        let mut grid: Vec<Vec<Region>> = Vec::new();
        let mut x: u32 = 0;
        while x < w
            invariant
                x <= w,
                w == self.width,
                h == self.height,
                total == w * h,
                done == x * h,
                trace =~= progress_trace(total as nat).take(done as int),
                forall|k: int| 0 <= k < trace.len() ==> progress_callback.ensures((#[trigger] trace[k],), ()),
                forall|p: i32| progress_callback.requires((p,)),
                grid@.len() == x,
                forall|i: int| 0 <= i < x ==> #[trigger] grid@[i]@.len() == h,
                forall|i: int, j: int|
                    0 <= i < x && 0 <= j < h ==> is_generated_region(
                        #[trigger] grid@[i]@[j]@,
                        self.region_size,
                    ),
            decreases w - x,
        {
            let mut column: Vec<Region> = Vec::new();
            let mut y: u32 = 0;
            while y < h
                invariant
                    x < w,
                    y <= h,
                    w == self.width,
                    h == self.height,
                    total == w * h,
                    done == x * h + y,
                    trace =~= progress_trace(total as nat).take(done as int),
                    forall|k: int| 0 <= k < trace.len() ==> progress_callback.ensures((#[trigger] trace[k],), ()),
                    forall|p: i32| progress_callback.requires((p,)),
                    column@.len() == y,
                    forall|j: int|
                        0 <= j < y ==> is_generated_region(#[trigger] column@[j]@, self.region_size),
                decreases h - y,
            {
                let mut region = Region::new(self.region_size, BiomeType::Arid);
                region.generate_tiles();
                column.push(region);
                assert(x * h + y + 1 <= w * h) by (nonlinear_arith)
                    requires
                        x < w,
                        y < h,
                ;
                done = done + 1;
                let progress = progress_percent(done, total);
                progress_callback(progress);
                proof {
                    trace = trace.push(progress);
                }
                y = y + 1;
            }
            assert((x + 1) * h == x * h + h) by (nonlinear_arith);
            grid.push(column);
            x = x + 1;
        }
        self.regions = grid;
        assert forall|i: int| 0 <= i < w implies #[trigger] self@.regions[i] == grid@[i]@.map_values(
            |r: Region| r@,
        ) by {}
        assert(trace =~= progress_trace(total as nat));
        Ghost(trace)
    }

    /// Hands every region's tile grid over for storage, indexed like the
    /// regions, and leaves every region disposed. Ids, dimensions, biomes and
    /// the seed stay as they were. Fails with `NotLoaded`, changing nothing,
    /// if some region is already disposed.
    pub fn save(&mut self) -> (r: Result<Vec<Vec<TileGrid>>, MapError>)
        ensures
            r is Ok <==> old(self)@.all_regions_populated(),
            r matches Ok(saved) ==> final(self)@ == old(self)@.disposed() && grids_view(saved)
                == old(self)@.tile_grids(),
            r is Err ==> r == Err::<Vec<Vec<TileGrid>>, MapError>(MapError::NotLoaded) && final(self)@
                == old(self)@,
    {
        let ok = regions_populated(&self.regions);
        assert(self@.regions == regions_view(self.regions));
        assert(ok == self@.all_regions_populated());
        if !ok {
            return Err(MapError::NotLoaded);
        }
        let ghost before = self@;
        assert forall|i: int| 0 <= i < before.regions.len() implies #[trigger] before.regions[i]
            == self.regions@[i]@.map_values(|r: Region| r@) by {}
        let mut saved: Vec<Vec<TileGrid>> = Vec::new();
        let n = self.regions.len();
        let mut x: usize = 0;
        while x < n
            invariant
                x <= n,
                n == before.regions.len(),
                self.regions@.len() == n,
                self@.id == before.id,
                self@.width == before.width,
                self@.height == before.height,
                self@.region_size == before.region_size,
                self@.seed == before.seed,
                forall|i: int| 0 <= i < n ==> #[trigger] self.regions@[i]@.len() == before.regions[i].len(),
                forall|i: int, j: int|
                    0 <= i < n && 0 <= j < before.regions[i].len() ==> #[trigger] self.regions@[i]@[j]@
                        == if i < x {
                        before.regions[i][j].with_tiles(Seq::empty())
                    } else {
                        before.regions[i][j]
                    },
                saved@.len() == x,
                forall|i: int| 0 <= i < x ==> #[trigger] saved@[i]@.len() == before.regions[i].len(),
                forall|i: int, j: int|
                    0 <= i < x && 0 <= j < before.regions[i].len() ==> grid_view(
                        #[trigger] saved@[i]@[j],
                    ) == before.regions[i][j].tiles,
            decreases n - x,
        {
            let mut column: Vec<TileGrid> = Vec::new();
            let m = self.regions[x].len();
            let mut y: usize = 0;
            while y < m
                invariant
                    x < n,
                    y <= m,
                    m == before.regions[x as int].len(),
                    n == before.regions.len(),
                    self.regions@.len() == n,
                    self@.id == before.id,
                    self@.width == before.width,
                    self@.height == before.height,
                    self@.region_size == before.region_size,
                    self@.seed == before.seed,
                    forall|i: int| 0 <= i < n ==> #[trigger] self.regions@[i]@.len() == before.regions[i].len(),
                    forall|i: int, j: int|
                        0 <= i < n && 0 <= j < before.regions[i].len() ==> #[trigger] self.regions@[i]@[j]@
                            == if i < x || (i == x && j < y) {
                            before.regions[i][j].with_tiles(Seq::empty())
                        } else {
                            before.regions[i][j]
                        },
                    column@.len() == y,
                    forall|j: int| 0 <= j < y ==> grid_view(#[trigger] column@[j]) == before.regions[x as int][j].tiles,
                decreases m - y,
            {
                let grid = self.regions[x][y].take_tiles();
                column.push(grid);
                y = y + 1;
            }
            saved.push(column);
            x = x + 1;
        }
        assert forall|i: int| 0 <= i < n implies #[trigger] self@.regions[i] =~= before.disposed().regions[i] by {
            assert(self@.regions[i] == self.regions@[i]@.map_values(|r: Region| r@));
            assert forall|j: int| 0 <= j < self@.regions[i].len() implies self@.regions[i][j]
                == before.disposed().regions[i][j] by {
                assert(self.regions@[i]@[j]@ == before.regions[i][j].with_tiles(Seq::empty()));
            }
        }
        assert(self@.regions =~= before.disposed().regions);
        assert forall|i: int| 0 <= i < n implies #[trigger] grids_view(saved)[i] =~= before.tile_grids()[i] by {
            assert(grids_view(saved)[i] == saved@[i]@.map_values(|g: TileGrid| grid_view(g)));
            assert forall|j: int| 0 <= j < grids_view(saved)[i].len() implies grids_view(saved)[i][j]
                == before.tile_grids()[i][j] by {
                assert(grid_view(saved@[i]@[j]) == before.regions[i][j].tiles);
            }
        }
        assert(grids_view(saved) =~= before.tile_grids());
        Ok(saved)
    }

    /// Replaces this map by `stored`, whose regions receive the tile grids in
    /// `tiles` (indexed like the regions). On failure this map is left as it
    /// was: with `InvariantViolation` where `stored` is not well formed or
    /// `tiles` does not hold one grid per region, and with
    /// `RegionShapeMismatch` naming a region whose grid has the wrong shape.
    pub fn load(&mut self, stored: WorldMap, tiles: Vec<Vec<TileGrid>>) -> (r: Result<(), MapError>)
        ensures
            r is Ok <==> stored@.wf() && stored@.accepts_tiles(grids_view(tiles)),
            r is Ok ==> final(self)@ == stored@.with_tiles(grids_view(tiles)) && final(self)@.wf(),
            r is Err ==> final(self)@ == old(self)@,
            r == Err::<(), MapError>(MapError::InvariantViolation) <==> !(stored@.wf()
                && stored@.counts_match(grids_view(tiles))),
            r matches Err(e) ==> e is InvariantViolation || e is RegionShapeMismatch,
            r matches Err(MapError::RegionShapeMismatch { id }) ==> exists|x: int, y: int|
                0 <= x < stored@.regions.len() && 0 <= y < stored@.regions[x].len()
                    && (#[trigger] stored@.regions[x][y]).id == id && !is_full_grid(
                    grids_view(tiles)[x][y],
                    stored@.regions[x][y].width as int,
                    stored@.regions[x][y].height as int,
                ),
    {
        let ghost before = stored@;
        let ghost orig = grids_view(tiles);
        let shape_ok = regions_well_formed(stored.width, stored.height, stored.region_size, &stored.regions);
        let counts_ok = grid_counts_match(&stored.regions, &tiles);
        assert(shape_ok == before.wf());
        assert(counts_ok == before.counts_match(orig));
        if !shape_ok || !counts_ok {
            return Err(MapError::InvariantViolation);
        }
        let mut m = stored;
        let mut remaining = tiles;
        let n = m.regions.len();
        assert forall|i: int| 0 <= i < n implies #[trigger] before.regions[i]
            == m.regions@[i]@.map_values(|r: Region| r@) && orig[i] == remaining@[i]@.map_values(
            |g: TileGrid| grid_view(g),
        ) by {}
        let mut x: usize = 0;
        while x < n
            invariant
                x <= n,
                n == before.regions.len(),
                n == orig.len(),
                before == stored@,
                orig == grids_view(tiles),
                before.wf(),
                before.counts_match(orig),
                m.regions@.len() == n,
                remaining@.len() == n,
                m.id == before.id,
                m.width == before.width,
                m.height == before.height,
                m.region_size == before.region_size,
                m.seed == before.seed,
                forall|i: int| 0 <= i < n ==> #[trigger] m.regions@[i]@.len() == before.regions[i].len(),
                forall|i: int| 0 <= i < n ==> #[trigger] remaining@[i]@.len() == orig[i].len(),
                forall|i: int| 0 <= i < x ==> #[trigger] orig[i].len() == before.regions[i].len(),
                forall|i: int, j: int|
                    0 <= i < n && 0 <= j < before.regions[i].len() ==> #[trigger] m.regions@[i]@[j]@
                        == if i < x {
                        before.regions[i][j].with_tiles(orig[i][j])
                    } else {
                        before.regions[i][j]
                    },
                forall|i: int, j: int|
                    x <= i < n && 0 <= j < orig[i].len() ==> grid_view(#[trigger] remaining@[i]@[j])
                        == orig[i][j],
                forall|i: int, j: int|
                    0 <= i < x && 0 <= j < orig[i].len() ==> is_full_grid(
                        #[trigger] orig[i][j],
                        before.regions[i][j].width as int,
                        before.regions[i][j].height as int,
                    ),
            decreases n - x,
        {
            let k = m.regions[x].len();
            let mut y: usize = 0;
            while y < k
                invariant
                    x < n,
                    y <= k,
                    k == before.regions[x as int].len(),
                    k == orig[x as int].len(),
                    n == before.regions.len(),
                    n == orig.len(),
                    before == stored@,
                    orig == grids_view(tiles),
                    before.wf(),
                    before.counts_match(orig),
                    m.regions@.len() == n,
                    remaining@.len() == n,
                    m.id == before.id,
                    m.width == before.width,
                    m.height == before.height,
                    m.region_size == before.region_size,
                    m.seed == before.seed,
                    forall|i: int| 0 <= i < n ==> #[trigger] m.regions@[i]@.len() == before.regions[i].len(),
                    forall|i: int| 0 <= i < n ==> #[trigger] remaining@[i]@.len() == orig[i].len(),
                    forall|i: int| 0 <= i <= x ==> #[trigger] orig[i].len() == before.regions[i].len(),
                    forall|i: int, j: int|
                        0 <= i < n && 0 <= j < before.regions[i].len() ==> #[trigger] m.regions@[i]@[j]@
                            == if i < x || (i == x && j < y) {
                            before.regions[i][j].with_tiles(orig[i][j])
                        } else {
                            before.regions[i][j]
                        },
                    forall|i: int, j: int|
                        x <= i < n && 0 <= j < orig[i].len() && (i > x || j >= y) ==> grid_view(
                            #[trigger] remaining@[i]@[j],
                        ) == orig[i][j],
                    forall|i: int, j: int|
                        0 <= i <= x && 0 <= j < orig[i].len() && (i < x || j < y) ==> is_full_grid(
                            #[trigger] orig[i][j],
                            before.regions[i][j].width as int,
                            before.regions[i][j].height as int,
                        ),
                decreases k - y,
            {
                let mut grid: TileGrid = Vec::new();
                std::mem::swap(&mut grid, &mut remaining[x][y]);
                assert(grid_view(grid) == orig[x as int][y as int]);
                assert(m.regions@[x as int]@[y as int]@ == before.regions[x as int][y as int]);
                let loaded = m.regions[x][y].load_tiles(grid);
                if let Err(e) = loaded {
                    assert(!is_full_grid(
                        orig[x as int][y as int],
                        before.regions[x as int][y as int].width as int,
                        before.regions[x as int][y as int].height as int,
                    ));
                    assert(e == MapError::RegionShapeMismatch { id: before.regions[x as int][y as int].id });
                    return Err(e);
                }
                y = y + 1;
            }
            x = x + 1;
        }
        let ghost goal = before.with_tiles(orig);
        assert forall|i: int| 0 <= i < n implies #[trigger] m@.regions[i] =~= goal.regions[i] by {
            assert(m@.regions[i] == m.regions@[i]@.map_values(|r: Region| r@));
            assert forall|j: int| 0 <= j < m@.regions[i].len() implies m@.regions[i][j]
                == goal.regions[i][j] by {
                assert(m.regions@[i]@[j]@ == before.regions[i][j].with_tiles(orig[i][j]));
            }
        }
        assert(m@.regions =~= goal.regions);
        assert(before.accepts_tiles(orig));
        assert forall|i: int, j: int|
            0 <= i < goal.width && 0 <= j < goal.height && goal.regions.len() != 0 implies {
            let r = #[trigger] goal.regions[i][j];
            r.wf() && r.width == goal.region_size && r.height == goal.region_size
        } by {
            assert(goal.regions[i][j] == before.regions[i][j].with_tiles(orig[i][j]));
        }
        assert(goal.wf());
        *self = m;
        Ok(())
    }

    /// A map rebuilt from stored metadata. Fails with `InvariantViolation`
    /// unless the region grid is empty or exactly `width × height` regions of
    /// `region_size` tiles, each with an empty or fully populated tile grid.
    pub fn from_parts(
        id: u128,
        width: u32,
        height: u32,
        region_size: u32,
        seed: i32,
        regions: Vec<Vec<Region>>,
    ) -> (r: Result<WorldMap, MapError>)
        ensures
            r is Ok <==> (WorldMapView { id, width, height, region_size, seed, regions: regions_view(regions) }).wf(),
            r matches Ok(m) ==> m@ == (WorldMapView {
                id,
                width,
                height,
                region_size,
                seed,
                regions: regions_view(regions),
            }),
            r is Err ==> r == Err::<WorldMap, MapError>(MapError::InvariantViolation),
    {
        if !regions_well_formed(width, height, region_size, &regions) {
            return Err(MapError::InvariantViolation);
        }
        Ok(WorldMap { id, width, height, region_size, regions, seed })
    }

    /// Directory that holds this map's files.
    pub fn directory(&self) -> (r: String)
        ensures
            r@ == "maps/"@ + uuid_text(self@.id) + "/"@,
    {
        let text = id_text(self.id);
        map_directory(text.as_str())
    }

    /// Path of this map's metadata file inside `dir`.
    pub fn metadata_file(&self, dir: &str) -> (r: String)
        ensures
            r@ == dir@ + uuid_text(self@.id) + ".map"@,
    {
        let text = id_text(self.id);
        map_file(dir, text.as_str())
    }
}

} // verus!
