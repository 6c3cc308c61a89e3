use vstd::prelude::*;

use crate::map::{progress_trace, progress_value, WorldMapView};
use crate::tile::{generated_grid, is_full_grid, lemma_generated_grid_full};

verus! {

/// After generation the region grid has exactly `width × height` regions, and
/// every region holds a fully populated `region_size × region_size × REGION_DEPTH`
/// tile grid.
pub proof fn lemma_generation_populates(before: WorldMapView, after: WorldMapView)
    requires
        before.regenerated(after),
    ensures
        after.populated(),
        after.regions.len() == before.width,
        forall|x: int| 0 <= x < before.width ==> #[trigger] after.regions[x].len() == before.height,
        forall|x: int, y: int|
            0 <= x < before.width && 0 <= y < before.height ==> is_full_grid(
                (#[trigger] after.regions[x][y]).tiles,
                before.region_size as int,
                before.region_size as int,
            ),
{
    let size = before.region_size as nat;
    lemma_generated_grid_full(size, size);
    assert forall|x: int, y: int|
        0 <= x < before.width && 0 <= y < before.height implies is_full_grid(
        (#[trigger] after.regions[x][y]).tiles,
        before.region_size as int,
        before.region_size as int,
    ) by {
        assert(after.regions[x][y].tiles == generated_grid(size, size));
    }
}

/// The progress values reported while generating `total` regions are one per
/// region, never decrease, and end at 100.
pub proof fn lemma_progress_trace(total: nat)
    requires
        total > 0,
    ensures
        progress_trace(total).len() == total,
        forall|i: int, j: int|
            0 <= i <= j < total ==> progress_trace(total)[i] <= progress_trace(total)[j],
        progress_trace(total)[total - 1] == 100,
{
    let t = progress_trace(total);
    assert forall|k: int| 0 <= k < total implies #[trigger] t[k] == if k + 1 == total {
        100i32
    } else {
        0i32
    } by {
        let d = k + 1;
        let n = total as int;
        if d == n {
            assert(d / n == 1) by (nonlinear_arith)
                requires
                    d == n,
                    n > 0,
            ;
        } else {
            assert(d / n == 0) by (nonlinear_arith)
                requires
                    0 < d < n,
            ;
        }
        assert(progress_value(d, n) == (d / n) * 100);
    }
    assert forall|i: int, j: int|
        0 <= i <= j < total implies progress_trace(total)[i] <= progress_trace(total)[j] by {
        assert(t[i] == if i + 1 == total { 100i32 } else { 0i32 });
        assert(t[j] == if j + 1 == total { 100i32 } else { 0i32 });
    }
    assert(t[total - 1] == 100i32);
}

/// Saving a fully populated map succeeds and hands over exactly the grids that
/// loading needs: the disposed map is well formed, it accepts the saved
/// grids, and loading them back restores the map exactly.
pub proof fn lemma_save_load_round_trip(m: WorldMapView)
    requires
        m.populated(),
    ensures
        m.all_regions_populated(),
        m.disposed().wf(),
        m.disposed().accepts_tiles(m.tile_grids()),
        m.disposed().with_tiles(m.tile_grids()) == m,
{
    let d = m.disposed();
    let g = m.tile_grids();
    assert forall|x: int, y: int|
        0 <= x < d.width && 0 <= y < d.height && d.regions.len() != 0 implies {
        let r = #[trigger] d.regions[x][y];
        r.wf() && r.width == d.region_size && r.height == d.region_size
    } by {
        assert(d.regions[x][y] == m.regions[x][y].with_tiles(Seq::empty()));
    }
    assert forall|x: int, y: int|
        0 <= x < g.len() && 0 <= y < g[x].len() implies is_full_grid(
        #[trigger] g[x][y],
        d.regions[x][y].width as int,
        d.regions[x][y].height as int,
    ) by {
        assert(g[x][y] == m.regions[x][y].tiles);
        assert(m.regions[x][y].populated());
    }
    let back = d.with_tiles(g);
    assert forall|x: int| 0 <= x < m.regions.len() implies #[trigger] back.regions[x] =~= m.regions[x] by {
        assert forall|y: int| 0 <= y < m.regions[x].len() implies back.regions[x][y] == m.regions[x][y] by {}
    }
    assert(back.regions =~= m.regions);
}

/// A saved map keeps its identity, dimensions, seed and every region's
/// metadata, while no region holds any tiles; so until tiles are loaded or
/// generated again, no region of positive size counts as populated and a
/// further save is refused.
pub proof fn lemma_saved_map_disposed(m: WorldMapView)
    ensures
        m.disposed().id == m.id,
        m.disposed().width == m.width,
        m.disposed().height == m.height,
        m.disposed().region_size == m.region_size,
        m.disposed().seed == m.seed,
        m.disposed().regions.len() == m.regions.len(),
        forall|x: int| 0 <= x < m.regions.len() ==> #[trigger] m.disposed().regions[x].len() == m.regions[x].len(),
        forall|x: int, y: int|
            0 <= x < m.regions.len() && 0 <= y < m.regions[x].len() ==> {
                let r = #[trigger] m.disposed().regions[x][y];
                &&& r.tiles.len() == 0
                &&& r.id == m.regions[x][y].id
                &&& r.width == m.regions[x][y].width
                &&& r.height == m.regions[x][y].height
                &&& r.biome == m.regions[x][y].biome
            },
        forall|x: int, y: int|
            0 <= x < m.regions.len() && 0 <= y < m.regions[x].len() && m.regions[x][y].width > 0
                ==> !(#[trigger] m.disposed().regions[x][y]).populated(),
{
}

} // verus!
