use vstd::prelude::*;
use vstd::string::*;

verus! {

/// Number of tile layers in every region.
pub const REGION_DEPTH: u32 = 16;

/// Coarse terrain classification of a region.
#[derive(PartialEq, Eq, Structural, Clone, Copy, Debug)]
pub enum BiomeType {
    Arid,
    Grassland,
    Ocean,
    Rocky,
}

/// Material of a single tile.
#[derive(PartialEq, Eq, Structural, Clone, Copy, Debug)]
pub enum TileType {
    Air,
    Grass,
    Sand,
    Soil,
    Stone,
    Water,
}

/// The atomic unit of the world: a solidity flag and a material.
#[derive(PartialEq, Eq, Structural, Clone, Copy, Debug)]
pub struct Tile {
    pub solid: bool,
    pub tile_type: TileType,
}

/// Human-readable name of a biome.
pub open spec fn biome_name(b: BiomeType) -> Seq<char> {
    match b {
        BiomeType::Arid => "Arid"@,
        BiomeType::Grassland => "Grassland"@,
        BiomeType::Ocean => "Ocean"@,
        BiomeType::Rocky => "Rocky"@,
    }
}

/// Display name of a biome, for presentation.
pub fn get_biome_name(biome: &BiomeType) -> (r: String)
    ensures
        r@ == biome_name(*biome),
{
    match biome {
        BiomeType::Arid => String::from_str("Arid"),
        BiomeType::Grassland => String::from_str("Grassland"),
        BiomeType::Ocean => String::from_str("Ocean"),
        BiomeType::Rocky => String::from_str("Rocky"),
    }
}

/// The tile that placeholder generation puts at depth layer `z`:
/// solid stone in the lower half of the depth, open air in the upper half.
pub open spec fn placeholder_tile(z: int) -> Tile {
    if z < REGION_DEPTH / 2 {
        Tile { solid: true, tile_type: TileType::Stone }
    } else {
        Tile { solid: false, tile_type: TileType::Air }
    }
}

/// The generated stack of tiles at one `(x, y)` cell.
pub open spec fn generated_cell() -> Seq<Tile> {
    Seq::new(REGION_DEPTH as nat, |z: int| placeholder_tile(z))
}

/// The generated tile grid of a `w × h` region.
pub open spec fn generated_grid(w: nat, h: nat) -> Seq<Seq<Seq<Tile>>> {
    Seq::new(w, |x: int| Seq::new(h, |y: int| generated_cell()))
}

/// `t` is a fully populated `w × h × REGION_DEPTH` tile grid.
pub open spec fn is_full_grid(t: Seq<Seq<Seq<Tile>>>, w: int, h: int) -> bool {
    &&& t.len() == w
    &&& forall|x: int| 0 <= x < w ==> #[trigger] t[x].len() == h
    &&& forall|x: int, y: int|
        0 <= x < w && 0 <= y < h ==> #[trigger] t[x][y].len() == REGION_DEPTH
}

/// The mathematical content of a tile grid.
pub open spec fn grid_view(g: Vec<Vec<Vec<Tile>>>) -> Seq<Seq<Seq<Tile>>> {
    g@.map_values(|c: Vec<Vec<Tile>>| c@.map_values(|s: Vec<Tile>| s@))
}

/// Generation fills every grid of the requested shape completely.
pub proof fn lemma_generated_grid_full(w: nat, h: nat)
    ensures
        is_full_grid(generated_grid(w, h), w as int, h as int),
{
}

fn generated_stack() -> (r: Vec<Tile>)
    ensures
        r@ == generated_cell(),
{
    let mut stack: Vec<Tile> = Vec::new();
    let mut z: u32 = 0;
    while z < REGION_DEPTH
        invariant
            z <= REGION_DEPTH,
            stack@ =~= generated_cell().take(z as int),
        decreases REGION_DEPTH - z,
    {
        if z < REGION_DEPTH / 2 {
            stack.push(Tile { solid: true, tile_type: TileType::Stone });
        } else {
            stack.push(Tile { solid: false, tile_type: TileType::Air });
        }
        z = z + 1;
    }
    assert(stack@ =~= generated_cell());
    stack
}

/// A freshly generated `w × h × REGION_DEPTH` tile grid.
pub fn generate_grid(w: u32, h: u32) -> (r: Vec<Vec<Vec<Tile>>>)
    ensures
        grid_view(r) == generated_grid(w as nat, h as nat),
{
    let mut grid: Vec<Vec<Vec<Tile>>> = Vec::new();
    let mut x: u32 = 0;
    while x < w
        invariant
            x <= w,
            grid@.len() == x,
            forall|i: int| 0 <= i < x ==> #[trigger] grid@[i]@.len() == h,
            forall|i: int, j: int|
                0 <= i < x && 0 <= j < h ==> #[trigger] grid@[i]@[j]@ == generated_cell(),
        decreases w - x,
    {
        let mut column: Vec<Vec<Tile>> = Vec::new();
        let mut y: u32 = 0;
        while y < h
            invariant
                y <= h,
                column@.len() == y,
                forall|j: int| 0 <= j < y ==> #[trigger] column@[j]@ == generated_cell(),
            decreases h - y,
        {
            let stack = generated_stack();
            column.push(stack);
            y = y + 1;
        }
        grid.push(column);
        x = x + 1;
    }
    let ghost g = generated_grid(w as nat, h as nat);
    assert forall|i: int| 0 <= i < w implies #[trigger] grid_view(grid)[i] =~= g[i] by {
        assert(grid_view(grid)[i] =~= grid@[i]@.map_values(|s: Vec<Tile>| s@));
    }
    assert(grid_view(grid) =~= g);
    grid
}

} // verus!
