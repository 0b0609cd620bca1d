use vstd::prelude::*;

use crate::geometry::Point;

verus! {

/// Width of the default screen-sized map, in tiles.
pub const SCREEN_WIDTH: i32 = 80;

/// Height of the default screen-sized map, in tiles.
pub const SCREEN_HEIGHT: i32 = 50;

/// Tile count of the default screen-sized map.
pub const NUM_TILES: usize = 4000;

/// Largest width or height a map may have.  The bound keeps every index
/// computation inside `i32` and every camera offset free of overflow; it is a
/// machine limit, not a rule of the game.
pub const MAX_MAP_DIM: i32 = 10000;

/// Terrain classification of one grid cell.
#[derive(Clone, Copy, Debug, PartialEq, Eq, Structural)]
pub enum TileType {
    Wall,
    Floor,
}

/// A fixed-size tile grid stored row-major: the tile at `(x, y)` sits at
/// index `y * width + x`.
pub struct GameMap {
    pub width: i32,
    pub height: i32,
    pub tiles: Vec<TileType>,
}

/// Row-major index into the default screen-sized map.
pub fn map_idx(x: i32, y: i32) -> (idx: usize)
    requires
        0 <= x < SCREEN_WIDTH,
        0 <= y < SCREEN_HEIGHT,
    ensures
        idx == y * SCREEN_WIDTH + x,
{
    ((y * SCREEN_WIDTH) + x) as usize
}

impl GameMap {
    /// The grid's shape invariant: positive bounded dimensions and one tile
    /// per cell.
    pub open spec fn wf(self) -> bool {
        &&& 0 < self.width <= MAX_MAP_DIM
        &&& 0 < self.height <= MAX_MAP_DIM
        &&& self.tiles@.len() == self.width * self.height
    }

    /// Whether `p` lies on the grid.
    pub open spec fn spec_in_bounds(self, p: Point) -> bool {
        0 <= p.x < self.width && 0 <= p.y < self.height
    }

    /// Row-major index of `p`.
    pub open spec fn spec_idx(self, p: Point) -> int {
        p.y * self.width + p.x
    }

    /// The tile stored at `p`.
    pub open spec fn tile_at(self, p: Point) -> TileType {
        self.tiles@[self.spec_idx(p)]
    }

    /// Movement legality: `p` is on the grid and its tile is floor.
    pub open spec fn spec_can_enter(self, p: Point) -> bool {
        self.spec_in_bounds(p) && self.tile_at(p) == TileType::Floor
    }

    /// A screen-sized map consisting entirely of floor.
    pub fn new() -> (m: GameMap)
        ensures
            m.wf(),
            m.width == SCREEN_WIDTH,
            m.height == SCREEN_HEIGHT,
            forall|i: int| 0 <= i < m.tiles@.len() ==> m.tiles@[i] == TileType::Floor,
    {
        let mut tiles: Vec<TileType> = Vec::new();
        let mut i: usize = 0;
        while i < NUM_TILES
            invariant
                i <= NUM_TILES,
                tiles@.len() == i,
                forall|k: int| 0 <= k < i ==> tiles@[k] == TileType::Floor,
            decreases NUM_TILES - i,
        {
            tiles.push(TileType::Floor);
            i = i + 1;
        }
        GameMap { width: SCREEN_WIDTH, height: SCREEN_HEIGHT, tiles }
    }

    /// Check if the point is within the bounds of the map.
    pub fn in_bounds(&self, point: Point) -> (r: bool)
        ensures
            r == self.spec_in_bounds(point),
    {
        point.x >= 0 && point.x < self.width && point.y >= 0 && point.y < self.height
    }

    /// Whether the index of an in-bounds point stays inside the tile vector.
    proof fn lemma_idx_in_range(self, p: Point)
        requires
            self.wf(),
            self.spec_in_bounds(p),
        ensures
            0 <= p.y * self.width,
            0 <= self.spec_idx(p) < self.tiles@.len(),
            self.tiles@.len() <= 100000000,
    {
        assert(p.y * self.width + p.x < self.width * self.height) by (nonlinear_arith)
            requires
                0 <= p.x < self.width,
                0 <= p.y < self.height,
        ;
        assert(self.width * self.height <= MAX_MAP_DIM * MAX_MAP_DIM) by (nonlinear_arith)
            requires
                0 < self.width <= MAX_MAP_DIM,
                0 < self.height <= MAX_MAP_DIM,
        ;
        assert(p.y * self.width >= 0) by (nonlinear_arith)
            requires
                0 <= p.y,
                0 < self.width,
        ;
    }

    /// Check if an entity can enter this tile: in bounds and floor.
    pub fn can_enter_tile(&self, point: Point) -> (r: bool)
        requires
            self.wf(),
        ensures
            r == self.spec_can_enter(point),
    {
        if !self.in_bounds(point) {
            false
        } else {
            proof {
                self.lemma_idx_in_range(point);
            }
            let idx = ((point.y * self.width) + point.x) as usize;
            self.tiles[idx] == TileType::Floor
        }
    }

    /// The tile-vector index of a point, or nothing for an out-of-bounds
    /// point, so that no caller ever indexes off the grid.
    pub fn try_idx(&self, point: Point) -> (r: Option<usize>)
        requires
            self.wf(),
        ensures
            r == (if self.spec_in_bounds(point) {
                Some(self.spec_idx(point) as usize)
            } else {
                None::<usize>
            }),
    {
        if !self.in_bounds(point) {
            None
        } else {
            proof {
                self.lemma_idx_in_range(point);
            }
            Some(((point.y * self.width) + point.x) as usize)
        }
    }
}

/// A point can be entered exactly when it is in bounds and its tile is floor;
/// in particular no out-of-bounds point can ever be entered.
pub proof fn lemma_can_enter_iff_in_bounds_floor(m: GameMap, p: Point)
    ensures
        m.spec_can_enter(p) == (m.spec_in_bounds(p) && m.tile_at(p) == TileType::Floor),
        !m.spec_in_bounds(p) ==> !m.spec_can_enter(p),
{
}

} // verus!
