//! The static tile map that the simulation consults: bounds, walkable tiles,
//! static obstacles and the units placed at level start.
use vstd::prelude::*;

verus! {

/// Flat index of tile `(x, y)` in a row-major grid of `width` columns and
/// `len` cells, if the tile lies on the grid.
pub open spec fn tile_cell(x: int, y: int, width: int, len: int) -> Option<int> {
    if 0 <= x < width && 0 <= y && y * width + x < len {
        Some(y * width + x)
    } else {
        None
    }
}

/// Computes `tile_cell` for machine integers.
pub fn tile_index(x: i64, y: i64, width: usize, len: usize) -> (r: Option<usize>)
    ensures
        r matches Some(i) ==> tile_cell(x as int, y as int, width as int, len as int) == Some(
            i as int,
        ),
        r is None ==> tile_cell(x as int, y as int, width as int, len as int) is None,
{
    if x < 0 || y < 0 || x as i128 >= width as i128 {
        return None;
    }
    let yy: i128 = y as i128;
    let ww: i128 = width as i128;
    assert(0 <= yy * ww <= 0x7fff_ffff_ffff_ffff * 0xffff_ffff_ffff_ffff) by (nonlinear_arith)
        requires
            0 <= yy <= 0x7fff_ffff_ffff_ffff,
            0 <= ww <= 0xffff_ffff_ffff_ffff,
    ;
    let idx: i128 = yy * ww + x as i128;
    if idx < len as i128 {
        Some(idx as usize)
    } else {
        None
    }
}

/// A tile on a `width` by `height` grid lies within both bounds.
pub proof fn lemma_cell_in_bounds(x: int, y: int, width: int, height: int)
    requires
        width >= 0,
        height >= 0,
        tile_cell(x, y, width, width * height) is Some,
    ensures
        0 <= x < width,
        0 <= y < height,
{
    if y >= height {
        assert(y * width + x >= width * height) by (nonlinear_arith)
            requires
                y >= height,
                width >= 0,
                x >= 0,
        ;
    }
}

/// Direction a walking unit is set to move in at level start.
#[derive(Debug, Clone, Copy, PartialEq, Eq, Structural)]
pub enum Heading {
    Right,
    Left,
    Up,
    Down,
}

/// A unit placed on the map at level start.
#[derive(Debug, Clone, PartialEq, Eq, Structural)]
pub struct MobDef {
    /// Starting tile.
    pub x_start: u32,
    pub y_start: u32,
    /// Whether this is the player-controlled unit.
    pub is_player: bool,
    /// Walking direction, if the unit has one.
    pub heading: Option<Heading>,
    /// Walking speed, in pixels per second.
    pub speed: u32,
}

/// The static level: its size, walkable tiles, static obstacles and units.
#[derive(Debug, Clone)]
pub struct GameMap {
    /// Width and height in tiles.
    pub size: [u32; 2],
    /// Edge of a tile sprite, in pixels.
    pub tile_size: u32,
    /// Row-major: whether each tile can be walked on.
    pub walk_map: Vec<bool>,
    /// Row-major: whether each tile holds a static obstacle.
    pub collidable: Vec<bool>,
    /// Units placed at level start.
    pub mobs: Vec<MobDef>,
}

impl GameMap {
    pub open spec fn width(&self) -> int {
        self.size[0] as int
    }

    pub open spec fn height(&self) -> int {
        self.size[1] as int
    }

    /// Both layers cover the grid, tile coordinates fit `i32`, and the world
    /// buffer (two tiles of pixels per tile in each axis) fits `u32`.
    pub open spec fn wf(&self) -> bool {
        &&& self.walk_map@.len() == self.width() * self.height()
        &&& self.collidable@.len() == self.width() * self.height()
        &&& self.width() <= i32::MAX
        &&& self.height() <= i32::MAX
        &&& self.width() * self.tile_size * 2 <= u32::MAX
        &&& self.height() * self.tile_size * 2 <= u32::MAX
    }

    /// The tile lies on the map and can be walked on.
    pub open spec fn walkable_at(&self, x: int, y: int) -> bool {
        match tile_cell(x, y, self.width(), self.walk_map@.len() as int) {
            Some(i) => self.walk_map@[i],
            None => false,
        }
    }

    /// The tile lies on the map and holds a static obstacle.
    pub open spec fn obstacle_at(&self, x: int, y: int) -> bool {
        match tile_cell(x, y, self.width(), self.collidable@.len() as int) {
            Some(i) => self.collidable@[i],
            None => false,
        }
    }

    /// A unit may stand on the tile: it is walkable and free of static obstacles.
    pub open spec fn open_at(&self, x: int, y: int) -> bool {
        self.walkable_at(x, y) && !self.obstacle_at(x, y)
    }

    pub fn is_walkable(&self, x: i64, y: i64) -> (r: bool)
        ensures
            r == self.walkable_at(x as int, y as int),
    {
        match tile_index(x, y, self.size[0] as usize, self.walk_map.len()) {
            Some(i) => self.walk_map[i],
            None => false,
        }
    }

    pub fn has_collidable_object_at(&self, x: i64, y: i64) -> (r: bool)
        ensures
            r == self.obstacle_at(x as int, y as int),
    {
        match tile_index(x, y, self.size[0] as usize, self.collidable.len()) {
            Some(i) => self.collidable[i],
            None => false,
        }
    }
}

} // verus!
