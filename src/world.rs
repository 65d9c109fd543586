//! Entity records, facing directions and the movement state machine.
use vstd::prelude::*;
use crate::map::{tile_cell, tile_index, GameMap, Heading, MobDef};

verus! {

/// One of the four axis-aligned facing directions of the isometric grid.
#[derive(Debug, Clone, Copy, PartialEq, Eq, Structural)]
pub enum Direction {
    /// North east (up).
    NE,
    /// South east (right).
    SE,
    /// South west (down).
    SW,
    /// North west (left).
    NW,
}

/// The sprite-name suffix of each direction.
pub open spec fn direction_name(d: Direction) -> Seq<char> {
    match d {
        Direction::NE => "ne"@,
        Direction::SE => "se"@,
        Direction::SW => "sw"@,
        Direction::NW => "nw"@,
    }
}

impl Direction {
    /// Lower-case two-letter name of the direction.
    pub fn as_str(&self) -> (r: &'static str)
        ensures
            r@ == direction_name(*self),
    {
        match self {
            Direction::NE => "ne",
            Direction::SE => "se",
            Direction::SW => "sw",
            Direction::NW => "nw",
        }
    }
}

impl Default for Direction {
    fn default() -> (r: Self)
        ensures
            r == Direction::SE,
    {
        Direction::SE
    }
}

/// Movement state of a unit: at most one timed transition is active at a time.
///
/// Pixel coordinates are world-buffer pixels; `elapsed_time` and `duration` are
/// microseconds.
#[derive(Debug, Clone, Copy, PartialEq, Eq, Structural)]
pub enum UnitMovement {
    /// Standing still on the tile's pixel position.
    Idle,
    /// Sliding one tile: plain walking, or a box being pushed.
    Moving {
        start_x: i64,
        start_y: i64,
        target_x: i64,
        target_y: i64,
        elapsed_time: i64,
        duration: i64,
    },
    /// The player's lean toward a box before the push starts; carries what the
    /// push needs once the approach completes.
    PrePushing {
        start_x: i64,
        start_y: i64,
        target_x: i64,
        target_y: i64,
        elapsed_time: i64,
        duration: i64,
        box_idx: usize,
        player_next_tx: i32,
        player_next_ty: i32,
        box_next_tx: i32,
        box_next_ty: i32,
        push_dx: i32,
        push_dy: i32,
    },
    /// The player's movement while a box slides ahead of it.
    Pushing {
        start_x: i64,
        start_y: i64,
        target_x: i64,
        target_y: i64,
        elapsed_time: i64,
        duration: i64,
        recoil_target_x: i64,
        recoil_target_y: i64,
    },
    /// The recoil back to the tile-centred position after a push run ends.
    PostPushing {
        start_x: i64,
        start_y: i64,
        target_x: i64,
        target_y: i64,
        elapsed_time: i64,
        duration: i64,
    },
}

impl Default for UnitMovement {
    fn default() -> (r: Self)
        ensures
            r == UnitMovement::Idle,
    {
        UnitMovement::Idle
    }
}

/// A unit of the world: the player or a pushable box.
#[derive(Debug, Default, Clone, Copy, PartialEq, Eq, Structural)]
pub struct Unit {
    /// Pixel coordinates, animated.
    pub pixel_x: i64,
    pub pixel_y: i64,
    /// Logical tile coordinates.
    pub tile_x: i32,
    pub tile_y: i32,
    /// Horizontal speed, in pixels per second.
    pub x_speed: i64,
    /// Vertical speed, in pixels per second.
    pub y_speed: i64,
    /// Current movement state.
    pub movement: UnitMovement,
    /// Current facing direction.
    pub direction: Direction,
}

impl Unit {
    /// A standing unit facing south east at the given position.
    pub fn new(pixel_x: i64, pixel_y: i64, tile_x: i32, tile_y: i32, x_speed: i64, y_speed: i64) -> (r: Self)
        ensures
            r == (Unit {
                pixel_x,
                pixel_y,
                tile_x,
                tile_y,
                x_speed,
                y_speed,
                movement: UnitMovement::Idle,
                direction: Direction::SE,
            }),
    {
        Unit {
            pixel_x,
            pixel_y,
            tile_x,
            tile_y,
            x_speed,
            y_speed,
            movement: UnitMovement::Idle,
            direction: Direction::SE,
        }
    }
}

/// The player-controlled unit.
#[derive(Debug, Default, Clone, Copy, PartialEq, Eq, Structural)]
pub struct Player {
    pub unit: Unit,
}

impl Player {
    pub fn new(unit: Unit) -> (r: Self)
        ensures
            r.unit == unit,
    {
        Player { unit }
    }
}

/// The world as the simulation sees it: the player, the boxes addressed by
/// index, and the occupancy grid from tile index to box index.
#[derive(Debug, Default)]
pub struct State {
    /// The player-controlled unit.
    pub player: Player,
    /// The pushable units.
    pub mobs: Vec<Unit>,
    /// Row-major: the index in `mobs` of the box on each tile, if any.
    pub mob_grid: Vec<Option<usize>>,
    /// Width of the map in tiles.
    pub grid_width: i32,
}

/// Mathematical view of a `State`.
pub struct StateView {
    pub player: Unit,
    pub mobs: Seq<Unit>,
    pub grid: Seq<Option<usize>>,
    pub grid_width: i32,
}

impl View for State {
    type V = StateView;

    open spec fn view(&self) -> StateView {
        StateView {
            player: self.player.unit,
            mobs: self.mobs@,
            grid: self.mob_grid@,
            grid_width: self.grid_width,
        }
    }
}

/// The box registered on tile `(x, y)` of a grid `width` tiles wide; `None`
/// for an empty tile or one off the grid.
pub open spec fn grid_at(grid: Seq<Option<usize>>, x: int, y: int, width: int) -> Option<usize> {
    match tile_cell(x, y, width, grid.len() as int) {
        Some(c) => grid[c],
        None => None,
    }
}

/// The occupancy grid after moving box `id` from tile `old` to tile `new`:
/// `old` is cleared only if it holds `id`, and `new` is set if it is on the grid.
pub open spec fn grid_moved(
    grid: Seq<Option<usize>>,
    id: usize,
    old: (int, int),
    new: (int, int),
    width: int,
) -> Seq<Option<usize>> {
    let cleared = match tile_cell(old.0, old.1, width, grid.len() as int) {
        Some(c) => if grid[c] == Some(id) {
            grid.update(c, None)
        } else {
            grid
        },
        None => grid,
    };
    match tile_cell(new.0, new.1, width, grid.len() as int) {
        Some(c) => cleared.update(c, Some(id)),
        None => cleared,
    }
}

/// The grid and the boxes agree: every box is registered on exactly the tile
/// it logically stands on, and every registered entry names a box that stands
/// there. So no tile holds two boxes and no box is lost.
pub open spec fn grid_agrees(mobs: Seq<Unit>, grid: Seq<Option<usize>>, width: int) -> bool {
    &&& mobs.len() <= usize::MAX
    &&& forall|i: int|
        0 <= i < mobs.len() ==> {
            let c = tile_cell((#[trigger] mobs[i]).tile_x as int, mobs[i].tile_y as int, width, grid.len() as int);
            &&& c is Some
            &&& grid[c->0] == Some(i as usize)
        }
    &&& forall|c: int|
        0 <= c < grid.len() && (#[trigger] grid[c]) is Some ==> {
            let i = grid[c]->0 as int;
            &&& 0 <= i < mobs.len()
            &&& tile_cell(mobs[i].tile_x as int, mobs[i].tile_y as int, width, grid.len() as int) == Some(c)
        }
}

impl StateView {
    /// The occupancy grid agrees with the boxes' tiles (see `grid_agrees`).
    pub open spec fn occupancy_consistent(&self, width: int) -> bool {
        grid_agrees(self.mobs, self.grid, width)
    }
}

/// Pixel position of the centre of tile `(tile_x, tile_y)` in a world buffer
/// of `world_width` by `world_height` pixels: the isometric projection puts a
/// tile step along x half a tile right and a quarter down, and along y half a
/// tile left and a quarter down, from the buffer's centre.
pub open spec fn tile_center(tile_x: int, tile_y: int, tile_size: int, world_width: int, world_height: int) -> (
    int,
    int,
) {
    let x = (tile_x - tile_y) * (tile_size / 2) + world_width / 2;
    let y = (tile_x + tile_y) * (tile_size / 4) + (world_height / 2 - tile_size) - tile_size / 2;
    (x + tile_size / 2, y + tile_size / 4 + tile_size / 8)
}

/// Computes `tile_center`.
pub fn tile_to_world_buf_pos(tile_x: i32, tile_y: i32, tile_size: u32, world_width: u32, world_height: u32) -> (r: (
    i64,
    i64,
))
    ensures
        r.0 == tile_center(tile_x as int, tile_y as int, tile_size as int, world_width as int, world_height as int).0,
        r.1 == tile_center(tile_x as int, tile_y as int, tile_size as int, world_width as int, world_height as int).1,
{
    let ts: i128 = tile_size as i128;
    let dxy: i128 = tile_x as i128 - tile_y as i128;
    let sxy: i128 = tile_x as i128 + tile_y as i128;
    let half: i128 = ts / 2;
    let quarter: i128 = ts / 4;
    assert(-0x1_0000_0000 * 0x7fff_ffff <= dxy * half <= 0x1_0000_0000 * 0x7fff_ffff) by (nonlinear_arith)
        requires
            -0x1_0000_0000 <= dxy <= 0x1_0000_0000,
            0 <= half <= 0x7fff_ffff,
    ;
    assert(-0x1_0000_0000 * 0x4000_0000 <= sxy * quarter <= 0x1_0000_0000 * 0x4000_0000) by (nonlinear_arith)
        requires
            -0x1_0000_0000 <= sxy <= 0x1_0000_0000,
            0 <= quarter <= 0x4000_0000,
    ;
    let x: i128 = dxy * half + world_width as i128 / 2;
    let y: i128 = sxy * quarter + (world_height as i128 / 2 - ts) - ts / 2;
    ((x + ts / 2) as i64, (y + ts / 4 + ts / 8) as i64)
}

/// Walking speed of a unit placed by `def`: the player's is fixed, a box
/// walks along its heading.
pub open spec fn speeds_of(def: MobDef) -> (i64, i64) {
    if def.is_player {
        (10, 10)
    } else {
        match def.heading {
            Some(Heading::Right) => (def.speed as i64, 0),
            Some(Heading::Left) => (-(def.speed as int) as i64, 0),
            Some(Heading::Up) => (0, -(def.speed as int) as i64),
            Some(Heading::Down) => (0, def.speed as i64),
            None => (0, 0),
        }
    }
}

/// The unit that `def` places on `map`, standing on its start tile.
pub open spec fn unit_of(def: MobDef, map: GameMap) -> Unit {
    let ts = map.tile_size as int;
    let c = tile_center(
        def.x_start as i32 as int,
        def.y_start as i32 as int,
        ts,
        map.width() * ts * 2,
        map.height() * ts * 2,
    );
    Unit {
        pixel_x: c.0 as i64,
        pixel_y: c.1 as i64,
        tile_x: def.x_start as i32,
        tile_y: def.y_start as i32,
        x_speed: speeds_of(def).0,
        y_speed: speeds_of(def).1,
        movement: UnitMovement::Idle,
        direction: Direction::SE,
    }
}

/// The boxes that the first `defs.len()` definitions place, in order.
pub open spec fn boxes_of(defs: Seq<MobDef>, map: GameMap) -> Seq<Unit>
    decreases defs.len(),
{
    if defs.len() == 0 {
        Seq::empty()
    } else {
        let prev = boxes_of(defs.drop_last(), map);
        if defs.last().is_player {
            prev
        } else {
            prev.push(unit_of(defs.last(), map))
        }
    }
}

/// Index of the last player definition, or -1 if there is none.
pub open spec fn player_def_index(defs: Seq<MobDef>) -> int
    decreases defs.len(),
{
    if defs.len() == 0 {
        -1
    } else if defs.last().is_player {
        defs.len() - 1
    } else {
        player_def_index(defs.drop_last())
    }
}

/// The occupancy grid of `len` cells with the boxes registered in order, a
/// later box overwriting an earlier one on the same tile.
pub open spec fn placed(units: Seq<Unit>, width: int, len: nat) -> Seq<Option<usize>>
    decreases units.len(),
{
    if units.len() == 0 {
        Seq::new(len, |c: int| None)
    } else {
        let prev = placed(units.drop_last(), width, len);
        match tile_cell(units.last().tile_x as int, units.last().tile_y as int, width, len as int) {
            Some(c) => prev.update(c, Some((units.len() - 1) as usize)),
            None => prev,
        }
    }
}

proof fn lemma_player_def_index_bounds(defs: Seq<MobDef>)
    ensures
        -1 <= player_def_index(defs) < defs.len(),
        player_def_index(defs) >= 0 ==> defs[player_def_index(defs)].is_player,
        (exists|i: int| 0 <= i < defs.len() && defs[i].is_player) ==> player_def_index(defs) >= 0,
    decreases defs.len(),
{
    if defs.len() > 0 {
        lemma_player_def_index_bounds(defs.drop_last());
        if !defs.last().is_player {
            if exists|i: int| 0 <= i < defs.len() && defs[i].is_player {
                let i = choose|i: int| 0 <= i < defs.len() && defs[i].is_player;
                assert(defs.drop_last()[i].is_player);
            }
        }
    }
}

proof fn lemma_placed_len(units: Seq<Unit>, width: int, len: nat)
    ensures
        placed(units, width, len).len() == len,
    decreases units.len(),
{
    if units.len() > 0 {
        lemma_placed_len(units.drop_last(), width, len);
    }
}

/// Distinct tiles of a grid have distinct cells.
proof fn lemma_cells_distinct(x1: int, y1: int, x2: int, y2: int, width: int, len: int)
    requires
        tile_cell(x1, y1, width, len) is Some,
        tile_cell(x2, y2, width, len) is Some,
        x1 != x2 || y1 != y2,
    ensures
        tile_cell(x1, y1, width, len) != tile_cell(x2, y2, width, len),
{
    if y1 < y2 {
        assert(y1 * width + x1 < y2 * width + x2) by (nonlinear_arith)
            requires
                y1 < y2,
                0 <= x1 < width,
                0 <= x2,
        ;
    } else if y2 < y1 {
        assert(y2 * width + x2 < y1 * width + x1) by (nonlinear_arith)
            requires
                y2 < y1,
                0 <= x2 < width,
                0 <= x1,
        ;
    }
}

/// Boxes on distinct tiles of the grid, registered in order, give a grid that
/// agrees with them.
pub proof fn lemma_placed_agrees(units: Seq<Unit>, width: int, len: nat)
    requires
        units.len() <= usize::MAX,
        forall|i: int|
            0 <= i < units.len() ==> tile_cell(
                (#[trigger] units[i]).tile_x as int,
                units[i].tile_y as int,
                width,
                len as int,
            ) is Some,
        forall|i: int, j: int|
            0 <= i < j < units.len() ==> (#[trigger] units[i]).tile_x != (#[trigger] units[j]).tile_x
                || units[i].tile_y != units[j].tile_y,
    ensures
        grid_agrees(units, placed(units, width, len), width),
    decreases units.len(),
{
    lemma_placed_len(units, width, len);
    if units.len() > 0 {
        let prev_units = units.drop_last();
        assert forall|i: int| 0 <= i < prev_units.len() implies tile_cell(
            (#[trigger] prev_units[i]).tile_x as int,
            prev_units[i].tile_y as int,
            width,
            len as int,
        ) is Some by {
            assert(prev_units[i] == units[i]);
        }
        assert forall|i: int, j: int|
            0 <= i < j < prev_units.len() implies (#[trigger] prev_units[i]).tile_x != (
            #[trigger] prev_units[j]).tile_x || prev_units[i].tile_y != prev_units[j].tile_y by {
            assert(prev_units[i] == units[i] && prev_units[j] == units[j]);
        }
        lemma_placed_agrees(prev_units, width, len);
        lemma_placed_len(prev_units, width, len);
        let n = units.len() - 1;
        let last = units[n];
        let cl = tile_cell(last.tile_x as int, last.tile_y as int, width, len as int)->0;
        let prev = placed(prev_units, width, len);
        let g = placed(units, width, len);
        assert(g == prev.update(cl, Some(n as usize)));
        assert forall|i: int| 0 <= i < units.len() implies {
            let c = tile_cell((#[trigger] units[i]).tile_x as int, units[i].tile_y as int, width, g.len() as int);
            &&& c is Some
            &&& g[c->0] == Some(i as usize)
        } by {
            if i < n {
                assert(prev_units[i] == units[i]);
                lemma_cells_distinct(
                    units[i].tile_x as int,
                    units[i].tile_y as int,
                    last.tile_x as int,
                    last.tile_y as int,
                    width,
                    len as int,
                );
            }
        }
        assert forall|c: int| 0 <= c < g.len() && (#[trigger] g[c]) is Some implies {
            let i = g[c]->0 as int;
            &&& 0 <= i < units.len()
            &&& tile_cell(units[i].tile_x as int, units[i].tile_y as int, width, g.len() as int) == Some(c)
        } by {
            if c != cl {
                assert(g[c] == prev[c]);
                let i = prev[c]->0 as int;
                assert(prev_units[i] == units[i]);
            }
        }
    }
}

fn unit_from_def(def: &MobDef, map: &GameMap) -> (r: Unit)
    requires
        map.wf(),
    ensures
        r == unit_of(*def, *map),
{
    let ts = map.tile_size;
    let ww: u32 = map.size[0] * ts * 2;
    let wh: u32 = map.size[1] * ts * 2;
    let tx = def.x_start as i32;
    let ty = def.y_start as i32;
    let (px, py) = tile_to_world_buf_pos(tx, ty, ts, ww, wh);
    let (xs, ys): (i64, i64) = if def.is_player {
        (10, 10)
    } else {
        match def.heading {
            Some(Heading::Right) => (def.speed as i64, 0),
            Some(Heading::Left) => (-(def.speed as i64), 0),
            Some(Heading::Up) => (0, -(def.speed as i64)),
            Some(Heading::Down) => (0, def.speed as i64),
            None => (0, 0),
        }
    };
    Unit {
        pixel_x: px,
        pixel_y: py,
        tile_x: tx,
        tile_y: ty,
        x_speed: xs,
        y_speed: ys,
        movement: UnitMovement::Idle,
        direction: Direction::SE,
    }
}

impl State {
    /// The world at level start: the player from the last player definition,
    /// the boxes from the other definitions in order, and the grid with each
    /// box on its start tile (a later box wins a shared tile; a tile off the
    /// map is left unregistered).
    pub fn new(game_map: &GameMap) -> (r: State)
        requires
            game_map.wf(),
            exists|i: int| 0 <= i < game_map.mobs@.len() && game_map.mobs@[i].is_player,
        ensures
            r.player.unit == unit_of(game_map.mobs@[player_def_index(game_map.mobs@)], *game_map),
            r.mobs@ == boxes_of(game_map.mobs@, *game_map),
            r.mob_grid@ == placed(
                boxes_of(game_map.mobs@, *game_map),
                game_map.width(),
                (game_map.width() * game_map.height()) as nat,
            ),
            r.grid_width == game_map.width(),
            ({
                let b = boxes_of(game_map.mobs@, *game_map);
                (forall|i: int|
                    0 <= i < b.len() ==> 0 <= (#[trigger] b[i]).tile_x < game_map.width() && 0
                        <= b[i].tile_y < game_map.height()) && (forall|i: int, j: int|
                    0 <= i < j < b.len() ==> (#[trigger] b[i]).tile_x != (#[trigger] b[j]).tile_x
                        || b[i].tile_y != b[j].tile_y) ==> r@.occupancy_consistent(game_map.width())
            }),
            ({
                let b = boxes_of(game_map.mobs@, *game_map);
                let p = unit_of(game_map.mobs@[player_def_index(game_map.mobs@)], *game_map);
                (forall|i: int|
                    0 <= i < b.len() ==> 0 <= (#[trigger] b[i]).tile_x < game_map.width() && 0
                        <= b[i].tile_y < game_map.height() && (b[i].tile_x != p.tile_x || b[i].tile_y
                        != p.tile_y)) && (forall|i: int, j: int|
                    0 <= i < j < b.len() ==> (#[trigger] b[i]).tile_x != (#[trigger] b[j]).tile_x
                        || b[i].tile_y != b[j].tile_y) ==> crate::laws::player_clear(r@, game_map.width())
            }),
    {
        let defs = &game_map.mobs;
        let mut player: Option<Unit> = None;
        let mut mobs: Vec<Unit> = Vec::new();
        let mut k: usize = 0;
        while k < defs.len()
            invariant
                game_map.wf(),
                defs == &game_map.mobs,
                0 <= k <= defs@.len(),
                mobs@ == boxes_of(defs@.take(k as int), *game_map),
                player_def_index(defs@.take(k as int)) >= 0 ==> player == Some(
                    unit_of(defs@[player_def_index(defs@.take(k as int))], *game_map),
                ),
                player_def_index(defs@.take(k as int)) < 0 ==> player is None,
            decreases defs@.len() - k,
        {
            let ghost before = defs@.take(k as int);
            assert(defs@.take(k as int + 1).drop_last() =~= before);
            let unit = unit_from_def(&defs[k], game_map);
            if defs[k].is_player {
                player = Some(unit);
            } else {
                mobs.push(unit);
            }
            k += 1;
        }
        assert(defs@.take(defs@.len() as int) =~= defs@);
        proof {
            lemma_player_def_index_bounds(defs@);
        }
        let width = game_map.size[0] as usize;
        let height = game_map.size[1] as usize;
        let len: usize = game_map.walk_map.len();
        let mut mob_grid: Vec<Option<usize>> = Vec::new();
        let mut c: usize = 0;
        while c < len
            invariant
                0 <= c <= len,
                mob_grid@ == Seq::new(c as nat, |j: int| None::<usize>),
            decreases len - c,
        {
            mob_grid.push(None);
            c += 1;
            assert(mob_grid@ =~= Seq::new(c as nat, |j: int| None::<usize>));
        }
        let mut i: usize = 0;
        while i < mobs.len()
            invariant
                0 <= i <= mobs@.len(),
                mob_grid@ == placed(mobs@.take(i as int), width as int, len as nat),
                len == width * height,
            decreases mobs@.len() - i,
        {
            proof {
                assert(mobs@.take(i as int + 1).drop_last() =~= mobs@.take(i as int));
                lemma_placed_len(mobs@.take(i as int), width as int, len as nat);
            }
            let u = mobs[i];
            match tile_index(u.tile_x as i64, u.tile_y as i64, width, len) {
                Some(cell) => {
                    mob_grid.set(cell, Some(i));
                },
                None => {},
            }
            i += 1;
        }
        assert(mobs@.take(mobs@.len() as int) =~= mobs@);
        proof {
            let b = mobs@;
            let w = width as int;
            if (forall|i: int| 0 <= i < b.len() ==> 0 <= (#[trigger] b[i]).tile_x < w && 0 <= b[i].tile_y
                < height as int) {
                assert forall|i: int| 0 <= i < b.len() implies tile_cell(
                    (#[trigger] b[i]).tile_x as int,
                    b[i].tile_y as int,
                    w,
                    len as int,
                ) is Some by {
                    let (x, y) = (b[i].tile_x as int, b[i].tile_y as int);
                    assert(y * w + x < w * height) by (nonlinear_arith)
                        requires
                            0 <= x < w,
                            0 <= y < height,
                    ;
                }
                if (forall|i: int, j: int|
                    0 <= i < j < b.len() ==> (#[trigger] b[i]).tile_x != (#[trigger] b[j]).tile_x
                        || b[i].tile_y != b[j].tile_y) {
                    lemma_placed_agrees(b, w, len as nat);
                    lemma_placed_len(b, w, len as nat);
                    let p = unit_of(defs@[player_def_index(defs@)], *game_map);
                    let g = placed(b, w, len as nat);
                    if (forall|i: int|
                        0 <= i < b.len() ==> ((#[trigger] b[i]).tile_x != p.tile_x || b[i].tile_y
                            != p.tile_y)) {
                        if let Some(pc) = tile_cell(p.tile_x as int, p.tile_y as int, w, len as int) {
                            if g[pc] is Some {
                                let i = g[pc]->0 as int;
                                lemma_cells_distinct(
                                    b[i].tile_x as int,
                                    b[i].tile_y as int,
                                    p.tile_x as int,
                                    p.tile_y as int,
                                    w,
                                    len as int,
                                );
                            }
                        }
                    }
                }
            }
        }
        let unit = match player {
            Some(u) => u,
            None => Unit::new(0, 0, 0, 0, 0, 0),
        };
        State { player: Player::new(unit), mobs, mob_grid, grid_width: width as i32 }
    }

    /// Updates the grid for box `mob_index` moving from tile `(old_x, old_y)`
    /// to tile `(new_x, new_y)`.
    pub fn update_mob_pos(&mut self, mob_index: usize, old_x: i32, old_y: i32, new_x: i32, new_y: i32)
        ensures
            final(self).mob_grid@ == grid_moved(
                old(self).mob_grid@,
                mob_index,
                (old_x as int, old_y as int),
                (new_x as int, new_y as int),
                old(self).grid_width as int,
            ),
            final(self).player == old(self).player,
            final(self).mobs@ == old(self).mobs@,
            final(self).grid_width == old(self).grid_width,
    {
        let w: usize = if self.grid_width < 0 { 0 } else { self.grid_width as usize };
        let old_idx = tile_index(old_x as i64, old_y as i64, w, self.mob_grid.len());
        if let Some(c) = old_idx {
            if self.mob_grid[c] == Some(mob_index) {
                self.mob_grid.set(c, None);
            }
        }
        let new_idx = tile_index(new_x as i64, new_y as i64, w, self.mob_grid.len());
        if let Some(c) = new_idx {
            self.mob_grid.set(c, Some(mob_index));
        }
    }

    /// The box on tile `(x, y)`; `None` for an empty tile or one off the grid.
    pub fn get_mob_at(&self, x: i32, y: i32) -> (r: Option<usize>)
        ensures
            r == grid_at(self.mob_grid@, x as int, y as int, self.grid_width as int),
    {
        let w: usize = if self.grid_width < 0 { 0 } else { self.grid_width as usize };
        match tile_index(x as i64, y as i64, w, self.mob_grid.len()) {
            Some(c) => self.mob_grid[c],
            None => None,
        }
    }
}

} // verus!
