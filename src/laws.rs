//! Properties of the step engine that hold for every world and every input.
use vstd::prelude::*;
use crate::behaviour::{
    after_input, animated_box, animated_world, dir_delta, player_animated, pushed,
    resolved_direction, stepped, InputSnapshot, RESET_TRANSITION,
};
use crate::map::{tile_cell, GameMap};
use crate::motion::advanced;
use crate::world::{grid_at, StateView, Unit, UnitMovement};

verus! {

/// Starting a push toward a free tile moves one box in the grid and on the
/// map together, so a consistent grid stays consistent.
pub proof fn lemma_push_keeps_occupancy(
    s: StateView,
    box_idx: usize,
    p: (i32, i32),
    b: (i32, i32),
    d: (i32, i32),
    width: int,
    delta: i64,
)
    requires
        s.occupancy_consistent(width),
        grid_at(s.grid, b.0 as int, b.1 as int, width) is None,
    ensures
        pushed(s, box_idx, p, b, d, width, delta).occupancy_consistent(width),
{
    let r = pushed(s, box_idx, p, b, d, width, delta);
    let len = s.grid.len() as int;
    let old_c = tile_cell(p.0 as int, p.1 as int, width, len);
    let new_c = tile_cell(b.0 as int, b.1 as int, width, len);
    if old_c is Some && new_c is Some && s.grid[old_c->0] == Some(box_idx) && box_idx < s.mobs.len() {
        let oc = old_c->0;
        let nc = new_c->0;
        assert forall|i: int| 0 <= i < r.mobs.len() implies {
            let c = tile_cell(
                (#[trigger] r.mobs[i]).tile_x as int,
                r.mobs[i].tile_y as int,
                width,
                r.grid.len() as int,
            );
            &&& c is Some
            &&& r.grid[c->0] == Some(i as usize)
        } by {
            if i != box_idx as int {
                assert(s.mobs[i] == r.mobs[i]);
                let c = tile_cell(s.mobs[i].tile_x as int, s.mobs[i].tile_y as int, width, len)->0;
                assert(s.grid[c] == Some(i as usize));
                assert(c != oc);
                assert(c != nc);
            }
        }
        assert forall|c: int| 0 <= c < r.grid.len() && (#[trigger] r.grid[c]) is Some implies {
            let i = r.grid[c]->0 as int;
            &&& 0 <= i < r.mobs.len()
            &&& tile_cell(
                r.mobs[i].tile_x as int,
                r.mobs[i].tile_y as int,
                width,
                r.grid.len() as int,
            ) == Some(c)
        } by {
            if c != nc && c != oc {
                assert(r.grid[c] == s.grid[c]);
                let i = s.grid[c]->0 as int;
                assert(i != box_idx as int);
                assert(r.mobs[i] == s.mobs[i]);
            }
        }
    }
}

/// A push that the player's animation starts goes toward a tile the grid
/// leaves free: a lean-in's destination is free by `player_clear`, and a
/// chained push checks the tile it pushes onto.
pub proof fn lemma_push_target_free(s: StateView, input: InputSnapshot, delta: i64, map: GameMap)
    requires
        map.wf(),
        player_clear(s, map.width()),
    ensures
        player_animated(s.player, delta, input, s.grid, map, map.width()).2 matches Some(t) ==> grid_at(
            s.grid,
            t.3 as int,
            t.4 as int,
            map.width(),
        ) is None,
{
    let width = map.width();
    let (u, _busy, push, _post) = player_animated(s.player, delta, input, s.grid, map, width);
    if s.player.movement is Pushing && push is Some {
        let (dx, dy) = dir_delta(u.direction);
        let (nbx, nby) = (u.tile_x + 2 * dx, u.tile_y + 2 * dy);
        crate::map::lemma_cell_in_bounds(nbx, nby, map.width(), map.height());
    }
}

/// Animating a box never moves it to another tile.
pub proof fn lemma_animation_keeps_tile(u: Unit, delta: i64)
    ensures
        animated_box(u, delta).tile_x == u.tile_x,
        animated_box(u, delta).tile_y == u.tile_y,
{
}

/// Grid consistency: from a world whose occupancy grid agrees with the boxes'
/// tiles, and whose player is clear of the registered boxes (see
/// `player_clear`), every tick leads to a world whose grid agrees with them
/// again, so no tile ever holds two boxes and no box is ever missing from the
/// grid.
pub proof fn lemma_step_keeps_occupancy(
    s: StateView,
    input: InputSnapshot,
    delta: i64,
    map: GameMap,
)
    requires
        map.wf(),
        delta >= 0,
        s.occupancy_consistent(map.width()),
        player_clear(s, map.width()),
    ensures
        stepped(s, input, delta, map).0.occupancy_consistent(map.width()),
{
    let width = map.width();
    let (u, _busy, push, post) = player_animated(s.player, delta, input, s.grid, map, width);
    let s1 = StateView { player: u, ..s };
    let s2 = match push {
        Some(t) => pushed(s1, t.0, (t.1, t.2), (t.3, t.4), (t.5, t.6), width, delta),
        None => s1,
    };
    lemma_push_target_free(s, input, delta, map);
    if let Some(t) = push {
        lemma_push_keeps_occupancy(s1, t.0, (t.1, t.2), (t.3, t.4), (t.5, t.6), width, delta);
    }
    assert(s2.occupancy_consistent(width));
    let a = animated_world(s, input, delta, map);
    assert forall|i: int| 0 <= i < a.mobs.len() implies (#[trigger] a.mobs[i]).tile_x == s2.mobs[i].tile_x
        && a.mobs[i].tile_y == s2.mobs[i].tile_y by {
        lemma_animation_keeps_tile(s2.mobs[i], delta);
    }
    assert(a.occupancy_consistent(width));
    let r = stepped(s, input, delta, map).0;
    assert(r.mobs == a.mobs && r.grid == a.grid);
}

/// An idle player is left as it is by the animation phases, and the grid too.
pub proof fn lemma_idle_player_unanimated(s: StateView, input: InputSnapshot, delta: i64, map: GameMap)
    requires
        s.player.movement is Idle,
    ensures
        animated_world(s, input, delta, map).player == s.player,
        animated_world(s, input, delta, map).grid == s.grid,
{
}

/// The animation phases read the input only through the key of the player's
/// facing direction, which decides whether a completed push chains on.
pub proof fn lemma_animation_reads_facing_key(
    s: StateView,
    i1: InputSnapshot,
    i2: InputSnapshot,
    delta: i64,
    map: GameMap,
)
    requires
        crate::behaviour::held(i1, s.player.direction) == crate::behaviour::held(
            i2,
            s.player.direction,
        ),
    ensures
        animated_world(s, i1, delta, map) == animated_world(s, i2, delta, map),
{
    let width = map.width();
    assert(player_animated(s.player, delta, i1, s.grid, map, width) == player_animated(
        s.player,
        delta,
        i2,
        s.grid,
        map,
        width,
    ));
}

/// Busy gating: while the player is still in a transition after the
/// animation phases, directional input starts nothing. The tick leaves the
/// world as the animation left it, requests no transition, and two inputs
/// that agree on the key of the facing direction (the one a push chain
/// reads) give the same tick.
pub proof fn lemma_busy_ignores_input(
    s: StateView,
    i1: InputSnapshot,
    i2: InputSnapshot,
    delta: i64,
    map: GameMap,
)
    requires
        !(i1.left && i1.right),
        !(i2.left && i2.right),
        crate::behaviour::held(i1, s.player.direction) == crate::behaviour::held(
            i2,
            s.player.direction,
        ),
        !(animated_world(s, i1, delta, map).player.movement is Idle),
    ensures
        stepped(s, i1, delta, map).0 == animated_world(s, i1, delta, map),
        stepped(s, i1, delta, map).1 is None,
        stepped(s, i1, delta, map) == stepped(s, i2, delta, map),
{
    lemma_animation_reads_facing_key(s, i1, i2, delta, map);
}

/// No-op rejection: an idle player whose move is blocked (the tile ahead is
/// off the map, not walkable or statically blocked; or it holds a box whose
/// far side is blocked in one of those ways or holds another box) keeps its
/// tile, its pixel position and its movement state, and no box or grid entry
/// changes but by the boxes' own animation.
pub proof fn lemma_blocked_move_is_noop(s: StateView, input: InputSnapshot, delta: i64, map: GameMap)
    requires
        s.player.movement is Idle,
        !(input.left && input.right),
        resolved_direction(input) is Some,
        ({
            let (dx, dy) = dir_delta(resolved_direction(input)->0);
            let (nx, ny) = (s.player.tile_x + dx, s.player.tile_y + dy);
            ||| !map.open_at(nx, ny)
            ||| (grid_at(s.grid, nx, ny, map.width()) is Some && (!map.open_at(nx + dx, ny + dy)
                || grid_at(s.grid, nx + dx, ny + dy, map.width()) is Some))
        }),
    ensures
        ({
            let r = stepped(s, input, delta, map).0;
            let a = animated_world(s, input, delta, map);
            &&& r.player.tile_x == s.player.tile_x
            &&& r.player.tile_y == s.player.tile_y
            &&& r.player.pixel_x == s.player.pixel_x
            &&& r.player.pixel_y == s.player.pixel_y
            &&& r.player.movement == s.player.movement
            &&& r.mobs == a.mobs
            &&& r.grid == s.grid
        }),
{
    lemma_idle_player_unanimated(s, input, delta, map);
}

/// Completion snapping: once a timed transition's clock reaches its duration,
/// the unit stands exactly on the transition's target pixel; a walk, a box
/// slide or a recoil then ends in `Idle`.
pub proof fn lemma_completion_snaps(
    u: Unit,
    delta: i64,
    input: InputSnapshot,
    grid: Seq<Option<usize>>,
    map: GameMap,
    width: int,
)
    ensures
        u.movement matches UnitMovement::Moving { target_x, target_y, elapsed_time, duration, .. }
            ==> (advanced(elapsed_time, delta) >= duration ==> {
            let b = animated_box(u, delta);
            let p = player_animated(u, delta, input, grid, map, width).0;
            &&& b.pixel_x == target_x && b.pixel_y == target_y && b.movement is Idle
            &&& p.pixel_x == target_x && p.pixel_y == target_y && p.movement is Idle
        }),
        u.movement matches UnitMovement::PostPushing { target_x, target_y, elapsed_time, duration, .. }
            ==> (advanced(elapsed_time, delta) >= duration ==> {
            let p = player_animated(u, delta, input, grid, map, width).0;
            p.pixel_x == target_x && p.pixel_y == target_y && p.movement is Idle
        }),
        u.movement matches UnitMovement::PrePushing { target_x, target_y, elapsed_time, duration, .. }
            ==> (advanced(elapsed_time, delta) >= duration ==> {
            let p = player_animated(u, delta, input, grid, map, width).0;
            p.pixel_x == target_x && p.pixel_y == target_y
        }),
        u.movement matches UnitMovement::Pushing { target_x, target_y, elapsed_time, duration, .. }
            ==> (advanced(elapsed_time, delta) >= duration ==> {
            let p = player_animated(u, delta, input, grid, map, width).0;
            p.pixel_x == target_x && p.pixel_y == target_y
        }),
{
}

/// Reset precedence: holding left and right together requests the reset
/// transition and starts no move, whatever else the input holds; an idle
/// player keeps its tile, facing, pixel position and movement state.
pub proof fn lemma_reset_precedes_moves(s: StateView, input: InputSnapshot, delta: i64, map: GameMap)
    requires
        input.left && input.right,
    ensures
        stepped(s, input, delta, map).1 == Some(RESET_TRANSITION),
        stepped(s, input, delta, map).0 == animated_world(s, input, delta, map),
        s.player.movement is Idle ==> stepped(s, input, delta, map).0.player == s.player,
        s.player.movement is Idle ==> stepped(s, input, delta, map).0.grid == s.grid,
{
    if s.player.movement is Idle {
        lemma_idle_player_unanimated(s, input, delta, map);
    }
}

/// The player stands on no tile the grid registers a box on, and a pending
/// lean-in's box destination is a tile the grid leaves free.
pub open spec fn player_clear(s: StateView, width: int) -> bool {
    &&& grid_at(s.grid, s.player.tile_x as int, s.player.tile_y as int, width) is None
    &&& (s.player.movement matches UnitMovement::PrePushing { box_next_tx, box_next_ty, .. }
        ==> grid_at(s.grid, box_next_tx as int, box_next_ty as int, width) is None)
}

/// Starting a push toward a free tile leaves the player on the tile the box
/// just left, which the grid no longer registers.
proof fn lemma_push_clears_player(
    s: StateView,
    box_idx: usize,
    p: (i32, i32),
    b: (i32, i32),
    d: (i32, i32),
    width: int,
    delta: i64,
)
    requires
        grid_at(s.grid, s.player.tile_x as int, s.player.tile_y as int, width) is None,
        grid_at(s.grid, b.0 as int, b.1 as int, width) is None,
    ensures
        ({
            let r = pushed(s, box_idx, p, b, d, width, delta);
            &&& grid_at(r.grid, r.player.tile_x as int, r.player.tile_y as int, width) is None
            &&& r.player.movement is Pushing || r == s
        }),
{
    let len = s.grid.len() as int;
    let old_c = tile_cell(p.0 as int, p.1 as int, width, len);
    let new_c = tile_cell(b.0 as int, b.1 as int, width, len);
    if old_c is Some && new_c is Some && s.grid[old_c->0] == Some(box_idx) && box_idx < s.mobs.len() {
        let r = pushed(s, box_idx, p, b, d, width, delta);
        assert(old_c->0 != new_c->0);
        assert(r.grid[old_c->0] is None);
    }
}

/// Grid consistency, the player's side: a tick never leaves the player on a
/// tile the grid registers a box on, and never leaves a pending lean-in
/// aimed at a destination the grid registers a box on.
pub proof fn lemma_step_keeps_player_clear(
    s: StateView,
    input: InputSnapshot,
    delta: i64,
    map: GameMap,
)
    requires
        map.wf(),
        delta >= 0,
        player_clear(s, map.width()),
    ensures
        player_clear(stepped(s, input, delta, map).0, map.width()),
{
    let width = map.width();
    let (u, _busy, push, post) = player_animated(s.player, delta, input, s.grid, map, width);
    let s1 = StateView { player: u, ..s };
    assert(u.tile_x == s.player.tile_x && u.tile_y == s.player.tile_y);
    let s2 = match push {
        Some(t) => pushed(s1, t.0, (t.1, t.2), (t.3, t.4), (t.5, t.6), width, delta),
        None => s1,
    };
    lemma_push_target_free(s, input, delta, map);
    if let Some(t) = push {
        lemma_push_clears_player(s1, t.0, (t.1, t.2), (t.3, t.4), (t.5, t.6), width, delta);
    }
    assert(grid_at(s2.grid, s2.player.tile_x as int, s2.player.tile_y as int, width) is None);
    let a = animated_world(s, input, delta, map);
    assert(a.grid == s2.grid);
    assert(a.player.tile_x == s2.player.tile_x && a.player.tile_y == s2.player.tile_y);
    if a.player.movement is PrePushing {
        assert(push is None || s2 == s1);
        assert(s2.grid == s.grid);
        assert(player_clear(a, width));
    }
    assert(player_clear(a, width));
    if !(input.left && input.right) && a.player.movement is Idle {
        let r = stepped(s, input, delta, map).0;
        assert(r == after_input(a, input, map));
        if let Some(dir) = resolved_direction(input) {
            let (dx, dy) = dir_delta(dir);
            let (nx, ny) = (a.player.tile_x + dx, a.player.tile_y + dy);
            if map.open_at(nx, ny) {
                crate::map::lemma_cell_in_bounds(nx, ny, map.width(), map.height());
                assert(r.grid == a.grid);
                if grid_at(a.grid, nx, ny, width) is None {
                    assert(r.player.tile_x as int == nx && r.player.tile_y as int == ny);
                } else {
                    let (bx, by) = (nx + dx, ny + dy);
                    if map.open_at(bx, by) {
                        crate::map::lemma_cell_in_bounds(bx, by, map.width(), map.height());
                    }
                }
            }
        }
        assert(player_clear(r, width));
    }
}

/// Busy gating during a push: a player leaning in or pushing ends the tick
/// leaning in, pushing or recoiling, never walking or idle, facing the same
/// way, and the tick requests nothing but the reset.
pub proof fn lemma_push_phases_ignore_input(s: StateView, input: InputSnapshot, delta: i64, map: GameMap)
    requires
        s.player.movement is PrePushing || s.player.movement is Pushing,
    ensures
        ({
            let (r, id) = stepped(s, input, delta, map);
            &&& r.player.movement is PrePushing || r.player.movement is Pushing
                || r.player.movement is PostPushing
            &&& r.player.direction == s.player.direction
            &&& id == if input.left && input.right {
                Some(RESET_TRANSITION)
            } else {
                None
            }
        }),
{
    let width = map.width();
    let (u, _busy, push, post) = player_animated(s.player, delta, input, s.grid, map, width);
    let s1 = StateView { player: u, ..s };
    assert(u.direction == s.player.direction);
    assert(u.movement is PrePushing || u.movement is Pushing);
    if let Some(t) = push {
        let s2 = pushed(s1, t.0, (t.1, t.2), (t.3, t.4), (t.5, t.6), width, delta);
        assert(s2.player.direction == s.player.direction);
        assert(s2.player.movement is PrePushing || s2.player.movement is Pushing);
    }
}

} // verus!
