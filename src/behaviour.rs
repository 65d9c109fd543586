//! The per-tick step engine: animation of the player and the boxes, the push
//! sequence, and the interpretation of directional input.
use vstd::prelude::*;
use crate::map::{tile_cell, tile_index, GameMap};
use crate::motion::{advance, advanced, interpolate, interpolated};
use crate::world::{grid_at, Direction, State, StateView, Unit, UnitMovement};

verus! {

/// Edge of a tile sprite, in pixels.
pub const TILE_SIZE: i64 = 128;
/// Time to walk one tile, in microseconds.
pub const MOVE_DURATION: i64 = 350_000;
/// Time to lean toward a box before pushing it, in microseconds.
pub const PRE_PUSH_DURATION: i64 = 400_000;
/// Recoil time after a push run, in microseconds.
pub const POST_PUSH_DURATION: i64 = 500_000;
/// Time for a box to slide one tile, in microseconds.
pub const BOX_MOVE_DURATION: i64 = 1_250_000;
/// Duration of the player's pushing movement.
pub const PUSH_DURATION: i64 = BOX_MOVE_DURATION;
/// One full tile step, in thousandths of a tile.
pub const FULL_STEP: u32 = 1000;
/// How far the pushing player leans past a box, in thousandths of a tile.
pub const PUSH_OFFSET: u32 = 250;
/// Transition id returned when both horizontal directions are held.
pub const RESET_TRANSITION: u32 = 0;

/// Directional input sampled once per tick.
#[derive(Debug, Default, Clone, Copy, PartialEq, Eq, Structural)]
pub struct InputSnapshot {
    pub up: bool,
    pub left: bool,
    pub down: bool,
    pub right: bool,
    pub escape: bool,
}

/// Data to start a push: box index, player's next tile, box's next tile and
/// the push delta.
pub type PushTransition = (usize, i32, i32, i32, i32, i32, i32);

/// Pixel coordinates of a recoil: start x, start y, target x, target y.
pub type PostPushTransition = (i64, i64, i64, i64);

/// What animating the player produced this tick.
#[derive(Debug, Default, Clone, Copy)]
pub struct PlayerAnimationResult {
    /// The player is in a transition that blocks new input.
    pub player_is_busy: bool,
    /// A push to start now.
    pub transition_to_push: Option<PushTransition>,
    /// A recoil to start now.
    pub transition_to_post: Option<PostPushTransition>,
}

/// Pixel offset of a move by `magnitude` thousandths of a tile along the tile
/// delta `(dx, dy)`: a full tile is half a tile sprite across and a quarter
/// down. A delta that is not one of the four unit deltas gives no offset.
pub open spec fn offset_of(dx: int, dy: int, magnitude: int) -> (int, int) {
    let step_x = (TILE_SIZE / 2) * magnitude / 1000;
    let step_y = (TILE_SIZE / 4) * magnitude / 1000;
    if dx == 1 && dy == 0 {
        (step_x, step_y)
    } else if dx == -1 && dy == 0 {
        (-step_x, -step_y)
    } else if dx == 0 && dy == -1 {
        (step_x, -step_y)
    } else if dx == 0 && dy == 1 {
        (-step_x, step_y)
    } else {
        (0, 0)
    }
}

/// Computes `offset_of`.
pub fn get_offset(dir_x: i32, dir_y: i32, magnitude: u32) -> (r: (i64, i64))
    ensures
        r.0 == offset_of(dir_x as int, dir_y as int, magnitude as int).0,
        r.1 == offset_of(dir_x as int, dir_y as int, magnitude as int).1,
{
    let step_x: i64 = (TILE_SIZE / 2) * magnitude as i64 / 1000;
    let step_y: i64 = (TILE_SIZE / 4) * magnitude as i64 / 1000;
    if dir_x == 1 && dir_y == 0 {
        (step_x, step_y)
    } else if dir_x == -1 && dir_y == 0 {
        (-step_x, -step_y)
    } else if dir_x == 0 && dir_y == -1 {
        (step_x, -step_y)
    } else if dir_x == 0 && dir_y == 1 {
        (-step_x, step_y)
    } else {
        (0, 0)
    }
}

/// Tile delta of each direction.
pub open spec fn dir_delta(dir: Direction) -> (int, int) {
    match dir {
        Direction::SE => (1, 0),
        Direction::NW => (-1, 0),
        Direction::NE => (0, -1),
        Direction::SW => (0, 1),
    }
}

/// Tile delta of a direction.
pub fn get_dir_delta(dir: Direction) -> (r: (i32, i32))
    ensures
        r.0 == dir_delta(dir).0,
        r.1 == dir_delta(dir).1,
{
    match dir {
        Direction::SE => (1, 0),
        Direction::NW => (-1, 0),
        Direction::NE => (0, -1),
        Direction::SW => (0, 1),
    }
}

/// Whether the input holds the key of a direction.
pub open spec fn held(input: InputSnapshot, dir: Direction) -> bool {
    match dir {
        Direction::SE => input.right,
        Direction::NW => input.left,
        Direction::NE => input.up,
        Direction::SW => input.down,
    }
}

/// The one direction read from input: right, left, up, down, first held wins.
pub open spec fn resolved_direction(input: InputSnapshot) -> Option<Direction> {
    if input.right {
        Some(Direction::SE)
    } else if input.left {
        Some(Direction::NW)
    } else if input.up {
        Some(Direction::NE)
    } else if input.down {
        Some(Direction::SW)
    } else {
        None
    }
}

/// A pixel coordinate moved by `off`, saturating at the ends of `i64`.
pub open spec fn shifted(p: i64, off: int) -> i64 {
    if p + off > i64::MAX {
        i64::MAX
    } else if p + off < i64::MIN {
        i64::MIN
    } else {
        (p + off) as i64
    }
}

fn shift(p: i64, off: i64) -> (r: i64)
    ensures
        r == shifted(p, off as int),
{
    let s: i128 = p as i128 + off as i128;
    if s > i64::MAX as i128 {
        i64::MAX
    } else if s < i64::MIN as i128 {
        i64::MIN
    } else {
        s as i64
    }
}

/// A unit after one tick of a `Moving` transition; units in any other state
/// are left as they are.
pub open spec fn animated_box(u: Unit, delta: i64) -> Unit {
    match u.movement {
        UnitMovement::Moving { start_x, start_y, target_x, target_y, elapsed_time, duration } => {
            let e = advanced(elapsed_time, delta);
            Unit {
                pixel_x: interpolated(start_x, target_x, e, duration),
                pixel_y: interpolated(start_y, target_y, e, duration),
                movement: if e >= duration {
                    UnitMovement::Idle
                } else {
                    UnitMovement::Moving {
                        start_x,
                        start_y,
                        target_x,
                        target_y,
                        elapsed_time: e,
                        duration,
                    }
                },
                ..u
            }
        },
        _ => u,
    }
}

fn animate_box(u: Unit, delta: i64) -> (r: Unit)
    ensures
        r == animated_box(u, delta),
{
    match u.movement {
        UnitMovement::Moving { start_x, start_y, target_x, target_y, elapsed_time, duration } => {
            let e = advance(elapsed_time, delta);
            let movement = if e >= duration {
                UnitMovement::Idle
            } else {
                UnitMovement::Moving { start_x, start_y, target_x, target_y, elapsed_time: e, duration }
            };
            Unit {
                pixel_x: interpolate(start_x, target_x, e, duration),
                pixel_y: interpolate(start_y, target_y, e, duration),
                movement,
                ..u
            }
        },
        _ => u,
    }
}

/// Advances every box in a `Moving` transition by `delta` microseconds; a box
/// whose transition completes stands exactly on its target, `Idle`.
pub fn update_mob_animations(mobs: &mut Vec<Unit>, delta: i64)
    ensures
        final(mobs)@.len() == old(mobs)@.len(),
        forall|i: int|
            0 <= i < old(mobs)@.len() ==> #[trigger] final(mobs)@[i] == animated_box(
                old(mobs)@[i],
                delta,
            ),
{
    let ghost start = mobs@;
    let mut i: usize = 0;
    while i < mobs.len()
        invariant
            0 <= i <= mobs@.len(),
            mobs@.len() == start.len(),
            forall|j: int| 0 <= j < i ==> #[trigger] mobs@[j] == animated_box(start[j], delta),
            forall|j: int| i <= j < mobs@.len() ==> #[trigger] mobs@[j] == start[j],
        decreases mobs@.len() - i,
    {
        let u = animate_box(mobs[i], delta);
        mobs.set(i, u);
        i += 1;
    }
}

/// The push that a completed push continues into: the facing direction is
/// still held, the tile two ahead is open and holds no box, and the tile one
/// ahead holds a box.
pub open spec fn chain_push(
    u: Unit,
    input: InputSnapshot,
    grid: Seq<Option<usize>>,
    map: GameMap,
    width: int,
) -> Option<PushTransition> {
    let (dx, dy) = dir_delta(u.direction);
    let (npx, npy) = (u.tile_x + dx, u.tile_y + dy);
    let (nbx, nby) = (u.tile_x + 2 * dx, u.tile_y + 2 * dy);
    if held(input, u.direction) && map.open_at(nbx, nby) && grid_at(grid, nbx, nby, width) is None {
        match grid_at(grid, npx, npy, width) {
            Some(b) => Some((b, npx as i32, npy as i32, nbx as i32, nby as i32, dx as i32, dy as i32)),
            None => None,
        }
    } else {
        None
    }
}

/// The player after one tick of animation, with what the tick produced:
/// whether the player stays busy, a push to start, a recoil to start.
pub open spec fn player_animated(
    u: Unit,
    delta: i64,
    input: InputSnapshot,
    grid: Seq<Option<usize>>,
    map: GameMap,
    width: int,
) -> (Unit, bool, Option<PushTransition>, Option<PostPushTransition>) {
    match u.movement {
        UnitMovement::Idle => (u, false, None, None),
        UnitMovement::Moving { start_x, start_y, target_x, target_y, elapsed_time, duration } => {
            let e = advanced(elapsed_time, delta);
            let movement = if e >= duration {
                UnitMovement::Idle
            } else {
                UnitMovement::Moving { start_x, start_y, target_x, target_y, elapsed_time: e, duration }
            };
            (
                Unit {
                    pixel_x: interpolated(start_x, target_x, e, duration),
                    pixel_y: interpolated(start_y, target_y, e, duration),
                    movement,
                    ..u
                },
                e < duration,
                None,
                None,
            )
        },
        UnitMovement::PostPushing { start_x, start_y, target_x, target_y, elapsed_time, duration } => {
            let e = advanced(elapsed_time, delta);
            let movement = if e >= duration {
                UnitMovement::Idle
            } else {
                UnitMovement::PostPushing {
                    start_x,
                    start_y,
                    target_x,
                    target_y,
                    elapsed_time: e,
                    duration,
                }
            };
            (
                Unit {
                    pixel_x: interpolated(start_x, target_x, e, duration),
                    pixel_y: interpolated(start_y, target_y, e, duration),
                    movement,
                    ..u
                },
                e < duration,
                None,
                None,
            )
        },
        UnitMovement::PrePushing {
            start_x,
            start_y,
            target_x,
            target_y,
            elapsed_time,
            duration,
            box_idx,
            player_next_tx,
            player_next_ty,
            box_next_tx,
            box_next_ty,
            push_dx,
            push_dy,
        } => {
            let e = advanced(elapsed_time, delta);
            let u2 = Unit {
                pixel_x: interpolated(start_x, target_x, e, duration),
                pixel_y: interpolated(start_y, target_y, e, duration),
                movement: UnitMovement::PrePushing {
                    start_x,
                    start_y,
                    target_x,
                    target_y,
                    elapsed_time: e,
                    duration,
                    box_idx,
                    player_next_tx,
                    player_next_ty,
                    box_next_tx,
                    box_next_ty,
                    push_dx,
                    push_dy,
                },
                ..u
            };
            let push = if e >= duration {
                Some((box_idx, player_next_tx, player_next_ty, box_next_tx, box_next_ty, push_dx, push_dy))
            } else {
                None
            };
            (u2, true, push, None)
        },
        UnitMovement::Pushing {
            start_x,
            start_y,
            target_x,
            target_y,
            elapsed_time,
            duration,
            recoil_target_x,
            recoil_target_y,
        } => {
            let e = advanced(elapsed_time, delta);
            let u2 = Unit {
                pixel_x: interpolated(start_x, target_x, e, duration),
                pixel_y: interpolated(start_y, target_y, e, duration),
                movement: UnitMovement::Pushing {
                    start_x,
                    start_y,
                    target_x,
                    target_y,
                    elapsed_time: e,
                    duration,
                    recoil_target_x,
                    recoil_target_y,
                },
                ..u
            };
            if e >= duration {
                match chain_push(u2, input, grid, map, width) {
                    Some(t) => (u2, true, Some(t), None),
                    None => (u2, true, None, Some((target_x, target_y, recoil_target_x, recoil_target_y))),
                }
            } else {
                (u2, true, None, None)
            }
        },
    }
}

fn mob_at(grid: &[Option<usize>], x: i64, y: i64, width: usize) -> (r: Option<usize>)
    ensures
        r == grid_at(grid@, x as int, y as int, width as int),
{
    match tile_index(x, y, width, grid.len()) {
        Some(c) => grid[c],
        None => None,
    }
}

fn is_held(input: &InputSnapshot, dir: Direction) -> (r: bool)
    ensures
        r == held(*input, dir),
{
    match dir {
        Direction::SE => input.right,
        Direction::NW => input.left,
        Direction::NE => input.up,
        Direction::SW => input.down,
    }
}

/// An open tile of a well-formed map has coordinates that fit `i32`.
proof fn lemma_open_tile_fits(map: GameMap, x: int, y: int)
    requires
        map.wf(),
        map.walkable_at(x, y),
    ensures
        0 <= x < map.width() <= i32::MAX,
        0 <= y < map.height() <= i32::MAX,
{
    crate::map::lemma_cell_in_bounds(x, y, map.width(), map.height());
}

fn try_chain_push(
    unit: &Unit,
    input: &InputSnapshot,
    mob_grid: &[Option<usize>],
    game: &GameMap,
    map_width: usize,
) -> (r: Option<PushTransition>)
    requires
        game.wf(),
    ensures
        r == chain_push(*unit, *input, mob_grid@, *game, map_width as int),
{
    let (dx, dy) = get_dir_delta(unit.direction);
    if !is_held(input, unit.direction) {
        return None;
    }
    let npx: i64 = unit.tile_x as i64 + dx as i64;
    let npy: i64 = unit.tile_y as i64 + dy as i64;
    let nbx: i64 = unit.tile_x as i64 + 2 * dx as i64;
    let nby: i64 = unit.tile_y as i64 + 2 * dy as i64;
    let walkable = game.is_walkable(nbx, nby) && !game.has_collidable_object_at(nbx, nby);
    if !walkable {
        return None;
    }
    proof {
        lemma_open_tile_fits(*game, nbx as int, nby as int);
    }
    if mob_at(mob_grid, nbx, nby, map_width).is_some() {
        return None;
    }
    match mob_at(mob_grid, npx, npy, map_width) {
        Some(b) => Some((b, npx as i32, npy as i32, nbx as i32, nby as i32, dx, dy)),
        None => None,
    }
}

/// Advances the player's transition by `delta` microseconds.
///
/// A walk or recoil that completes leaves the player `Idle` on its exact
/// target. A completed lean-in yields the push it carries. A completed push
/// yields the next push of a chain when the facing direction is still held
/// and the chain can go on, and the recoil otherwise. The player stays busy in
/// every state but `Idle` and a completed walk or recoil.
pub fn update_player_animation(
    unit: &mut Unit,
    delta: i64,
    input_state: &InputSnapshot,
    mob_grid: &[Option<usize>],
    game: &GameMap,
    map_width: usize,
) -> (r: PlayerAnimationResult)
    requires
        game.wf(),
    ensures
        ({
            let (u, busy, push, post) = player_animated(
                *old(unit),
                delta,
                *input_state,
                mob_grid@,
                *game,
                map_width as int,
            );
            &&& *final(unit) == u
            &&& r.player_is_busy == busy
            &&& r.transition_to_push == push
            &&& r.transition_to_post == post
        }),
{
    match unit.movement {
        UnitMovement::Idle => {
            PlayerAnimationResult { player_is_busy: false, transition_to_push: None, transition_to_post: None }
        },
        UnitMovement::Moving { start_x, start_y, target_x, target_y, elapsed_time, duration } => {
            let e = advance(elapsed_time, delta);
            unit.pixel_x = interpolate(start_x, target_x, e, duration);
            unit.pixel_y = interpolate(start_y, target_y, e, duration);
            if e >= duration {
                unit.movement = UnitMovement::Idle;
            } else {
                unit.movement =
                    UnitMovement::Moving { start_x, start_y, target_x, target_y, elapsed_time: e, duration };
            }
            PlayerAnimationResult {
                player_is_busy: e < duration,
                transition_to_push: None,
                transition_to_post: None,
            }
        },
        UnitMovement::PostPushing { start_x, start_y, target_x, target_y, elapsed_time, duration } => {
            let e = advance(elapsed_time, delta);
            unit.pixel_x = interpolate(start_x, target_x, e, duration);
            unit.pixel_y = interpolate(start_y, target_y, e, duration);
            if e >= duration {
                unit.movement = UnitMovement::Idle;
            } else {
                unit.movement = UnitMovement::PostPushing {
                    start_x,
                    start_y,
                    target_x,
                    target_y,
                    elapsed_time: e,
                    duration,
                };
            }
            PlayerAnimationResult {
                player_is_busy: e < duration,
                transition_to_push: None,
                transition_to_post: None,
            }
        },
        UnitMovement::PrePushing {
            start_x,
            start_y,
            target_x,
            target_y,
            elapsed_time,
            duration,
            box_idx,
            player_next_tx,
            player_next_ty,
            box_next_tx,
            box_next_ty,
            push_dx,
            push_dy,
        } => {
            let e = advance(elapsed_time, delta);
            unit.pixel_x = interpolate(start_x, target_x, e, duration);
            unit.pixel_y = interpolate(start_y, target_y, e, duration);
            unit.movement = UnitMovement::PrePushing {
                start_x,
                start_y,
                target_x,
                target_y,
                elapsed_time: e,
                duration,
                box_idx,
                player_next_tx,
                player_next_ty,
                box_next_tx,
                box_next_ty,
                push_dx,
                push_dy,
            };
            let push = if e >= duration {
                Some((box_idx, player_next_tx, player_next_ty, box_next_tx, box_next_ty, push_dx, push_dy))
            } else {
                None
            };
            PlayerAnimationResult { player_is_busy: true, transition_to_push: push, transition_to_post: None }
        },
        UnitMovement::Pushing {
            start_x,
            start_y,
            target_x,
            target_y,
            elapsed_time,
            duration,
            recoil_target_x,
            recoil_target_y,
        } => {
            let e = advance(elapsed_time, delta);
            unit.pixel_x = interpolate(start_x, target_x, e, duration);
            unit.pixel_y = interpolate(start_y, target_y, e, duration);
            unit.movement = UnitMovement::Pushing {
                start_x,
                start_y,
                target_x,
                target_y,
                elapsed_time: e,
                duration,
                recoil_target_x,
                recoil_target_y,
            };
            if e >= duration {
                match try_chain_push(unit, input_state, mob_grid, game, map_width) {
                    Some(t) => PlayerAnimationResult {
                        player_is_busy: true,
                        transition_to_push: Some(t),
                        transition_to_post: None,
                    },
                    None => PlayerAnimationResult {
                        player_is_busy: true,
                        transition_to_push: None,
                        transition_to_post: Some((target_x, target_y, recoil_target_x, recoil_target_y)),
                    },
                }
            } else {
                PlayerAnimationResult { player_is_busy: true, transition_to_push: None, transition_to_post: None }
            }
        },
    }
}

/// The world after a push starts: box `box_idx` moves in the grid from the
/// player's next tile `p` to its own next tile `b`, starts sliding one tile
/// (its clock set back by `delta`, so that the advance later in the same tick
/// keeps it in phase with the player), and the player, committed to `p`,
/// starts pushing toward the lean-in point past the box, recoiling later to
/// the box's present pixel position. Unless the grid shows the box on `p`,
/// `b` lies on the grid and the box index is valid, nothing changes.
pub open spec fn pushed(
    s: StateView,
    box_idx: usize,
    p: (i32, i32),
    b: (i32, i32),
    d: (i32, i32),
    width: int,
    delta: i64,
) -> StateView {
    let len = s.grid.len() as int;
    let old_c = tile_cell(p.0 as int, p.1 as int, width, len);
    let new_c = tile_cell(b.0 as int, b.1 as int, width, len);
    if old_c is Some && new_c is Some && s.grid[old_c->0] == Some(box_idx) && box_idx < s.mobs.len() {
        let bu = s.mobs[box_idx as int];
        let step = offset_of(d.0 as int, d.1 as int, FULL_STEP as int);
        let lean = offset_of(d.0 as int, d.1 as int, PUSH_OFFSET as int);
        let moved_box = Unit {
            movement: UnitMovement::Moving {
                start_x: bu.pixel_x,
                start_y: bu.pixel_y,
                target_x: shifted(bu.pixel_x, step.0),
                target_y: shifted(bu.pixel_y, step.1),
                elapsed_time: (0 - delta) as i64,
                duration: BOX_MOVE_DURATION,
            },
            tile_x: b.0,
            tile_y: b.1,
            ..bu
        };
        let pusher = Unit {
            movement: UnitMovement::Pushing {
                start_x: s.player.pixel_x,
                start_y: s.player.pixel_y,
                target_x: shifted(bu.pixel_x, lean.0),
                target_y: shifted(bu.pixel_y, lean.1),
                elapsed_time: 0,
                duration: PUSH_DURATION,
                recoil_target_x: bu.pixel_x,
                recoil_target_y: bu.pixel_y,
            },
            tile_x: p.0,
            tile_y: p.1,
            ..s.player
        };
        StateView {
            player: pusher,
            mobs: s.mobs.update(box_idx as int, moved_box),
            grid: s.grid.update(old_c->0, None).update(new_c->0, Some(box_idx)),
            ..s
        }
    } else {
        s
    }
}

/// Starts a push: see `pushed`.
pub fn apply_push_transition(
    state: &mut State,
    box_idx: usize,
    p: (i32, i32),
    b: (i32, i32),
    d: (i32, i32),
    map_width: usize,
    delta: i64,
)
    requires
        delta >= 0,
    ensures
        final(state)@ == pushed(old(state)@, box_idx, p, b, d, map_width as int, delta),
{
    let len = state.mob_grid.len();
    let old_c = tile_index(p.0 as i64, p.1 as i64, map_width, len);
    let new_c = tile_index(b.0 as i64, b.1 as i64, map_width, len);
    if let (Some(oc), Some(nc)) = (old_c, new_c) {
        if state.mob_grid[oc] == Some(box_idx) && box_idx < state.mobs.len() {
            state.mob_grid.set(oc, None);
            state.mob_grid.set(nc, Some(box_idx));
            let bu = state.mobs[box_idx];
            let (step_x, step_y) = get_offset(d.0, d.1, FULL_STEP);
            let (lean_x, lean_y) = get_offset(d.0, d.1, PUSH_OFFSET);
            let moved_box = Unit {
                movement: UnitMovement::Moving {
                    start_x: bu.pixel_x,
                    start_y: bu.pixel_y,
                    target_x: shift(bu.pixel_x, step_x),
                    target_y: shift(bu.pixel_y, step_y),
                    elapsed_time: 0 - delta,
                    duration: BOX_MOVE_DURATION,
                },
                tile_x: b.0,
                tile_y: b.1,
                ..bu
            };
            state.mobs.set(box_idx, moved_box);
            let pl = state.player.unit;
            state.player.unit = Unit {
                movement: UnitMovement::Pushing {
                    start_x: pl.pixel_x,
                    start_y: pl.pixel_y,
                    target_x: shift(bu.pixel_x, lean_x),
                    target_y: shift(bu.pixel_y, lean_y),
                    elapsed_time: 0,
                    duration: PUSH_DURATION,
                    recoil_target_x: bu.pixel_x,
                    recoil_target_y: bu.pixel_y,
                },
                tile_x: p.0,
                tile_y: p.1,
                ..pl
            };
        }
    }
}

/// The player starting its recoil from `start` to `target`.
pub open spec fn post_pushed(u: Unit, start: (i64, i64), target: (i64, i64)) -> Unit {
    Unit {
        movement: UnitMovement::PostPushing {
            start_x: start.0,
            start_y: start.1,
            target_x: target.0,
            target_y: target.1,
            elapsed_time: 0,
            duration: POST_PUSH_DURATION,
        },
        ..u
    }
}

/// Starts the player's recoil after a push run.
pub fn apply_post_push_transition(player: &mut Unit, start: (i64, i64), target: (i64, i64))
    ensures
        *final(player) == post_pushed(*old(player), start, target),
{
    player.movement = UnitMovement::PostPushing {
        start_x: start.0,
        start_y: start.1,
        target_x: target.0,
        target_y: target.1,
        elapsed_time: 0,
        duration: POST_PUSH_DURATION,
    };
}

/// The player starting its lean toward box `box_idx` along `d`; no tile is
/// committed yet.
pub open spec fn pre_pushed(
    u: Unit,
    d: (i32, i32),
    box_idx: usize,
    player_next: (i32, i32),
    box_next: (i32, i32),
) -> Unit {
    let lean = offset_of(d.0 as int, d.1 as int, PUSH_OFFSET as int);
    Unit {
        movement: UnitMovement::PrePushing {
            start_x: u.pixel_x,
            start_y: u.pixel_y,
            target_x: shifted(u.pixel_x, lean.0),
            target_y: shifted(u.pixel_y, lean.1),
            elapsed_time: 0,
            duration: PRE_PUSH_DURATION,
            box_idx,
            player_next_tx: player_next.0,
            player_next_ty: player_next.1,
            box_next_tx: box_next.0,
            box_next_ty: box_next.1,
            push_dx: d.0,
            push_dy: d.1,
        },
        ..u
    }
}

/// Starts the lean toward a box before pushing it.
pub fn start_pre_push_animation(
    player: &mut Unit,
    d: (i32, i32),
    box_idx: usize,
    player_next: (i32, i32),
    box_next: (i32, i32),
)
    ensures
        *final(player) == pre_pushed(*old(player), d, box_idx, player_next, box_next),
{
    let (lean_x, lean_y) = get_offset(d.0, d.1, PUSH_OFFSET);
    player.movement = UnitMovement::PrePushing {
        start_x: player.pixel_x,
        start_y: player.pixel_y,
        target_x: shift(player.pixel_x, lean_x),
        target_y: shift(player.pixel_y, lean_y),
        elapsed_time: 0,
        duration: PRE_PUSH_DURATION,
        box_idx,
        player_next_tx: player_next.0,
        player_next_ty: player_next.1,
        box_next_tx: box_next.0,
        box_next_ty: box_next.1,
        push_dx: d.0,
        push_dy: d.1,
    };
}

/// The player starting a one-tile walk along `d`, committed to `next` at once.
pub open spec fn walked(u: Unit, d: (i32, i32), next: (i32, i32)) -> Unit {
    let step = offset_of(d.0 as int, d.1 as int, FULL_STEP as int);
    Unit {
        movement: UnitMovement::Moving {
            start_x: u.pixel_x,
            start_y: u.pixel_y,
            target_x: shifted(u.pixel_x, step.0),
            target_y: shifted(u.pixel_y, step.1),
            elapsed_time: 0,
            duration: MOVE_DURATION,
        },
        tile_x: next.0,
        tile_y: next.1,
        ..u
    }
}

/// Starts a one-tile walk.
pub fn start_walking_animation(player: &mut Unit, d: (i32, i32), next: (i32, i32))
    ensures
        *final(player) == walked(*old(player), d, next),
{
    let (step_x, step_y) = get_offset(d.0, d.1, FULL_STEP);
    player.movement = UnitMovement::Moving {
        start_x: player.pixel_x,
        start_y: player.pixel_y,
        target_x: shift(player.pixel_x, step_x),
        target_y: shift(player.pixel_y, step_y),
        elapsed_time: 0,
        duration: MOVE_DURATION,
    };
    player.tile_x = next.0;
    player.tile_y = next.1;
}

/// The world after the animation phases of a tick: the player is animated,
/// the push or recoil it produced is started, then every box is animated.
pub open spec fn animated_world(s: StateView, input: InputSnapshot, delta: i64, map: GameMap) -> StateView {
    let width = map.width();
    let (u, _busy, push, post) = player_animated(s.player, delta, input, s.grid, map, width);
    let s1 = StateView { player: u, ..s };
    let s2 = match push {
        Some(t) => pushed(s1, t.0, (t.1, t.2), (t.3, t.4), (t.5, t.6), width, delta),
        None => s1,
    };
    let s3 = match post {
        Some(q) => StateView { player: post_pushed(s2.player, (q.0, q.1), (q.2, q.3)), ..s2 },
        None => s2,
    };
    StateView { mobs: Seq::new(s3.mobs.len(), |i: int| animated_box(s3.mobs[i], delta)), ..s3 }
}

/// The world after an idle player acts on `input`: the first held direction
/// becomes the facing; the player walks onto an open tile with no box, or
/// leans into a box whose far side is open and holds no box; anything else
/// leaves tiles, pixels and movement as they are.
pub open spec fn after_input(s: StateView, input: InputSnapshot, map: GameMap) -> StateView {
    match resolved_direction(input) {
        None => s,
        Some(dir) => {
            let p = Unit { direction: dir, ..s.player };
            let turned = StateView { player: p, ..s };
            let (dx, dy) = dir_delta(dir);
            let (nx, ny) = (p.tile_x + dx, p.tile_y + dy);
            let d = (dx as i32, dy as i32);
            if !map.open_at(nx, ny) {
                turned
            } else {
                match grid_at(s.grid, nx, ny, map.width()) {
                    None => StateView { player: walked(p, d, (nx as i32, ny as i32)), ..s },
                    Some(b) => {
                        let (bx, by) = (nx + dx, ny + dy);
                        if !map.open_at(bx, by) || grid_at(s.grid, bx, by, map.width()) is Some {
                            turned
                        } else {
                            StateView {
                                player: pre_pushed(p, d, b, (nx as i32, ny as i32), (bx as i32, by as i32)),
                                ..s
                            }
                        }
                    },
                }
            }
        },
    }
}

/// One tick: the world after it, and the transition id it requests. Holding
/// left and right together requests the reset id; a player still busy after
/// the animation phases ignores input; an idle one acts on it.
pub open spec fn stepped(s: StateView, input: InputSnapshot, delta: i64, map: GameMap) -> (
    StateView,
    Option<u32>,
) {
    let a = animated_world(s, input, delta, map);
    if input.left && input.right {
        (a, Some(RESET_TRANSITION))
    } else if !(a.player.movement is Idle) {
        (a, None)
    } else {
        (after_input(a, input, map), None)
    }
}

/// Advances the simulation by one tick of `delta` microseconds: animates the
/// player and the boxes, applies a completed push phase to the grid, then
/// reads one direction of input if the player is idle.
///
/// Returns `Some(RESET_TRANSITION)` exactly when left and right are both
/// held, and `None` otherwise.
pub fn make_step(curr_state: &mut State, input_state: &InputSnapshot, delta: i64, game: &GameMap) -> (r:
    Option<u32>)
    requires
        game.wf(),
        delta >= 0,
    ensures
        final(curr_state)@ == stepped(old(curr_state)@, *input_state, delta, *game).0,
        r == stepped(old(curr_state)@, *input_state, delta, *game).1,
        old(curr_state)@.occupancy_consistent(game.width()) && crate::laws::player_clear(
            old(curr_state)@,
            game.width(),
        ) ==> final(curr_state)@.occupancy_consistent(game.width()),
        crate::laws::player_clear(old(curr_state)@, game.width()) ==> crate::laws::player_clear(
            final(curr_state)@,
            game.width(),
        ),
{
    proof {
        if curr_state@.occupancy_consistent(game.width()) && crate::laws::player_clear(
            curr_state@,
            game.width(),
        ) {
            crate::laws::lemma_step_keeps_occupancy(curr_state@, *input_state, delta, *game);
        }
        if crate::laws::player_clear(curr_state@, game.width()) {
            crate::laws::lemma_step_keeps_player_clear(curr_state@, *input_state, delta, *game);
        }
    }
    let ghost s0 = curr_state@;
    let map_width = game.size[0] as usize;
    let res = update_player_animation(
        &mut curr_state.player.unit,
        delta,
        input_state,
        curr_state.mob_grid.as_slice(),
        game,
        map_width,
    );
    let mut player_is_busy = res.player_is_busy;
    if let Some(t) = res.transition_to_push {
        player_is_busy = true;
        apply_push_transition(curr_state, t.0, (t.1, t.2), (t.3, t.4), (t.5, t.6), map_width, delta);
    }
    if let Some(q) = res.transition_to_post {
        player_is_busy = true;
        apply_post_push_transition(&mut curr_state.player.unit, (q.0, q.1), (q.2, q.3));
    }
    let ghost s3 = curr_state@;
    update_mob_animations(&mut curr_state.mobs, delta);
    proof {
        let a = animated_world(s0, *input_state, delta, *game);
        assert(curr_state@.mobs =~= a.mobs);
        assert(curr_state@ == a);
        assert(player_is_busy == !(a.player.movement is Idle));
    }
    if input_state.left && input_state.right {
        return Some(RESET_TRANSITION);
    }
    if player_is_busy {
        return None;
    }
    let dir = if input_state.right {
        Direction::SE
    } else if input_state.left {
        Direction::NW
    } else if input_state.up {
        Direction::NE
    } else if input_state.down {
        Direction::SW
    } else {
        return None;
    };
    curr_state.player.unit.direction = dir;
    let (dx, dy) = get_dir_delta(dir);
    let nx: i64 = curr_state.player.unit.tile_x as i64 + dx as i64;
    let ny: i64 = curr_state.player.unit.tile_y as i64 + dy as i64;
    if !game.is_walkable(nx, ny) || game.has_collidable_object_at(nx, ny) {
        return None;
    }
    proof {
        lemma_open_tile_fits(*game, nx as int, ny as int);
    }
    match mob_at(curr_state.mob_grid.as_slice(), nx, ny, map_width) {
        Some(b) => {
            let bx: i64 = nx + dx as i64;
            let by: i64 = ny + dy as i64;
            if !game.is_walkable(bx, by) || game.has_collidable_object_at(bx, by) {
                return None;
            }
            proof {
                lemma_open_tile_fits(*game, bx as int, by as int);
            }
            if mob_at(curr_state.mob_grid.as_slice(), bx, by, map_width).is_some() {
                return None;
            }
            start_pre_push_animation(
                &mut curr_state.player.unit,
                (dx, dy),
                b,
                (nx as i32, ny as i32),
                (bx as i32, by as i32),
            );
        },
        None => {
            start_walking_animation(&mut curr_state.player.unit, (dx, dy), (nx as i32, ny as i32));
        },
    }
    None
}

} // verus!
