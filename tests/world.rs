use ferari::map::{GameMap, Heading, MobDef};
use ferari::world::{tile_to_world_buf_pos, Direction, Player, State, Unit, UnitMovement};

fn def(x: u32, y: u32, is_player: bool, heading: Option<Heading>, speed: u32) -> MobDef {
    MobDef { x_start: x, y_start: y, is_player, heading, speed }
}

fn map_with(mobs: Vec<MobDef>) -> GameMap {
    GameMap { size: [5, 5], tile_size: 16, walk_map: vec![true; 25], collidable: vec![false; 25], mobs }
}

#[test]
fn tile_centres_follow_the_isometric_projection() {
    assert_eq!(tile_to_world_buf_pos(5, 5, 128, 2560, 2560), (1344, 1456));
    assert_eq!(tile_to_world_buf_pos(0, 0, 128, 2560, 2560), (1344, 1136));
    assert_eq!(tile_to_world_buf_pos(1, 0, 128, 2560, 2560), (1408, 1168));
    assert_eq!(tile_to_world_buf_pos(0, 1, 128, 2560, 2560), (1280, 1168));
}

#[test]
fn state_new_creates_player_and_mobs() {
    let map = map_with(vec![
        def(0, 0, true, None, 0),
        def(4, 0, false, Some(Heading::Right), 1),
        def(0, 4, false, Some(Heading::Up), 3),
    ]);
    let state = State::new(&map);

    assert_eq!(state.player.unit.tile_x, 0);
    assert_eq!(state.player.unit.tile_y, 0);
    assert_eq!(state.player.unit.x_speed, 10);
    assert_eq!(state.player.unit.y_speed, 10);
    assert_eq!(state.player.unit.direction, Direction::SE);

    assert_eq!(state.mobs.len(), 2);
    assert_eq!((state.mobs[0].x_speed, state.mobs[0].y_speed), (1, 0));
    assert_eq!((state.mobs[0].tile_x, state.mobs[0].tile_y), (4, 0));
    assert_eq!((state.mobs[1].x_speed, state.mobs[1].y_speed), (0, -3));
    assert_eq!((state.mobs[1].tile_x, state.mobs[1].tile_y), (0, 4));

    let (px, py) = tile_to_world_buf_pos(4, 0, 16, 160, 160);
    assert_eq!((state.mobs[0].pixel_x, state.mobs[0].pixel_y), (px, py));

    assert_eq!(state.grid_width, 5);
    assert_eq!(state.mob_grid.len(), 25);
    assert_eq!(state.get_mob_at(4, 0), Some(0));
    assert_eq!(state.get_mob_at(0, 4), Some(1));
    assert_eq!(state.get_mob_at(0, 0), None);
}

#[test]
fn state_new_with_only_a_player() {
    let state = State::new(&map_with(vec![def(2, 3, true, None, 0)]));
    assert_eq!((state.player.unit.tile_x, state.player.unit.tile_y), (2, 3));
    assert!(state.mobs.is_empty());
    assert!(state.mob_grid.iter().all(|c| c.is_none()));
}

#[test]
fn mobs_without_or_with_other_headings() {
    let state = State::new(&map_with(vec![
        def(1, 1, true, None, 0),
        def(2, 2, false, None, 5),
        def(3, 3, false, Some(Heading::Left), 2),
        def(4, 4, false, Some(Heading::Down), 7),
    ]));
    assert_eq!((state.mobs[0].x_speed, state.mobs[0].y_speed), (0, 0));
    assert_eq!((state.mobs[1].x_speed, state.mobs[1].y_speed), (-2, 0));
    assert_eq!((state.mobs[2].x_speed, state.mobs[2].y_speed), (0, 7));
}

#[test]
fn later_player_definition_wins() {
    let state = State::new(&map_with(vec![def(1, 1, true, None, 0), def(3, 2, true, None, 0)]));
    assert_eq!((state.player.unit.tile_x, state.player.unit.tile_y), (3, 2));
    assert!(state.mobs.is_empty());
}

#[test]
fn get_mob_at_is_none_off_the_grid() {
    let state = State::new(&map_with(vec![def(0, 0, true, None, 0), def(4, 1, false, None, 0)]));
    assert_eq!(state.get_mob_at(4, 1), Some(0));
    assert_eq!(state.get_mob_at(-1, 1), None);
    assert_eq!(state.get_mob_at(1, -1), None);
    assert_eq!(state.get_mob_at(5, 0), None);
    assert_eq!(state.get_mob_at(0, 5), None);
}

#[test]
fn update_mob_pos_moves_and_defends_against_stale_calls() {
    let mut state = State::new(&map_with(vec![def(0, 0, true, None, 0), def(1, 1, false, None, 0)]));
    state.update_mob_pos(0, 1, 1, 2, 1);
    assert_eq!(state.get_mob_at(1, 1), None);
    assert_eq!(state.get_mob_at(2, 1), Some(0));

    // A stale source that does not hold the id is left alone.
    state.mob_grid[3] = Some(7);
    state.update_mob_pos(0, 3, 0, 4, 4);
    assert_eq!(state.get_mob_at(3, 0), Some(7));
    assert_eq!(state.get_mob_at(4, 4), Some(0));

    // A destination off the grid is not written.
    state.update_mob_pos(0, 4, 4, 9, 9);
    assert_eq!(state.get_mob_at(4, 4), None);
    assert_eq!(state.mob_grid.iter().filter(|c| c.is_some()).count(), 2);
}

#[test]
fn constructors_and_defaults() {
    let u = Unit::new(1, 2, 3, 4, 5, 6);
    assert_eq!((u.pixel_x, u.pixel_y, u.tile_x, u.tile_y, u.x_speed, u.y_speed), (1, 2, 3, 4, 5, 6));
    assert_eq!(u.movement, UnitMovement::Idle);
    assert_eq!(u.direction, Direction::SE);
    assert_eq!(Player::new(u).unit, u);
    assert_eq!(UnitMovement::default(), UnitMovement::Idle);
}
