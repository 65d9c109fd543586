use ferari::behaviour::{
    apply_post_push_transition, apply_push_transition, get_offset, start_pre_push_animation,
    start_walking_animation, update_mob_animations, update_player_animation, InputSnapshot,
    BOX_MOVE_DURATION, FULL_STEP, MOVE_DURATION, POST_PUSH_DURATION, PRE_PUSH_DURATION,
    PUSH_DURATION, PUSH_OFFSET,
};
use ferari::map::GameMap;
use ferari::world::{Direction, Player, State, Unit, UnitMovement};

fn create_test_mob_with_movement(movement: UnitMovement) -> Unit {
    Unit {
        pixel_x: 0,
        pixel_y: 0,
        tile_x: 0,
        tile_y: 0,
        x_speed: 10,
        y_speed: 10,
        movement,
        direction: Direction::SE,
    }
}

#[test]
fn test_update_mob_animations_single_mob_completion() {
    let mut mobs = vec![create_test_mob_with_movement(UnitMovement::Moving {
        start_x: 0,
        start_y: 0,
        target_x: 100,
        target_y: 100,
        elapsed_time: 500_000,
        duration: 1_000_000,
    })];

    let delta = 600_000;

    update_mob_animations(&mut mobs, delta);

    assert!(matches!(mobs[0].movement, UnitMovement::Idle));
    assert_eq!(mobs[0].pixel_x, 100);
    assert_eq!(mobs[0].pixel_y, 100)
}

#[test]
fn mob_animation_midway_and_untouched_states() {
    let mut mobs = vec![
        create_test_mob_with_movement(UnitMovement::Moving {
            start_x: 0,
            start_y: 0,
            target_x: 100,
            target_y: -100,
            elapsed_time: 0,
            duration: 1_000_000,
        }),
        create_test_mob_with_movement(UnitMovement::Idle),
    ];
    update_mob_animations(&mut mobs, 250_000);
    assert_eq!((mobs[0].pixel_x, mobs[0].pixel_y), (25, -25));
    assert!(matches!(mobs[0].movement, UnitMovement::Moving { elapsed_time: 250_000, .. }));
    assert_eq!(mobs[1], create_test_mob_with_movement(UnitMovement::Idle));
}

#[test]
fn test_start_pre_push_animation_basic() {
    let mut player = Unit {
        pixel_x: 100,
        pixel_y: 100,
        tile_x: 5,
        tile_y: 5,
        x_speed: 10,
        y_speed: 10,
        movement: UnitMovement::Idle,
        direction: Direction::SE,
    };
    let initial_x = player.pixel_x;
    let initial_y = player.pixel_y;

    let direction = (1, 0);
    let box_idx = 42;
    let player_next_tile = (6, 5);
    let box_next_tile = (7, 5);

    start_pre_push_animation(&mut player, direction, box_idx, player_next_tile, box_next_tile);

    match &player.movement {
        UnitMovement::PrePushing {
            start_x,
            start_y,
            target_x,
            target_y,
            elapsed_time,
            duration,
            box_idx: actual_box_idx,
            player_next_tx,
            player_next_ty,
            box_next_tx,
            box_next_ty,
            push_dx,
            push_dy,
        } => {
            assert_eq!(*start_x, initial_x);
            assert_eq!(*start_y, initial_y);

            let (expected_offset_x, expected_offset_y) = get_offset(1, 0, PUSH_OFFSET);
            assert_eq!(*target_x, initial_x + expected_offset_x);
            assert_eq!(*target_y, initial_y + expected_offset_y);

            assert_eq!(*elapsed_time, 0);
            assert_eq!(*duration, PRE_PUSH_DURATION);

            assert_eq!(*actual_box_idx, box_idx);
            assert_eq!(*player_next_tx, player_next_tile.0);
            assert_eq!(*player_next_ty, player_next_tile.1);
            assert_eq!(*box_next_tx, box_next_tile.0);
            assert_eq!(*box_next_ty, box_next_tile.1);
            assert_eq!(*push_dx, direction.0);
            assert_eq!(*push_dy, direction.1);
        }
        other => panic!("Expected PrePushing movement, got {:?}", other),
    }

    assert_eq!(player.pixel_x, initial_x);
    assert_eq!(player.pixel_y, initial_y);
}

#[test]
fn test_apply_post_push_transition() {
    let mut player = Unit {
        pixel_x: 0,
        pixel_y: 0,
        tile_x: 0,
        tile_y: 0,
        x_speed: 10,
        y_speed: 10,
        movement: UnitMovement::Idle,
        direction: Direction::SE,
    };

    let start = (10, 20);
    let target = (30, 40);

    apply_post_push_transition(&mut player, start, target);

    match &player.movement {
        UnitMovement::PostPushing { start_x, start_y, target_x, target_y, elapsed_time, duration } => {
            assert_eq!(*start_x, start.0);
            assert_eq!(*start_y, start.1);
            assert_eq!(*target_x, target.0);
            assert_eq!(*target_y, target.1);

            assert_eq!(*elapsed_time, 0);
            assert_eq!(*duration, POST_PUSH_DURATION);
        }
        other => {
            panic!("Expected PostPushing movement, got {:?}", other);
        }
    }
}

#[test]
fn test_apply_push_transition() {
    let map_width = 10;
    let player_tile = (5, 5);
    let box_tile = (6, 5);

    let mut state = State {
        player: Player {
            unit: Unit {
                pixel_x: 100,
                pixel_y: 100,
                tile_x: player_tile.0,
                tile_y: player_tile.1,
                movement: UnitMovement::Idle,
                direction: Direction::SE,
                x_speed: 10,
                y_speed: 10,
            },
        },
        mobs: vec![
            Unit {
                pixel_x: 164,
                pixel_y: 132,
                tile_x: box_tile.0,
                tile_y: box_tile.1,
                movement: UnitMovement::Idle,
                direction: Direction::SE,
                x_speed: 10,
                y_speed: 10,
            },
            Unit {
                pixel_x: 200,
                pixel_y: 200,
                tile_x: 7,
                tile_y: 5,
                movement: UnitMovement::Idle,
                direction: Direction::SE,
                x_speed: 10,
                y_speed: 10,
            },
        ],
        mob_grid: vec![None; map_width * map_width],
        ..State::default()
    };

    let box_idx = 0;
    let direction = (1, 0);
    let delta = 16_000;

    let old_box_idx = box_tile.1 as usize * map_width + box_tile.1 as usize;
    state.mob_grid[old_box_idx] = Some(0);

    let initial_player_pixel_x = state.player.unit.pixel_x;
    let initial_player_pixel_y = state.player.unit.pixel_y;
    let initial_box_pixel_x = state.mobs[0].pixel_x;
    let initial_box_pixel_y = state.mobs[0].pixel_y;

    apply_push_transition(&mut state, box_idx, player_tile, box_tile, direction, map_width, delta);

    let new_box_idx = box_tile.1 as usize * map_width + box_tile.1 as usize + 1;
    assert_eq!(state.mob_grid[old_box_idx], None);
    assert_eq!(state.mob_grid[new_box_idx], Some(0));

    match &state.mobs[0].movement {
        UnitMovement::Moving { start_x, start_y, target_x, target_y, elapsed_time, duration } => {
            assert_eq!(*start_x, initial_box_pixel_x);
            assert_eq!(*start_y, initial_box_pixel_y);

            let (offset_x, offset_y) = get_offset(1, 0, FULL_STEP);
            assert_eq!(*target_x, initial_box_pixel_x + offset_x);
            assert_eq!(*target_y, initial_box_pixel_y + offset_y);

            assert_eq!(*elapsed_time, 0 - delta);
            assert_eq!(*duration, BOX_MOVE_DURATION);
        }
        other => panic!("Expected Moving movement, got {:?}", other),
    }

    assert_eq!(state.mobs[0].tile_x, box_tile.0);
    assert_eq!(state.mobs[0].tile_y, box_tile.1);

    match &state.player.unit.movement {
        UnitMovement::Pushing {
            start_x,
            start_y,
            target_x,
            target_y,
            elapsed_time,
            duration,
            recoil_target_x,
            recoil_target_y,
        } => {
            assert_eq!(*start_x, initial_player_pixel_x);
            assert_eq!(*start_y, initial_player_pixel_y);

            let (push_offset_x, push_offset_y) = get_offset(1, 0, PUSH_OFFSET);
            assert_eq!(*target_x, initial_box_pixel_x + push_offset_x);
            assert_eq!(*target_y, initial_box_pixel_y + push_offset_y);

            assert_eq!(*recoil_target_x, initial_box_pixel_x);
            assert_eq!(*recoil_target_y, initial_box_pixel_y);

            assert_eq!(*elapsed_time, 0);
            assert_eq!(*duration, PUSH_DURATION);
        }
        other => panic!("Expected Pushing movement, got {:?}", other),
    }

    assert_eq!(state.player.unit.tile_x, player_tile.0);
    assert_eq!(state.player.unit.tile_y, player_tile.1);

    assert!(matches!(state.mobs[1].movement, UnitMovement::Idle));
    assert_eq!(state.mobs[1].pixel_x, 200);
    assert_eq!(state.mobs[1].pixel_y, 200);
}

#[test]
fn push_transition_skipped_when_grid_disagrees() {
    let mut state = State {
        mobs: vec![create_test_mob_with_movement(UnitMovement::Idle)],
        mob_grid: vec![None; 100],
        ..State::default()
    };
    state.mob_grid[56] = Some(0);
    // The grid shows box 0 on (6, 5), not on (5, 5): nothing moves.
    apply_push_transition(&mut state, 0, (5, 5), (6, 5), (1, 0), 10, 16_000);
    assert_eq!(state.mob_grid[55], None);
    assert_eq!(state.mob_grid[56], Some(0));
    assert!(matches!(state.player.unit.movement, UnitMovement::Idle));
    assert!(matches!(state.mobs[0].movement, UnitMovement::Idle));
    // The destination is off the grid: nothing moves either.
    state.mob_grid[55] = Some(0);
    apply_push_transition(&mut state, 0, (5, 5), (5, 10), (0, 1), 10, 16_000);
    assert_eq!(state.mob_grid[55], Some(0));
    assert!(matches!(state.player.unit.movement, UnitMovement::Idle));
    // An index past the boxes: nothing moves.
    state.mob_grid[55] = Some(3);
    apply_push_transition(&mut state, 3, (5, 5), (6, 5), (1, 0), 10, 16_000);
    assert_eq!(state.mob_grid[55], Some(3));
    assert!(matches!(state.player.unit.movement, UnitMovement::Idle));
}

#[test]
fn push_transition_checks_only_the_source_cell() {
    let mut state = State {
        mobs: vec![create_test_mob_with_movement(UnitMovement::Idle)],
        mob_grid: vec![None; 100],
        ..State::default()
    };
    state.mob_grid[55] = Some(0);
    state.mob_grid[56] = Some(0);
    apply_push_transition(&mut state, 0, (5, 5), (6, 5), (1, 0), 10, 16_000);
    assert_eq!(state.mob_grid[55], None);
    assert_eq!(state.mob_grid[56], Some(0));
    assert!(matches!(state.player.unit.movement, UnitMovement::Pushing { .. }));
    assert!(matches!(state.mobs[0].movement, UnitMovement::Moving { elapsed_time: -16_000, .. }));
    assert_eq!((state.mobs[0].tile_x, state.mobs[0].tile_y), (6, 5));
}

#[test]
fn test_start_walking_animation() {
    let next_tile = (6, 5);
    let direction = (1, 0);

    let mut player = Unit {
        pixel_x: 100,
        pixel_y: 100,
        tile_x: next_tile.0 - 1,
        tile_y: next_tile.1,
        x_speed: 10,
        y_speed: 10,
        movement: UnitMovement::Idle,
        direction: Direction::SE,
    };

    start_walking_animation(&mut player, direction, next_tile);

    match &player.movement {
        UnitMovement::Moving { start_x, start_y, target_x, target_y, elapsed_time, duration } => {
            assert_eq!(*start_x, 100);
            assert_eq!(*start_y, 100);

            let (offset_x, offset_y) = get_offset(1, 0, FULL_STEP);
            assert_eq!(*target_x, 100 + offset_x);
            assert_eq!(*target_y, 100 + offset_y);

            assert_eq!(*elapsed_time, 0);
            assert_eq!(*duration, MOVE_DURATION);
        }
        other => panic!("Expected Moving movement, got {:?}", other),
    }

    assert_eq!(player.tile_x, 6);
    assert_eq!(player.tile_y, 5);

    assert_eq!(player.pixel_x, 100);
    assert_eq!(player.pixel_y, 100);
}

fn create_test_map() -> GameMap {
    GameMap {
        size: [5, 5],
        tile_size: 128,
        walk_map: vec![true; 25],
        collidable: vec![false; 25],
        mobs: vec![],
    }
}

fn create_unit_with_movement(movement: UnitMovement) -> Unit {
    Unit {
        pixel_x: 496,
        pixel_y: 664,
        tile_x: 1,
        tile_y: 1,
        x_speed: 10,
        y_speed: 10,
        movement,
        direction: Direction::SW,
    }
}

#[test]
fn test_update_player_animation_pre_pushing() {
    let mut unit = create_unit_with_movement(UnitMovement::PrePushing {
        start_x: 496,
        start_y: 664,
        target_x: 432,
        target_y: 696,
        elapsed_time: 800_000,
        duration: 1_000_000,
        box_idx: 0,
        player_next_tx: 1,
        player_next_ty: 2,
        box_next_tx: 1,
        box_next_ty: 3,
        push_dx: 0,
        push_dy: 1,
    });

    let delta = 300_000;
    let input_state = InputSnapshot { up: false, left: false, down: true, right: false, escape: false };

    let game_map = create_test_map();
    let map_width = game_map.size[0] as usize;
    let mob_grid = vec![None; map_width * game_map.size[1] as usize];

    let result = update_player_animation(&mut unit, delta, &input_state, &mob_grid, &game_map, map_width);

    assert!(result.player_is_busy);

    match result.transition_to_push {
        Some((box_idx, p_tx, p_ty, b_tx, b_ty, dx, dy)) => {
            assert_eq!(box_idx, 0);
            assert_eq!(p_tx, 1);
            assert_eq!(p_ty, 2);
            assert_eq!(b_tx, 1);
            assert_eq!(b_ty, 3);
            assert_eq!(dx, 0);
            assert_eq!(dy, 1);
        }
        None => panic!("Expected transition_to_push after PrePushing"),
    }

    assert_eq!(unit.pixel_x, 432);
    assert_eq!(unit.pixel_y, 696);

    assert!(result.transition_to_post.is_none());
}

#[test]
fn test_update_player_animation_pushing() {
    let mut unit = create_unit_with_movement(UnitMovement::Pushing {
        start_x: 496,
        start_y: 664,
        target_x: 432,
        target_y: 696,
        elapsed_time: 900_000,
        duration: 1_000_000,
        recoil_target_x: 496,
        recoil_target_y: 664,
    });

    let delta = 200_000;
    let input_state = InputSnapshot { up: false, left: false, down: true, right: false, escape: false };

    let game_map = create_test_map();
    let map_width = game_map.size[0] as usize;
    let mut mob_grid = vec![None; map_width * game_map.size[1] as usize];

    let cur_box_idx = 2 * map_width + 1;
    mob_grid[cur_box_idx] = Some(0);

    let result = update_player_animation(&mut unit, delta, &input_state, &mob_grid, &game_map, map_width);

    assert!(result.player_is_busy);

    match result.transition_to_push {
        Some((box_idx, p_tx, p_ty, b_tx, b_ty, dx, dy)) => {
            assert_eq!(box_idx, 0);
            assert_eq!(p_tx, 1);
            assert_eq!(p_ty, 2);
            assert_eq!(b_tx, 1);
            assert_eq!(b_ty, 3);
            assert_eq!(dx, 0);
            assert_eq!(dy, 1);
        }
        None => panic!("Expected transition_to_push if enabled pushing"),
    }

    assert_eq!(unit.pixel_x, 432);
    assert_eq!(unit.pixel_y, 696);

    assert!(result.transition_to_post.is_none());
}

#[test]
fn pushing_without_held_key_recoils() {
    let mut unit = create_unit_with_movement(UnitMovement::Pushing {
        start_x: 496,
        start_y: 664,
        target_x: 432,
        target_y: 696,
        elapsed_time: 900_000,
        duration: 1_000_000,
        recoil_target_x: 480,
        recoil_target_y: 680,
    });
    let game_map = create_test_map();
    let mut mob_grid = vec![None; 25];
    mob_grid[2 * 5 + 1] = Some(0);
    let input_state = InputSnapshot { up: false, left: true, down: false, right: false, escape: false };
    let result = update_player_animation(&mut unit, 200_000, &input_state, &mob_grid, &game_map, 5);
    assert!(result.player_is_busy);
    assert!(result.transition_to_push.is_none());
    assert_eq!(result.transition_to_post, Some((432, 696, 480, 680)));
    assert_eq!((unit.pixel_x, unit.pixel_y), (432, 696));
}

#[test]
fn walking_player_settles_idle() {
    let mut unit = create_unit_with_movement(UnitMovement::Moving {
        start_x: 0,
        start_y: 0,
        target_x: 64,
        target_y: 32,
        elapsed_time: 0,
        duration: 400_000,
    });
    let game_map = create_test_map();
    let mob_grid = vec![None; 25];
    let input_state = InputSnapshot::default();
    let r1 = update_player_animation(&mut unit, 100_000, &input_state, &mob_grid, &game_map, 5);
    assert!(r1.player_is_busy);
    assert_eq!((unit.pixel_x, unit.pixel_y), (16, 8));
    let r2 = update_player_animation(&mut unit, 300_000, &input_state, &mob_grid, &game_map, 5);
    assert!(!r2.player_is_busy);
    assert_eq!((unit.pixel_x, unit.pixel_y), (64, 32));
    assert!(matches!(unit.movement, UnitMovement::Idle));
}

#[test]
fn negative_clock_extrapolates_before_start() {
    let mut mobs = vec![create_test_mob_with_movement(UnitMovement::Moving {
        start_x: 0,
        start_y: 0,
        target_x: 100,
        target_y: -100,
        elapsed_time: -700_000,
        duration: 1_000_000,
    })];
    update_mob_animations(&mut mobs, 200_000);
    assert_eq!((mobs[0].pixel_x, mobs[0].pixel_y), (-50, 50));
    assert!(matches!(mobs[0].movement, UnitMovement::Moving { elapsed_time: -500_000, .. }));

    let mut unit = create_unit_with_movement(UnitMovement::PostPushing {
        start_x: 0,
        start_y: 0,
        target_x: 100,
        target_y: 100,
        elapsed_time: -600_000,
        duration: 1_000_000,
    });
    let game_map = create_test_map();
    let mob_grid = vec![None; 25];
    let r = update_player_animation(&mut unit, 100_000, &InputSnapshot::default(), &mob_grid, &game_map, 5);
    assert!(r.player_is_busy);
    assert_eq!((unit.pixel_x, unit.pixel_y), (-50, -50));
}
