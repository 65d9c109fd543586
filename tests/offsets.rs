use ferari::behaviour::{get_dir_delta, get_offset, FULL_STEP, PUSH_OFFSET, TILE_SIZE};
use ferari::world::Direction;

#[test]
fn test_get_offset_southeast() {
    let (offset_x, offset_y) = get_offset(1, 0, FULL_STEP);

    let tile_w = TILE_SIZE;
    let tile_h = TILE_SIZE / 2;
    let expected_x = tile_w / 2;
    let expected_y = tile_h / 2;

    assert_eq!(offset_x, expected_x);
    assert_eq!(offset_y, expected_y);
}

#[test]
fn test_get_offset_northwest() {
    let (offset_x, offset_y) = get_offset(-1, 0, FULL_STEP);

    let tile_w = TILE_SIZE;
    let tile_h = TILE_SIZE / 2;
    let expected_x = -tile_w / 2;
    let expected_y = -tile_h / 2;

    assert_eq!(offset_x, expected_x);
    assert_eq!(offset_y, expected_y);
}

#[test]
fn offsets_of_the_other_axis_and_lean() {
    assert_eq!(get_offset(0, -1, FULL_STEP), (64, -32));
    assert_eq!(get_offset(0, 1, FULL_STEP), (-64, 32));
    assert_eq!(get_offset(1, 0, PUSH_OFFSET), (16, 8));
    assert_eq!(get_offset(1, 1, FULL_STEP), (0, 0));
    assert_eq!(get_offset(1, 0, 500), (32, 16));
}

#[test]
fn test_get_dir_delta_ne() {
    assert_eq!(get_dir_delta(Direction::NE), (0, -1));
}

#[test]
fn test_get_dir_delta_sw() {
    assert_eq!(get_dir_delta(Direction::SW), (0, 1));
}

#[test]
fn test_get_dir_delta_all_directions() {
    let test_cases = vec![
        (Direction::SE, (1, 0)),
        (Direction::NW, (-1, 0)),
        (Direction::NE, (0, -1)),
        (Direction::SW, (0, 1)),
    ];

    for (direction, expected) in test_cases {
        assert_eq!(get_dir_delta(direction), expected);
    }
}
