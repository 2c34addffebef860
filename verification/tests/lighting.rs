use raycaster::lighting::calculate_lighting;

fn open_map(width: usize, height: usize) -> Vec<bool> {
    vec![false; width * height]
}

#[test]
fn empty_map_gives_no_levels() {
    assert_eq!(calculate_lighting(vec![], &[], (0, 0)), Vec::<u8>::new());
    assert_eq!(calculate_lighting(vec![], &[], (0, 5)), Vec::<u8>::new());
}

#[test]
fn no_torch_gives_darkness() {
    let map = open_map(3, 2);
    assert_eq!(calculate_lighting(vec![], &map, (3, 2)), vec![0u8; 12]);
}

#[test]
fn light_drops_by_one_per_step() {
    let map = open_map(5, 1);
    let levels = calculate_lighting(vec![0], &map, (5, 1));
    assert_eq!(levels, vec![15, 14, 13, 12, 11, 14, 13, 12, 11, 10]);
}

#[test]
fn light_stops_at_zero() {
    let map = open_map(20, 1);
    let levels = calculate_lighting(vec![0], &map, (20, 1));
    let lower: Vec<u8> = vec![15, 14, 13, 12, 11, 10, 9, 8, 7, 6, 5, 4, 3, 2, 1, 0, 0, 0, 0, 0];
    let upper: Vec<u8> = vec![14, 13, 12, 11, 10, 9, 8, 7, 6, 5, 4, 3, 2, 1, 0, 0, 0, 0, 0, 0];
    assert_eq!(&levels[..20], &lower[..]);
    assert_eq!(&levels[20..], &upper[..]);
}

#[test]
fn solid_cells_stay_dark_and_block() {
    // one row: torch, open, solid, open, open
    let map = vec![false, false, true, false, false];
    let levels = calculate_lighting(vec![0], &map, (5, 1));
    assert_eq!(levels, vec![15, 14, 0, 0, 0, 14, 13, 0, 0, 0]);
}

#[test]
fn a_torch_in_a_solid_cell_still_shines() {
    let map = vec![true, false, false];
    let levels = calculate_lighting(vec![0], &map, (3, 1));
    assert_eq!(levels, vec![15, 14, 13, 0, 13, 12]);
}

#[test]
fn two_torches_take_the_brighter() {
    let map = open_map(7, 1);
    let levels = calculate_lighting(vec![0, 6], &map, (7, 1));
    assert_eq!(&levels[..7], &[15, 14, 13, 12, 13, 14, 15]);
}

#[test]
fn a_torch_named_twice_counts_once() {
    let map = open_map(3, 1);
    let levels = calculate_lighting(vec![1, 1], &map, (3, 1));
    assert_eq!(levels, vec![14, 15, 14, 13, 14, 13]);
}

#[test]
fn light_goes_round_a_wall() {
    // 3 by 3, the middle column solid but for its last row
    let map = vec![
        false, true, false, //
        false, true, false, //
        false, false, false,
    ];
    let levels = calculate_lighting(vec![0], &map, (3, 3));
    assert_eq!(&levels[..9], &[15, 0, 9, 14, 0, 10, 13, 12, 11]);
}

#[test]
fn rows_do_not_wrap() {
    // the last cell of a row is not next to the first cell of the row below
    let map = vec![
        false, false, true, //
        true, true, true,
    ];
    let levels = calculate_lighting(vec![1], &map, (3, 2));
    assert_eq!(&levels[..6], &[14, 15, 0, 0, 0, 0]);
}

#[test]
fn a_torch_on_the_upper_floor() {
    let map = open_map(2, 1);
    let levels = calculate_lighting(vec![3], &map, (2, 1));
    assert_eq!(levels, vec![13, 14, 14, 15]);
}

#[test]
fn a_room_with_a_central_torch() {
    // 3 by 3 with a solid border and one open cell
    let mut map = vec![true; 9];
    map[4] = false;
    let levels = calculate_lighting(vec![4], &map, (3, 3));
    let mut expected = vec![0u8; 18];
    expected[4] = 15;
    expected[13] = 14;
    assert_eq!(levels, expected);
}
