use raycaster::door::Door;
use raycaster::fixed::{HALF, ONE};
use raycaster::lighting::Torch;
use raycaster::map::{
    WorldMap, COBWEB, FRAME_WOODEN_DOOR, METAL_BARS, STAIRS, STAIRS_TOP, TILED_FLOOR, WOODEN_DOOR,
};
use raycaster::player::Player;
use raycaster::ray::{
    grid_index, is_in_grid, wall_code_at, Ray, RayState, MAX_RAY_LENGTH,
};
use raycaster::render::{calculate_ray, Intersection};
use raycaster::screen::Screen;
use raycaster::utilities::vector2::{Rotation, Vector2};
use raycaster::{MainState, Orientation};

const STRAIGHT: Rotation = Rotation { cos: ONE, sin: 0 };

fn state(map_size: (usize, usize), walls: Vec<usize>, doors: Vec<Door>, pos: Vector2) -> MainState {
    let solid: Vec<bool> = walls.iter().map(|w| *w != TILED_FLOOR).collect();
    let floors = vec![0usize; walls.len()];
    let map = WorldMap { walls, floors, solid, doors };
    let player = Player::new(
        pos,
        Vector2::new(ONE, 0),
        Vector2::new(0, 27146),
        100 * ONE,
        0,
        0,
    );
    MainState::new(
        player,
        map_size,
        128 * ONE,
        map,
        vec![STRAIGHT],
        vec![],
        Screen::new(1, 8, 128, 1024),
        vec![],
        vec![],
        Torch::starting(56320, 60000, 0, 0, 60000),
        8 * ONE,
    )
}

/// A room of `w` by `h` cells with a wall of the code 1 all around.
fn room(w: usize, h: usize) -> Vec<usize> {
    let mut walls = vec![TILED_FLOOR; w * h];
    for x in 0..w {
        walls[x] = 1;
        walls[(h - 1) * w + x] = 1;
    }
    for y in 0..h {
        walls[y * w] = 1;
        walls[y * w + w - 1] = 1;
    }
    walls
}

fn middle(x: i64, y: i64) -> Vector2 {
    Vector2::new(x * ONE + HALF, y * ONE + HALF)
}

#[test]
fn ray_along_x_ends_at_the_wall() {
    let ms = state((5, 5), room(5, 5), vec![], middle(2, 2));
    let (hit, seen) = calculate_ray(&ms, Vector2::new(ONE, 0), STRAIGHT);
    assert!(seen.is_empty());
    assert_eq!(
        hit,
        Intersection {
            point: Vector2::new(4 * ONE, 2 * ONE + HALF),
            distance: ONE + HALF,
            map_checkv: 14,
            orientation: Orientation::E,
            wall_type: 1,
            is_transparent: false,
            is_up: false,
        }
    );
}

#[test]
fn ray_against_x_ends_at_the_wall() {
    let ms = state((5, 5), room(5, 5), vec![], middle(2, 2));
    let (hit, _) = calculate_ray(&ms, Vector2::new(-ONE, 0), STRAIGHT);
    assert_eq!(hit.distance, ONE + HALF);
    assert_eq!(hit.map_checkv, 10);
    assert_eq!(hit.orientation, Orientation::W);
    assert_eq!(hit.point, Vector2::new(ONE, 2 * ONE + HALF));
}

#[test]
fn ray_along_and_against_y() {
    let ms = state((5, 5), room(5, 5), vec![], middle(2, 2));
    let (down, _) = calculate_ray(&ms, Vector2::new(0, ONE), STRAIGHT);
    assert_eq!(down.distance, ONE + HALF);
    assert_eq!(down.map_checkv, 22);
    assert_eq!(down.orientation, Orientation::N);
    let (up, _) = calculate_ray(&ms, Vector2::new(0, -ONE), STRAIGHT);
    assert_eq!(up.distance, ONE + HALF);
    assert_eq!(up.map_checkv, 2);
    assert_eq!(up.orientation, Orientation::S);
}

#[test]
fn ray_is_turned_by_theta() {
    let ms = state((5, 5), room(5, 5), vec![], middle(2, 2));
    // a quarter turn takes the direction (1, 0) to (0, 1)
    let quarter = Rotation { cos: 0, sin: ONE };
    let (hit, _) = calculate_ray(&ms, Vector2::new(ONE, 0), quarter);
    assert_eq!(hit.orientation, Orientation::N);
    assert_eq!(hit.map_checkv, 22);
}

#[test]
fn diagonal_ray_ends_in_the_corner() {
    let ms = state((5, 5), room(5, 5), vec![], middle(2, 2));
    let (hit, _) = calculate_ray(&ms, Vector2::new(46341, 46341), STRAIGHT);
    assert_eq!(hit.distance, 139023);
    assert_eq!(hit.map_checkv, 23);
    assert_eq!(hit.orientation, Orientation::N);
    assert_eq!(hit.point, Vector2::new(4 * ONE, 4 * ONE));
    assert_eq!(hit.wall_type, 1);
}

#[test]
fn ray_in_an_open_map_is_given_up() {
    let ms = state((3, 3), vec![TILED_FLOOR; 9], vec![], middle(1, 1));
    let (hit, seen) = calculate_ray(&ms, Vector2::new(ONE, 0), STRAIGHT);
    assert!(seen.is_empty());
    assert_eq!(hit.distance, MAX_RAY_LENGTH);
    assert_eq!(hit.wall_type, TILED_FLOOR);
    assert_eq!(hit.point, Vector2::new(ONE + HALF + 100 * ONE, ONE + HALF));
    assert!(hit.is_up);
}

#[test]
fn ray_with_no_direction_is_given_up() {
    let ms = state((3, 3), vec![TILED_FLOOR; 9], vec![], middle(1, 1));
    let (hit, _) = calculate_ray(&ms, Vector2::new(0, 0), STRAIGHT);
    assert_eq!(hit.distance, MAX_RAY_LENGTH);
    assert_eq!(hit.wall_type, TILED_FLOOR);
    assert_eq!(hit.point, middle(1, 1));
}

#[test]
fn wall_beyond_the_cutoff_is_not_met() {
    let mut walls = vec![TILED_FLOOR; 120];
    walls[110] = 1;
    let ms = state((120, 1), walls.clone(), vec![], Vector2::new(HALF, HALF));
    let (hit, _) = calculate_ray(&ms, Vector2::new(ONE, 0), STRAIGHT);
    assert_eq!(hit.distance, MAX_RAY_LENGTH);
    assert_eq!(hit.wall_type, TILED_FLOOR);
    walls[100] = 1;
    let ms = state((120, 1), walls, vec![], Vector2::new(HALF, HALF));
    let (hit, _) = calculate_ray(&ms, Vector2::new(ONE, 0), STRAIGHT);
    assert_eq!(hit.distance, 99 * ONE + HALF);
    assert_eq!(hit.wall_type, 1);
    assert_eq!(hit.map_checkv, 100);
}

fn corridor_with_door(offset: i64) -> MainState {
    // one row: wall, floor, door, floor, wall
    let walls = vec![1, TILED_FLOOR, WOODEN_DOOR, TILED_FLOOR, 1];
    let doors = vec![Door::new(offset, false, 0, 2)];
    state((5, 1), walls, doors, Vector2::new(ONE + HALF, HALF))
}

#[test]
fn closed_door_ends_the_ray_in_the_middle_of_its_cell() {
    let ms = corridor_with_door(ONE);
    let (hit, seen) = calculate_ray(&ms, Vector2::new(ONE, 0), STRAIGHT);
    assert!(seen.is_empty());
    assert_eq!(hit.wall_type, WOODEN_DOOR);
    assert_eq!(hit.distance, ONE);
    assert_eq!(hit.map_checkv, 2);
    assert_eq!(hit.point, Vector2::new(2 * ONE + HALF, HALF));
    assert_eq!(hit.orientation, Orientation::E);
}

#[test]
fn open_door_lets_the_ray_pass_to_the_wall_behind() {
    let ms = corridor_with_door(0);
    let (hit, seen) = calculate_ray(&ms, Vector2::new(ONE, 0), STRAIGHT);
    assert!(seen.is_empty());
    assert_eq!(hit.distance, 2 * ONE + HALF);
    assert_eq!(hit.map_checkv, 4);
    assert_eq!(hit.wall_type, 1);
}

#[test]
fn half_open_door_is_hit_beside_the_gap_and_passed_within_it() {
    // the leaf covers half of the doorway: a quarter from either side
    let ms = corridor_with_door(HALF);
    let (hit, _) = calculate_ray(&ms, Vector2::new(ONE, 0), STRAIGHT);
    // the ray crosses the door's plane at y = 0.5, in the gap
    assert_eq!(hit.map_checkv, 4);
    let mut low = corridor_with_door(HALF);
    low.player.pos = Vector2::new(ONE + HALF, ONE / 8);
    let (hit, _) = calculate_ray(&low, Vector2::new(ONE, 0), STRAIGHT);
    assert_eq!(hit.map_checkv, 2);
    assert_eq!(hit.wall_type, WOODEN_DOOR);
    // at the very edge of the gap the ray passes
    let mut edge = corridor_with_door(HALF);
    edge.player.pos = Vector2::new(ONE + HALF, ONE / 4);
    let (hit, _) = calculate_ray(&edge, Vector2::new(ONE, 0), STRAIGHT);
    assert_eq!(hit.map_checkv, 4);
    let mut below = corridor_with_door(HALF);
    below.player.pos = Vector2::new(ONE + HALF, ONE / 4 - 1);
    let (hit, _) = calculate_ray(&below, Vector2::new(ONE, 0), STRAIGHT);
    assert_eq!(hit.map_checkv, 2);
}

#[test]
fn a_door_cell_without_a_door_counts_as_closed() {
    let walls = vec![1, TILED_FLOOR, WOODEN_DOOR, TILED_FLOOR, 1];
    let ms = state((5, 1), walls, vec![], Vector2::new(ONE + HALF, HALF));
    let (hit, _) = calculate_ray(&ms, Vector2::new(ONE, 0), STRAIGHT);
    assert_eq!(hit.map_checkv, 2);
    assert_eq!(hit.wall_type, WOODEN_DOOR);
    assert_eq!(hit.distance, ONE);
}

#[test]
fn wall_right_behind_an_open_door_shows_a_jamb() {
    let walls = vec![1, TILED_FLOOR, WOODEN_DOOR, 3, 1];
    let doors = vec![Door::new(0, false, 0, 2)];
    let ms = state((5, 1), walls, doors, Vector2::new(ONE + HALF, HALF));
    let (hit, _) = calculate_ray(&ms, Vector2::new(ONE, 0), STRAIGHT);
    assert_eq!(hit.map_checkv, 3);
    assert_eq!(hit.wall_type, FRAME_WOODEN_DOOR);
    assert_eq!(hit.distance, ONE + HALF);
}

#[test]
fn wall_seen_from_a_doors_cell_shows_a_jamb() {
    // the player stands in the cell of an open door and looks at the wall
    // beside it
    let walls = vec![1, WOODEN_DOOR, 2, 1];
    let doors = vec![Door::new(0, false, 0, 1)];
    let ms = state((4, 1), walls, doors, Vector2::new(ONE + HALF, HALF));
    let (hit, _) = calculate_ray(&ms, Vector2::new(ONE, 0), STRAIGHT);
    assert_eq!(hit.map_checkv, 2);
    assert_eq!(hit.wall_type, FRAME_WOODEN_DOOR);
}

#[test]
fn door_met_from_the_side_ends_the_ray_at_the_jamb() {
    // 3 by 3, a door in the middle; the ray enters the door's cell from
    // below and leaves it by the side before it reaches the middle
    let mut walls = vec![TILED_FLOOR; 9];
    walls[4] = WOODEN_DOOR;
    let doors = vec![Door::new(0, false, 0, 4)];
    let ms = state((3, 3), walls, doors, Vector2::new(124518, 62259));
    let (hit, _) = calculate_ray(&ms, Vector2::new(39322, 52429), STRAIGHT);
    assert_eq!(hit.wall_type, FRAME_WOODEN_DOOR);
    assert_eq!(hit.orientation, Orientation::E);
    assert_eq!(hit.map_checkv, 5);
}

#[test]
fn cobweb_is_seen_and_seen_through() {
    let walls = vec![1, TILED_FLOOR, COBWEB, TILED_FLOOR, 1];
    let ms = state((5, 1), walls, vec![], Vector2::new(ONE + HALF, HALF));
    let (hit, seen) = calculate_ray(&ms, Vector2::new(ONE, 0), STRAIGHT);
    assert_eq!(hit.map_checkv, 4);
    assert_eq!(hit.distance, 2 * ONE + HALF);
    assert_eq!(
        seen,
        vec![Intersection {
            point: Vector2::new(2 * ONE + HALF, HALF),
            distance: ONE,
            map_checkv: 2,
            orientation: Orientation::E,
            wall_type: COBWEB,
            is_transparent: true,
            is_up: false,
        }]
    );
}

#[test]
fn two_lattices_are_seen_in_the_order_of_the_ray() {
    let walls = vec![1, TILED_FLOOR, METAL_BARS, COBWEB, 1];
    let ms = state((5, 1), walls, vec![], Vector2::new(ONE + HALF, HALF));
    let (hit, seen) = calculate_ray(&ms, Vector2::new(ONE, 0), STRAIGHT);
    assert_eq!(hit.map_checkv, 4);
    assert_eq!(seen.len(), 2);
    assert_eq!(seen[0].wall_type, METAL_BARS);
    assert_eq!(seen[0].distance, ONE);
    assert_eq!(seen[1].wall_type, COBWEB);
    assert_eq!(seen[1].distance, 2 * ONE);
}

#[test]
fn stairs_are_seen_at_the_boundary_of_their_cell() {
    let walls = vec![1, TILED_FLOOR, STAIRS, STAIRS_TOP, 1];
    let ms = state((5, 1), walls, vec![], Vector2::new(ONE + HALF, HALF));
    let (hit, seen) = calculate_ray(&ms, Vector2::new(ONE, 0), STRAIGHT);
    assert_eq!(hit.map_checkv, 4);
    assert_eq!(
        seen,
        vec![Intersection {
            point: Vector2::new(2 * ONE, HALF),
            distance: HALF,
            map_checkv: 2,
            orientation: Orientation::E,
            wall_type: STAIRS,
            is_transparent: false,
            is_up: false,
        }]
    );
}

#[test]
fn a_player_on_stairs_sees_the_first_riser_first() {
    let walls = vec![1, STAIRS, TILED_FLOOR, 1];
    let mut ms = state((4, 1), walls, vec![], Vector2::new(ONE + HALF, HALF));
    ms.player.current_wall = STAIRS;
    let (hit, seen) = calculate_ray(&ms, Vector2::new(ONE, 0), STRAIGHT);
    assert_eq!(hit.map_checkv, 3);
    assert_eq!(
        seen,
        vec![Intersection {
            point: Vector2::new(ONE, HALF),
            distance: -HALF,
            map_checkv: 1,
            orientation: Orientation::E,
            wall_type: STAIRS,
            is_transparent: false,
            is_up: false,
        }]
    );
    // also where the ray leaves the grid at once
    let mut out = state((1, 1), vec![STAIRS], vec![], Vector2::new(HALF, HALF));
    out.player.current_wall = STAIRS;
    let (hit, seen) = calculate_ray(&out, Vector2::new(ONE, 0), STRAIGHT);
    assert_eq!(hit.distance, MAX_RAY_LENGTH);
    assert_eq!(seen.len(), 1);
    assert_eq!(seen[0].distance, -HALF);
}

#[test]
fn what_is_met_beyond_x_32_stands_on_the_upper_level() {
    let mut walls = vec![TILED_FLOOR; 40];
    walls[35] = 1;
    let ms = state((40, 1), walls, vec![], Vector2::new(30 * ONE + HALF, HALF));
    let (hit, _) = calculate_ray(&ms, Vector2::new(ONE, 0), STRAIGHT);
    assert_eq!(hit.map_checkv, 35);
    assert!(hit.is_up);
    let (back, _) = calculate_ray(&ms, Vector2::new(-ONE, 0), STRAIGHT);
    assert!(!back.is_up);
}

#[test]
fn lengths_never_fall_along_a_ray() {
    let ms = state((9, 9), room(9, 9), vec![], middle(4, 4));
    for dir in [
        Vector2::new(60000, 26000),
        Vector2::new(-30000, 58000),
        Vector2::new(-46341, -46341),
        Vector2::new(12000, -64000),
    ] {
        let ray = Ray::new(ms.player.pos, dir);
        let mut s = ray.begin();
        let mut steps = 0;
        while !s.found && s.distance < MAX_RAY_LENGTH {
            let (next, _) = ray.step(&ms.map, ms.map_size, s);
            assert!(next.lengths.x >= s.lengths.x);
            assert!(next.lengths.y >= s.lengths.y);
            assert!(next.distance >= s.distance);
            assert!(next.distance <= next.lengths.x.min(next.lengths.y));
            s = next;
            steps += 1;
            assert!(steps < 1000);
        }
        assert!(s.found);
        assert!(s.distance < MAX_RAY_LENGTH);
    }
}

#[test]
fn cast_agrees_with_stepping() {
    let ms = state((9, 9), room(9, 9), vec![], middle(4, 4));
    let ray = Ray::new(ms.player.pos, Vector2::new(60000, 26000));
    let (last, seen) = ray.cast(&ms.map, ms.map_size);
    let mut s: RayState = ray.begin();
    while !s.found && s.distance < MAX_RAY_LENGTH {
        s = ray.step(&ms.map, ms.map_size, s).0;
    }
    assert_eq!(last, s);
    assert!(seen.is_empty());
}

#[test]
fn ray_setup_measures_the_way_to_the_first_boundaries() {
    let ray = Ray::new(Vector2::new(2 * ONE + ONE / 4, 3 * ONE + HALF), Vector2::new(-ONE, 0));
    assert_eq!(ray.unit, Vector2::new(ONE, 777_472_127_994));
    assert_eq!(ray.step, Vector2::new(-ONE, ONE));
    let s = ray.begin();
    assert_eq!(s.cell, Vector2::new(2 * ONE, 3 * ONE));
    assert_eq!(s.lengths, Vector2::new(ONE / 4, 388_736_063_997));
    assert_eq!(s.distance, 0);
    assert!(!s.found);
    assert_eq!(ray.point(2 * ONE), Vector2::new(ONE / 4, 3 * ONE + HALF));
}

#[test]
fn grid_lookups_stay_within_the_map() {
    let map = WorldMap { walls: vec![1, 2, 3, 4], floors: vec![], solid: vec![], doors: vec![] };
    assert_eq!(grid_index((2, 2), Vector2::new(ONE, ONE)), 3);
    assert_eq!(grid_index((2, 2), Vector2::new(-ONE, ONE)), 2);
    assert_eq!(grid_index((usize::MAX, 2), Vector2::new(0, 5 * ONE)), usize::MAX);
    assert!(is_in_grid((2, 2), Vector2::new(ONE, ONE)));
    assert!(!is_in_grid((2, 2), Vector2::new(2 * ONE, ONE)));
    assert!(!is_in_grid((2, 2), Vector2::new(ONE, -1)));
    assert_eq!(wall_code_at(&map, (2, 2), Vector2::new(ONE, ONE)), 4);
    assert_eq!(wall_code_at(&map, (2, 2), Vector2::new(ONE, 2 * ONE)), TILED_FLOOR);
}
