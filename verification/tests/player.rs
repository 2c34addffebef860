use raycaster::fixed::{HALF, ONE};
use raycaster::map::{WorldMap, TILED_FLOOR};
use raycaster::player::{
    allow_step, half_second, sign, turn_degrees, Input, Player, CROUCH_MIN, PITCH_MAX, PITCH_MIN,
    STANDING_HEIGHT,
};
use raycaster::utilities::vector2::{Rotation, Vector2};

const STRAIGHT: Rotation = Rotation { cos: ONE, sin: 0 };

fn still() -> Input {
    Input {
        mouse: Vector2::new(0, 0),
        turn: STRAIGHT,
        forward: false,
        back: false,
        left: false,
        right: false,
        open: false,
        crouch: false,
        lift: false,
        lower: false,
    }
}

fn player_at(x: i64, y: i64) -> Player {
    Player::new(Vector2::new(x, y), Vector2::new(ONE, 0), Vector2::new(0, 27146), 100 * ONE, 0, 0)
}

/// An open map of 5 by 5 cells with a wall around it.
fn room() -> WorldMap {
    let mut solid = vec![false; 25];
    let mut walls = vec![TILED_FLOOR; 25];
    for i in 0..5 {
        for at in [i, 20 + i, 5 * i, 5 * i + 4] {
            solid[at] = true;
            walls[at] = 1;
        }
    }
    WorldMap { walls, floors: vec![0; 25], solid, doors: vec![] }
}

#[test]
fn a_new_player_stands_and_rests() {
    let p = player_at(ONE, 2 * ONE);
    assert_eq!(p.pos, Vector2::new(ONE, 2 * ONE));
    assert_eq!(p.dir_norm, Vector2::new(ONE, 0));
    assert_eq!(p.plane, Vector2::new(0, 27146));
    assert_eq!(p.planedist, 100 * ONE);
    assert_eq!(p.height, STANDING_HEIGHT);
    assert_eq!(p.height, 150 * ONE);
    assert_eq!(p.current_wall, TILED_FLOOR);
    assert!(!p.walking);
}

#[test]
fn update_sets_the_eyes_to_their_height() {
    let mut p = player_at(0, 0);
    p.jump = 5;
    p.update(12, &[ONE, ONE], ONE / 4);
    assert_eq!(p.current_wall, 12);
    assert_eq!(p.jump, 150 * ONE);
}

#[test]
fn a_walking_player_bobs_with_the_wave() {
    let wave: Vec<i64> = (0..150).map(|i| i * 100).collect();
    let mut p = player_at(0, 0);
    p.walking = true;
    // a quarter of a second: the sample 75 of the 150
    p.update(0, &wave, ONE / 4);
    assert_eq!(p.jump, 150 * ONE + 7500 * 35);
    // half a second later the wave has gone round once
    p.update(0, &wave, ONE / 4 + HALF);
    assert_eq!(p.jump, 150 * ONE + 7500 * 35);
    p.update(0, &wave, HALF - 1);
    assert_eq!(p.jump, 150 * ONE + 14900 * 35);
    p.update(0, &wave, 0);
    assert_eq!(p.jump, 150 * ONE);
    // a wave that is too short is left aside
    p.update(0, &wave[..10], ONE / 4);
    assert_eq!(p.jump, 150 * ONE);
    p.update(0, &[], ONE / 4);
    assert_eq!(p.jump, 150 * ONE);
}

#[test]
fn half_second_wraps_the_time() {
    assert_eq!(half_second(0), 0);
    assert_eq!(half_second(HALF - 1), HALF - 1);
    assert_eq!(half_second(HALF), 0);
    assert_eq!(half_second(3 * ONE + 5), 5);
    assert_eq!(half_second(-1), HALF - 1);
    assert_eq!(half_second(-HALF), 0);
    assert_eq!(half_second(i64::MIN), 0);
    assert_eq!(half_second(i64::MAX), HALF - 1);
}

#[test]
fn signs_and_turns() {
    assert_eq!(sign(5), ONE);
    assert_eq!(sign(0), ONE);
    assert_eq!(sign(-1), -ONE);
    assert_eq!(turn_degrees(0), 0);
    // the mouse rests at 240: ten to the right of it turn by 0.85 degrees
    assert_eq!(turn_degrees(250 * ONE), 55710);
    assert_eq!(turn_degrees(240 * ONE), 0);
    assert_eq!(turn_degrees(ONE), -1331469);
}

#[test]
fn walking_forward_and_back() {
    let map = room();
    let mut p = player_at(2 * ONE + HALF, 2 * ONE + HALF);
    // a tenth of a second at 2.5 cells a second
    p.handle_input(&map, (5, 5), &Input { forward: true, ..still() }, 6554);
    assert_eq!(p.pos, Vector2::new(2 * ONE + HALF + 16385, 2 * ONE + HALF));
    assert!(p.walking);
    p.handle_input(&map, (5, 5), &Input { back: true, ..still() }, 6554);
    assert_eq!(p.pos, Vector2::new(2 * ONE + HALF, 2 * ONE + HALF));
    p.handle_input(&map, (5, 5), &still(), 6554);
    assert!(!p.walking);
    assert_eq!(p.pos, Vector2::new(2 * ONE + HALF, 2 * ONE + HALF));
}

#[test]
fn a_wall_stops_the_player() {
    let map = room();
    // 0.3 before the wall at x = 4: within the margin of 0.3125
    let mut p = player_at(4 * ONE - 19661, 2 * ONE + HALF);
    p.handle_input(&map, (5, 5), &Input { forward: true, ..still() }, 6554);
    assert_eq!(p.pos, Vector2::new(4 * ONE - 19661, 2 * ONE + HALF));
    assert!(p.walking);
    // a little farther away the step is taken
    let mut p = player_at(4 * ONE - 20481, 2 * ONE + HALF);
    p.handle_input(&map, (5, 5), &Input { forward: true, ..still() }, 6554);
    assert_eq!(p.pos.x, 4 * ONE - 20481 + 16385);
}

#[test]
fn a_wall_stops_only_the_part_of_the_step_towards_it() {
    let map = room();
    let mut p = player_at(4 * ONE - 19661, 2 * ONE + HALF);
    p.dir_norm = Vector2::new(46341, 46341);
    p.handle_input(&map, (5, 5), &Input { forward: true, ..still() }, 6554);
    // the step is (11585, 11585): its part along x is lost
    assert_eq!(p.pos, Vector2::new(4 * ONE - 19661, 2 * ONE + HALF + 11585));
}

#[test]
fn steps_to_the_sides() {
    let map = room();
    let mut p = player_at(2 * ONE + HALF, 2 * ONE + HALF);
    p.handle_input(&map, (5, 5), &Input { left: true, ..still() }, 6554);
    assert_eq!(p.pos, Vector2::new(2 * ONE + HALF, 2 * ONE + HALF - 16385));
    p.handle_input(&map, (5, 5), &Input { right: true, ..still() }, 6554);
    assert_eq!(p.pos, Vector2::new(2 * ONE + HALF, 2 * ONE + HALF));
    // both at once cancel
    p.handle_input(&map, (5, 5), &Input { left: true, right: true, ..still() }, 6554);
    assert_eq!(p.pos, Vector2::new(2 * ONE + HALF, 2 * ONE + HALF));
}

#[test]
fn a_step_forward_and_aside_is_one_step_long() {
    let map = room();
    let mut p = player_at(2 * ONE + HALF, 2 * ONE + HALF);
    p.handle_input(&map, (5, 5), &Input { forward: true, right: true, ..still() }, 6554);
    // forward by 16385, then back by it and on by the half root of two of
    // (16385, 16385)
    assert_eq!(p.pos, Vector2::new(2 * ONE + HALF + 11585, 2 * ONE + HALF + 11585));
    let mut p = player_at(2 * ONE + HALF, 2 * ONE + HALF);
    p.handle_input(&map, (5, 5), &Input { back: true, left: true, ..still() }, 6554);
    assert_eq!(p.pos, Vector2::new(2 * ONE + HALF - 11586, 2 * ONE + HALF - 11586));
}

#[test]
fn the_view_turns_and_the_horizon_follows_the_mouse() {
    let map = room();
    let mut p = player_at(2 * ONE + HALF, 2 * ONE + HALF);
    let quarter = Rotation { cos: 0, sin: ONE };
    p.handle_input(&map, (5, 5), &Input { turn: quarter, ..still() }, 0);
    assert_eq!(p.dir_norm, Vector2::new(0, ONE));
    assert_eq!(p.plane, Vector2::new(-27146, 0));
    // the mouse fifteen below its rest: the horizon rises by 0.75 of fifteen
    p.handle_input(&map, (5, 5), &Input { mouse: Vector2::new(0, 120 * ONE), ..still() }, 0);
    assert_eq!(p.pitch, 737280);
    p.handle_input(&map, (5, 5), &Input { mouse: Vector2::new(0, 135 * ONE), ..still() }, 0);
    assert_eq!(p.pitch, 737280);
    p.handle_input(&map, (5, 5), &Input { mouse: Vector2::new(0, 0), ..still() }, 0);
    assert_eq!(p.pitch, 737280);
}

#[test]
fn the_horizon_stays_within_its_bounds() {
    let map = room();
    let mut p = player_at(2 * ONE + HALF, 2 * ONE + HALF);
    p.handle_input(&map, (5, 5), &Input { mouse: Vector2::new(0, -9000 * ONE), ..still() }, 0);
    assert_eq!(p.pitch, PITCH_MAX);
    assert_eq!(p.pitch, 400 * ONE);
    p.handle_input(&map, (5, 5), &Input { mouse: Vector2::new(0, 9000 * ONE), ..still() }, 0);
    assert_eq!(p.pitch, PITCH_MIN);
    p.pitch = i64::MAX;
    p.handle_input(&map, (5, 5), &still(), 0);
    assert_eq!(p.pitch, PITCH_MAX);
}

#[test]
fn crouching_and_lifting() {
    let map = room();
    let mut p = player_at(2 * ONE + HALF, 2 * ONE + HALF);
    p.handle_input(&map, (5, 5), &Input { crouch: true, ..still() }, 0);
    assert_eq!(p.height, 120 * ONE);
    for _ in 0..30 {
        p.handle_input(&map, (5, 5), &Input { crouch: true, ..still() }, 0);
    }
    assert_eq!(p.height, CROUCH_MIN);
    p.handle_input(&map, (5, 5), &still(), 0);
    assert_eq!(p.height, -270 * ONE);
    for _ in 0..30 {
        p.handle_input(&map, (5, 5), &still(), 0);
    }
    assert_eq!(p.height, STANDING_HEIGHT);
    p.handle_input(&map, (5, 5), &Input { lift: true, ..still() }, 0);
    assert_eq!(p.jump, 10 * ONE);
    p.handle_input(&map, (5, 5), &Input { lower: true, ..still() }, 0);
    assert_eq!(p.jump, 0);
    p.handle_input(&map, (5, 5), &Input { lift: true, lower: true, ..still() }, 0);
    assert_eq!(p.jump, 0);
}

#[test]
fn steps_are_allowed_by_the_cells_ahead() {
    let map = room();
    let pos = Vector2::new(ONE + 100, ONE + 100);
    let step = Vector2::new(7, 9);
    assert_eq!(allow_step(&map, (5, 5), pos, step, ONE, ONE), Vector2::new(7, 9));
    assert_eq!(allow_step(&map, (5, 5), pos, step, -ONE, ONE), Vector2::new(0, 9));
    assert_eq!(allow_step(&map, (5, 5), pos, step, ONE, -ONE), Vector2::new(7, 0));
    assert_eq!(allow_step(&map, (5, 5), pos, step, -ONE, -ONE), Vector2::new(0, 0));
    // beyond the map everything is solid
    let out = Vector2::new(50 * ONE, 50 * ONE);
    assert_eq!(allow_step(&map, (5, 5), out, step, ONE, ONE), Vector2::new(0, 0));
}

#[test]
fn the_cell_within_reach_lies_before_the_player() {
    let p = player_at(2 * ONE + HALF, 2 * ONE + HALF);
    assert_eq!(p.reach((5, 5)), 14);
    let mut q = player_at(ONE + HALF, ONE + HALF);
    q.dir_norm = Vector2::new(0, ONE);
    assert_eq!(q.reach((5, 5)), 16);
}
