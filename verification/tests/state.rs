use raycaster::door::{Door, DoorState};
use raycaster::fixed::{HALF, ONE};
use raycaster::lighting::{calculate_lighting, Torch, TorchState};
use raycaster::map::{WorldMap, FRAME_WOODEN_DOOR, STAIRS, TILED_FLOOR, WOODEN_DOOR};
use raycaster::player::{Input, Player};
use raycaster::ray::MAX_RAY_LENGTH;
use raycaster::render::calculate_ray;
use raycaster::screen::Screen;
use raycaster::sprite::{Sprite, SpriteType};
use raycaster::utilities::vector2::{Rotation, Vector2};
use raycaster::{MainState, Orientation, RAYSPERPIXEL, RAYS_PER_PIXEL};

const STRAIGHT: Rotation = Rotation { cos: ONE, sin: 0 };

fn still() -> Input {
    Input {
        mouse: Vector2::new(0, 0),
        turn: STRAIGHT,
        forward: false,
        back: false,
        left: false,
        right: false,
        open: false,
        crouch: false,
        lift: false,
        lower: false,
    }
}

/// A map of 3 by `rows` cells: walls all around the one open cell in the
/// middle of the first three rows, with a door in the wall below it, and a
/// torch in the open cell. The player stands in the open cell and looks at
/// the door.
fn cell_with_a_door(rows: usize) -> MainState {
    let mut walls = vec![1usize; 3 * rows];
    walls[4] = TILED_FLOOR;
    walls[7] = WOODEN_DOOR;
    let solid: Vec<bool> = walls.iter().map(|w| *w != TILED_FLOOR).collect();
    let map = WorldMap {
        walls,
        floors: vec![0; 3 * rows],
        solid,
        doors: vec![Door::new(ONE, false, 0, 7)],
    };
    let player = Player::new(
        Vector2::new(ONE + HALF, ONE + HALF),
        Vector2::new(0, ONE),
        Vector2::new(-27146, 0),
        100 * ONE,
        0,
        0,
    );
    MainState::new(
        player,
        (3, rows),
        128 * ONE,
        map,
        vec![STRAIGHT],
        vec![0, ONE, 0, -ONE],
        Screen::new(1, 16, 128, 1024),
        vec![Sprite::new(SpriteType::Torch, Vector2::new(ONE + HALF, ONE + HALF), 0)],
        vec![4],
        Torch::starting(56320, 60000, 0, 0, 58000),
        16 * ONE,
    )
}

#[test]
fn a_new_state_holds_its_parts_and_the_light() {
    let ms = cell_with_a_door(3);
    assert_eq!(ms.map_size, (3, 3));
    assert_eq!(ms.cell_size, 128 * ONE);
    assert_eq!(ms.angles, vec![STRAIGHT]);
    assert_eq!(ms.buffer_walking, vec![0, ONE, 0, -ONE]);
    assert_eq!(ms.sprites.len(), 1);
    assert_eq!(ms.torch.intensity, 58000);
    assert_eq!(ms.player.pos, Vector2::new(ONE + HALF, ONE + HALF));
    // for each of the 16 rows, twice its place below the horizon
    let offsets: Vec<i64> = (0..16).map(|y| (2 * y - 16) * ONE).collect();
    assert_eq!(ms.buffer_floors, offsets);
    // the torch lights its cell and the cell above it
    let mut lighting = vec![907i64; 18];
    lighting[4] = ONE;
    lighting[13] = 49267;
    assert_eq!(ms.lighting_1.lighting, lighting);
    assert_eq!(ms.lighting_1.vertices.len(), 72);
    assert_eq!(ms.lighting_1.vertices[16].lighting, (ONE + 3 * 907) / 4);
    assert_eq!(RAYSPERPIXEL, 2);
    assert_eq!(RAYS_PER_PIXEL, 2 * ONE);
}

#[test]
fn update_moves_the_player_the_sprites_the_doors_and_the_torch() {
    let mut ms = cell_with_a_door(3);
    ms.player.walking = true;
    ms.player.jump = 77;
    ms.map.doors.push(Door::new(HALF, true, 0, 3));
    ms.update(ONE / 600, ONE / 10);
    // a fiftieth of the wave: the sample 0 of its four
    assert_eq!(ms.player.jump, 150 * ONE);
    assert_eq!(ms.player.current_wall, TILED_FLOOR);
    assert_eq!(ms.player.height, 150 * ONE);
    assert_eq!(ms.sprites[0].time, ONE / 600);
    assert_eq!(ms.sprites[0].pos, Vector2::new(ONE + HALF, ONE + HALF));
    // the door that is opening has moved by a twentieth, the other has not
    assert_eq!(ms.map.doors, vec![Door::new(ONE, false, 0, 7), Door::new(HALF - 3276, true, 0, 3)]);
    assert!(ms.map.solid[3]);
    assert_eq!(ms.torch.state, TorchState::Rising);
    assert_eq!(ms.torch.intensity, 58328);
    // a sample of the wave that is not zero
    ms.update(300, 0);
    assert_eq!(ms.player.jump, 150 * ONE + 35 * ONE);
}

#[test]
fn on_stairs_the_eyes_follow_the_steps() {
    let mut ms = cell_with_a_door(3);
    ms.map.walls[4] = STAIRS;
    ms.player.pos = Vector2::new(ONE + ONE / 4, ONE + HALF);
    ms.update(0, 0);
    assert_eq!(ms.player.current_wall, STAIRS);
    // the eyes are at their height of the frame before; from the next frame
    // on at a quarter of the height of the screen's distance
    assert_eq!(ms.player.jump, 150 * ONE);
    assert_eq!(ms.player.height, 25 * ONE);
    ms.update(0, 0);
    assert_eq!(ms.player.jump, 25 * ONE);
}

#[test]
fn prepare_frame_places_the_rows_and_the_sprites() {
    let mut ms = cell_with_a_door(3);
    ms.player.pitch = 2 * ONE;
    ms.sprites = vec![
        Sprite::new(SpriteType::Armor, Vector2::new(ONE + HALF, 2 * ONE), 0),
        Sprite::new(SpriteType::Armor, Vector2::new(ONE + HALF, 4 * ONE), 0),
        Sprite::new(SpriteType::Torch, Vector2::new(ONE + HALF, ONE), 0),
        Sprite::new(SpriteType::Armor, Vector2::new(ONE + HALF, 3 * ONE), 0),
    ];
    ms.buffer_floors.push(4242);
    ms.prepare_frame((32 * ONE, 16 * ONE));
    let mut offsets: Vec<i64> = (0..16).map(|y| (2 * (y - 2) - 16) * ONE).collect();
    offsets.push(4242);
    assert_eq!(ms.buffer_floors, offsets);
    let order: Vec<i64> = ms.sprites.iter().map(|s| s.pos.y).collect();
    assert_eq!(order, vec![4 * ONE, 3 * ONE, 2 * ONE, ONE]);
    let seen: Vec<bool> = ms.sprites.iter().map(|s| s.visible).collect();
    assert_eq!(seen, vec![true, true, true, false]);
    assert_eq!(ms.sprites[0].distance2, 6 * ONE + ONE / 4);
    assert_eq!(ms.sprites[2].distance2, ONE / 4);
    assert_eq!(ms.sprites[2].shade, ONE);
    assert_eq!(ms.sprites[0].bounds.sprite_screen_x, 8 * ONE);
    // a buffer that is shorter than the screen is filled as far as it goes
    ms.buffer_floors.truncate(3);
    ms.player.pitch = 0;
    ms.prepare_frame((32 * ONE, 16 * ONE));
    assert_eq!(ms.buffer_floors, vec![-16 * ONE, -14 * ONE, -12 * ONE]);
}

#[test]
fn the_light_can_be_switched() {
    let mut ms = cell_with_a_door(3);
    assert!(ms.lighting_1.switch && ms.lighting_1.smooth_switch);
    ms.toggle_lighting();
    assert!(!ms.lighting_1.switch && ms.lighting_1.smooth_switch);
    ms.toggle_smooth_lighting();
    assert!(!ms.lighting_1.switch && !ms.lighting_1.smooth_switch);
    ms.toggle_lighting();
    ms.toggle_smooth_lighting();
    assert!(ms.lighting_1.switch && ms.lighting_1.smooth_switch);
}

#[test]
fn the_player_opens_the_door_within_reach() {
    let mut ms = cell_with_a_door(3);
    // a cell and a half ahead lies the row below the door
    ms.handle_input(&Input { open: true, ..still() }, 0, 500);
    assert_eq!(ms.map.doors, vec![Door::new(ONE, false, 0, 7)]);
    ms.player.pos = Vector2::new(ONE + HALF, ONE + HALF - 6554);
    ms.handle_input(&still(), 0, 500);
    assert_eq!(ms.map.doors, vec![Door::new(ONE, false, 0, 7)]);
    ms.handle_input(&Input { open: true, ..still() }, 0, 500);
    assert_eq!(ms.map.doors, vec![Door::new(ONE, true, 500, 7)]);
    assert_eq!(ms.map.doors[0].state(), DoorState::Opening);
    // the input moves the player before it reaches for the door
    let mut other = cell_with_a_door(3);
    let around = Rotation { cos: -ONE, sin: 0 };
    other.player.pos = Vector2::new(ONE + HALF, ONE + HALF - 6554);
    other.handle_input(&Input { open: true, turn: around, ..still() }, 0, 500);
    assert_eq!(other.player.dir_norm, Vector2::new(0, -ONE));
    assert_eq!(other.map.doors, vec![Door::new(ONE, false, 0, 7)]);
}

#[test]
fn walking_within_the_state() {
    let mut ms = cell_with_a_door(3);
    // walls all around: the player cannot leave the middle of the cell by
    // more than the margin
    for _ in 0..100 {
        ms.handle_input(&Input { forward: true, ..still() }, 1092, 0);
    }
    assert!(ms.player.walking);
    assert!(ms.player.pos.y < 2 * ONE - 20480 + 2731);
    assert!(ms.player.pos.y > ONE + HALF);
    assert_eq!(ms.player.pos.x, ONE + HALF);
}

fn ticks_until_open(ms: &mut MainState, dt: i64) -> usize {
    let mut ticks = 0;
    while ms.map.doors[0].opening {
        ms.update(0, dt);
        ticks += 1;
        assert!(ticks < 100_000);
    }
    ticks
}

#[test]
fn opening_the_door_lets_the_ray_through() {
    let mut ms = cell_with_a_door(3);
    let levels = calculate_lighting(vec![4], &ms.map.solid, (3, 3));
    assert_eq!(levels[4], 15);
    assert_eq!(levels[7], 0);
    assert_eq!(levels[13], 14);
    assert_eq!(levels.iter().filter(|l| **l > 0).count(), 2);
    // the ray ends at the leaf, in the middle of the door's cell
    let (hit, seen) = calculate_ray(&ms, ms.player.dir_norm, STRAIGHT);
    assert!(seen.is_empty());
    assert_eq!(hit.wall_type, WOODEN_DOOR);
    assert_eq!(hit.map_checkv, 7);
    assert_eq!(hit.distance, ONE);
    assert_eq!(hit.orientation, Orientation::N);
    assert!(ms.map.solid[7]);
    ms.open_door(7, 0);
    assert!(ms.map.doors[0].opening);
    // at sixty frames a second the leaf moves by 1/120 a frame
    assert_eq!(ticks_until_open(&mut ms, ONE / 60), 121);
    assert!(!ms.map.solid[7]);
    assert_eq!(ms.map.doors[0].state(), DoorState::Open);
    // no wall lies beyond the door: the ray is given up
    let (hit, _) = calculate_ray(&ms, ms.player.dir_norm, STRAIGHT);
    assert_eq!(hit.distance, MAX_RAY_LENGTH);
    assert_eq!(hit.wall_type, TILED_FLOOR);
    // with the light reckoned anew the doorway is lit
    let levels = calculate_lighting(vec![4], &ms.map.solid, (3, 3));
    assert_eq!(levels[7], 14);
    assert_eq!(levels[16], 13);
}

#[test]
fn the_ticks_to_open_follow_the_rate() {
    // at thirty frames a second the door takes half as many ticks
    let mut slow = cell_with_a_door(3);
    slow.open_door(7, 0);
    assert_eq!(ticks_until_open(&mut slow, ONE / 30), 61);
    let mut fast = cell_with_a_door(3);
    fast.open_door(7, 0);
    assert_eq!(ticks_until_open(&mut fast, ONE / 120), 241);
    // a door that is not triggered stays closed
    let mut closed = cell_with_a_door(3);
    for _ in 0..500 {
        closed.update(0, ONE / 60);
    }
    assert_eq!(closed.map.doors, vec![Door::new(ONE, false, 0, 7)]);
    assert!(closed.map.solid[7]);
}

#[test]
fn behind_the_open_door_the_ray_ends_at_the_wall() {
    let mut ms = cell_with_a_door(4);
    let (hit, _) = calculate_ray(&ms, ms.player.dir_norm, STRAIGHT);
    assert_eq!((hit.map_checkv, hit.distance), (7, ONE));
    ms.open_door(7, 0);
    // half way the two halves of the leaf have left the middle of the
    // doorway free
    for _ in 0..60 {
        ms.update(0, ONE / 60);
    }
    assert_eq!(ms.map.doors[0].offset, ONE - 60 * 546);
    assert!(ms.map.solid[7]);
    let (hit, _) = calculate_ray(&ms, ms.player.dir_norm, STRAIGHT);
    assert_eq!((hit.map_checkv, hit.wall_type), (10, FRAME_WOODEN_DOOR));
    // beside the middle the ray still ends at the leaf
    ms.player.pos.x = ONE + ONE / 8;
    let (hit, _) = calculate_ray(&ms, ms.player.dir_norm, STRAIGHT);
    assert_eq!((hit.map_checkv, hit.wall_type), (7, WOODEN_DOOR));
    ms.player.pos.x = ONE + HALF;
    ticks_until_open(&mut ms, ONE / 60);
    assert!(!ms.map.solid[7]);
    let (hit, _) = calculate_ray(&ms, ms.player.dir_norm, STRAIGHT);
    assert_eq!(hit.map_checkv, 10);
    assert_eq!(hit.distance, ONE + HALF);
    assert_eq!(hit.wall_type, FRAME_WOODEN_DOOR);
    assert_eq!(hit.point, Vector2::new(ONE + HALF, 3 * ONE));
}
