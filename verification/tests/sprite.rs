use raycaster::fixed::{HALF, ONE};
use raycaster::player::Player;
use raycaster::screen::Screen;
use raycaster::sprite::{
    frame, picture, project, row_of_picture, sort_sprites, Bounds, Projection, Sprite,
    SpriteType,
};
use raycaster::utilities::vector2::Vector2;

fn player() -> Player {
    Player::new(
        Vector2::new(2 * ONE + HALF, 2 * ONE + HALF),
        Vector2::new(0, -ONE),
        Vector2::new(27146, 0),
        77 * ONE,
        0,
        0,
    )
}

const SIZE: (i64, i64) = (64 * ONE, 48 * ONE);

/// A sprite atlas of eight pictures to a band and five bands: the texel
/// (x, y) is (x, y, 77), opaque.
fn screen() -> Screen {
    let mut bytes = Vec::with_capacity(1024 * 640 * 4);
    for y in 0..640usize {
        for x in 0..1024usize {
            bytes.extend_from_slice(&[x as u8, y as u8, 77, 255]);
        }
    }
    let mut s = Screen::new(1, 1, 128, 1024);
    s.textures(vec![], bytes);
    s
}

#[test]
fn sprite_types_have_their_bands() {
    assert_eq!(SpriteType::Armor.index(), 0);
    assert_eq!(SpriteType::CandleHolder.index(), 1);
    assert_eq!(SpriteType::Bat.index(), 2);
    assert_eq!(SpriteType::Torch.index(), 3);
    assert_eq!(SpriteType::Gore.index(), 4);
}

#[test]
fn a_new_sprite_is_not_placed() {
    let s = Sprite::new(SpriteType::Torch, Vector2::new(7, 9), 5);
    assert_eq!(s.stype, 3);
    assert_eq!(s.pos, Vector2::new(7, 9));
    assert_eq!(s.height, 5);
    assert!(!s.visible);
    assert_eq!(s.distance2, 0);
    assert!(s.bounds.sty.is_empty());
    let b = Bounds::default();
    assert_eq!((b.start_x, b.end_x, b.start_y, b.end_y, b.size, b.sprite_screen_x), (0, 0, 0, 0, 0, 0));
    let b = Bounds::new(1, 2, 3, 4, 5, vec![6], 7);
    assert_eq!((b.start_y, b.end_y, b.start_x, b.end_x, b.sprite_screen_x, b.size), (1, 2, 3, 4, 5, 7));
    assert_eq!(b.sty, vec![6]);
}

#[test]
fn distance_and_time() {
    let mut s = Sprite::new(SpriteType::Armor, Vector2::new(HALF, 6 * ONE + HALF), 0);
    assert_eq!(s.calculate_distance_2(&player()), 20 * ONE);
    s.update(12345);
    assert_eq!(s.time, 12345);
    assert_eq!(s.pos, Vector2::new(HALF, 6 * ONE + HALF));
}

#[test]
fn a_sprite_straight_ahead_is_seen_in_the_middle() {
    let p = player();
    assert_eq!(
        project(Vector2::new(2 * ONE + HALF, HALF), &p),
        Projection { across: 0, depth: 2 * ONE }
    );
    let f = frame(Vector2::new(2 * ONE + HALF, HALF), 0, &p, SIZE, 2 * ONE);
    assert!(f.visible);
    assert_eq!(f.sprite_screen_x, 16 * ONE);
    assert_eq!(f.size, 1261568);
    assert_eq!(f.size_y, 2523136);
    assert_eq!((f.start_x, f.end_x), (417792, 1679360));
    assert_eq!((f.start_y, f.end_y), (311296, 2834432));
    assert_eq!(f.lift, 0);
    assert_eq!(row_of_picture(&f, &p, SIZE.1, 6), 4);
    assert_eq!(row_of_picture(&f, &p, SIZE.1, 43), 127);
    assert_eq!(row_of_picture(&f, &p, SIZE.1, 0), 0);
}

#[test]
fn set_drawing_bounds_places_a_visible_sprite() {
    let p = player();
    let mut s = Sprite::new(SpriteType::Armor, Vector2::new(2 * ONE + HALF, HALF), 0);
    s.set_drawing_bounds(SIZE, &p, 2 * ONE);
    assert!(s.visible);
    assert_eq!(s.distance2, 4 * ONE);
    assert_eq!(s.shade, ONE);
    assert_eq!(s.bounds.sprite_screen_x, 16 * ONE);
    assert_eq!(s.bounds.size, 1261568);
    assert_eq!((s.bounds.start_x, s.bounds.end_x), (417792, 1679360));
    assert_eq!((s.bounds.start_y, s.bounds.end_y), (311296, 2834432));
    assert_eq!(
        s.bounds.sty,
        vec![
            0, 0, 4, 7, 10, 14, 17, 20, 24, 27, 30, 34, 37, 40, 44, 47, 50, 54, 57, 60, 63, 67,
            70, 73, 77, 80, 83, 87, 90, 93, 97, 100, 103, 107, 110, 113, 117, 120, 123, 127
        ]
    );
}

#[test]
fn set_drawing_bounds_with_pitch_jump_and_height() {
    let mut p = player();
    p.pitch = 3 * ONE;
    p.jump = 10 * ONE;
    let mut s = Sprite::new(SpriteType::Gore, Vector2::new(4 * ONE + HALF, HALF), 20 * ONE);
    s.set_drawing_bounds(SIZE, &p, 2 * ONE);
    assert!(s.visible);
    assert_eq!(s.bounds.sprite_screen_x, 3580064);
    assert_eq!((s.bounds.start_x, s.bounds.end_x), (2949280, 4128768));
    assert_eq!((s.bounds.start_y, s.bounds.end_y), (1490944, 3080192));
    assert_eq!(
        s.bounds.sty,
        vec![
            0, 0, 4, 7, 10, 14, 17, 20, 24, 27, 30, 34, 37, 40, 44, 47, 50, 54, 57, 60, 63, 67,
            70, 73, 77, 80
        ]
    );
    // eight cells away squared: the light is 5 / 8
    assert_eq!(s.distance2, 8 * ONE);
    assert_eq!(s.shade, 40960);
}

#[test]
fn the_light_on_a_sprite_has_a_floor_and_torches_are_bright() {
    let p = player();
    let mut far = Sprite::new(SpriteType::Armor, Vector2::new(2 * ONE + HALF, -8 * ONE), 0);
    far.set_drawing_bounds(SIZE, &p, 2 * ONE);
    assert!(far.visible);
    assert_eq!(far.shade, 13107);
    let mut torch = Sprite::new(SpriteType::Torch, Vector2::new(2 * ONE + HALF, -8 * ONE), 0);
    torch.set_drawing_bounds(SIZE, &p, 2 * ONE);
    assert_eq!(torch.shade, ONE);
}

#[test]
fn a_sprite_behind_the_camera_is_not_visible() {
    let p = player();
    let mut s = Sprite::new(SpriteType::Armor, Vector2::new(2 * ONE + HALF, 4 * ONE + HALF), 0);
    s.shade = 4242;
    s.set_drawing_bounds(SIZE, &p, 2 * ONE);
    assert!(!s.visible);
    assert!(s.bounds.sty.is_empty());
    assert_eq!(s.shade, 4242);
    assert_eq!(s.distance2, 4 * ONE);
    // so is one at the player's own place
    let mut here = Sprite::new(SpriteType::Armor, p.pos, 0);
    here.set_drawing_bounds(SIZE, &p, 2 * ONE);
    assert!(!here.visible);
}

#[test]
fn a_sprite_beside_the_view_is_not_visible() {
    let p = player();
    let mut s = Sprite::new(SpriteType::Armor, Vector2::new(40 * ONE, 2 * ONE), 0);
    s.set_drawing_bounds(SIZE, &p, 2 * ONE);
    assert!(!s.visible);
}

#[test]
fn pictures_of_torches_and_bats() {
    assert_eq!(picture(3, Vector2::new(0, 0), 0), 0);
    assert_eq!(picture(3, Vector2::new(0, 0), HALF), 4);
    assert_eq!(picture(3, Vector2::new(0, 0), 53620), 7);
    assert_eq!(picture(3, Vector2::new(0, 0), 59579), 0);
    assert_eq!(picture(2, Vector2::new(ONE, -13107), 0), 1);
    assert_eq!(picture(2, Vector2::new(ONE, -27146), 0), 1);
    assert_eq!(picture(2, Vector2::new(ONE, -27147), 0), 0);
    assert_eq!(picture(2, Vector2::new(ONE, 0), 0), 0);
    assert_eq!(picture(2, Vector2::new(ONE, 13107), 0), 0);
    assert_eq!(picture(2, Vector2::new(-ONE, -13107), 0), 0);
    assert_eq!(picture(0, Vector2::new(ONE, -13107), HALF), 0);
    assert_eq!(picture(4, Vector2::new(ONE, -13107), HALF), 0);
}

fn placed() -> Sprite {
    let mut s = Sprite::new(SpriteType::CandleHolder, Vector2::new(2 * ONE + HALF, HALF), 0);
    s.set_drawing_bounds(SIZE, &player(), 2 * ONE);
    s
}

#[test]
fn a_sprite_before_the_wall_is_drawn_over_its_rows() {
    let s = placed();
    let screen = screen();
    let p = player();
    let mut column = vec![1u8; 48 * 4];
    assert!(s.is_shown_in(&p, 8, 10 * ONE));
    s.draw(&mut column, &p, 8, &screen, 10 * ONE);
    let mut expected = vec![1u8; 48 * 4];
    for y in 4..44usize {
        let row = s.bounds.sty[y - 4];
        expected[4 * y..4 * y + 4].copy_from_slice(&[10, (128 + row) as u8, 77, 255]);
    }
    assert_eq!(column, expected);
    assert_eq!(&column[16..20], &[10, 128, 77, 255]);
    assert_eq!(&column[24..28], &[10, 132, 77, 255]);
    assert_eq!(&column[172..176], &[10, 255, 77, 255]);
}

#[test]
fn a_sprite_behind_the_wall_is_not_drawn() {
    let s = placed();
    let screen = screen();
    let p = player();
    let mut column = vec![1u8; 48 * 4];
    for distance in [2 * ONE, ONE, 0, -2 * ONE] {
        assert!(!s.is_shown_in(&p, 8, distance));
        s.draw(&mut column, &p, 8, &screen, distance);
        assert_eq!(column, vec![1u8; 48 * 4]);
    }
    s.draw(&mut column, &p, 8, &screen, 2 * ONE + 1);
    assert_eq!(&column[16..20], &[10, 128, 77, 255]);
    let mut other = vec![1u8; 48 * 4];
    s.draw(&mut other, &p, 8, &screen, -2 * ONE - 1);
    assert_eq!(other, column);
}

#[test]
fn a_sprite_is_drawn_only_in_the_columns_that_it_covers() {
    let s = placed();
    let screen = screen();
    let p = player();
    for j in [0usize, 6, 26, 31, usize::MAX] {
        let mut column = vec![1u8; 48 * 4];
        assert!(!s.is_shown_in(&p, j, 10 * ONE));
        s.draw(&mut column, &p, j, &screen, 10 * ONE);
        assert_eq!(column, vec![1u8; 48 * 4]);
    }
    for (j, stx) in [(7usize, 4u8), (8, 10), (25, 123)] {
        let mut column = vec![1u8; 48 * 4];
        s.draw(&mut column, &p, j, &screen, 10 * ONE);
        assert_eq!(&column[16..20], &[stx, 128, 77, 255]);
    }
}

#[test]
fn a_sprite_that_is_not_visible_is_not_drawn() {
    let mut s = placed();
    s.visible = false;
    let mut column = vec![1u8; 48 * 4];
    s.draw(&mut column, &player(), 8, &screen(), 10 * ONE);
    assert_eq!(column, vec![1u8; 48 * 4]);
}

#[test]
fn a_sprite_is_drawn_as_far_as_the_column_and_its_rows_go() {
    let mut s = placed();
    let screen = screen();
    let p = player();
    let mut short = vec![1u8; 10 * 4];
    s.draw(&mut short, &p, 8, &screen, 10 * ONE);
    assert_eq!(&short[..16], &vec![1u8; 16][..]);
    assert_eq!(&short[36..40], &[10, 128 + 14, 77, 255]);
    s.bounds.sty.truncate(3);
    let mut column = vec![1u8; 48 * 4];
    s.draw(&mut column, &p, 8, &screen, 10 * ONE);
    assert_eq!(&column[24..28], &[10, 132, 77, 255]);
    assert_eq!(&column[28..], &vec![1u8; 48 * 4 - 28][..]);
}

#[test]
fn a_torch_shows_the_picture_of_its_time() {
    let mut s = Sprite::new(SpriteType::Torch, Vector2::new(2 * ONE + HALF, HALF), 0);
    s.set_drawing_bounds(SIZE, &player(), 2 * ONE);
    s.update(HALF);
    let mut column = vec![1u8; 48 * 4];
    s.draw(&mut column, &player(), 8, &screen(), 10 * ONE);
    // the picture 4 starts at the column 512 of the atlas, the band 3 at the
    // row 384
    assert_eq!(&column[16..20], &[((512 + 10) % 256) as u8, (384 % 256) as u8, 77, 255]);
}

#[test]
fn sprites_are_sorted_from_the_farthest() {
    let mut sprites: Vec<Sprite> = [5i64, 9, 5, 1, 9, 7]
        .iter()
        .enumerate()
        .map(|(i, d)| {
            let mut s = Sprite::new(SpriteType::Armor, Vector2::new(i as i64, 0), 0);
            s.distance2 = *d;
            s
        })
        .collect();
    sort_sprites(&mut sprites);
    let order: Vec<(i64, i64)> = sprites.iter().map(|s| (s.distance2, s.pos.x)).collect();
    assert_eq!(order, vec![(9, 1), (9, 4), (7, 5), (5, 0), (5, 2), (1, 3)]);
    let mut none: Vec<Sprite> = vec![];
    sort_sprites(&mut none);
    assert!(none.is_empty());
}
