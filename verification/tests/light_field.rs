use raycaster::fixed::{HALF, ONE};
use raycaster::lighting::{
    bilerp, get_vertices, intensity, lerp, Lighting, Vertex, HALF_SPAN, LOWER_SEAM, SPAN,
    WALL_SPAN,
};
use raycaster::Orientation;

#[test]
fn intensity_falls_with_the_level() {
    let expected: [i64; 16] = [
        907, 1207, 1605, 2135, 2840, 3778, 5026, 6685, 8893, 11829, 15735, 20931, 27843, 37037,
        49267, 65536,
    ];
    for level in 0..16u8 {
        assert_eq!(intensity(level), expected[level as usize]);
    }
    assert_eq!(intensity(200), ONE);
    for level in 0..15u8 {
        assert!(intensity(level) < intensity(level + 1));
    }
}

#[test]
fn vertex_is_the_mean_of_the_cells_around_it() {
    // 2 by 2 cells on the lower floor
    let lighting = [ONE, HALF, ONE / 4, 0, 0, 0, 0, 0];
    assert_eq!(Vertex::new([1, 1, 0], (2, 2), &lighting).lighting, (ONE + HALF + ONE / 4) / 4);
    assert_eq!(Vertex::new([0, 0, 0], (2, 2), &lighting).lighting, ONE / 4);
    assert_eq!(Vertex::new([2, 0, 0], (2, 2), &lighting).lighting, HALF / 4);
    assert_eq!(Vertex::new([1, 0, 0], (2, 2), &lighting).lighting, (ONE + HALF) / 4);
    assert_eq!(Vertex::new([0, 2, 0], (2, 2), &lighting).lighting, ONE / 16);
    assert_eq!(Vertex::new([2, 2, 0], (2, 2), &lighting).lighting, 0);
    assert_eq!(Vertex::new([1, 1, 1], (2, 2), &lighting).lighting, 0);
    assert_eq!(Vertex::new([5, 5, 0], (2, 2), &lighting).lighting, 0);
    assert_eq!(Vertex::new([1, 1, 7], (2, 2), &lighting).lighting, 0);
    assert_eq!(Vertex::default().lighting, 0);
}

#[test]
fn vertex_is_kept_between_zero_and_one() {
    let bright = [8 * ONE, 8 * ONE, 8 * ONE, 8 * ONE];
    assert_eq!(Vertex::new([1, 1, 0], (2, 2), &bright[..]).lighting, ONE);
    let dark = [-8 * ONE, -8 * ONE, -8 * ONE, -8 * ONE];
    assert_eq!(Vertex::new([1, 1, 0], (2, 2), &dark[..]).lighting, 0);
    let huge = [i64::MAX, i64::MAX, i64::MAX, i64::MAX];
    assert_eq!(Vertex::new([1, 1, 0], (2, 2), &huge[..]).lighting, ONE);
}

#[test]
fn lighting_of_a_small_map() {
    let l = Lighting::new(vec![0], &[false, false], (2, 1));
    assert_eq!(l.map_size, (2, 1));
    assert!(l.switch);
    assert!(l.smooth_switch);
    assert_eq!(l.lighting, vec![65536, 49267, 49267, 37037]);
    let corners: Vec<i64> = l.vertices.iter().map(|v| v.lighting).collect();
    assert_eq!(
        corners,
        vec![
            16384, 28700, 16384, 28700, //
            28700, 12316, 28700, 12316, //
            12316, 21576, 12316, 21576, //
            21576, 9259, 21576, 9259,
        ]
    );
}

#[test]
fn lighting_of_an_empty_map() {
    let l = Lighting::new(vec![], &[], (0, 0));
    assert!(l.lighting.is_empty());
    assert!(l.vertices.is_empty());
    assert_eq!(l.get_lighting_floor(0, 0, 0), 0);
}

#[test]
fn bilerp_weighs_each_corner_by_the_area_opposite() {
    assert_eq!(bilerp(32 * ONE, 64 * ONE, 100, 200, 300, 400), 225);
    assert_eq!(bilerp(0, 0, 100, 200, 300, 400), 100);
    assert_eq!(bilerp(SPAN, 0, 100, 200, 300, 400), 200);
    assert_eq!(bilerp(0, SPAN, 100, 200, 300, 400), 300);
    assert_eq!(bilerp(SPAN, SPAN, 100, 200, 300, 400), 400);
    assert_eq!(bilerp(HALF_SPAN, HALF_SPAN, 100, 200, 300, 401), 250);
    assert_eq!(bilerp(HALF_SPAN, HALF_SPAN, -1, 0, 0, 0), -1);
    // coordinates are kept within the cell
    assert_eq!(bilerp(-ONE, 200 * ONE, 100, 200, 300, 400), 300);
    assert_eq!(bilerp(i64::MAX, i64::MIN, 100, 200, 300, 400), 200);
    assert_eq!(bilerp(HALF_SPAN, HALF_SPAN, i64::MAX, i64::MAX, i64::MAX, i64::MAX), i64::MAX);
    assert_eq!(bilerp(0, HALF_SPAN, i64::MIN, 0, i64::MIN, 0), i64::MIN);
}

#[test]
fn lerp_weighs_two_values() {
    assert_eq!(lerp(32 * ONE, 100, 200), 125);
    assert_eq!(lerp(0, 100, 200), 100);
    assert_eq!(lerp(SPAN, 100, 200), 200);
    assert_eq!(lerp(HALF_SPAN, 100, 201), 150);
    assert_eq!(lerp(2 * SPAN, 100, 200), 200);
    assert_eq!(lerp(-SPAN, 100, 200), 100);
    assert_eq!(lerp(HALF_SPAN, i64::MAX, i64::MAX), i64::MAX);
}

/// Four corners for each of the eight cells of a map of 2 by 2 cells: the
/// cell `c` has 1000 c + 100, + 200, + 300 and + 400.
fn marked() -> Lighting {
    let mut vertices = vec![];
    let mut lighting = vec![];
    for c in 0..8i64 {
        for k in 1..5i64 {
            vertices.push(Vertex { lighting: 1000 * c + 100 * k });
        }
        lighting.push(10 + c);
    }
    Lighting { vertices, lighting, map_size: (2, 2), switch: true, smooth_switch: true }
}

#[test]
fn get_vertices_gives_the_corners_of_a_cell() {
    let l = marked();
    let (tl, tr, bl, br) = get_vertices(3, &l.vertices);
    assert_eq!((tl.lighting, tr.lighting, bl.lighting, br.lighting), (3100, 3200, 3300, 3400));
    let (tl, tr, bl, br) = get_vertices(8, &l.vertices);
    assert_eq!((tl.lighting, tr.lighting, bl.lighting, br.lighting), (0, 0, 0, 0));
    let (tl, _, _, br) = get_vertices(usize::MAX, &l.vertices);
    assert_eq!((tl.lighting, br.lighting), (0, 0));
}

#[test]
fn floor_light_at_the_corners_and_in_the_middle() {
    let l = marked();
    assert_eq!(l.get_lighting_floor(0, 0, 5), 5100);
    assert_eq!(l.get_lighting_floor(SPAN, 0, 5), 5200);
    assert_eq!(l.get_lighting_floor(0, SPAN, 5), 5300);
    assert_eq!(l.get_lighting_floor(SPAN, SPAN, 5), 5400);
    assert_eq!(l.get_lighting_floor(HALF_SPAN, HALF_SPAN, 5), 5250);
    assert_eq!(l.get_lighting_floor(32 * ONE, 63 * ONE, 0), bilerp(32 * ONE, 64 * ONE, 300, 400, 100, 200));
    assert_eq!(l.get_lighting_floor(0, 0, 8), 0);
}

#[test]
fn floor_light_flat_and_switched_off() {
    let mut l = marked();
    l.smooth_switch = false;
    assert_eq!(l.get_lighting_floor(HALF_SPAN, 7, 5), 15);
    assert_eq!(l.get_lighting_floor(0, 0, 8), 0);
    l.switch = false;
    assert_eq!(l.get_lighting_floor(HALF_SPAN, 7, 5), ONE);
    assert_eq!(l.get_lighting_floor(0, 0, 8), ONE);
}

#[test]
fn wall_light_comes_from_the_cell_in_front() {
    let l = marked();
    // the upper two thirds of a wall: between the two corners at the wall
    assert_eq!(l.get_lighting_wall(0, 0, 2, &Orientation::N, false), 200);
    assert_eq!(l.get_lighting_wall(SPAN, 0, 2, &Orientation::N, false), 100);
    assert_eq!(l.get_lighting_wall(0, LOWER_SEAM, 0, &Orientation::S, false), 2300);
    assert_eq!(l.get_lighting_wall(SPAN, 0, 0, &Orientation::S, false), 2400);
    assert_eq!(l.get_lighting_wall(0, 0, 1, &Orientation::E, false), 100);
    assert_eq!(l.get_lighting_wall(SPAN, 0, 1, &Orientation::E, false), 300);
    assert_eq!(l.get_lighting_wall(0, 0, 0, &Orientation::W, false), 1400);
    assert_eq!(l.get_lighting_wall(SPAN, 0, 0, &Orientation::W, false), 1200);
    assert_eq!(l.get_lighting_wall(32 * ONE, 0, 0, &Orientation::W, false), lerp(32 * ONE, 1400, 1200));
}

#[test]
fn wall_light_towards_the_foot_takes_the_far_corners() {
    let l = marked();
    assert_eq!(l.get_lighting_wall(0, WALL_SPAN, 2, &Orientation::N, false), 400);
    assert_eq!(l.get_lighting_wall(SPAN, WALL_SPAN, 2, &Orientation::N, false), 300);
    assert_eq!(l.get_lighting_wall(0, WALL_SPAN, 0, &Orientation::S, false), 2100);
    assert_eq!(l.get_lighting_wall(SPAN, WALL_SPAN, 1, &Orientation::E, false), 400);
    assert_eq!(l.get_lighting_wall(0, WALL_SPAN, 0, &Orientation::W, false), 1300);
    // just below the seam the corners at the wall still have all the weight
    assert_eq!(l.get_lighting_wall(0, LOWER_SEAM + ONE, 0, &Orientation::S, false), 2300);
    assert_eq!(
        l.get_lighting_wall(32 * ONE, 300 * ONE, 0, &Orientation::S, false),
        bilerp(32 * ONE, 84 * ONE, 2100, 2200, 2300, 2400)
    );
}

#[test]
fn wall_light_on_the_upper_level() {
    let l = marked();
    // the wall in the cell 6 of the upper floor looks at the cell 4, below
    // which lies the cell 0
    assert_eq!(l.get_lighting_wall(0, WALL_SPAN, 6, &Orientation::N, true), 200);
    assert_eq!(l.get_lighting_wall(SPAN, WALL_SPAN, 6, &Orientation::N, true), 100);
    assert_eq!(l.get_lighting_wall(0, 200 * ONE, 6, &Orientation::N, true), 4200);
    assert_eq!(l.get_lighting_wall(0, 0, 6, &Orientation::N, true), 4400);
    assert_eq!(l.get_lighting_wall(0, SPAN, 6, &Orientation::N, true), 4200);
    assert_eq!(l.get_lighting_wall(0, WALL_SPAN, 4, &Orientation::S, true), 2300);
    assert_eq!(l.get_lighting_wall(0, 0, 4, &Orientation::S, true), 6100);
    assert_eq!(l.get_lighting_wall(0, WALL_SPAN, 5, &Orientation::E, true), 100);
    assert_eq!(l.get_lighting_wall(0, 0, 5, &Orientation::E, true), 4200);
    assert_eq!(l.get_lighting_wall(0, WALL_SPAN, 4, &Orientation::W, true), 1400);
    assert_eq!(l.get_lighting_wall(0, 0, 4, &Orientation::W, true), 5300);
    // on the lower floor nothing lies below
    assert_eq!(l.get_lighting_wall(0, WALL_SPAN, 2, &Orientation::N, true), 0);
}

#[test]
fn wall_light_beyond_the_grid_is_dark() {
    let l = marked();
    assert_eq!(l.get_lighting_wall(0, 0, 0, &Orientation::N, false), 0);
    assert_eq!(l.get_lighting_wall(0, 0, 0, &Orientation::E, false), 0);
    assert_eq!(l.get_lighting_wall(0, 0, 7, &Orientation::S, false), 0);
    assert_eq!(l.get_lighting_wall(0, 0, usize::MAX, &Orientation::W, false), 0);
    assert_eq!(l.get_lighting_wall(0, WALL_SPAN, usize::MAX, &Orientation::S, true), 0);
}

#[test]
fn wall_light_flat_and_switched_off() {
    let mut l = marked();
    l.smooth_switch = false;
    assert_eq!(l.get_lighting_wall(0, 0, 2, &Orientation::N, false), 10);
    assert_eq!(l.get_lighting_wall(0, 0, 0, &Orientation::S, true), 12);
    assert_eq!(l.get_lighting_wall(0, 0, 1, &Orientation::E, false), 10);
    assert_eq!(l.get_lighting_wall(0, 0, 0, &Orientation::W, false), 11);
    assert_eq!(l.get_lighting_wall(0, 0, 0, &Orientation::N, false), 0);
    l.switch = false;
    assert_eq!(l.get_lighting_wall(0, 0, 0, &Orientation::N, false), ONE);
}
