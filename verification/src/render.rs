//! What one column of the screen shows.

use vstd::prelude::*;
use crate::{MainState, Orientation};
use crate::fixed::{
    Fixed, diff, frac, fx_add, fx_div, fx_floor, fx_fract, fx_from_index, fx_index, fx_max,
    fx_min, fx_mul, fx_neg, fx_round, fx_sqrt, fx_sub, greater, index_of, lesser, negated,
    of_index, prod, quot, root, rounded, sum, whole, HALF, HUNDRED, MINUS_THREE, ONE, TWO,
};
use crate::map::{
    ends_ray, WorldMap, COBWEB, METAL_BARS, STAIRS, TILED_CEILING, TILED_FLOOR, TWO_TIER_WALL,
    UPPER_TIER_WALL, WOODEN_DOOR,
};
use crate::order::{far_first, inserted, lemma_inserted_at};
use crate::ray::{cell_index, clipped, grid_index, in_grid, Ray, RayState, MAX_RAY_LENGTH};
use crate::screen::lemma_screen_draws_one_pixel;
use crate::slice::changed_within;
use crate::sprite::{lemma_sprite_keeps_the_column, Sprite};
use crate::stairs::{draw_stairs, lemma_stairs_keep_the_column, stairs_drawn};
use crate::utilities::vector2::{Rotation, Vector2};

verus! {

/// What a ray meets: the point, its distance along the ray, the index of the
/// cell, the side of the cell, the code of what stands there, whether it is
/// seen through, and whether it stands on the upper level.
#[derive(Debug, Clone, Copy, PartialEq, Eq, Structural)]
pub struct Intersection {
    pub point: Vector2,
    pub distance: Fixed,
    pub map_checkv: usize,
    pub orientation: Orientation,
    pub wall_type: usize,
    pub is_transparent: bool,
    pub is_up: bool,
}

impl Intersection {
    /// The meeting with the given parts, the point given by its `x` and `y`.
    pub fn new(
        point: [Fixed; 2],
        distance: Fixed,
        map_checkv: usize,
        orientation: Orientation,
        wall_type: usize,
        is_transparent: bool,
        is_up: bool,
    ) -> (hit: Self)
        ensures
            hit == (Intersection {
                point: Vector2 { x: point[0], y: point[1] },
                distance,
                map_checkv,
                orientation,
                wall_type,
                is_transparent,
                is_up,
            }),
    {
        Self {
            point: Vector2 { x: point[0], y: point[1] },
            distance,
            map_checkv,
            orientation,
            wall_type,
            is_transparent,
            is_up,
        }
    }
}

/// Where the upper level begins: what a ray meets beyond this `x` stands on
/// it.
pub const UPPER_LEVEL_FROM: Fixed = 32 * 65536;

/// How a ray ends: at what it met, or, where it was given up, at
/// [`MAX_RAY_LENGTH`] with nothing there.
pub open spec fn terminal_of(ray: Ray, map_size: (usize, usize), last: RayState) -> Intersection {
    let distance = if last.found {
        last.distance
    } else {
        MAX_RAY_LENGTH
    };
    Intersection {
        point: ray.point_at(distance),
        distance,
        map_checkv: clipped(cell_index(map_size, last.cell)),
        orientation: last.orientation,
        wall_type: if last.found {
            last.wall_type
        } else {
            TILED_FLOOR
        },
        is_transparent: false,
        is_up: ray.point_at(distance).x > UPPER_LEVEL_FROM,
    }
}

/// The first step of the stairs that a player standing on stairs at `start`
/// sees along the direction `dir`: it rises at the boundary of the player's
/// cell.
pub open spec fn first_riser(map_size: (usize, usize), start: Vector2, dir: Vector2) -> Intersection {
    let slope = quot(dir.y, dir.x);
    Intersection {
        point: Vector2 {
            x: whole(start.x),
            y: sum(prod(slope, diff(whole(start.x), start.x)), start.y),
        },
        distance: prod(negated(frac(start.x)), root(sum(ONE, prod(slope, slope)))),
        map_checkv: clipped(cell_index(map_size, start)),
        orientation: Orientation::E,
        wall_type: STAIRS,
        is_transparent: false,
        is_up: false,
    }
}

/// What a ray from `start` in the direction `dir` meets in the map: what ends
/// it, and before that what it sees without ending, in the order in which it
/// sees it. For a player on stairs the first step of the stairs comes first
/// of all.
pub open spec fn ray_cast(
    map: WorldMap,
    map_size: (usize, usize),
    start: Vector2,
    dir: Vector2,
    on_stairs: bool,
) -> (Intersection, Seq<Intersection>) {
    let ray = Ray::towards(start, dir);
    let (last, hits) = ray.cast_from(map, map_size, ray.first());
    (
        terminal_of(ray, map_size, last),
        if on_stairs {
            seq![first_riser(map_size, start, dir)] + hits
        } else {
            hits
        },
    )
}

/// A wall within range is met: if a ray from `start` in the direction `dir`,
/// the map left aside, enters after `n` boundaries a cell of the grid, before
/// it is [`MAX_RAY_LENGTH`] long, and a wall stands in that cell, then the
/// ray ends before it is that long.
pub proof fn lemma_wall_in_range_is_met(
    map: WorldMap,
    map_size: (usize, usize),
    start: Vector2,
    dir: Vector2,
    on_stairs: bool,
    n: nat,
)
    requires
        n >= 1,
        in_grid(map_size, Ray::towards(start, dir).ahead(Ray::towards(start, dir).first(), n).cell),
        ends_ray(
            map.wall_at(
                cell_index(
                    map_size,
                    Ray::towards(start, dir).ahead(Ray::towards(start, dir).first(), n).cell,
                ),
            ),
        ),
        Ray::towards(start, dir).ahead(Ray::towards(start, dir).first(), n).distance
            < MAX_RAY_LENGTH,
    ensures
        ray_cast(map, map_size, start, dir, on_stairs).0.distance < MAX_RAY_LENGTH,
{
    let ray = Ray::towards(start, dir);
    Ray::lemma_towards(start, dir);
    ray.lemma_wall_in_range_ends_ray(map, map_size, ray.first(), n);
}

/// Casts the ray that leaves the player in the direction `ray_dir_player`
/// turned by `theta`.
pub fn calculate_ray(ms: &MainState, ray_dir_player: Vector2, theta: Rotation) -> (r: (
    Intersection,
    Vec<Intersection>,
))
    ensures
        (r.0, r.1@) == ray_cast(
            ms.map,
            ms.map_size,
            ms.player.pos,
            ray_dir_player.rotated(theta),
            ms.player.current_wall == STAIRS,
        ),
{
    let ray_dir_norm = Vector2::rotate(ray_dir_player, theta);
    let startv = ms.player.pos;
    let ray = Ray::new(startv, ray_dir_norm);
    proof {
        Ray::lemma_towards(startv, ray_dir_norm);
    }
    let (last, hits) = ray.cast(&ms.map, ms.map_size);
    let distance: Fixed = if last.found {
        last.distance
    } else {
        MAX_RAY_LENGTH
    };
    let int_point = ray.point(distance);
    let terminal = Intersection {
        point: int_point,
        distance,
        map_checkv: grid_index(ms.map_size, last.cell),
        orientation: last.orientation,
        wall_type: if last.found {
            last.wall_type
        } else {
            TILED_FLOOR
        },
        is_transparent: false,
        is_up: int_point.x > UPPER_LEVEL_FROM,
    };
    if ms.player.current_wall == STAIRS {
        let m: Fixed = fx_div(ray_dir_norm.y, ray_dir_norm.x);
        let pos_x0: Fixed = fx_floor(startv.x);
        let iy: Fixed = fx_add(fx_mul(m, fx_sub(pos_x0, startv.x)), startv.y);
        let riser = Intersection {
            point: Vector2 { x: pos_x0, y: iy },
            distance: fx_mul(fx_neg(fx_fract(startv.x)), fx_sqrt(fx_add(ONE, fx_mul(m, m)))),
            map_checkv: grid_index(ms.map_size, startv),
            orientation: Orientation::E,
            wall_type: STAIRS,
            is_transparent: false,
            is_up: false,
        };
        let mut transparent_walls: Vec<Intersection> = Vec::new();
        transparent_walls.push(riser);
        let mut i: usize = 0;
        while i < hits.len()
            invariant
                i <= hits@.len(),
                transparent_walls@ == seq![riser] + hits@.subrange(0, i as int),
            decreases hits@.len() - i,
        {
            transparent_walls.push(hits[i]);
            assert(transparent_walls@ =~= seq![riser] + hits@.subrange(0, i + 1));
            i += 1;
        }
        assert(hits@.subrange(0, hits@.len() as int) =~= hits@);
        (terminal, transparent_walls)
    } else {
        (terminal, hits)
    }
}

/// The light of the player's lamp is this over the square of the distance.
pub const FLASH_REACH: Fixed = 3 * 65536;

/// The most light that the player's lamp gives.
pub const FLASH_MAX: Fixed = 98304;

/// The width and the height of a texture of the atlas, in texels.
pub const TEXTURE_SIZE: usize = 128;

/// The same as a number.
pub const TEXTURE_SPAN: Fixed = 128 * 65536;

/// The last row of a texture.
pub const LAST_TEXEL: Fixed = 127 * 65536;

/// The leaf of a door is half a texture wide.
pub const LEAF_SPAN: Fixed = 64 * 65536;

/// The height on a wall is reckoned in thirds of texels where its light is
/// looked up.
pub const THIRDS: Fixed = 3 * 65536;

/// The stairs of a cell have this many steps.
pub const STEPS: Fixed = 8 * 65536;

/// The light of the player's lamp at the distance `distance`.
pub open spec fn flashlight_at(distance: Fixed) -> Fixed {
    lesser(quot(FLASH_REACH, prod(distance, distance)), FLASH_MAX)
}

/// The light of the player's lamp at the distance `distance`.
pub fn flashlight(distance: Fixed) -> (light: Fixed)
    ensures
        light == flashlight_at(distance),
{
    fx_min(fx_div(FLASH_REACH, fx_mul(distance, distance)), FLASH_MAX)
}

/// The sum of two counts, the largest count where it is out of range.
pub fn clipped_sum(a: usize, b: usize) -> (r: usize)
    ensures
        r == clipped(a + b),
{
    match a.checked_add(b) {
        Some(r) => r,
        None => usize::MAX,
    }
}

/// The row `row` of the band `band` of an atlas, the largest count where it
/// is out of range.
pub fn band_row(band: usize, row: usize) -> (r: usize)
    ensures
        r == clipped(band * TEXTURE_SIZE + row),
{
    assert(band * TEXTURE_SIZE >= 0) by (nonlinear_arith)
        requires
            band >= 0,
    ;
    match band.checked_mul(TEXTURE_SIZE) {
        Some(b) => clipped_sum(b, row),
        None => usize::MAX,
    }
}

/// The point of the floor, or of the ceiling, that the row `y` of the screen
/// shows at the height `height` below the eyes (above them where it is
/// negative), on the way to the point `hit` that lies at the distance
/// `corrected_distance`; and its distance: the height over the rows between
/// the row and the horizon, which `buffer_floors` holds twice over.
pub open spec fn floor_point(
    ms: MainState,
    y: usize,
    height: Fixed,
    hit: Intersection,
    corrected_distance: Fixed,
) -> (Vector2, Fixed) {
    let current_dist = quot(height, ms.buffer_floors@[y as int]);
    let weight = quot(current_dist, corrected_distance);
    let rest = diff(ONE, weight);
    (
        Vector2 {
            x: sum(prod(weight, hit.point.x), prod(ms.player.pos.x, rest)),
            y: sum(prod(weight, hit.point.y), prod(ms.player.pos.y, rest)),
        },
        current_dist,
    )
}

/// The column `slice` with the row `y` drawn as floor, or as ceiling: the
/// texel of the point that the row shows, in the texture `texture` or else
/// in that of the floor of the cell, in the light of the point. Nothing is
/// drawn for a row that `buffer_floors` lacks, nor for a row on the horizon,
/// nor in a cell without a floor.
pub open spec fn floor_drawn(
    ms: MainState,
    slice: Seq<u8>,
    y: usize,
    height: Fixed,
    hit: Intersection,
    corrected_distance: Fixed,
    texture: Option<usize>,
) -> Seq<u8> {
    if y >= ms.buffer_floors@.len() || ms.buffer_floors@[y as int] == 0 {
        slice
    } else {
        let (at, current_dist) = floor_point(ms, y, height, hit, corrected_distance);
        let location = clipped(index_of(at.x) + index_of(at.y) * ms.map_size.0);
        let ftx = (index_of(prod(at.x, TEXTURE_SPAN)) % TEXTURE_SIZE) as usize;
        let fty = (index_of(prod(at.y, TEXTURE_SPAN)) % TEXTURE_SIZE) as usize;
        let light = ms.lighting_1.floor_light(of_index(ftx), of_index(fty), location);
        let shade = prod(ms.torch.intensity, light);
        match texture {
            Some(t) => ms.screen.with_texture(
                slice,
                (ftx, clipped(t * TEXTURE_SIZE + fty)),
                y,
                shade,
                flashlight_at(current_dist),
            ),
            None => if location < ms.map.floors@.len() {
                ms.screen.with_texture(
                    slice,
                    (ftx, clipped(ms.map.floors@[location as int] * TEXTURE_SIZE + fty)),
                    y,
                    shade,
                    flashlight_at(current_dist),
                )
            } else {
                slice
            },
        }
    }
}

/// Draws the row `y` of the column `slice` as floor, or as ceiling.
pub fn draw_floor(
    y: usize,
    height: Fixed,
    ms: &MainState,
    slice: &mut [u8],
    intersection: &Intersection,
    corrected_distance: Fixed,
    texture: Option<usize>,
)
    ensures
        final(slice)@ == floor_drawn(
            *ms,
            old(slice)@,
            y,
            height,
            *intersection,
            corrected_distance,
            texture,
        ),
{
    if y >= ms.buffer_floors.len() {
        return ;
    }
    let denominator: Fixed = ms.buffer_floors[y];
    if denominator == 0 {
        return ;
    }
    let current_dist: Fixed = fx_div(height, denominator);
    let weight: Fixed = fx_div(current_dist, corrected_distance);
    let rest: Fixed = fx_sub(ONE, weight);
    let current_floor_x: Fixed = fx_add(
        fx_mul(weight, intersection.point.x),
        fx_mul(ms.player.pos.x, rest),
    );
    let current_floor_y: Fixed = fx_add(
        fx_mul(weight, intersection.point.y),
        fx_mul(ms.player.pos.y, rest),
    );
    let row: usize = fx_index(current_floor_y);
    assert(row * ms.map_size.0 >= 0) by (nonlinear_arith)
        requires
            row >= 0,
            ms.map_size.0 >= 0,
    ;
    let location: usize = match row.checked_mul(ms.map_size.0) {
        Some(r) => clipped_sum(fx_index(current_floor_x), r),
        None => usize::MAX,
    };
    let floor_type: usize = match texture {
        Some(tex) => tex,
        None => {
            if location < ms.map.floors.len() {
                ms.map.floors[location]
            } else {
                return ;
            }
        },
    };
    let ftx: usize = fx_index(fx_mul(current_floor_x, TEXTURE_SPAN)) % TEXTURE_SIZE;
    let fty: usize = fx_index(fx_mul(current_floor_y, TEXTURE_SPAN)) % TEXTURE_SIZE;
    let lighting: Fixed = ms.lighting_1.get_lighting_floor(
        fx_from_index(ftx),
        fx_from_index(fty),
        location,
    );
    ms.screen.draw_texture(
        slice,
        [ftx, band_row(floor_type, fty)],
        y,
        fx_mul(ms.torch.intensity, lighting),
        flashlight(current_dist),
    );
}

/// The strip of a wall that a column of the screen shows: the column `tx` of
/// the texture, the row `ty` of the texture at the first row of the screen
/// and the step `ty_step` from one row of the screen to the next, the band
/// `wall_type` of the atlas, the cell `cell` whose side is lit, whether the
/// strip belongs to the upper tier, and the rows of the screen from `from`
/// up to `to`.
#[derive(Debug, Clone, Copy, PartialEq, Eq, Structural)]
pub struct Strip {
    pub tx: Fixed,
    pub ty: Fixed,
    pub ty_step: Fixed,
    pub wall_type: usize,
    pub cell: usize,
    pub up: bool,
    pub from: usize,
    pub to: usize,
}

/// Whether, seen from the side `o`, the point at (`inter_x`, `inter_y`) in
/// its cell lies on the half of a door whose leaf slides towards lower
/// texture columns.
pub open spec fn leaf_slides_back(o: Orientation, inter_x: Fixed, inter_y: Fixed) -> bool {
    match o {
        Orientation::N => inter_x < HALF,
        Orientation::E => inter_y > HALF,
        Orientation::S => inter_x > HALF,
        Orientation::W => inter_y < HALF,
    }
}

/// The column of the texture that shows at the point `hit` of a wall. On a
/// door the texture moves with the leaf.
pub open spec fn texture_column(ms: MainState, hit: Intersection) -> Fixed {
    let inter_x = frac(hit.point.x);
    let inter_y = frac(hit.point.y);
    let plain = match hit.orientation {
        Orientation::N => diff(diff(ms.cell_size, ONE), whole(prod(inter_x, ms.cell_size))),
        Orientation::E => prod(inter_y, ms.cell_size),
        Orientation::S => prod(inter_x, ms.cell_size),
        Orientation::W => diff(diff(ms.cell_size, ONE), whole(prod(inter_y, ms.cell_size))),
    };
    if hit.wall_type == WOODEN_DOOR {
        let shift = prod(diff(ONE, ms.map.door_offset(hit.map_checkv)), LEAF_SPAN);
        if leaf_slides_back(hit.orientation, inter_x, inter_y) {
            diff(plain, shift)
        } else {
            sum(plain, shift)
        }
    } else {
        plain
    }
}

/// The strip that a column of a screen of the height `h` shows of the wall
/// at `hit`, where the wall is `height` rows high around the row `center`
/// and the horizon is shifted by `pos_z` rows.
pub open spec fn strip_of(
    ms: MainState,
    h: Fixed,
    hit: Intersection,
    center: Fixed,
    height: Fixed,
    pos_z: Fixed,
) -> Strip {
    let ty_step = if hit.wall_type == STAIRS {
        quot(ms.cell_size, prod(STEPS, height))
    } else {
        quot(ms.cell_size, height)
    };
    let up = center < diff(prod(h, HALF), ONE);
    let rect_top = diff(center, prod(height, HALF));
    let rect_bottom = sum(center, prod(height, HALF));
    let rect_bottom_draw = if sum(pos_z, rect_bottom) >= h {
        diff(h, pos_z)
    } else {
        rect_bottom
    };
    Strip {
        tx: texture_column(ms, hit),
        ty: if sum(rect_top, pos_z) <= 0 {
            prod(negated(sum(pos_z, rect_top)), ty_step)
        } else if sum(rect_top, pos_z) >= h {
            prod(negated(sum(pos_z, rect_bottom)), ty_step)
        } else {
            0
        },
        ty_step,
        wall_type: if hit.wall_type == TWO_TIER_WALL && up && !hit.is_up {
            UPPER_TIER_WALL
        } else {
            hit.wall_type
        },
        cell: clipped(
            hit.map_checkv + (if up {
                ms.map_size.0 * ms.map_size.1
            } else {
                0
            }),
        ),
        up,
        from: index_of(sum(pos_z, rect_top)),
        to: index_of(sum(pos_z, rect_bottom_draw)),
    }
}

/// A row of a texture, the last row for one beyond it.
pub open spec fn capped(ty: Fixed) -> Fixed {
    if ty >= TEXTURE_SPAN {
        LAST_TEXEL
    } else {
        ty
    }
}

/// The column `slice` with the row `y` drawn as the row `ty` of the strip
/// `s` of the wall at `hit`, in the light of the wall there. Of a wall that
/// is seen through only the opaque texels are drawn.
pub open spec fn wall_pixel(
    ms: MainState,
    slice: Seq<u8>,
    hit: Intersection,
    s: Strip,
    ty: Fixed,
    y: usize,
) -> Seq<u8> {
    let at = (index_of(s.tx), clipped(s.wall_type * TEXTURE_SIZE + index_of(ty)));
    let shade = prod(
        ms.torch.intensity,
        ms.lighting_1.wall_light(s.tx, prod(ty, THIRDS), s.cell, hit.orientation, s.up),
    );
    if hit.is_transparent {
        ms.screen.with_transparent_texture(slice, at, y, shade, flashlight_at(hit.distance))
    } else {
        ms.screen.with_texture(slice, at, y, shade, flashlight_at(hit.distance))
    }
}

/// The column `slice` with the rows from `from` up to `to` drawn as the
/// strip `s`, whose texture stands at the row `ty` at the row `from`.
pub open spec fn wall_rows(
    ms: MainState,
    slice: Seq<u8>,
    hit: Intersection,
    s: Strip,
    ty: Fixed,
    from: int,
    to: int,
) -> Seq<u8>
    decreases to - from,
{
    if from >= to || from < 0 || from > usize::MAX {
        slice
    } else {
        wall_rows(
            ms,
            wall_pixel(ms, slice, hit, s, capped(ty), from as usize),
            hit,
            s,
            sum(capped(ty), s.ty_step),
            from + 1,
            to,
        )
    }
}

/// The column `slice` with the wall at `hit` drawn into it.
pub open spec fn wall_drawn(
    ms: MainState,
    slice: Seq<u8>,
    h: Fixed,
    hit: Intersection,
    center: Fixed,
    height: Fixed,
    pos_z: Fixed,
) -> Seq<u8> {
    let s = strip_of(ms, h, hit, center, height, pos_z);
    wall_rows(ms, slice, hit, s, s.ty, s.from as int, s.to as int)
}

/// The strip that a column shows of the wall at `hit`.
pub fn strip(ms: &MainState, h: Fixed, hit: &Intersection, center: Fixed, height: Fixed, pos_z: Fixed) -> (s: Strip)
    ensures
        s == strip_of(*ms, h, *hit, center, height, pos_z),
{
    let ty_step: Fixed = if hit.wall_type == STAIRS {
        fx_div(ms.cell_size, fx_mul(STEPS, height))
    } else {
        fx_div(ms.cell_size, height)
    };
    let up: bool = center < fx_sub(fx_mul(h, HALF), ONE);
    let inter_x: Fixed = fx_fract(hit.point.x);
    let inter_y: Fixed = fx_fract(hit.point.y);
    let rect_top: Fixed = fx_sub(center, fx_mul(height, HALF));
    let rect_bottom: Fixed = fx_add(center, fx_mul(height, HALF));
    let rect_bottom_draw: Fixed = if fx_add(pos_z, rect_bottom) >= h {
        fx_sub(h, pos_z)
    } else {
        rect_bottom
    };
    let ty: Fixed = if fx_add(rect_top, pos_z) <= 0 {
        fx_mul(fx_neg(fx_add(pos_z, rect_top)), ty_step)
    } else if fx_add(rect_top, pos_z) >= h {
        fx_mul(fx_neg(fx_add(pos_z, rect_bottom)), ty_step)
    } else {
        0
    };
    let mut tx: Fixed = match hit.orientation {
        Orientation::N => fx_sub(
            fx_sub(ms.cell_size, ONE),
            fx_floor(fx_mul(inter_x, ms.cell_size)),
        ),
        Orientation::E => fx_mul(inter_y, ms.cell_size),
        Orientation::S => fx_mul(inter_x, ms.cell_size),
        Orientation::W => fx_sub(
            fx_sub(ms.cell_size, ONE),
            fx_floor(fx_mul(inter_y, ms.cell_size)),
        ),
    };
    if hit.wall_type == WOODEN_DOOR {
        let shift: Fixed = fx_mul(fx_sub(ONE, ms.map.door_cover(hit.map_checkv)), LEAF_SPAN);
        let back: bool = match hit.orientation {
            Orientation::N => inter_x < HALF,
            Orientation::E => inter_y > HALF,
            Orientation::S => inter_x > HALF,
            Orientation::W => inter_y < HALF,
        };
        if back {
            tx = fx_sub(tx, shift);
        } else {
            tx = fx_add(tx, shift);
        }
    }
    assert(ms.map_size.0 * ms.map_size.1 >= 0) by (nonlinear_arith)
        requires
            ms.map_size.0 >= 0,
            ms.map_size.1 >= 0,
    ;
    let cell: usize = if up {
        match ms.map_size.0.checked_mul(ms.map_size.1) {
            Some(z) => clipped_sum(hit.map_checkv, z),
            None => usize::MAX,
        }
    } else {
        hit.map_checkv
    };
    Strip {
        tx,
        ty,
        ty_step,
        wall_type: if hit.wall_type == TWO_TIER_WALL && up && !hit.is_up {
            UPPER_TIER_WALL
        } else {
            hit.wall_type
        },
        cell,
        up,
        from: fx_index(fx_add(pos_z, rect_top)),
        to: fx_index(fx_add(pos_z, rect_bottom_draw)),
    }
}

/// Draws into the column `slice` of a screen of the height `h` the wall at
/// `intersection`, `height` rows high around the row `center`, with the
/// horizon shifted by `pos_z` rows.
pub fn draw_wall(
    ms: &MainState,
    slice: &mut [u8],
    h: Fixed,
    intersection: &Intersection,
    center: Fixed,
    height: Fixed,
    pos_z: &Fixed,
)
    ensures
        final(slice)@ == wall_drawn(*ms, old(slice)@, h, *intersection, center, height, *pos_z),
{
    let s = strip(ms, h, intersection, center, height, *pos_z);
    let light: Fixed = flashlight(intersection.distance);
    let mut ty: Fixed = s.ty;
    let mut y: usize = s.from;
    while y < s.to
        invariant
            s == strip_of(*ms, h, *intersection, center, height, *pos_z),
            light == flashlight_at(intersection.distance),
            y <= s.to || y == s.from,
            wall_rows(*ms, slice@, *intersection, s, ty, y as int, s.to as int) == wall_drawn(
                *ms,
                old(slice)@,
                h,
                *intersection,
                center,
                height,
                *pos_z,
            ),
        decreases s.to - y,
    {
        if ty >= TEXTURE_SPAN {
            ty = LAST_TEXEL;
        }
        let texture_position: [usize; 2] = [fx_index(s.tx), band_row(s.wall_type, fx_index(ty))];
        let shade: Fixed = fx_mul(
            ms.torch.intensity,
            ms.lighting_1.get_lighting_wall(
                s.tx,
                fx_mul(ty, THIRDS),
                s.cell,
                &intersection.orientation,
                s.up,
            ),
        );
        if intersection.is_transparent {
            ms.screen.draw_transparent_texture(slice, texture_position, y, shade, light);
        } else {
            ms.screen.draw_texture(slice, texture_position, y, shade, light);
        }
        ty = fx_add(ty, s.ty_step);
        y += 1;
    }
}

/// The columns and rows of the screen that the small map covers: the floor
/// is not drawn in the columns after `MINIMAP_LEFT` and before
/// `MINIMAP_RIGHT` below the row `MINIMAP_TOP`.
pub const MINIMAP_LEFT: usize = 12;

pub const MINIMAP_RIGHT: usize = 154;

pub const MINIMAP_TOP: usize = 805;

/// Whether the small map covers the row `y` of the column `j`.
pub open spec fn behind_minimap(j: usize, y: usize) -> bool {
    j > MINIMAP_LEFT && j < MINIMAP_RIGHT && y > MINIMAP_TOP
}

/// The column `slice` with the rows from `from` up to `to` drawn as floor at
/// the height `height`; where `mask` names the column, without the rows that
/// the small map covers.
pub open spec fn floor_rows(
    ms: MainState,
    slice: Seq<u8>,
    from: int,
    to: int,
    height: Fixed,
    hit: Intersection,
    corrected_distance: Fixed,
    texture: Option<usize>,
    mask: Option<usize>,
) -> Seq<u8>
    decreases to - from,
{
    if from >= to || from < 0 || from > usize::MAX {
        slice
    } else {
        let covered = match mask {
            Some(j) => behind_minimap(j, from as usize),
            None => false,
        };
        floor_rows(
            ms,
            if covered {
                slice
            } else {
                floor_drawn(ms, slice, from as usize, height, hit, corrected_distance, texture)
            },
            from + 1,
            to,
            height,
            hit,
            corrected_distance,
            texture,
            mask,
        )
    }
}

/// Draws the rows from `from` up to `to` of the column `slice` as floor at
/// the height `height`.
pub fn draw_floor_rows(
    ms: &MainState,
    slice: &mut [u8],
    from: usize,
    to: usize,
    height: Fixed,
    intersection: &Intersection,
    corrected_distance: Fixed,
    texture: Option<usize>,
    mask: Option<usize>,
)
    ensures
        final(slice)@ == floor_rows(
            *ms,
            old(slice)@,
            from as int,
            to as int,
            height,
            *intersection,
            corrected_distance,
            texture,
            mask,
        ),
{
    let mut y: usize = from;
    while y < to
        invariant
            floor_rows(
                *ms,
                slice@,
                y as int,
                to as int,
                height,
                *intersection,
                corrected_distance,
                texture,
                mask,
            ) == floor_rows(
                *ms,
                old(slice)@,
                from as int,
                to as int,
                height,
                *intersection,
                corrected_distance,
                texture,
                mask,
            ),
        decreases to - y,
    {
        let covered: bool = match mask {
            Some(j) => j > MINIMAP_LEFT && j < MINIMAP_RIGHT && y > MINIMAP_TOP,
            None => false,
        };
        if !covered {
            draw_floor(y, height, ms, slice, intersection, corrected_distance, texture);
        }
        y += 1;
    }
}

/// How a column of the screen is laid out for the wall that ends its ray:
/// the distance of the wall across the view, the shift `pos_z` of the
/// horizon, the height `rect_h` of the wall in rows, the row `rect_ceiling`
/// where the ceiling ends and the row `rect_floor` where the floor begins,
/// the heights of the floor and of the ceiling, and whether the player looks
/// over the lower tier of the wall (`raised`).
#[derive(Debug, Clone, Copy, PartialEq, Eq, Structural)]
pub struct Layout {
    pub corrected_distance: Fixed,
    pub pos_z: Fixed,
    pub rect_h: Fixed,
    pub rect_ceiling: Fixed,
    pub rect_floor: Fixed,
    pub floor_height: Fixed,
    pub ceiling_height: Fixed,
    pub raised: bool,
}

/// The layout of a column of a screen of the height `h` whose ray, turned
/// from the view by an angle of the cosine `cos`, ends at `hit`.
pub open spec fn layout_of(ms: MainState, hit: Intersection, cos: Fixed, h: Fixed) -> Layout {
    let corrected_distance = prod(hit.distance, cos);
    let pos_z = sum(quot(ms.player.jump, corrected_distance), ms.player.pitch);
    let rect_h = quot(
        rounded(prod(quot(ms.player.planedist, corrected_distance), HUNDRED)),
        HUNDRED,
    );
    let raised = prod(ms.player.jump, TWO) > ms.player.planedist && hit.is_up;
    let rect_floor = prod(sum(h, rect_h), HALF);
    let floor_height = sum(ms.player.planedist, prod(TWO, ms.player.jump));
    Layout {
        corrected_distance,
        pos_z,
        rect_h,
        rect_ceiling: sum(negated(rect_h), prod(diff(h, rect_h), HALF)),
        rect_floor: if raised {
            greater(diff(rect_floor, rect_h), negated(pos_z))
        } else {
            rect_floor
        },
        floor_height: if raised {
            diff(floor_height, prod(TWO, ms.player.planedist))
        } else {
            floor_height
        },
        ceiling_height: sum(prod(MINUS_THREE, ms.player.planedist), prod(TWO, ms.player.jump)),
        raised,
    }
}

/// The layout of a column whose ray ends at `hit`.
pub fn layout(ms: &MainState, hit: &Intersection, cos: Fixed, h: Fixed) -> (l: Layout)
    ensures
        l == layout_of(*ms, *hit, cos, h),
{
    let corrected_distance: Fixed = fx_mul(hit.distance, cos);
    let pos_z: Fixed = fx_add(fx_div(ms.player.jump, corrected_distance), ms.player.pitch);
    let rect_h: Fixed = fx_div(
        fx_round(fx_mul(fx_div(ms.player.planedist, corrected_distance), HUNDRED)),
        HUNDRED,
    );
    let raised: bool = fx_mul(ms.player.jump, TWO) > ms.player.planedist && hit.is_up;
    let rect_floor: Fixed = fx_mul(fx_add(h, rect_h), HALF);
    let floor_height: Fixed = fx_add(ms.player.planedist, fx_mul(TWO, ms.player.jump));
    Layout {
        corrected_distance,
        pos_z,
        rect_h,
        rect_ceiling: fx_add(fx_neg(rect_h), fx_mul(fx_sub(h, rect_h), HALF)),
        rect_floor: if raised {
            fx_max(fx_sub(rect_floor, rect_h), fx_neg(pos_z))
        } else {
            rect_floor
        },
        floor_height: if raised {
            fx_sub(floor_height, fx_mul(TWO, ms.player.planedist))
        } else {
            floor_height
        },
        ceiling_height: fx_add(
            fx_mul(MINUS_THREE, ms.player.planedist),
            fx_mul(TWO, ms.player.jump),
        ),
        raised,
    }
}

/// The column `slice` with what lies behind everything drawn into it: the
/// wall that ends the ray, its lower tier unless the player looks over it
/// and its upper tier, then the floor below it and the ceiling above it.
/// Where the ray was given up there is no wall, and what the column held
/// stays between the floor and the ceiling.
pub open spec fn backdrop_drawn(
    ms: MainState,
    slice: Seq<u8>,
    j: usize,
    h: Fixed,
    hit: Intersection,
    l: Layout,
) -> Seq<u8> {
    let lower = if l.raised || hit.wall_type == TILED_FLOOR {
        slice
    } else {
        wall_drawn(ms, slice, h, hit, prod(h, HALF), l.rect_h, l.pos_z)
    };
    let upper = if hit.wall_type == TILED_FLOOR {
        lower
    } else {
        wall_drawn(
            ms,
            lower,
            h,
            hit,
            diff(prod(h, HALF), quot(ms.player.planedist, l.corrected_distance)),
            l.rect_h,
            l.pos_z,
        )
    };
    let floor = floor_rows(
        ms,
        upper,
        index_of(sum(l.pos_z, l.rect_floor)) as int,
        index_of(h) as int,
        l.floor_height,
        hit,
        l.corrected_distance,
        None,
        Some(j),
    );
    floor_rows(
        ms,
        floor,
        0,
        index_of(sum(lesser(l.rect_ceiling, diff(h, l.pos_z)), l.pos_z)) as int,
        l.ceiling_height,
        hit,
        l.corrected_distance,
        Some(TILED_CEILING),
        None,
    )
}

/// Draws into the column `slice` what lies behind everything.
pub fn draw_backdrop(
    ms: &MainState,
    slice: &mut [u8],
    j: usize,
    h: Fixed,
    intersection: &Intersection,
    l: &Layout,
)
    ensures
        final(slice)@ == backdrop_drawn(*ms, old(slice)@, j, h, *intersection, *l),
{
    if intersection.wall_type != TILED_FLOOR {
        if !l.raised {
            draw_wall(ms, slice, h, intersection, fx_mul(h, HALF), l.rect_h, &l.pos_z);
        }
        draw_wall(
            ms,
            slice,
            h,
            intersection,
            fx_sub(fx_mul(h, HALF), fx_div(ms.player.planedist, l.corrected_distance)),
            l.rect_h,
            &l.pos_z,
        );
    }
    draw_floor_rows(
        ms,
        slice,
        fx_index(fx_add(l.pos_z, l.rect_floor)),
        fx_index(h),
        l.floor_height,
        intersection,
        l.corrected_distance,
        None,
        Some(j),
    );
    let rect_top_draw: Fixed = fx_min(l.rect_ceiling, fx_sub(h, l.pos_z));
    draw_floor_rows(
        ms,
        slice,
        0,
        fx_index(fx_add(rect_top_draw, l.pos_z)),
        l.ceiling_height,
        intersection,
        l.corrected_distance,
        Some(TILED_CEILING),
        None,
    );
}

/// What is drawn over the backdrop of a column: something that a ray saw on
/// its way, or the sprite of the given number.
#[derive(Debug, Clone, Copy, PartialEq, Eq, Structural)]
pub enum TWandSprites {
    TW(Intersection),
    Sprites(usize),
}

impl TWandSprites {
    /// The square of the distance by which the layers are ordered.
    pub open spec fn spec_distance2(self, sprites: Seq<Sprite>) -> Fixed {
        match self {
            TWandSprites::TW(tw) => prod(tw.distance, tw.distance),
            TWandSprites::Sprites(i) => if i < sprites.len() {
                sprites[i as int].distance2
            } else {
                0
            },
        }
    }

    /// The square of the distance by which the layers are ordered.
    pub fn distance2(&self, sprites: &Vec<Sprite>) -> (d: Fixed)
        ensures
            d == self.spec_distance2(sprites@),
    {
        match self {
            TWandSprites::TW(tw) => fx_mul(tw.distance, tw.distance),
            TWandSprites::Sprites(i) => if *i < sprites.len() {
                sprites[*i].distance2
            } else {
                0
            },
        }
    }
}

/// The distance by which the layers of a column are ordered.
pub open spec fn layer_distance(sprites: Seq<Sprite>) -> spec_fn(TWandSprites) -> int {
    |e: TWandSprites| e.spec_distance2(sprites) as int
}

/// The layers of `list` from the farthest to the nearest; those equally far
/// stay in the order of the list.
pub open spec fn layers_sorted(sprites: Seq<Sprite>, list: Seq<TWandSprites>) -> Seq<TWandSprites> {
    far_first(layer_distance(sprites), list)
}

/// What a ray saw on its way, followed by the `count` sprites.
pub open spec fn layers_of(hits: Seq<Intersection>, count: nat) -> Seq<TWandSprites> {
    Seq::new(
        hits.len() + count,
        |i: int|
            if i < hits.len() {
                TWandSprites::TW(hits[i])
            } else {
                TWandSprites::Sprites((i - hits.len()) as usize)
            },
    )
}

/// The layers in the order in which a column draws them: with nothing seen
/// on the ray's way the sprites as they come, else all from the farthest to
/// the nearest.
pub open spec fn layers_in_order(sprites: Seq<Sprite>, hits: Seq<Intersection>) -> Seq<TWandSprites> {
    if hits.len() == 0 {
        layers_of(hits, sprites.len())
    } else {
        layers_sorted(sprites, layers_of(hits, sprites.len()))
    }
}

/// Puts `e` into `sorted` behind all layers that are at least as far.
fn insert_layer(sprites: &Vec<Sprite>, sorted: &mut Vec<TWandSprites>, e: TWandSprites)
    ensures
        final(sorted)@ == inserted(layer_distance(sprites@), old(sorted)@, e),
{
    let key: Fixed = e.distance2(sprites);
    let mut p: usize = 0;
    while p < sorted.len() && sorted[p].distance2(sprites) >= key
        invariant
            p <= sorted@.len(),
            sorted@ == old(sorted)@,
            key == e.spec_distance2(sprites@),
            forall|i: int|
                0 <= i < p ==> (#[trigger] sorted@[i]).spec_distance2(sprites@) >= key,
        decreases sorted@.len() - p,
    {
        p += 1;
    }
    proof {
        lemma_inserted_at(layer_distance(sprites@), sorted@, e, p as int);
    }
    sorted.insert(p, e);
}

/// The layers of a column in the order in which it draws them.
pub fn order_layers(sprites: &Vec<Sprite>, hits: &Vec<Intersection>) -> (layers: Vec<TWandSprites>)
    ensures
        layers@ == layers_in_order(sprites@, hits@),
{
    let ghost list = layers_of(hits@, sprites@.len());
    let sort: bool = hits.len() > 0;
    let mut layers: Vec<TWandSprites> = Vec::new();
    let mut i: usize = 0;
    while i < hits.len()
        invariant
            i <= hits@.len(),
            list == layers_of(hits@, sprites@.len()),
            layers@ == layers_sorted(sprites@, list.subrange(0, i as int)),
        decreases hits@.len() - i,
    {
        proof {
            assert(list.subrange(0, i + 1).drop_last() =~= list.subrange(0, i as int));
        }
        insert_layer(sprites, &mut layers, TWandSprites::TW(hits[i]));
        i += 1;
    }
    let mut k: usize = 0;
    while k < sprites.len()
        invariant
            k <= sprites@.len(),
            sort == (hits@.len() > 0),
            list == layers_of(hits@, sprites@.len()),
            sort ==> layers@ == layers_sorted(sprites@, list.subrange(0, hits@.len() + k)),
            !sort ==> layers@ == list.subrange(0, k as int),
        decreases sprites@.len() - k,
    {
        if sort {
            proof {
                assert(list.subrange(0, hits@.len() + k + 1).drop_last() =~= list.subrange(
                    0,
                    hits@.len() + k,
                ));
            }
            insert_layer(sprites, &mut layers, TWandSprites::Sprites(k));
        } else {
            layers.push(TWandSprites::Sprites(k));
            assert(layers@ =~= list.subrange(0, k + 1));
        }
        k += 1;
    }
    proof {
        assert(list.subrange(0, list.len() as int) =~= list);
    }
    layers
}

/// The column `slice` with the layer `e` drawn over it: a sprite where it
/// shows before the wall, a cobweb or bars as a wall that is seen through,
/// and stairs, met from the side, step by step.
pub open spec fn layer_drawn(
    ms: MainState,
    slice: Seq<u8>,
    j: usize,
    h: Fixed,
    cos: Fixed,
    hit: Intersection,
    l: Layout,
    e: TWandSprites,
) -> Seq<u8> {
    match e {
        TWandSprites::Sprites(i) => if i < ms.sprites@.len() {
            ms.sprites@[i as int].drawn(ms.screen, ms.player, slice, j, l.corrected_distance)
        } else {
            slice
        },
        TWandSprites::TW(tw) => {
            let near = prod(tw.distance, cos);
            if tw.wall_type == COBWEB || tw.wall_type == METAL_BARS {
                wall_drawn(
                    ms,
                    slice,
                    h,
                    tw,
                    prod(h, HALF),
                    quot(ms.player.planedist, near),
                    sum(ms.player.pitch, quot(ms.player.jump, near)),
                )
            } else if tw.wall_type == STAIRS && (tw.orientation == Orientation::W
                || tw.orientation == Orientation::E) {
                stairs_drawn(ms, slice, h, tw, cos, hit, l)
            } else {
                slice
            }
        },
    }
}

/// The column `slice` with the layers from the place `from` on drawn over
/// it, one after the other.
pub open spec fn layers_drawn(
    ms: MainState,
    slice: Seq<u8>,
    j: usize,
    h: Fixed,
    cos: Fixed,
    hit: Intersection,
    l: Layout,
    layers: Seq<TWandSprites>,
    from: int,
) -> Seq<u8>
    decreases layers.len() - from,
{
    if from < 0 || from >= layers.len() {
        slice
    } else {
        layers_drawn(
            ms,
            layer_drawn(ms, slice, j, h, cos, hit, l, layers[from]),
            j,
            h,
            cos,
            hit,
            l,
            layers,
            from + 1,
        )
    }
}

/// What the column `j` of a screen of the height `h` shows, drawn over
/// `slice`: behind everything the wall that ends the ray of the column with
/// the floor and the ceiling before it, and over that, from the farthest to
/// the nearest, what the ray saw on its way and the sprites. A column
/// without a ray is left as it is.
pub open spec fn slice_drawn(ms: MainState, slice: Seq<u8>, j: usize, h: Fixed) -> Seq<u8> {
    if j >= ms.angles@.len() {
        slice
    } else {
        let theta = ms.angles@[j as int];
        let (hit, hits) = ray_cast(
            ms.map,
            ms.map_size,
            ms.player.pos,
            ms.player.dir_norm.rotated(theta),
            ms.player.current_wall == STAIRS,
        );
        let l = layout_of(ms, hit, theta.cos, h);
        layers_drawn(
            ms,
            backdrop_drawn(ms, slice, j, h, hit, l),
            j,
            h,
            theta.cos,
            hit,
            l,
            layers_in_order(ms.sprites@, hits),
            0,
        )
    }
}

/// Draws the layer `e` over the column `slice`.
pub fn draw_layer(
    ms: &MainState,
    slice: &mut [u8],
    j: usize,
    h: Fixed,
    cos: Fixed,
    intersection: &Intersection,
    l: &Layout,
    e: &TWandSprites,
)
    ensures
        final(slice)@ == layer_drawn(*ms, old(slice)@, j, h, cos, *intersection, *l, *e),
{
    match e {
        TWandSprites::Sprites(i) => {
            if *i < ms.sprites.len() {
                ms.sprites[*i].draw(slice, &ms.player, j, &ms.screen, l.corrected_distance);
            }
        },
        TWandSprites::TW(tw) => {
            let tw_corrected_distance: Fixed = fx_mul(tw.distance, cos);
            if tw.wall_type == COBWEB || tw.wall_type == METAL_BARS {
                draw_wall(
                    ms,
                    slice,
                    h,
                    tw,
                    fx_mul(h, HALF),
                    fx_div(ms.player.planedist, tw_corrected_distance),
                    &fx_add(ms.player.pitch, fx_div(ms.player.jump, tw_corrected_distance)),
                );
            } else if tw.wall_type == STAIRS {
                let from_the_side: bool = match tw.orientation {
                    Orientation::W => true,
                    Orientation::E => true,
                    _ => false,
                };
                if from_the_side {
                    draw_stairs(ms, slice, h, tw, cos, intersection, l);
                }
            }
        },
    }
}

/// Draws the column `j` of a screen of the height `h` into `slice`.
pub fn draw_slice(ms: &MainState, slice: &mut [u8], j: usize, h: Fixed)
    ensures
        final(slice)@ == slice_drawn(*ms, old(slice)@, j, h),
{
    if j >= ms.angles.len() {
        return ;
    }
    let theta = ms.angles[j];
    let (intersection, transparent_walls) = calculate_ray(ms, ms.player.dir_norm, theta);
    let l = layout(ms, &intersection, theta.cos, h);
    draw_backdrop(ms, slice, j, h, &intersection, &l);
    let twandsp = order_layers(&ms.sprites, &transparent_walls);
    let ghost back = slice@;
    let mut i: usize = 0;
    while i < twandsp.len()
        invariant
            i <= twandsp@.len(),
            layers_drawn(*ms, slice@, j, h, theta.cos, intersection, l, twandsp@, i as int)
                == layers_drawn(*ms, back, j, h, theta.cos, intersection, l, twandsp@, 0),
        decreases twandsp@.len() - i,
    {
        draw_layer(ms, slice, j, h, theta.cos, &intersection, &l, &twandsp[i]);
        i += 1;
    }
}

/// A row of floor that is drawn changes the four bytes of its pixel and
/// nothing else.
pub proof fn lemma_floor_draws_one_pixel(
    ms: MainState,
    slice: Seq<u8>,
    y: usize,
    height: Fixed,
    hit: Intersection,
    corrected_distance: Fixed,
    texture: Option<usize>,
)
    ensures
        changed_within(
            slice,
            floor_drawn(ms, slice, y, height, hit, corrected_distance, texture),
            4 * y,
            4 * y + 4,
        ),
{
    if !(y >= ms.buffer_floors@.len() || ms.buffer_floors@[y as int] == 0) {
        let (at, current_dist) = floor_point(ms, y, height, hit, corrected_distance);
        let location = clipped(index_of(at.x) + index_of(at.y) * ms.map_size.0);
        let ftx = (index_of(prod(at.x, TEXTURE_SPAN)) % TEXTURE_SIZE) as usize;
        let fty = (index_of(prod(at.y, TEXTURE_SPAN)) % TEXTURE_SIZE) as usize;
        let shade = prod(
            ms.torch.intensity,
            ms.lighting_1.floor_light(of_index(ftx), of_index(fty), location),
        );
        match texture {
            Some(t) => {
                lemma_screen_draws_one_pixel(
                    ms.screen,
                    slice,
                    (ftx, clipped(t * TEXTURE_SIZE + fty)),
                    y,
                    shade,
                    flashlight_at(current_dist),
                );
            },
            None => {
                if location < ms.map.floors@.len() {
                    lemma_screen_draws_one_pixel(
                        ms.screen,
                        slice,
                        (ftx, clipped(ms.map.floors@[location as int] * TEXTURE_SIZE + fty)),
                        y,
                        shade,
                        flashlight_at(current_dist),
                    );
                }
            },
        }
    }
}

/// Rows of floor that are drawn change the bytes of those rows and nothing
/// else.
pub proof fn lemma_floor_rows_draw_their_rows(
    ms: MainState,
    slice: Seq<u8>,
    from: int,
    to: int,
    height: Fixed,
    hit: Intersection,
    corrected_distance: Fixed,
    texture: Option<usize>,
    mask: Option<usize>,
)
    ensures
        changed_within(
            slice,
            floor_rows(ms, slice, from, to, height, hit, corrected_distance, texture, mask),
            4 * from,
            4 * to,
        ),
    decreases to - from,
{
    if !(from >= to || from < 0 || from > usize::MAX) {
        let covered = match mask {
            Some(j) => behind_minimap(j, from as usize),
            None => false,
        };
        let next = if covered {
            slice
        } else {
            floor_drawn(ms, slice, from as usize, height, hit, corrected_distance, texture)
        };
        lemma_floor_draws_one_pixel(
            ms,
            slice,
            from as usize,
            height,
            hit,
            corrected_distance,
            texture,
        );
        lemma_floor_rows_draw_their_rows(
            ms,
            next,
            from + 1,
            to,
            height,
            hit,
            corrected_distance,
            texture,
            mask,
        );
    }
}

/// The rows of a strip of wall that are drawn change the bytes of those rows
/// and nothing else.
pub proof fn lemma_wall_rows_draw_their_rows(
    ms: MainState,
    slice: Seq<u8>,
    hit: Intersection,
    s: Strip,
    ty: Fixed,
    from: int,
    to: int,
)
    ensures
        changed_within(slice, wall_rows(ms, slice, hit, s, ty, from, to), 4 * from, 4 * to),
    decreases to - from,
{
    if !(from >= to || from < 0 || from > usize::MAX) {
        let at = (index_of(s.tx), clipped(s.wall_type * TEXTURE_SIZE + index_of(capped(ty))));
        let shade = prod(
            ms.torch.intensity,
            ms.lighting_1.wall_light(s.tx, prod(capped(ty), THIRDS), s.cell, hit.orientation, s.up),
        );
        lemma_screen_draws_one_pixel(
            ms.screen,
            slice,
            at,
            from as usize,
            shade,
            flashlight_at(hit.distance),
        );
        lemma_wall_rows_draw_their_rows(
            ms,
            wall_pixel(ms, slice, hit, s, capped(ty), from as usize),
            hit,
            s,
            sum(capped(ty), s.ty_step),
            from + 1,
            to,
        );
    }
}

/// A wall that is drawn leaves the column as long as it was.
pub proof fn lemma_wall_keeps_the_column(
    ms: MainState,
    slice: Seq<u8>,
    h: Fixed,
    hit: Intersection,
    center: Fixed,
    height: Fixed,
    pos_z: Fixed,
)
    ensures
        wall_drawn(ms, slice, h, hit, center, height, pos_z).len() == slice.len(),
{
    let s = strip_of(ms, h, hit, center, height, pos_z);
    lemma_wall_rows_draw_their_rows(ms, slice, hit, s, s.ty, s.from as int, s.to as int);
}

/// The backdrop that is drawn leaves the column as long as it was.
pub proof fn lemma_backdrop_keeps_the_column(
    ms: MainState,
    slice: Seq<u8>,
    j: usize,
    h: Fixed,
    hit: Intersection,
    l: Layout,
)
    ensures
        backdrop_drawn(ms, slice, j, h, hit, l).len() == slice.len(),
{
    let lower = if l.raised || hit.wall_type == TILED_FLOOR {
        slice
    } else {
        wall_drawn(ms, slice, h, hit, prod(h, HALF), l.rect_h, l.pos_z)
    };
    lemma_wall_keeps_the_column(ms, slice, h, hit, prod(h, HALF), l.rect_h, l.pos_z);
    let upper = if hit.wall_type == TILED_FLOOR {
        lower
    } else {
        wall_drawn(
            ms,
            lower,
            h,
            hit,
            diff(prod(h, HALF), quot(ms.player.planedist, l.corrected_distance)),
            l.rect_h,
            l.pos_z,
        )
    };
    lemma_wall_keeps_the_column(
        ms,
        lower,
        h,
        hit,
        diff(prod(h, HALF), quot(ms.player.planedist, l.corrected_distance)),
        l.rect_h,
        l.pos_z,
    );
    let floor = floor_rows(
        ms,
        upper,
        index_of(sum(l.pos_z, l.rect_floor)) as int,
        index_of(h) as int,
        l.floor_height,
        hit,
        l.corrected_distance,
        None,
        Some(j),
    );
    lemma_floor_rows_draw_their_rows(
        ms,
        upper,
        index_of(sum(l.pos_z, l.rect_floor)) as int,
        index_of(h) as int,
        l.floor_height,
        hit,
        l.corrected_distance,
        None,
        Some(j),
    );
    lemma_floor_rows_draw_their_rows(
        ms,
        floor,
        0,
        index_of(sum(lesser(l.rect_ceiling, diff(h, l.pos_z)), l.pos_z)) as int,
        l.ceiling_height,
        hit,
        l.corrected_distance,
        Some(TILED_CEILING),
        None,
    );
}

/// A layer that is drawn leaves the column as long as it was.
pub proof fn lemma_layer_keeps_the_column(
    ms: MainState,
    slice: Seq<u8>,
    j: usize,
    h: Fixed,
    cos: Fixed,
    hit: Intersection,
    l: Layout,
    e: TWandSprites,
)
    ensures
        layer_drawn(ms, slice, j, h, cos, hit, l, e).len() == slice.len(),
{
    match e {
        TWandSprites::Sprites(i) => {
            if i < ms.sprites@.len() {
                lemma_sprite_keeps_the_column(
                    ms.sprites@[i as int],
                    ms.screen,
                    ms.player,
                    slice,
                    j,
                    l.corrected_distance,
                );
            }
        },
        TWandSprites::TW(tw) => {
            let near = prod(tw.distance, cos);
            lemma_wall_keeps_the_column(
                ms,
                slice,
                h,
                tw,
                prod(h, HALF),
                quot(ms.player.planedist, near),
                sum(ms.player.pitch, quot(ms.player.jump, near)),
            );
            lemma_stairs_keep_the_column(ms, slice, h, tw, cos, hit, l);
        },
    }
}

/// The layers that are drawn leave the column as long as it was.
pub proof fn lemma_layers_keep_the_column(
    ms: MainState,
    slice: Seq<u8>,
    j: usize,
    h: Fixed,
    cos: Fixed,
    hit: Intersection,
    l: Layout,
    layers: Seq<TWandSprites>,
    from: int,
)
    ensures
        layers_drawn(ms, slice, j, h, cos, hit, l, layers, from).len() == slice.len(),
    decreases layers.len() - from,
{
    if !(from < 0 || from >= layers.len()) {
        lemma_layer_keeps_the_column(ms, slice, j, h, cos, hit, l, layers[from]);
        lemma_layers_keep_the_column(
            ms,
            layer_drawn(ms, slice, j, h, cos, hit, l, layers[from]),
            j,
            h,
            cos,
            hit,
            l,
            layers,
            from + 1,
        );
    }
}

/// To draw a column changes no byte outside of it: the column is as long
/// after as before.
pub proof fn lemma_slice_keeps_its_length(ms: MainState, slice: Seq<u8>, j: usize, h: Fixed)
    ensures
        slice_drawn(ms, slice, j, h).len() == slice.len(),
{
    if j < ms.angles@.len() {
        let theta = ms.angles@[j as int];
        let (hit, hits) = ray_cast(
            ms.map,
            ms.map_size,
            ms.player.pos,
            ms.player.dir_norm.rotated(theta),
            ms.player.current_wall == STAIRS,
        );
        let l = layout_of(ms, hit, theta.cos, h);
        lemma_backdrop_keeps_the_column(ms, slice, j, h, hit, l);
        lemma_layers_keep_the_column(
            ms,
            backdrop_drawn(ms, slice, j, h, hit, l),
            j,
            h,
            theta.cos,
            hit,
            l,
            layers_in_order(ms.sprites@, hits),
            0,
        );
    }
}

} // verus!
