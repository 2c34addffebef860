//! A flight of stairs as a column of the screen shows it: eight steps, each
//! a riser and a tread.

use vstd::prelude::*;
use crate::{MainState, Orientation};
use crate::fixed::{
    Fixed, ceiling, diff, frac, fx_add, fx_ceil, fx_div, fx_fract, fx_from_index, fx_index,
    fx_min, fx_mul, fx_sqrt, fx_sub, index_of, lesser, of_index, prod, quot, root, sum, EIGHT,
    EIGHTH, FIVE, FOUR, HALF, MINUS_TWO, ONE, QUARTER, SEVEN, SIXTEEN, SIXTEENTH, THREE, TWO,
};
use crate::map::{STAIRS, STAIRS_TOP, TILED_FLOOR};
use crate::ray::{cell_index, wall_code_at};
use crate::render::{
    draw_floor_rows, draw_wall, floor_rows, lemma_floor_rows_draw_their_rows,
    lemma_wall_keeps_the_column, wall_drawn, Intersection, Layout,
};
use crate::utilities::vector2::Vector2;

verus! {

/// The number of the last step of a flight.
pub const LAST_STEP: usize = 7;

/// A flight of stairs seen along a ray: the slope of the ray, the length of
/// ray from one riser to the next, and the first step that the player sees.
#[derive(Debug, Clone, Copy, PartialEq, Eq, Structural)]
pub struct Flight {
    pub slope: Fixed,
    pub delta_distance: Fixed,
    pub start: usize,
}

/// The flight whose foot the ray meets at `tw`.
pub open spec fn flight_of(ms: MainState, tw: Intersection) -> Flight {
    let slope = quot(diff(ms.player.pos.y, tw.point.y), diff(ms.player.pos.x, tw.point.x));
    let iy = sum(prod(slope, diff(sum(tw.point.x, QUARTER), ms.player.pos.x)), ms.player.pos.y);
    Flight {
        slope,
        delta_distance: root(sum(SIXTEENTH, prod(diff(iy, tw.point.y), diff(iy, tw.point.y)))),
        start: if ms.player.current_wall == STAIRS {
            index_of(ceiling(prod(frac(ms.player.pos.x), FOUR)))
        } else {
            1
        },
    }
}

/// Where the ray meets the riser of the step `i`.
pub open spec fn riser_of(ms: MainState, tw: Intersection, f: Flight, i: usize) -> Intersection {
    let x = sum(tw.point.x, quot(of_index(i), FOUR));
    Intersection {
        point: Vector2 { x, y: sum(prod(f.slope, diff(x, ms.player.pos.x)), ms.player.pos.y) },
        distance: sum(tw.distance, prod(f.delta_distance, of_index(i))),
        map_checkv: tw.map_checkv,
        orientation: Orientation::E,
        wall_type: STAIRS,
        is_transparent: false,
        is_up: false,
    }
}

/// The height of the tread of the step `i` below the eyes.
pub open spec fn tread_height(ms: MainState, i: usize) -> Fixed {
    sum(prod(ms.player.planedist, diff(ONE, quot(of_index(i), FOUR))), prod(TWO, ms.player.jump))
}

/// The row of the screen at which a point shows that lies at the distance
/// `distance` across the view and at `part` of the height of a wall below
/// the horizon.
pub open spec fn row_at(ms: MainState, h: Fixed, distance: Fixed, part: Fixed) -> Fixed {
    sum(
        sum(sum(ms.player.pitch, quot(ms.player.jump, distance)), prod(h, HALF)),
        prod(quot(ms.player.planedist, distance), part),
    )
}

/// The column `slice` with the step `i` of the flight drawn into it, if the
/// ray meets the step near the foot of the flight: on stairs its riser and
/// its tread, elsewhere its tread if that lies below the eyes.
pub open spec fn step_drawn(
    ms: MainState,
    slice: Seq<u8>,
    h: Fixed,
    tw: Intersection,
    f: Flight,
    i: usize,
    cos: Fixed,
    hit: Intersection,
    l: Layout,
) -> Seq<u8> {
    let tw2 = riser_of(ms, tw, f, i);
    if !(tw2.point.y > diff(tw.point.y, FIVE) && tw2.point.y < sum(tw.point.y, FIVE)) {
        slice
    } else {
        let near = prod(tw2.distance, cos);
        let far = prod(diff(tw2.distance, f.delta_distance), cos);
        let code = ms.map.wall_at(cell_index(ms.map_size, tw2.point));
        let to = index_of(lesser(row_at(ms, h, far, quot(diff(FOUR, of_index(i)), EIGHT)), h));
        if code == STAIRS || code == STAIRS_TOP {
            let riser = wall_drawn(
                ms,
                slice,
                h,
                tw2,
                sum(
                    prod(h, HALF),
                    prod(
                        quot(ms.player.planedist, near),
                        sum(quot(diff(THREE, of_index(i)), EIGHT), SIXTEENTH),
                    ),
                ),
                quot(prod(EIGHTH, ms.player.planedist), near),
                sum(ms.player.pitch, quot(ms.player.jump, near)),
            );
            floor_rows(
                ms,
                riser,
                index_of(row_at(ms, h, near, sum(quot(diff(THREE, of_index(i)), EIGHT), EIGHTH)))
                    as int,
                to as int,
                tread_height(ms, i),
                hit,
                l.corrected_distance,
                Some(TILED_FLOOR),
                None,
            )
        } else if prod(ms.player.planedist, diff(ONE, quot(of_index(i), FOUR))) > prod(
            MINUS_TWO,
            ms.player.jump,
        ) {
            floor_rows(
                ms,
                slice,
                index_of(
                    sum(
                        sum(l.pos_z, prod(h, HALF)),
                        quot(prod(l.rect_h, diff(FOUR, of_index(i))), EIGHT),
                    ),
                ) as int,
                to as int,
                tread_height(ms, i),
                hit,
                l.corrected_distance,
                Some(TILED_FLOOR),
                None,
            )
        } else {
            slice
        }
    }
}

/// The column `slice` with the steps from `i` down to `start` drawn into it,
/// the farthest first.
pub open spec fn steps_drawn(
    ms: MainState,
    slice: Seq<u8>,
    h: Fixed,
    tw: Intersection,
    f: Flight,
    i: int,
    start: int,
    cos: Fixed,
    hit: Intersection,
    l: Layout,
) -> Seq<u8>
    decreases i - start + 1,
{
    if i < start || i < 0 || i > usize::MAX {
        slice
    } else {
        steps_drawn(
            ms,
            step_drawn(ms, slice, h, tw, f, i as usize, cos, hit, l),
            h,
            tw,
            f,
            i - 1,
            start,
            cos,
            hit,
            l,
        )
    }
}

/// The column `slice` with the flight of stairs drawn into it whose foot the
/// ray meets at `tw`: its steps from the last down to the first that the
/// player sees, then the riser at its foot.
pub open spec fn stairs_drawn(
    ms: MainState,
    slice: Seq<u8>,
    h: Fixed,
    tw: Intersection,
    cos: Fixed,
    hit: Intersection,
    l: Layout,
) -> Seq<u8> {
    let f = flight_of(ms, tw);
    let near = prod(tw.distance, cos);
    wall_drawn(
        ms,
        steps_drawn(ms, slice, h, tw, f, LAST_STEP as int, f.start as int, cos, hit, l),
        h,
        tw,
        sum(prod(h, HALF), quot(prod(quot(ms.player.planedist, near), SEVEN), SIXTEEN)),
        quot(prod(EIGHTH, ms.player.planedist), near),
        sum(ms.player.pitch, quot(ms.player.jump, near)),
    )
}

/// The flight whose foot the ray meets at `tw`.
pub fn flight(ms: &MainState, tw: &Intersection) -> (f: Flight)
    ensures
        f == flight_of(*ms, *tw),
{
    let slope: Fixed = fx_div(
        fx_sub(ms.player.pos.y, tw.point.y),
        fx_sub(ms.player.pos.x, tw.point.x),
    );
    let iy: Fixed = fx_add(
        fx_mul(slope, fx_sub(fx_add(tw.point.x, QUARTER), ms.player.pos.x)),
        ms.player.pos.y,
    );
    let rise: Fixed = fx_sub(iy, tw.point.y);
    Flight {
        slope,
        delta_distance: fx_sqrt(fx_add(SIXTEENTH, fx_mul(rise, rise))),
        start: if ms.player.current_wall == STAIRS {
            fx_index(fx_ceil(fx_mul(fx_fract(ms.player.pos.x), FOUR)))
        } else {
            1
        },
    }
}

/// The row of the screen at which a point of the given distance and part of
/// the height of a wall shows.
pub fn row(ms: &MainState, h: Fixed, distance: Fixed, part: Fixed) -> (r: Fixed)
    ensures
        r == row_at(*ms, h, distance, part),
{
    fx_add(
        fx_add(fx_add(ms.player.pitch, fx_div(ms.player.jump, distance)), fx_mul(h, HALF)),
        fx_mul(fx_div(ms.player.planedist, distance), part),
    )
}

/// Draws the step `i` of the flight into the column `slice`.
pub fn draw_step(
    ms: &MainState,
    slice: &mut [u8],
    h: Fixed,
    tw: &Intersection,
    f: &Flight,
    i: usize,
    cos: Fixed,
    intersection: &Intersection,
    l: &Layout,
)
    ensures
        final(slice)@ == step_drawn(*ms, old(slice)@, h, *tw, *f, i, cos, *intersection, *l),
{
    let fi: Fixed = fx_from_index(i);
    let x: Fixed = fx_add(tw.point.x, fx_div(fi, FOUR));
    let tw2 = Intersection {
        point: Vector2 {
            x,
            y: fx_add(fx_mul(f.slope, fx_sub(x, ms.player.pos.x)), ms.player.pos.y),
        },
        distance: fx_add(tw.distance, fx_mul(f.delta_distance, fi)),
        map_checkv: tw.map_checkv,
        orientation: Orientation::E,
        wall_type: STAIRS,
        is_transparent: false,
        is_up: false,
    };
    if !(tw2.point.y > fx_sub(tw.point.y, FIVE) && tw2.point.y < fx_add(tw.point.y, FIVE)) {
        return ;
    }
    let near: Fixed = fx_mul(tw2.distance, cos);
    let far: Fixed = fx_mul(fx_sub(tw2.distance, f.delta_distance), cos);
    let code: usize = wall_code_at(&ms.map, ms.map_size, tw2.point);
    let to: usize = fx_index(fx_min(row(ms, h, far, fx_div(fx_sub(FOUR, fi), EIGHT)), h));
    let height: Fixed = fx_add(
        fx_mul(ms.player.planedist, fx_sub(ONE, fx_div(fi, FOUR))),
        fx_mul(TWO, ms.player.jump),
    );
    if code == STAIRS || code == STAIRS_TOP {
        draw_wall(
            ms,
            slice,
            h,
            &tw2,
            fx_add(
                fx_mul(h, HALF),
                fx_mul(
                    fx_div(ms.player.planedist, near),
                    fx_add(fx_div(fx_sub(THREE, fi), EIGHT), SIXTEENTH),
                ),
            ),
            fx_div(fx_mul(EIGHTH, ms.player.planedist), near),
            &fx_add(ms.player.pitch, fx_div(ms.player.jump, near)),
        );
        draw_floor_rows(
            ms,
            slice,
            fx_index(row(ms, h, near, fx_add(fx_div(fx_sub(THREE, fi), EIGHT), EIGHTH))),
            to,
            height,
            intersection,
            l.corrected_distance,
            Some(TILED_FLOOR),
            None,
        );
    } else if fx_mul(ms.player.planedist, fx_sub(ONE, fx_div(fi, FOUR))) > fx_mul(
        MINUS_TWO,
        ms.player.jump,
    ) {
        draw_floor_rows(
            ms,
            slice,
            fx_index(
                fx_add(
                    fx_add(l.pos_z, fx_mul(h, HALF)),
                    fx_div(fx_mul(l.rect_h, fx_sub(FOUR, fi)), EIGHT),
                ),
            ),
            to,
            height,
            intersection,
            l.corrected_distance,
            Some(TILED_FLOOR),
            None,
        );
    }
}

/// Draws into the column `slice` the flight of stairs whose foot the ray
/// meets at `tw`.
pub fn draw_stairs(
    ms: &MainState,
    slice: &mut [u8],
    h: Fixed,
    tw: &Intersection,
    cos: Fixed,
    intersection: &Intersection,
    l: &Layout,
)
    ensures
        final(slice)@ == stairs_drawn(*ms, old(slice)@, h, *tw, cos, *intersection, *l),
{
    let f = flight(ms, tw);
    if f.start <= LAST_STEP {
        let mut i: usize = LAST_STEP;
        loop
            invariant_except_break
                steps_drawn(
                    *ms,
                    slice@,
                    h,
                    *tw,
                    f,
                    i as int,
                    f.start as int,
                    cos,
                    *intersection,
                    *l,
                ) == steps_drawn(
                    *ms,
                    old(slice)@,
                    h,
                    *tw,
                    f,
                    LAST_STEP as int,
                    f.start as int,
                    cos,
                    *intersection,
                    *l,
                ),
            invariant
                f.start <= i <= LAST_STEP,
            ensures
                slice@ == steps_drawn(
                    *ms,
                    old(slice)@,
                    h,
                    *tw,
                    f,
                    LAST_STEP as int,
                    f.start as int,
                    cos,
                    *intersection,
                    *l,
                ),
            decreases i - f.start,
        {
            let ghost before = slice@;
            draw_step(ms, slice, h, tw, &f, i, cos, intersection, l);
            if i == f.start {
                assert(steps_drawn(
                    *ms,
                    slice@,
                    h,
                    *tw,
                    f,
                    i - 1,
                    f.start as int,
                    cos,
                    *intersection,
                    *l,
                ) == slice@);
                break ;
            }
            i -= 1;
        }
    }
    let near: Fixed = fx_mul(tw.distance, cos);
    draw_wall(
        ms,
        slice,
        h,
        tw,
        fx_add(
            fx_mul(h, HALF),
            fx_div(fx_mul(fx_div(ms.player.planedist, near), SEVEN), SIXTEEN),
        ),
        fx_div(fx_mul(EIGHTH, ms.player.planedist), near),
        &fx_add(ms.player.pitch, fx_div(ms.player.jump, near)),
    );
}

/// A step that is drawn leaves the column as long as it was.
pub proof fn lemma_step_keeps_the_column(
    ms: MainState,
    slice: Seq<u8>,
    h: Fixed,
    tw: Intersection,
    f: Flight,
    i: usize,
    cos: Fixed,
    hit: Intersection,
    l: Layout,
)
    ensures
        step_drawn(ms, slice, h, tw, f, i, cos, hit, l).len() == slice.len(),
{
    let tw2 = riser_of(ms, tw, f, i);
    let near = prod(tw2.distance, cos);
    let far = prod(diff(tw2.distance, f.delta_distance), cos);
    let to = index_of(lesser(row_at(ms, h, far, quot(diff(FOUR, of_index(i)), EIGHT)), h));
    let center = sum(
        prod(h, HALF),
        prod(
            quot(ms.player.planedist, near),
            sum(quot(diff(THREE, of_index(i)), EIGHT), SIXTEENTH),
        ),
    );
    let height = quot(prod(EIGHTH, ms.player.planedist), near);
    let pos_z = sum(ms.player.pitch, quot(ms.player.jump, near));
    lemma_wall_keeps_the_column(ms, slice, h, tw2, center, height, pos_z);
    lemma_floor_rows_draw_their_rows(
        ms,
        wall_drawn(ms, slice, h, tw2, center, height, pos_z),
        index_of(row_at(ms, h, near, sum(quot(diff(THREE, of_index(i)), EIGHT), EIGHTH))) as int,
        to as int,
        tread_height(ms, i),
        hit,
        l.corrected_distance,
        Some(TILED_FLOOR),
        None,
    );
    lemma_floor_rows_draw_their_rows(
        ms,
        slice,
        index_of(
            sum(sum(l.pos_z, prod(h, HALF)), quot(prod(l.rect_h, diff(FOUR, of_index(i))), EIGHT)),
        ) as int,
        to as int,
        tread_height(ms, i),
        hit,
        l.corrected_distance,
        Some(TILED_FLOOR),
        None,
    );
}

/// The steps that are drawn leave the column as long as it was.
pub proof fn lemma_steps_keep_the_column(
    ms: MainState,
    slice: Seq<u8>,
    h: Fixed,
    tw: Intersection,
    f: Flight,
    i: int,
    start: int,
    cos: Fixed,
    hit: Intersection,
    l: Layout,
)
    ensures
        steps_drawn(ms, slice, h, tw, f, i, start, cos, hit, l).len() == slice.len(),
    decreases i - start + 1,
{
    if !(i < start || i < 0 || i > usize::MAX) {
        lemma_step_keeps_the_column(ms, slice, h, tw, f, i as usize, cos, hit, l);
        lemma_steps_keep_the_column(
            ms,
            step_drawn(ms, slice, h, tw, f, i as usize, cos, hit, l),
            h,
            tw,
            f,
            i - 1,
            start,
            cos,
            hit,
            l,
        );
    }
}

/// Stairs that are drawn leave the column as long as it was.
pub proof fn lemma_stairs_keep_the_column(
    ms: MainState,
    slice: Seq<u8>,
    h: Fixed,
    tw: Intersection,
    cos: Fixed,
    hit: Intersection,
    l: Layout,
)
    ensures
        stairs_drawn(ms, slice, h, tw, cos, hit, l).len() == slice.len(),
{
    let f = flight_of(ms, tw);
    let near = prod(tw.distance, cos);
    lemma_steps_keep_the_column(
        ms,
        slice,
        h,
        tw,
        f,
        LAST_STEP as int,
        f.start as int,
        cos,
        hit,
        l,
    );
    lemma_wall_keeps_the_column(
        ms,
        steps_drawn(ms, slice, h, tw, f, LAST_STEP as int, f.start as int, cos, hit, l),
        h,
        tw,
        sum(prod(h, HALF), quot(prod(quot(ms.player.planedist, near), SEVEN), SIXTEEN)),
        quot(prod(EIGHTH, ms.player.planedist), near),
        sum(ms.player.pitch, quot(ms.player.jump, near)),
    );
}

} // verus!
