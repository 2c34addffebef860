//! Billboard sprites: what they show and where they land on the screen.

use vstd::prelude::*;
use crate::fixed::{
    Fixed, clamped, diff, frac, fx_abs, fx_add, fx_clamp, fx_div, fx_fract, fx_from_index,
    fx_index, fx_mul, fx_neg, fx_sub, index_of, magnitude_of, negated, of_index, prod, quot, sum,
    HALF, ONE,
};
use crate::order::{far_first, lemma_inserted_at};
use crate::player::Player;
use crate::ray::clipped;
use crate::screen::{lemma_screen_draws_one_pixel, Screen};
use crate::slice::changed_within;
use crate::utilities::vector2::Vector2;

verus! {

/// The width and the height of a sprite's picture, in texels.
pub const TEX_SIZE: usize = 128;

/// The same as a number.
pub const TEX_SPAN: Fixed = 128 * 65536;

/// The squared distance at which a sprite is in full light.
pub const BRIGHT_WITHIN: Fixed = 5 * 65536;

/// The least light on a sprite.
pub const DIMMEST: Fixed = 13107;

/// How often a torch goes through its eight pictures in a second.
pub const TORCH_PACE: Fixed = 72090;

/// The number of pictures of a torch.
pub const PICTURES: Fixed = 8 * 65536;

/// The tangent of half of an eighth of a turn.
pub const HALF_OCTANT_SLOPE: Fixed = 27146;

/// What a sprite shows; each kind has a band of its own in the sprite atlas.
#[derive(Debug, Clone, Copy, PartialEq, Eq, Structural)]
pub enum SpriteType {
    Armor,
    CandleHolder,
    Bat,
    Torch,
    Gore,
}

impl SpriteType {
    /// The number of the kind's band in the sprite atlas.
    pub open spec fn band(self) -> usize {
        match self {
            SpriteType::Armor => 0,
            SpriteType::CandleHolder => 1,
            SpriteType::Bat => 2,
            SpriteType::Torch => 3,
            SpriteType::Gore => 4,
        }
    }

    /// The number of the kind's band in the sprite atlas.
    pub fn index(self) -> (i: usize)
        ensures
            i == self.band(),
    {
        match self {
            SpriteType::Armor => 0,
            SpriteType::CandleHolder => 1,
            SpriteType::Bat => 2,
            SpriteType::Torch => 3,
            SpriteType::Gore => 4,
        }
    }
}

/// Where a sprite lands on the screen: the rows and columns that it covers,
/// the column of its middle, for each of its rows the row of its picture,
/// and its width.
pub struct Bounds {
    pub start_y: Fixed,
    pub end_y: Fixed,
    pub start_x: Fixed,
    pub end_x: Fixed,
    pub sprite_screen_x: Fixed,
    pub sty: Vec<usize>,
    pub size: Fixed,
}

impl Bounds {
    /// The bounds with the given parts.
    pub fn new(
        start_y: Fixed,
        end_y: Fixed,
        start_x: Fixed,
        end_x: Fixed,
        sprite_screen_x: Fixed,
        sty: Vec<usize>,
        size: Fixed,
    ) -> (b: Self)
        ensures
            b == (Bounds { start_y, end_y, start_x, end_x, sprite_screen_x, sty, size }),
    {
        Self { start_y, end_y, start_x, end_x, sprite_screen_x, sty, size }
    }
}

impl Default for Bounds {
    /// The bounds of a sprite that is not placed: nothing.
    fn default() -> (b: Self)
        ensures
            b.start_y == 0,
            b.end_y == 0,
            b.start_x == 0,
            b.end_x == 0,
            b.sprite_screen_x == 0,
            b.sty@.len() == 0,
            b.size == 0,
    {
        Self::new(0, 0, 0, 0, 0, Vec::new(), 0)
    }
}

/// A thing in the dungeon that always faces the camera. `stype` is the band
/// of its kind, `height` how far it hangs below the eye line, `distance2` the
/// square of its distance from the player.
pub struct Sprite {
    pub stype: usize,
    pub pos: Vector2,
    pub height: Fixed,
    pub visible: bool,
    pub time: Fixed,
    pub bounds: Bounds,
    pub distance2: Fixed,
    pub shade: Fixed,
}

/// A sprite seen from the camera: how far it lies to the side of the view
/// (`across`) and how far along it (`depth`).
#[derive(Debug, Clone, Copy, PartialEq, Eq, Structural)]
pub struct Projection {
    pub across: Fixed,
    pub depth: Fixed,
}

/// What of a sprite's place on the screen does not depend on the rows.
#[derive(Debug, Clone, Copy, PartialEq, Eq, Structural)]
pub struct Frame {
    pub start_y: Fixed,
    pub end_y: Fixed,
    pub start_x: Fixed,
    pub end_x: Fixed,
    pub sprite_screen_x: Fixed,
    pub size: Fixed,
    pub size_y: Fixed,
    pub lift: Fixed,
    pub visible: bool,
}

/// The square of the distance between two points.
pub open spec fn distance_2(a: Vector2, b: Vector2) -> Fixed {
    sum(prod(diff(a.x, b.x), diff(a.x, b.x)), prod(diff(a.y, b.y), diff(a.y, b.y)))
}

/// The point `pos` seen from the player: the inverse of the matrix of the
/// camera's plane and direction, applied to the way from the player to it.
pub open spec fn projection_of(pos: Vector2, player: Player) -> Projection {
    let dx = diff(pos.x, player.pos.x);
    let dy = diff(pos.y, player.pos.y);
    let inv_det = quot(
        ONE,
        diff(prod(player.plane.x, player.dir_norm.y), prod(player.dir_norm.x, player.plane.y)),
    );
    Projection {
        across: prod(inv_det, diff(prod(player.dir_norm.y, dx), prod(player.dir_norm.x, dy))),
        depth: prod(inv_det, sum(prod(negated(player.plane.y), dx), prod(player.plane.x, dy))),
    }
}

/// Where a sprite at `pos` that hangs `height` below the eye line lands on a
/// screen of `screen_size.0` by `screen_size.1` pixels with `rays_per_pixel`
/// pixels to a column. It is visible if it lies before the camera and some of
/// it on the screen.
pub open spec fn frame_of(
    pos: Vector2,
    height: Fixed,
    player: Player,
    screen_size: (Fixed, Fixed),
    rays_per_pixel: Fixed,
) -> Frame {
    let (w, h) = screen_size;
    let t = projection_of(pos, player);
    let sprite_screen_x = prod(
        prod(quot(w, rays_per_pixel), HALF),
        sum(ONE, quot(t.across, t.depth)),
    );
    let size = quot(magnitude_of(quot(player.planedist, t.depth)), rays_per_pixel);
    let size_y = prod(size, rays_per_pixel);
    let lift = quot(sum(player.jump, height), t.depth);
    let middle = sum(sum(prod(h, HALF), player.pitch), lift);
    let top = sum(prod(negated(size_y), HALF), middle);
    let bottom = sum(prod(size_y, HALF), middle);
    let left = sum(prod(negated(size), HALF), sprite_screen_x);
    let right = sum(prod(size, HALF), sprite_screen_x);
    let start_y = if top < 0 {
        0
    } else {
        top
    };
    let end_y = if bottom > diff(h, ONE) {
        diff(h, ONE)
    } else {
        bottom
    };
    let start_x = if left < 0 {
        0
    } else {
        left
    };
    let end_x = if right > diff(w, ONE) {
        diff(w, ONE)
    } else {
        right
    };
    Frame {
        start_y,
        end_y,
        start_x,
        end_x,
        sprite_screen_x,
        size,
        size_y,
        lift,
        visible: t.depth > 0 && start_x < w && end_x > 0 && end_y > 0 && start_y < h,
    }
}

/// The row of a sprite's picture that the row `y` of the screen shows.
pub open spec fn picture_row(f: Frame, player: Player, screen_height: Fixed, y: usize) -> usize {
    index_of(
        prod(
            diff(
                diff(
                    sum(diff(of_index(y), prod(screen_height, HALF)), prod(f.size_y, HALF)),
                    player.pitch,
                ),
                f.lift,
            ),
            quot(TEX_SPAN, f.size_y),
        ),
    )
}

/// The number of rows from the row of `start_y` to that of `end_y`, both
/// counted.
pub open spec fn row_count(f: Frame) -> nat {
    if index_of(f.start_y) <= index_of(f.end_y) {
        (index_of(f.end_y) - index_of(f.start_y) + 1) as nat
    } else {
        0
    }
}

/// The light on a sprite at the squared distance `distance2`: a torch is
/// always in full light.
pub open spec fn sprite_shade(stype: usize, distance2: Fixed) -> Fixed {
    if stype == SpriteType::Torch.band() {
        ONE
    } else {
        clamped(quot(BRIGHT_WITHIN, distance2), DIMMEST, ONE)
    }
}

/// Which of the pictures of its band a sprite shows: a torch goes through
/// its eight pictures with time; a bat shows its second picture to a player
/// from whom it lies less than half an eighth of a turn below the `x` axis;
/// everything else shows its first.
pub open spec fn picture_of(stype: usize, way: Vector2, time: Fixed) -> usize {
    if stype == SpriteType::Bat.band() {
        if way.y < 0 && way.x > 0 && negated(way.y) <= prod(HALF_OCTANT_SLOPE, way.x) {
            1
        } else {
            0
        }
    } else if stype == SpriteType::Torch.band() {
        let picture = index_of(prod(frac(prod(time, TORCH_PACE)), PICTURES));
        if picture > 7 {
            0
        } else {
            picture
        }
    } else {
        0
    }
}

impl Sprite {
    /// Whether the sprite is the sprite `before` with its place reckoned on a
    /// screen of `screen_size.0` by `screen_size.1` pixels: the square of
    /// its distance, where it lands, and, if it is visible, the row of its
    /// picture for each row that it covers and the light on it.
    pub open spec fn placed_from(
        self,
        before: Sprite,
        player: Player,
        screen_size: (Fixed, Fixed),
        rays_per_pixel: Fixed,
    ) -> bool {
        let f = frame_of(before.pos, before.height, player, screen_size, rays_per_pixel);
        &&& self.stype == before.stype
        &&& self.pos == before.pos
        &&& self.height == before.height
        &&& self.time == before.time
        &&& self.distance2 == distance_2(player.pos, before.pos)
        &&& self.visible == f.visible
        &&& self.bounds.start_y == f.start_y
        &&& self.bounds.end_y == f.end_y
        &&& self.bounds.start_x == f.start_x
        &&& self.bounds.end_x == f.end_x
        &&& self.bounds.sprite_screen_x == f.sprite_screen_x
        &&& self.bounds.size == f.size
        &&& self.bounds.sty@.len() == (if f.visible {
            row_count(f)
        } else {
            0
        })
        &&& forall|i: int|
            0 <= i < self.bounds.sty@.len() ==> #[trigger] self.bounds.sty@[i] == picture_row(
                f,
                player,
                screen_size.1,
                (index_of(f.start_y) + i) as usize,
            )
        &&& self.shade == (if f.visible {
            sprite_shade(before.stype, distance_2(player.pos, before.pos))
        } else {
            before.shade
        })
    }

    /// How far the sprite lies along the view of the player.
    pub open spec fn depth(self, player: Player) -> Fixed {
        Vector2::spec_dot(self.pos.minus(player.pos), player.dir_norm)
    }

    /// Whether the sprite shows in the column `j`, where a wall stands at the
    /// distance `distance`: it is visible, covers the column, and lies
    /// nearer than the wall.
    pub open spec fn shows_in(self, player: Player, j: usize, distance: Fixed) -> bool {
        &&& self.visible
        &&& of_index(j) >= self.bounds.start_x
        &&& of_index(j) < self.bounds.end_x
        &&& magnitude_of(distance) > magnitude_of(self.depth(player))
    }

    /// The column of the sprite's picture that the column `j` of the screen
    /// shows.
    pub open spec fn picture_column(self, j: usize) -> usize {
        index_of(
            quot(
                prod(
                    diff(
                        of_index(j),
                        sum(prod(negated(self.bounds.size), HALF), self.bounds.sprite_screen_x),
                    ),
                    TEX_SPAN,
                ),
                self.bounds.size,
            ),
        )
    }

    /// The texel of the sprite atlas that the sprite shows at the column `j`
    /// and the row `y` of the screen, if it has a picture row for `y`.
    pub open spec fn texel_for(self, player: Player, j: usize, y: usize) -> Option<(usize, usize)> {
        let row = y - index_of(self.bounds.start_y);
        if 0 <= row < self.bounds.sty@.len() {
            Some(
                (
                    clipped(
                        picture_of(self.stype, self.pos.minus(player.pos), self.time) * TEX_SIZE
                            + self.picture_column(j),
                    ),
                    clipped(self.stype * TEX_SIZE + self.bounds.sty@[row]),
                ),
            )
        } else {
            None
        }
    }

    /// The column `slice` with the rows from `from` up to, not including,
    /// `to` of the sprite drawn over it.
    pub open spec fn painted(
        self,
        screen: Screen,
        player: Player,
        slice: Seq<u8>,
        j: usize,
        from: int,
        to: int,
    ) -> Seq<u8>
        decreases to - from,
    {
        if from >= to || to - 1 > usize::MAX || to <= 0 {
            slice
        } else {
            let before = self.painted(screen, player, slice, j, from, to - 1);
            match self.texel_for(player, j, (to - 1) as usize) {
                Some(texel) => screen.with_sprite(before, texel, (to - 1) as usize, self.shade),
                None => before,
            }
        }
    }

    /// The column `slice` with the sprite drawn over it where it shows.
    pub open spec fn drawn(
        self,
        screen: Screen,
        player: Player,
        slice: Seq<u8>,
        j: usize,
        distance: Fixed,
    ) -> Seq<u8> {
        if self.shows_in(player, j, distance) {
            self.painted(
                screen,
                player,
                slice,
                j,
                index_of(self.bounds.start_y) as int,
                index_of(self.bounds.end_y) + 1,
            )
        } else {
            slice
        }
    }

    /// A sprite of the kind `stype` at `pos` that hangs `height` below the
    /// eye line; it is not placed on the screen yet.
    pub fn new(stype: SpriteType, pos: Vector2, height: Fixed) -> (s: Self)
        ensures
            s.stype == stype.band(),
            s.pos == pos,
            s.height == height,
            !s.visible,
            s.time == 0,
            s.distance2 == 0,
            s.shade == 0,
            s.bounds.start_y == 0,
            s.bounds.end_y == 0,
            s.bounds.start_x == 0,
            s.bounds.end_x == 0,
            s.bounds.sprite_screen_x == 0,
            s.bounds.sty@.len() == 0,
            s.bounds.size == 0,
    {
        Self {
            stype: stype.index(),
            pos,
            height,
            visible: false,
            time: 0,
            bounds: Bounds::default(),
            distance2: 0,
            shade: 0,
        }
    }

    /// The square of the distance to the player.
    pub fn calculate_distance_2(&self, player: &Player) -> (d: Fixed)
        ensures
            d == distance_2(player.pos, self.pos),
    {
        let dx: Fixed = fx_sub(player.pos.x, self.pos.x);
        let dy: Fixed = fx_sub(player.pos.y, self.pos.y);
        fx_add(fx_mul(dx, dx), fx_mul(dy, dy))
    }

    /// Takes note of the time.
    pub fn update(&mut self, time: Fixed)
        ensures
            final(self).time == time,
            final(self).stype == old(self).stype,
            final(self).pos == old(self).pos,
            final(self).height == old(self).height,
            final(self).visible == old(self).visible,
            final(self).bounds == old(self).bounds,
            final(self).distance2 == old(self).distance2,
            final(self).shade == old(self).shade,
    {
        self.time = time;
    }
}

/// The point `pos` seen from the player.
pub fn project(pos: Vector2, player: &Player) -> (t: Projection)
    ensures
        t == projection_of(pos, *player),
{
    let dx: Fixed = fx_sub(pos.x, player.pos.x);
    let dy: Fixed = fx_sub(pos.y, player.pos.y);
    let inv_det: Fixed = fx_div(
        ONE,
        fx_sub(
            fx_mul(player.plane.x, player.dir_norm.y),
            fx_mul(player.dir_norm.x, player.plane.y),
        ),
    );
    Projection {
        across: fx_mul(
            inv_det,
            fx_sub(fx_mul(player.dir_norm.y, dx), fx_mul(player.dir_norm.x, dy)),
        ),
        depth: fx_mul(
            inv_det,
            fx_add(fx_mul(fx_neg(player.plane.y), dx), fx_mul(player.plane.x, dy)),
        ),
    }
}

/// Where a sprite at `pos` lands on the screen.
pub fn frame(
    pos: Vector2,
    height: Fixed,
    player: &Player,
    screen_size: (Fixed, Fixed),
    rays_per_pixel: Fixed,
) -> (f: Frame)
    ensures
        f == frame_of(pos, height, *player, screen_size, rays_per_pixel),
{
    let (w, h) = screen_size;
    let t = project(pos, player);
    let sprite_screen_x: Fixed = fx_mul(
        fx_mul(fx_div(w, rays_per_pixel), HALF),
        fx_add(ONE, fx_div(t.across, t.depth)),
    );
    let size: Fixed = fx_div(fx_abs(fx_div(player.planedist, t.depth)), rays_per_pixel);
    let size_y: Fixed = fx_mul(size, rays_per_pixel);
    let lift: Fixed = fx_div(fx_add(player.jump, height), t.depth);
    let middle: Fixed = fx_add(fx_add(fx_mul(h, HALF), player.pitch), lift);
    let mut start_y: Fixed = fx_add(fx_mul(fx_neg(size_y), HALF), middle);
    if start_y < 0 {
        start_y = 0;
    }
    let mut end_y: Fixed = fx_add(fx_mul(size_y, HALF), middle);
    if end_y > fx_sub(h, ONE) {
        end_y = fx_sub(h, ONE);
    }
    let mut start_x: Fixed = fx_add(fx_mul(fx_neg(size), HALF), sprite_screen_x);
    if start_x < 0 {
        start_x = 0;
    }
    let mut end_x: Fixed = fx_add(fx_mul(size, HALF), sprite_screen_x);
    if end_x > fx_sub(w, ONE) {
        end_x = fx_sub(w, ONE);
    }
    Frame {
        start_y,
        end_y,
        start_x,
        end_x,
        sprite_screen_x,
        size,
        size_y,
        lift,
        visible: t.depth > 0 && start_x < w && end_x > 0 && end_y > 0 && start_y < h,
    }
}

/// The row of a sprite's picture that the row `y` of the screen shows.
pub fn row_of_picture(f: &Frame, player: &Player, screen_height: Fixed, y: usize) -> (row: usize)
    ensures
        row == picture_row(*f, *player, screen_height, y),
{
    let d: Fixed = fx_sub(
        fx_sub(
            fx_add(fx_sub(fx_from_index(y), fx_mul(screen_height, HALF)), fx_mul(f.size_y, HALF)),
            player.pitch,
        ),
        f.lift,
    );
    fx_index(fx_mul(d, fx_div(TEX_SPAN, f.size_y)))
}

/// Which of the pictures of its band a sprite shows.
pub fn picture(stype: usize, way: Vector2, time: Fixed) -> (p: usize)
    ensures
        p == picture_of(stype, way, time),
        p <= 7,
{
    if stype == 2 {
        if way.y < 0 && way.x > 0 && fx_neg(way.y) <= fx_mul(HALF_OCTANT_SLOPE, way.x) {
            1
        } else {
            0
        }
    } else if stype == 3 {
        let p: usize = fx_index(fx_mul(fx_fract(fx_mul(time, TORCH_PACE)), PICTURES));
        if p > 7 {
            0
        } else {
            p
        }
    } else {
        0
    }
}

impl Sprite {
    /// Reckons where the sprite lands on a screen of `screen_size.0` by
    /// `screen_size.1` pixels for the player, and, where it is visible, which
    /// row of its picture each row of the screen shows and how much light
    /// falls on it.
    pub fn set_drawing_bounds(&mut self, screen_size: (Fixed, Fixed), player: &Player, rays_per_pixel: Fixed)
        ensures
            final(self).placed_from(*old(self), *player, screen_size, rays_per_pixel),
    {
        self.distance2 = self.calculate_distance_2(player);
        let f = frame(self.pos, self.height, player, screen_size, rays_per_pixel);
        let mut sty: Vec<usize> = Vec::new();
        if f.visible {
            self.visible = true;
            let first: usize = fx_index(f.start_y);
            let last: usize = fx_index(f.end_y);
            if first <= last {
                let mut y: usize = first;
                while y < last
                    invariant
                        first <= y <= last,
                        sty@.len() == y - first,
                        forall|i: int|
                            0 <= i < sty@.len() ==> #[trigger] sty@[i] == picture_row(
                                f,
                                *player,
                                screen_size.1,
                                (first + i) as usize,
                            ),
                    decreases last - y,
                {
                    sty.push(row_of_picture(&f, player, screen_size.1, y));
                    y += 1;
                }
                sty.push(row_of_picture(&f, player, screen_size.1, last));
            }
            self.shade = if self.stype == 3 {
                ONE
            } else {
                fx_clamp(fx_div(BRIGHT_WITHIN, self.distance2), DIMMEST, ONE)
            };
        } else {
            self.visible = false;
        }
        self.bounds = Bounds::new(
            f.start_y,
            f.end_y,
            f.start_x,
            f.end_x,
            f.sprite_screen_x,
            sty,
            f.size,
        );
    }

    /// Whether the sprite shows in the column `j`, where a wall stands at the
    /// distance `distance`.
    pub fn is_shown_in(&self, player: &Player, j: usize, distance: Fixed) -> (shown: bool)
        ensures
            shown == self.shows_in(*player, j, distance),
    {
        let stripe: Fixed = fx_from_index(j);
        if self.visible && stripe >= self.bounds.start_x && stripe < self.bounds.end_x {
            let way = Vector2 {
                x: fx_sub(self.pos.x, player.pos.x),
                y: fx_sub(self.pos.y, player.pos.y),
            };
            let depth: Fixed = Vector2::dot(way, player.dir_norm);
            fx_abs(distance) > fx_abs(depth)
        } else {
            false
        }
    }

    /// Draws the sprite into the column `j`, which `slice` holds, where it
    /// shows before a wall at the distance `distance`.
    pub fn draw(&self, slice: &mut [u8], player: &Player, j: usize, screen: &Screen, distance: Fixed)
        ensures
            final(slice)@ == self.drawn(*screen, *player, old(slice)@, j, distance),
    {
        if !self.is_shown_in(player, j, distance) {
            return ;
        }
        let way = Vector2 {
            x: fx_sub(self.pos.x, player.pos.x),
            y: fx_sub(self.pos.y, player.pos.y),
        };
        let sprite_rotation: usize = picture(self.stype, way, self.time);
        let stripe: Fixed = fx_from_index(j);
        let stx: usize = fx_index(
            fx_div(
                fx_mul(
                    fx_sub(
                        stripe,
                        fx_add(fx_mul(fx_neg(self.bounds.size), HALF), self.bounds.sprite_screen_x),
                    ),
                    TEX_SPAN,
                ),
                self.bounds.size,
            ),
        );
        let column: usize = match (sprite_rotation * TEX_SIZE).checked_add(stx) {
            Some(c) => c,
            None => usize::MAX,
        };
        let first: usize = fx_index(self.bounds.start_y);
        let last: usize = fx_index(self.bounds.end_y);
        let rows: usize = self.bounds.sty.len();
        if first > last {
            return ;
        }
        let mut y: usize = first;
        loop
            invariant_except_break
                slice@ == self.painted(*screen, *player, old(slice)@, j, first as int, y as int),
            invariant
                first <= y <= last,
                rows == self.bounds.sty@.len(),
                first == index_of(self.bounds.start_y),
                column == clipped(
                    picture_of(self.stype, self.pos.minus(player.pos), self.time) * TEX_SIZE
                        + self.picture_column(j),
                ),
            ensures
                slice@ == self.painted(*screen, *player, old(slice)@, j, first as int, last + 1),
            decreases last - y,
        {
            if y - first < rows {
                let band: usize = match self.stype.checked_mul(TEX_SIZE) {
                    Some(b) => match b.checked_add(self.bounds.sty[y - first]) {
                        Some(r) => r,
                        None => usize::MAX,
                    },
                    None => usize::MAX,
                };
                assert(self.stype * TEX_SIZE >= 0 && self.stype * TEX_SIZE + self.bounds.sty@[y
                    - first] >= self.stype * TEX_SIZE) by (nonlinear_arith)
                    requires
                        self.stype >= 0,
                        self.bounds.sty@[y - first] >= 0,
                ;
                screen.draw_sprite(slice, [column, band], y, self.shade);
            }
            if y == last {
                break ;
            }
            y += 1;
        }
    }
}

/// The distance by which sprites are ordered: the square of their distance
/// from the player.
pub open spec fn sprite_distance() -> spec_fn(Sprite) -> int {
    |s: Sprite| s.distance2 as int
}

/// The sprites of `list` from the farthest to the nearest; those equally far
/// stay in the order of the list.
pub open spec fn sprites_sorted(list: Seq<Sprite>) -> Seq<Sprite> {
    far_first(sprite_distance(), list)
}

/// Sorts the sprites from the farthest to the nearest.
pub fn sort_sprites(sprites: &mut Vec<Sprite>)
    ensures
        final(sprites)@ == sprites_sorted(old(sprites)@),
{
    let mut sorted: Vec<Sprite> = Vec::new();
    let ghost all = sprites@;
    let ghost taken: int = 0;
    while sprites.len() > 0
        invariant
            0 <= taken <= all.len(),
            sprites@ == all.subrange(taken, all.len() as int),
            sorted@ == sprites_sorted(all.subrange(0, taken)),
        decreases sprites@.len(),
    {
        let e = sprites.remove(0);
        let mut p: usize = 0;
        while p < sorted.len() && sorted[p].distance2 >= e.distance2
            invariant
                p <= sorted@.len(),
                forall|i: int| 0 <= i < p ==> (#[trigger] sorted@[i]).distance2 >= e.distance2,
            decreases sorted@.len() - p,
        {
            p += 1;
        }
        proof {
            lemma_inserted_at(sprite_distance(), sorted@, e, p as int);
            assert(e == all[taken]);
            assert(all.subrange(0, taken + 1).drop_last() =~= all.subrange(0, taken));
            assert(sprites@ =~= all.subrange(taken + 1, all.len() as int));
            taken = taken + 1;
        }
        sorted.insert(p, e);
    }
    proof {
        assert(all.subrange(0, all.len() as int) =~= all);
    }
    *sprites = sorted;
}

/// A sprite that a wall hides, or that does not reach the column, leaves the
/// column as it is.
pub proof fn lemma_hidden_sprite_is_not_drawn(
    sprite: Sprite,
    screen: Screen,
    player: Player,
    slice: Seq<u8>,
    j: usize,
    distance: Fixed,
)
    requires
        magnitude_of(sprite.depth(player)) >= magnitude_of(distance) || !sprite.visible
            || of_index(j) < sprite.bounds.start_x || of_index(j) >= sprite.bounds.end_x,
    ensures
        sprite.drawn(screen, player, slice, j, distance) == slice,
{
}

/// A visible sprite that lies nearer than the wall is drawn in each column
/// that it covers, over all of its rows.
pub proof fn lemma_near_sprite_is_drawn(
    sprite: Sprite,
    screen: Screen,
    player: Player,
    slice: Seq<u8>,
    j: usize,
    distance: Fixed,
)
    requires
        sprite.visible,
        sprite.bounds.start_x <= of_index(j) < sprite.bounds.end_x,
        magnitude_of(sprite.depth(player)) < magnitude_of(distance),
    ensures
        sprite.drawn(screen, player, slice, j, distance) == sprite.painted(
            screen,
            player,
            slice,
            j,
            index_of(sprite.bounds.start_y) as int,
            index_of(sprite.bounds.end_y) + 1,
        ),
{
}

/// The rows of a sprite that are drawn change the bytes of those rows and
/// nothing else.
pub proof fn lemma_sprite_draws_its_rows(
    sprite: Sprite,
    screen: Screen,
    player: Player,
    slice: Seq<u8>,
    j: usize,
    from: int,
    to: int,
)
    requires
        0 <= from,
    ensures
        changed_within(
            slice,
            sprite.painted(screen, player, slice, j, from, to),
            4 * from,
            4 * to,
        ),
    decreases to - from,
{
    if !(from >= to || to - 1 > usize::MAX || to <= 0) {
        lemma_sprite_draws_its_rows(sprite, screen, player, slice, j, from, to - 1);
        let before = sprite.painted(screen, player, slice, j, from, to - 1);
        match sprite.texel_for(player, j, (to - 1) as usize) {
            Some(texel) => {
                lemma_screen_draws_one_pixel(screen, before, texel, (to - 1) as usize, sprite.shade, 0);
            },
            None => {},
        }
    }
}

/// A sprite that is drawn leaves the column as long as it was.
pub proof fn lemma_sprite_keeps_the_column(
    sprite: Sprite,
    screen: Screen,
    player: Player,
    slice: Seq<u8>,
    j: usize,
    distance: Fixed,
)
    ensures
        sprite.drawn(screen, player, slice, j, distance).len() == slice.len(),
{
    lemma_sprite_draws_its_rows(
        sprite,
        screen,
        player,
        slice,
        j,
        index_of(sprite.bounds.start_y) as int,
        index_of(sprite.bounds.end_y) + 1,
    );
}

} // verus!
