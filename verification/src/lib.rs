//! A grid ray caster with per-tile lighting, computed in fixed-point arithmetic.
//!
//! Every quantity that a renderer would hold as a real number (positions,
//! directions, distances, light intensities) is a [`fixed::Fixed`]: the value
//! times 65536 in an `i64`, with saturating operations that never trap.

pub mod fixed;
pub mod utilities;
pub mod lighting;
pub mod slice;
pub mod sprite;
pub mod door;
pub mod map;
pub mod order;
pub mod player;
pub mod ray;
pub mod render;
pub mod screen;
pub mod stairs;

use vstd::prelude::*;
use crate::door::{Door, DOOR_OPEN_BELOW};
use crate::fixed::{
    Fixed, diff, frac, fx_fract, fx_from_index, fx_index, fx_mul, fx_sub, index_of, of_index,
    prod, TWO,
};
use crate::lighting::{intensity_of, LightPlan, Lighting, Torch};
use crate::map::{WorldMap, STAIRS};
use crate::player::{Input, Player};
use crate::ray::{cell_index, wall_code_at};
use crate::screen::Screen;
use crate::sprite::{sort_sprites, sprites_sorted, Sprite};
use crate::utilities::vector2::Rotation;

verus! {

/// All that a frame is drawn from: the player, the map of `map_size.0` by
/// `map_size.1` cells whose textures are `cell_size` texels wide, for each
/// column of the screen the turn from the view to its ray, for each row twice
/// the number of rows by which it lies below the horizon, the walking wave,
/// the screen, the sprites, the light and the flicker.
pub struct MainState {
    pub player: Player,
    pub map_size: (usize, usize),
    pub cell_size: Fixed,
    pub map: WorldMap,
    pub angles: Vec<Rotation>,
    pub buffer_floors: Vec<Fixed>,
    pub buffer_walking: Vec<Fixed>,
    pub screen: Screen,
    pub sprites: Vec<Sprite>,
    pub lighting_1: Lighting,
    pub torch: Torch,
}

/// The side of a cell that a ray enters by, named by the direction in which
/// the ray then travels: `N` towards larger `y`, `E` towards larger `x`.
#[derive(Debug, Clone, Copy, PartialEq, Eq, Structural)]
pub enum Orientation {
    N,
    E,
    S,
    W,
}

/// The number of pixels that a column of the frame buffer is wide.
pub const RAYSPERPIXEL: usize = 2;

/// The same as a number.
pub const RAYS_PER_PIXEL: Fixed = 2 * 65536;

/// The doors after `dt` seconds: those that are opening have moved on.
pub open spec fn doors_after(doors: Seq<Door>, dt: Fixed) -> Seq<Door> {
    Seq::new(
        doors.len(),
        |i: int|
            if doors[i].opening {
                doors[i].updated(dt)
            } else {
                doors[i]
            },
    )
}

/// The solid cells after the first `n` doors have moved on: the cell of a
/// door that had arrived is no longer solid.
pub open spec fn solid_after(doors: Seq<Door>, solid: Seq<bool>, n: int) -> Seq<bool>
    decreases n,
{
    if n <= 0 {
        solid
    } else {
        let before = solid_after(doors, solid, n - 1);
        let door = doors[n - 1];
        if door.opening && door.offset <= DOOR_OPEN_BELOW && door.pos < before.len() {
            before.update(door.pos as int, false)
        } else {
            before
        }
    }
}

/// Twice the number of rows by which the row `y` of a screen of the height
/// `h` lies below the horizon of the player; negative above it.
pub open spec fn row_offset(pitch: Fixed, h: Fixed, y: usize) -> Fixed {
    diff(prod(TWO, diff(of_index(y), pitch)), h)
}

/// For each row of a screen of the height `h`, twice the number of rows by
/// which it lies below the horizon of a player who looks straight ahead.
pub open spec fn row_offsets(h: Fixed) -> Seq<Fixed> {
    Seq::new(index_of(h) as nat, |y: int| row_offset(0, h, y as usize))
}

impl MainState {
    /// All that a frame is drawn from, for a screen `screen_height` rows
    /// high: the parts as given, the light that the torches at `torches_pos`
    /// give in the map, and for each row its place below the horizon.
    pub fn new(
        player: Player,
        map_size: (usize, usize),
        cell_size: Fixed,
        map: WorldMap,
        angles: Vec<Rotation>,
        buffer_walking: Vec<Fixed>,
        screen: Screen,
        sprites: Vec<Sprite>,
        torches_pos: Vec<usize>,
        torch: Torch,
        screen_height: Fixed,
    ) -> (ms: Self)
        requires
            8 * (map_size.0 * map_size.1) <= usize::MAX,
            map.solid@.len() == map_size.0 * map_size.1,
            forall|i: int|
                0 <= i < torches_pos@.len() ==> (#[trigger] torches_pos@[i]) < 2 * (map_size.0
                    * map_size.1),
        ensures
            ms.player == player,
            ms.map_size == map_size,
            ms.cell_size == cell_size,
            ms.map == map,
            ms.angles == angles,
            ms.buffer_walking == buffer_walking,
            ms.screen == screen,
            ms.sprites == sprites,
            ms.torch == torch,
            ms.buffer_floors@ == row_offsets(screen_height),
            ms.lighting_1.map_size == map_size,
            ms.lighting_1.switch,
            ms.lighting_1.smooth_switch,
            ms.lighting_1.smoothed(),
            exists|levels: Seq<u8>|
                (#[trigger] (LightPlan {
                    solid: map.solid@,
                    width: map_size.0 as int,
                    height: map_size.1 as int,
                    torches: torches_pos@,
                }).lights(levels)) && ms.lighting_1.lighting@.len() == levels.len() && forall|
                    c: int,
                |
                    0 <= c < levels.len() ==> #[trigger] ms.lighting_1.lighting@[c]
                        == intensity_of(levels[c]),
    {
        let rows: usize = fx_index(screen_height);
        let mut buffer_floors: Vec<Fixed> = Vec::new();
        let mut y: usize = 0;
        while y < rows
            invariant
                y <= rows,
                buffer_floors@.len() == y,
                forall|k: int|
                    0 <= k < y ==> #[trigger] buffer_floors@[k] == row_offset(
                        0,
                        screen_height,
                        k as usize,
                    ),
            decreases rows - y,
        {
            buffer_floors.push(
                fx_sub(fx_mul(TWO, fx_sub(fx_from_index(y), 0)), screen_height),
            );
            y += 1;
        }
        assert(buffer_floors@ =~= row_offsets(screen_height));
        let lighting_1 = Lighting::new(torches_pos, map.solid.as_slice(), map_size);
        Self {
            player,
            map_size,
            cell_size,
            map,
            angles,
            buffer_floors,
            buffer_walking,
            screen,
            sprites,
            lighting_1,
            torch,
        }
    }

    /// Starts to open the door of the cell `pos_door` at `time`. Nothing
    /// happens in a cell without a door, nor to a door that is opening.
    pub fn open_door(&mut self, pos_door: usize, time: Fixed)
        ensures
            final(self).player == old(self).player,
            final(self).map_size == old(self).map_size,
            final(self).cell_size == old(self).cell_size,
            final(self).angles == old(self).angles,
            final(self).buffer_floors == old(self).buffer_floors,
            final(self).buffer_walking == old(self).buffer_walking,
            final(self).screen == old(self).screen,
            final(self).sprites == old(self).sprites,
            final(self).lighting_1 == old(self).lighting_1,
            final(self).torch == old(self).torch,
            final(self).map.walls == old(self).map.walls,
            final(self).map.floors == old(self).map.floors,
            final(self).map.solid == old(self).map.solid,
            final(self).map.doors@ == old(self).map.doors_triggered(pos_door, time),
    {
        self.map.open_door(pos_door, time);
    }

    /// Takes the input of a frame of `dt` seconds at `time`: the player
    /// moves, and the door within reach starts to open if the player asks
    /// for it.
    pub fn handle_input(&mut self, input: &Input, dt: Fixed, time: Fixed)
        ensures
            final(self).player == old(self).player.moved(
                old(self).map,
                old(self).map_size,
                *input,
                dt,
            ),
            final(self).map.doors@ == (if input.open {
                old(self).map.doors_triggered(
                    final(self).player.cell_in_reach(old(self).map_size),
                    time,
                )
            } else {
                old(self).map.doors@
            }),
            final(self).map.walls == old(self).map.walls,
            final(self).map.floors == old(self).map.floors,
            final(self).map.solid == old(self).map.solid,
            final(self).map_size == old(self).map_size,
            final(self).cell_size == old(self).cell_size,
            final(self).angles == old(self).angles,
            final(self).buffer_floors == old(self).buffer_floors,
            final(self).buffer_walking == old(self).buffer_walking,
            final(self).screen == old(self).screen,
            final(self).sprites == old(self).sprites,
            final(self).lighting_1 == old(self).lighting_1,
            final(self).torch == old(self).torch,
    {
        self.player.handle_input(&self.map, self.map_size, input, dt);
        if input.open {
            let pos_door: usize = self.player.reach(self.map_size);
            self.map.open_door(pos_door, time);
        }
    }

    /// Turns the reckoning of light on or off.
    pub fn toggle_lighting(&mut self)
        ensures
            final(self).lighting_1.switch == !old(self).lighting_1.switch,
            final(self).lighting_1.smooth_switch == old(self).lighting_1.smooth_switch,
            final(self).lighting_1.vertices == old(self).lighting_1.vertices,
            final(self).lighting_1.lighting == old(self).lighting_1.lighting,
            final(self).lighting_1.map_size == old(self).lighting_1.map_size,
            final(self).player == old(self).player,
            final(self).map == old(self).map,
            final(self).sprites == old(self).sprites,
            final(self).torch == old(self).torch,
            final(self).screen == old(self).screen,
    {
        self.lighting_1.switch = !self.lighting_1.switch;
    }

    /// Changes between smooth and flat light.
    pub fn toggle_smooth_lighting(&mut self)
        ensures
            final(self).lighting_1.smooth_switch == !old(self).lighting_1.smooth_switch,
            final(self).lighting_1.switch == old(self).lighting_1.switch,
            final(self).lighting_1.vertices == old(self).lighting_1.vertices,
            final(self).lighting_1.lighting == old(self).lighting_1.lighting,
            final(self).lighting_1.map_size == old(self).lighting_1.map_size,
            final(self).player == old(self).player,
            final(self).map == old(self).map,
            final(self).sprites == old(self).sprites,
            final(self).torch == old(self).torch,
            final(self).screen == old(self).screen,
    {
        self.lighting_1.smooth_switch = !self.lighting_1.smooth_switch;
    }

    /// The player after the update of a frame at `time`: the cell under the
    /// feet is taken note of, the eyes are set to their height for the frame,
    /// and on stairs the height at rest for the next frame follows the step
    /// that the player stands on.
    pub open spec fn player_updated(self, time: Fixed) -> Player {
        let wall = self.map.wall_at(cell_index(self.map_size, self.player.pos));
        Player {
            current_wall: wall,
            jump: Player::eye_height(
                self.player.height,
                self.player.walking,
                self.buffer_walking@,
                time,
            ),
            height: if wall == STAIRS {
                prod(frac(self.player.pos.x), self.player.planedist)
            } else {
                self.player.height
            },
            ..self.player
        }
    }

    /// The update of a frame at `time`, `dt` seconds after the one before:
    /// the player, the sprites, the doors that are opening, and the flicker
    /// move on.
    pub fn update(&mut self, time: Fixed, dt: Fixed)
        ensures
            final(self).player == old(self).player_updated(time),
            final(self).sprites@.len() == old(self).sprites@.len(),
            forall|i: int|
                0 <= i < old(self).sprites@.len() ==> #[trigger] final(self).sprites@[i] == (
                Sprite { time, ..old(self).sprites@[i] }),
            final(self).map.doors@ == doors_after(old(self).map.doors@, dt),
            final(self).map.solid@ == solid_after(
                old(self).map.doors@,
                old(self).map.solid@,
                old(self).map.doors@.len() as int,
            ),
            final(self).map.walls == old(self).map.walls,
            final(self).map.floors == old(self).map.floors,
            exists|draw: Fixed|
                old(self).torch.draw_range().0 <= draw < old(self).torch.draw_range().1
                    && final(self).torch == #[trigger] old(self).torch.advanced(time, draw),
            old(self).torch.wf() ==> final(self).torch.wf(),
            final(self).map_size == old(self).map_size,
            final(self).cell_size == old(self).cell_size,
            final(self).angles == old(self).angles,
            final(self).buffer_floors == old(self).buffer_floors,
            final(self).buffer_walking == old(self).buffer_walking,
            final(self).screen == old(self).screen,
            final(self).lighting_1 == old(self).lighting_1,
    {
        let wall: usize = wall_code_at(&self.map, self.map_size, self.player.pos);
        self.player.update(wall, self.buffer_walking.as_slice(), time);
        if wall == STAIRS {
            self.player.height = fx_mul(fx_fract(self.player.pos.x), self.player.planedist);
        }
        let count: usize = self.sprites.len();
        let mut i: usize = 0;
        while i < count
            invariant
                i <= count,
                count == self.sprites@.len(),
                count == old(self).sprites@.len(),
                forall|k: int|
                    0 <= k < i ==> #[trigger] self.sprites@[k] == (Sprite {
                        time,
                        ..old(self).sprites@[k]
                    }),
                forall|k: int| i <= k < count ==> #[trigger] self.sprites@[k] == old(self).sprites@[k],
                self.player == old(self).player_updated(time),
                self.map == old(self).map,
                self.torch == old(self).torch,
                self.map_size == old(self).map_size,
                self.cell_size == old(self).cell_size,
                self.angles == old(self).angles,
                self.buffer_floors == old(self).buffer_floors,
                self.buffer_walking == old(self).buffer_walking,
                self.screen == old(self).screen,
                self.lighting_1 == old(self).lighting_1,
            decreases count - i,
        {
            self.sprites[i].update(time);
            i += 1;
        }
        let doors: usize = self.map.doors.len();
        let mut d: usize = 0;
        while d < doors
            invariant
                d <= doors,
                doors == self.map.doors@.len(),
                doors == old(self).map.doors@.len(),
                forall|k: int|
                    0 <= k < d ==> #[trigger] self.map.doors@[k] == doors_after(
                        old(self).map.doors@,
                        dt,
                    )[k],
                forall|k: int|
                    d <= k < doors ==> #[trigger] self.map.doors@[k] == old(self).map.doors@[k],
                self.map.solid@ == solid_after(
                    old(self).map.doors@,
                    old(self).map.solid@,
                    d as int,
                ),
                self.map.walls == old(self).map.walls,
                self.map.floors == old(self).map.floors,
                self.player == old(self).player_updated(time),
                self.sprites@.len() == old(self).sprites@.len(),
                forall|k: int|
                    0 <= k < self.sprites@.len() ==> #[trigger] self.sprites@[k] == (Sprite {
                        time,
                        ..old(self).sprites@[k]
                    }),
                self.torch == old(self).torch,
                self.map_size == old(self).map_size,
                self.cell_size == old(self).cell_size,
                self.angles == old(self).angles,
                self.buffer_floors == old(self).buffer_floors,
                self.buffer_walking == old(self).buffer_walking,
                self.screen == old(self).screen,
                self.lighting_1 == old(self).lighting_1,
            decreases doors - d,
        {
            let mut door: Door = self.map.doors[d];
            if door.opening {
                door.update(dt, &mut self.map.solid);
                self.map.doors[d] = door;
            }
            d += 1;
        }
        assert(self.map.doors@ =~= doors_after(old(self).map.doors@, dt));
        self.torch.update_intensity(time);
    }

    /// Makes ready for a frame on a screen of `screen_size.0` by
    /// `screen_size.1` pixels: for each row of the screen its place below
    /// the horizon is reckoned anew, each sprite is placed on the screen,
    /// and the sprites are put in order from the farthest to the nearest.
    pub fn prepare_frame(&mut self, screen_size: (Fixed, Fixed))
        ensures
            final(self).buffer_floors@.len() == old(self).buffer_floors@.len(),
            forall|y: int|
                0 <= y < old(self).buffer_floors@.len() ==> #[trigger] final(self).buffer_floors@[y]
                    == (if y < index_of(screen_size.1) {
                    row_offset(old(self).player.pitch, screen_size.1, y as usize)
                } else {
                    old(self).buffer_floors@[y]
                }),
            exists|placed: Seq<Sprite>|
                placed.len() == old(self).sprites@.len() && (forall|i: int|
                    0 <= i < placed.len() ==> (#[trigger] placed[i]).placed_from(
                        old(self).sprites@[i],
                        old(self).player,
                        screen_size,
                        RAYS_PER_PIXEL,
                    )) && final(self).sprites@ == sprites_sorted(placed),
            final(self).player == old(self).player,
            final(self).map == old(self).map,
            final(self).torch == old(self).torch,
            final(self).map_size == old(self).map_size,
            final(self).cell_size == old(self).cell_size,
            final(self).angles == old(self).angles,
            final(self).buffer_walking == old(self).buffer_walking,
            final(self).screen == old(self).screen,
            final(self).lighting_1 == old(self).lighting_1,
    {
        let h: Fixed = screen_size.1;
        let rows: usize = if fx_index(h) < self.buffer_floors.len() {
            fx_index(h)
        } else {
            self.buffer_floors.len()
        };
        let mut y: usize = 0;
        while y < rows
            invariant
                y <= rows,
                rows <= self.buffer_floors@.len(),
                rows <= index_of(h),
                rows == index_of(h) || rows == self.buffer_floors@.len(),
                h == screen_size.1,
                self.buffer_floors@.len() == old(self).buffer_floors@.len(),
                forall|k: int|
                    0 <= k < y ==> #[trigger] self.buffer_floors@[k] == row_offset(
                        old(self).player.pitch,
                        h,
                        k as usize,
                    ),
                forall|k: int|
                    y <= k < self.buffer_floors@.len() ==> #[trigger] self.buffer_floors@[k] == old(self).buffer_floors@[k],
                self.player == old(self).player,
                self.map == old(self).map,
                self.torch == old(self).torch,
                self.sprites == old(self).sprites,
                self.map_size == old(self).map_size,
                self.cell_size == old(self).cell_size,
                self.angles == old(self).angles,
                self.buffer_walking == old(self).buffer_walking,
                self.screen == old(self).screen,
                self.lighting_1 == old(self).lighting_1,
            decreases rows - y,
        {
            self.buffer_floors[y] = fx_sub(
                fx_mul(TWO, fx_sub(fx_from_index(y), self.player.pitch)),
                h,
            );
            y += 1;
        }
        let count: usize = self.sprites.len();
        let mut i: usize = 0;
        while i < count
            invariant
                i <= count,
                count == self.sprites@.len(),
                count == old(self).sprites@.len(),
                forall|k: int|
                    0 <= k < i ==> (#[trigger] self.sprites@[k]).placed_from(
                        old(self).sprites@[k],
                        old(self).player,
                        screen_size,
                        RAYS_PER_PIXEL,
                    ),
                forall|k: int| i <= k < count ==> #[trigger] self.sprites@[k] == old(self).sprites@[k],
                self.buffer_floors@.len() == old(self).buffer_floors@.len(),
                forall|k: int|
                    0 <= k < old(self).buffer_floors@.len() ==> #[trigger] self.buffer_floors@[k]
                        == (if k < index_of(screen_size.1) {
                        row_offset(old(self).player.pitch, screen_size.1, k as usize)
                    } else {
                        old(self).buffer_floors@[k]
                    }),
                self.player == old(self).player,
                self.map == old(self).map,
                self.torch == old(self).torch,
                self.map_size == old(self).map_size,
                self.cell_size == old(self).cell_size,
                self.angles == old(self).angles,
                self.buffer_walking == old(self).buffer_walking,
                self.screen == old(self).screen,
                self.lighting_1 == old(self).lighting_1,
            decreases count - i,
        {
            self.sprites[i].set_drawing_bounds(screen_size, &self.player, RAYS_PER_PIXEL);
            i += 1;
        }
        let ghost placed = self.sprites@;
        sort_sprites(&mut self.sprites);
        assert(self.sprites@ == sprites_sorted(placed));
    }
}

} // verus!
