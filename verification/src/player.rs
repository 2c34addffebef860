//! The player: where the camera stands and how it looks.

use vstd::prelude::*;
use crate::fixed::{
    Fixed, clamped, diff, fx_add, fx_clamp, fx_index, fx_mul, fx_neg, fx_sub, index_of, negated,
    prod, sum, HALF, ONE,
};
use crate::map::{WorldMap, TILED_FLOOR};
use crate::ray::{cell_index, clipped, grid_index};
use crate::utilities::vector2::{Rotation, Vector2};

verus! {

/// The height of the eyes of a standing player.
pub const STANDING_HEIGHT: Fixed = 150 * 65536;

/// How far the eyes rise and fall with a step, for a unit of the walking wave.
pub const BOB_HEIGHT: Fixed = 35 * 65536;

/// The walking wave is gone through once in half a second: this many of its
/// samples pass in a second.
pub const BOB_RATE: Fixed = 300 * 65536;

/// The pose of the player. `dir_norm` is the unit vector of the view, `plane`
/// the vector along the screen, `planedist` the distance of the screen in
/// pixels, `pitch` the shift of the horizon in pixels, `jump` the height of the
/// eyes this frame, `height` their height at rest, and `current_wall` the code
/// of the cell that the player stands in.
pub struct Player {
    pub pos: Vector2,
    pub dir_norm: Vector2,
    pub plane: Vector2,
    pub planedist: Fixed,
    pub pitch: Fixed,
    pub jump: Fixed,
    pub walking: bool,
    pub height: Fixed,
    pub current_wall: usize,
}

/// The time within the current half second.
pub open spec fn half_second_of(time: Fixed) -> Fixed {
    (time as int % (HALF as int)) as i64
}

/// The sample of the walking wave that is due at `time`.
pub open spec fn bob_index(time: Fixed) -> usize {
    index_of(prod(half_second_of(time), BOB_RATE))
}

impl Player {
    /// A player who stands still on plain floor, with the eyes at
    /// [`STANDING_HEIGHT`] at rest.
    pub fn new(
        pos: Vector2,
        dir_norm: Vector2,
        plane: Vector2,
        planedist: Fixed,
        pitch: Fixed,
        jump: Fixed,
    ) -> (player: Self)
        ensures
            player == (Player {
                pos,
                dir_norm,
                plane,
                planedist,
                pitch,
                jump,
                walking: false,
                height: STANDING_HEIGHT,
                current_wall: TILED_FLOOR,
            }),
    {
        Self {
            pos,
            dir_norm,
            plane,
            planedist,
            pitch,
            jump,
            walking: false,
            height: STANDING_HEIGHT,
            current_wall: TILED_FLOOR,
        }
    }

    /// The height of the eyes at `time` for a player at rest at `height`: when
    /// walking, the due sample of the walking wave is added, as far as the
    /// wave has it.
    pub open spec fn eye_height(height: Fixed, walking: bool, wave: Seq<Fixed>, time: Fixed) -> Fixed {
        if walking && bob_index(time) < wave.len() {
            sum(height, prod(wave[bob_index(time) as int], BOB_HEIGHT))
        } else {
            height
        }
    }

    /// Takes note of the cell that the player stands in, and sets the height
    /// of the eyes for the frame at `time`.
    pub fn update(&mut self, wall: usize, buffer_walking: &[Fixed], time: Fixed)
        ensures
            *final(self) == (Player {
                current_wall: wall,
                jump: Self::eye_height(
                    old(self).height,
                    old(self).walking,
                    buffer_walking@,
                    time,
                ),
                ..*old(self)
            }),
    {
        self.current_wall = wall;
        self.jump = self.height;
        if self.walking {
            let within: Fixed = half_second(time);
            let at: usize = fx_index(fx_mul(within, BOB_RATE));
            if at < buffer_walking.len() {
                let delta_jump: Fixed = buffer_walking[at];
                self.jump = fx_add(self.jump, fx_mul(delta_jump, BOB_HEIGHT));
            }
        }
    }
}

/// The time within the current half second.
pub fn half_second(time: Fixed) -> (r: Fixed)
    ensures
        r == half_second_of(time),
        0 <= r < HALF,
{
    let m: Fixed = time % 32768;
    proof {
        vstd::arithmetic::div_mod::lemma_fundamental_div_mod(time as int, 32768);
        vstd::arithmetic::div_mod::lemma_mod_bound(time as int, 32768);
        if time < 0 {
            vstd::arithmetic::div_mod::lemma_fundamental_div_mod(-(time as int), 32768);
            vstd::arithmetic::div_mod::lemma_mod_bound(-(time as int), 32768);
        }
    }
    if m < 0 {
        proof {
            let t = time as int;
            let q = (-t) / 32768;
            let r = (-t) % 32768;
            assert(t == 32768 * (-q - 1) + (32768 - r));
            vstd::arithmetic::div_mod::lemma_fundamental_div_mod_converse(
                t,
                32768,
                -q - 1,
                32768 - r,
            );
        }
        m + 32768
    } else {
        proof {
            if time < 0 {
                let t = time as int;
                let q = (-t) / 32768;
                assert(t == 32768 * (-q) + 0);
                vstd::arithmetic::div_mod::lemma_fundamental_div_mod_converse(t, 32768, -q, 0);
            }
        }
        m
    }
}

/// How many degrees the view turns for a unit of the mouse's way.
pub const TURN_RATE: Fixed = 5571;

/// How many rows the horizon moves for a unit of the mouse's way.
pub const PITCH_RATE: Fixed = 49152;

/// The mouse's way across that counts as none.
pub const MOUSE_REST_X: Fixed = 240 * 65536;

/// The mouse's way up or down that counts as none.
pub const MOUSE_REST_Y: Fixed = 135 * 65536;

/// The farthest that the horizon moves from the middle of the screen.
pub const PITCH_MAX: Fixed = 400 * 65536;

/// The same, upwards.
pub const PITCH_MIN: Fixed = -400 * 65536;

/// How far the player walks in a second.
pub const WALKING_SPEED: Fixed = 163840;

/// How near to a wall the player comes.
pub const WALL_MARGIN: Fixed = 20480;

/// Half of the square root of two: a step sideways and forwards at once is
/// no longer than a step.
pub const DIAGONAL: Fixed = 46341;

/// How far before the player a door is within reach.
pub const DOOR_REACH: Fixed = 98304;

/// The lowest that the eyes of a crouching player come.
pub const CROUCH_MIN: Fixed = -300 * 65536;

/// By how much the eyes sink or rise in a frame.
pub const CROUCH_STEP: Fixed = 30 * 65536;

/// By how much a key lifts or lowers the eyes.
pub const LIFT_STEP: Fixed = 10 * 65536;

/// What the player asks for in a frame: the way of the mouse, the turn of
/// the view that belongs to it, and the keys that are down.
#[derive(Debug, Clone, Copy, PartialEq, Eq, Structural)]
pub struct Input {
    pub mouse: Vector2,
    pub turn: Rotation,
    pub forward: bool,
    pub back: bool,
    pub left: bool,
    pub right: bool,
    pub open: bool,
    pub crouch: bool,
    pub lift: bool,
    pub lower: bool,
}

/// A walk in progress: where the player stands, the step of the frame along
/// the view, and whether the player has walked.
#[derive(Debug, Clone, Copy, PartialEq, Eq, Structural)]
pub struct Walk {
    pub pos: Vector2,
    pub dir: Vector2,
    pub walking: bool,
}

/// One for a number that is not negative, minus one for a negative number.
pub open spec fn sign_of(a: Fixed) -> Fixed {
    if a < 0 {
        -65536i64
    } else {
        ONE
    }
}

/// The way of the mouse across or along, reckoned from where it rests.
pub open spec fn mouse_way(delta: Fixed, rest: Fixed) -> Fixed {
    if delta != 0 {
        diff(delta, rest)
    } else {
        delta
    }
}

/// By how many degrees the view turns for the way `delta_x` of the mouse.
pub open spec fn turn_degrees_of(delta_x: Fixed) -> Fixed {
    prod(TURN_RATE, mouse_way(delta_x, MOUSE_REST_X))
}

/// Whether the player cannot go to `at`.
pub open spec fn blocked(map: WorldMap, map_size: (usize, usize), at: Vector2) -> bool {
    map.solid_at(cell_index(map_size, at))
}

/// The step `step` without its part along `y` where the way along `y` is
/// blocked, and without its part along `x` where the way along `x` is.
pub open spec fn step_allowed(
    map: WorldMap,
    map_size: (usize, usize),
    pos: Vector2,
    step: Vector2,
    towards_x: Fixed,
    towards_y: Fixed,
) -> Vector2 {
    Vector2 {
        x: if blocked(map, map_size, Vector2 { x: sum(pos.x, prod(towards_x, WALL_MARGIN)), y: pos.y }) {
            0
        } else {
            step.x
        },
        y: if blocked(map, map_size, Vector2 { x: pos.x, y: sum(pos.y, prod(towards_y, WALL_MARGIN)) }) {
            0
        } else {
            step.y
        },
    }
}

/// The walk after a step forwards.
pub open spec fn walked_forward(map: WorldMap, map_size: (usize, usize), facing: Vector2, w: Walk) -> Walk {
    let dir = step_allowed(map, map_size, w.pos, w.dir, sign_of(facing.x), sign_of(facing.y));
    Walk { pos: w.pos.plus(dir), dir, walking: true }
}

/// The walk after a step back.
pub open spec fn walked_back(map: WorldMap, map_size: (usize, usize), facing: Vector2, w: Walk) -> Walk {
    let dir = step_allowed(
        map,
        map_size,
        w.pos,
        w.dir,
        negated(sign_of(facing.x)),
        negated(sign_of(facing.y)),
    );
    Walk { pos: w.pos.minus(dir), dir, walking: true }
}

/// The walk after a step to a side, where `perp` is the step of the frame
/// turned to that side: straight to the side, or, together with a step
/// forwards or back that has been taken and no step to the other side, so
/// that both together are one step long.
pub open spec fn walked_aside(w: Walk, perp: Vector2, forward: bool, back: bool, other: bool) -> Walk {
    let pos = if forward && !other {
        w.pos.plus(w.dir.scaled(-65536i64).plus(w.dir.plus(perp).scaled(DIAGONAL)))
    } else if back && !other {
        w.pos.plus(w.dir.plus(w.dir.scaled(-65536i64).plus(perp).scaled(DIAGONAL)))
    } else {
        w.pos.plus(perp)
    };
    Walk { pos, dir: w.dir, walking: true }
}

/// The walk after a step to the left.
pub open spec fn walked_left(
    map: WorldMap,
    map_size: (usize, usize),
    facing: Vector2,
    w: Walk,
    input: Input,
) -> Walk {
    let perp = step_allowed(
        map,
        map_size,
        w.pos,
        Vector2 { x: w.dir.y, y: negated(w.dir.x) },
        sign_of(facing.y),
        negated(sign_of(facing.x)),
    );
    walked_aside(w, perp, input.forward, input.back, input.right)
}

/// The walk after a step to the right.
pub open spec fn walked_right(
    map: WorldMap,
    map_size: (usize, usize),
    facing: Vector2,
    w: Walk,
    input: Input,
) -> Walk {
    let perp = step_allowed(
        map,
        map_size,
        w.pos,
        Vector2 { x: negated(w.dir.y), y: w.dir.x },
        negated(sign_of(facing.y)),
        sign_of(facing.x),
    );
    walked_aside(w, perp, input.forward, input.back, input.left)
}

/// The walk of a frame of `dt` seconds for a player at `pos` who faces
/// `facing`: forwards, back, left and right, as far as the keys ask.
pub open spec fn walk_of(
    map: WorldMap,
    map_size: (usize, usize),
    pos: Vector2,
    facing: Vector2,
    input: Input,
    dt: Fixed,
) -> Walk {
    let start = Walk { pos, dir: facing.scaled(prod(WALKING_SPEED, dt)), walking: false };
    let a = if input.forward {
        walked_forward(map, map_size, facing, start)
    } else {
        start
    };
    let b = if input.back {
        walked_back(map, map_size, facing, a)
    } else {
        a
    };
    let c = if input.left {
        walked_left(map, map_size, facing, b, input)
    } else {
        b
    };
    if input.right {
        walked_right(map, map_size, facing, c, input)
    } else {
        c
    }
}

/// The height of the eyes at rest after a frame: it sinks while the player
/// crouches, down to [`CROUCH_MIN`], else rises up to [`STANDING_HEIGHT`].
pub open spec fn height_after(height: Fixed, crouch: bool) -> Fixed {
    if crouch {
        if height > CROUCH_MIN {
            diff(height, CROUCH_STEP)
        } else {
            height
        }
    } else if height < STANDING_HEIGHT {
        sum(height, CROUCH_STEP)
    } else {
        height
    }
}

/// The height of the eyes after the keys that lift and lower them.
pub open spec fn jump_after(jump: Fixed, lift: bool, lower: bool) -> Fixed {
    let lifted = if lift {
        sum(jump, LIFT_STEP)
    } else {
        jump
    };
    if lower {
        diff(lifted, LIFT_STEP)
    } else {
        lifted
    }
}

/// One for a number that is not negative, minus one for a negative number.
pub fn sign(a: Fixed) -> (r: Fixed)
    ensures
        r == sign_of(a),
{
    if a < 0 {
        -65536
    } else {
        ONE
    }
}

/// By how many degrees the view turns for the way `delta_x` of the mouse.
pub fn turn_degrees(delta_x: Fixed) -> (degrees: Fixed)
    ensures
        degrees == turn_degrees_of(delta_x),
{
    let way: Fixed = if delta_x != 0 {
        fx_sub(delta_x, MOUSE_REST_X)
    } else {
        delta_x
    };
    fx_mul(TURN_RATE, way)
}

/// The step `step` without the parts whose way is blocked.
pub fn allow_step(
    map: &WorldMap,
    map_size: (usize, usize),
    pos: Vector2,
    step: Vector2,
    towards_x: Fixed,
    towards_y: Fixed,
) -> (allowed: Vector2)
    ensures
        allowed == step_allowed(*map, map_size, pos, step, towards_x, towards_y),
{
    let check_pos_y = Vector2 { x: pos.x, y: fx_add(pos.y, fx_mul(towards_y, WALL_MARGIN)) };
    let check_pos_x = Vector2 { x: fx_add(pos.x, fx_mul(towards_x, WALL_MARGIN)), y: pos.y };
    let len: usize = map.solid.len();
    let at_y: usize = grid_index(map_size, check_pos_y);
    let at_x: usize = grid_index(map_size, check_pos_x);
    let mut allowed = step;
    if map.is_solid(at_y) {
        allowed.y = 0;
    }
    if map.is_solid(at_x) {
        allowed.x = 0;
    }
    allowed
}

impl Player {
    /// The player after a frame of `dt` seconds with the input `input`: the
    /// horizon follows the mouse, within its bounds, the view turns, the
    /// player walks as far as the map lets, and the eyes sink, rise, lift
    /// and lower.
    pub open spec fn moved(self, map: WorldMap, map_size: (usize, usize), input: Input, dt: Fixed) -> Player {
        let facing = self.dir_norm.rotated(input.turn);
        let walk = walk_of(map, map_size, self.pos, facing, input, dt);
        Player {
            pos: walk.pos,
            dir_norm: facing,
            plane: self.plane.rotated(input.turn),
            pitch: clamped(
                diff(self.pitch, prod(mouse_way(input.mouse.y, MOUSE_REST_Y), PITCH_RATE)),
                PITCH_MIN,
                PITCH_MAX,
            ),
            walking: walk.walking,
            height: height_after(self.height, input.crouch),
            jump: jump_after(self.jump, input.lift, input.lower),
            ..self
        }
    }

    /// Moves the player by the input of a frame of `dt` seconds.
    pub fn handle_input(&mut self, map: &WorldMap, map_size: (usize, usize), input: &Input, dt: Fixed)
        ensures
            *final(self) == old(self).moved(*map, map_size, *input, dt),
    {
        let delta_mouse_loc_y: Fixed = if input.mouse.y != 0 {
            fx_sub(input.mouse.y, MOUSE_REST_Y)
        } else {
            input.mouse.y
        };
        self.pitch = fx_clamp(
            fx_sub(self.pitch, fx_mul(delta_mouse_loc_y, PITCH_RATE)),
            PITCH_MIN,
            PITCH_MAX,
        );
        self.plane = Vector2::rotate(self.plane, input.turn);
        self.dir_norm = Vector2::rotate(self.dir_norm, input.turn);
        let facing = self.dir_norm;
        let mut dir = facing * fx_mul(WALKING_SPEED, dt);
        self.walking = false;
        if input.forward {
            dir = allow_step(map, map_size, self.pos, dir, sign(facing.x), sign(facing.y));
            self.pos = self.pos + dir;
            self.walking = true;
        }
        if input.back {
            dir = allow_step(
                map,
                map_size,
                self.pos,
                dir,
                fx_neg(sign(facing.x)),
                fx_neg(sign(facing.y)),
            );
            self.pos = self.pos - dir;
            self.walking = true;
        }
        if input.left {
            let perp_dir = allow_step(
                map,
                map_size,
                self.pos,
                Vector2 { x: dir.y, y: fx_neg(dir.x) },
                sign(facing.y),
                fx_neg(sign(facing.x)),
            );
            if input.forward && !input.right {
                self.pos = self.pos + (dir * (-65536) + (dir + perp_dir) * DIAGONAL);
            } else if input.back && !input.right {
                self.pos = self.pos + (dir + (dir * (-65536) + perp_dir) * DIAGONAL);
            } else {
                self.pos = self.pos + perp_dir;
            }
            self.walking = true;
        }
        if input.right {
            let perp_dir = allow_step(
                map,
                map_size,
                self.pos,
                Vector2 { x: fx_neg(dir.y), y: dir.x },
                fx_neg(sign(facing.y)),
                sign(facing.x),
            );
            if input.forward && !input.left {
                self.pos = self.pos + (dir * (-65536) + (dir + perp_dir) * DIAGONAL);
            } else if input.back && !input.left {
                self.pos = self.pos + (dir + (dir * (-65536) + perp_dir) * DIAGONAL);
            } else {
                self.pos = self.pos + perp_dir;
            }
            self.walking = true;
        }
        if input.crouch {
            if self.height > CROUCH_MIN {
                self.height = fx_sub(self.height, CROUCH_STEP);
            }
        } else if self.height < STANDING_HEIGHT {
            self.height = fx_add(self.height, CROUCH_STEP);
        }
        if input.lift {
            self.jump = fx_add(self.jump, LIFT_STEP);
        }
        if input.lower {
            self.jump = fx_sub(self.jump, LIFT_STEP);
        }
    }

    /// The cell before the player in which a door is within reach.
    pub open spec fn cell_in_reach(self, map_size: (usize, usize)) -> usize {
        clipped(cell_index(map_size, self.pos.plus(self.dir_norm.scaled(DOOR_REACH))))
    }

    /// The cell before the player in which a door is within reach.
    pub fn reach(&self, map_size: (usize, usize)) -> (cell: usize)
        ensures
            cell == self.cell_in_reach(map_size),
    {
        grid_index(map_size, self.pos + self.dir_norm * DOOR_REACH)
    }
}

} // verus!
