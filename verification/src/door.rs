//! Doors: a leaf that slides open once it is triggered.

use vstd::prelude::*;
use crate::fixed::{Fixed, fx_mul, fx_sub, diff, prod, HALF, ONE};

verus! {

/// The opening below which a door counts as open.
pub const DOOR_OPEN_BELOW: Fixed = 66;

/// What a door is doing.
#[derive(Debug, Clone, Copy, PartialEq, Eq, Structural)]
pub enum DoorState {
    Closed,
    Opening,
    Open,
}

/// The door of the cell `pos`. `offset` is how far the leaf still covers the
/// doorway: [`ONE`] when closed, zero when open.
#[derive(Debug, Clone, Copy, PartialEq, Eq, Structural)]
pub struct Door {
    pub offset: Fixed,
    pub opening: bool,
    pub timer: Fixed,
    pub pos: usize,
}

/// `v` kept between zero and [`ONE`].
pub open spec fn unit_clamped(v: Fixed) -> Fixed {
    if v < 0 {
        0
    } else if v > ONE {
        ONE
    } else {
        v
    }
}

impl Door {
    /// The leaf covers between nothing and all of the doorway.
    pub open spec fn wf(self) -> bool {
        0 <= self.offset <= ONE
    }

    /// The state of the door.
    pub open spec fn spec_state(self) -> DoorState {
        if self.opening {
            DoorState::Opening
        } else if self.offset <= DOOR_OPEN_BELOW {
            DoorState::Open
        } else {
            DoorState::Closed
        }
    }

    /// The door after `dt` seconds of opening: the leaf has moved by half of
    /// `dt`, or, where it had arrived, the door has stopped.
    pub open spec fn updated(self, dt: Fixed) -> Door {
        if self.offset > DOOR_OPEN_BELOW {
            Door {
                offset: unit_clamped(diff(self.offset, prod(HALF, dt))),
                ..self
            }
        } else {
            Door { opening: false, ..self }
        }
    }

    /// The door with the given parts.
    pub fn new(offset: Fixed, opening: bool, timer: Fixed, pos: usize) -> (door: Self)
        ensures
            door == (Door { offset, opening, timer, pos }),
    {
        Self { offset, opening, timer, pos }
    }

    /// The state of the door.
    pub fn state(&self) -> (s: DoorState)
        ensures
            s == self.spec_state(),
    {
        if self.opening {
            DoorState::Opening
        } else if self.offset <= DOOR_OPEN_BELOW {
            DoorState::Open
        } else {
            DoorState::Closed
        }
    }

    /// Moves the leaf on by `dt` seconds. Once it has arrived the door stops,
    /// and its cell, where `solid` has it, is no longer solid.
    pub fn update(&mut self, dt: Fixed, solid: &mut Vec<bool>)
        ensures
            *final(self) == old(self).updated(dt),
            final(solid)@ == (if old(self).offset <= DOOR_OPEN_BELOW && old(self).pos < old(
                solid,
            )@.len() {
                old(solid)@.update(old(self).pos as int, false)
            } else {
                old(solid)@
            }),
            old(self).wf() || old(self).offset > DOOR_OPEN_BELOW ==> final(self).wf(),
    {
        if self.offset > DOOR_OPEN_BELOW {
            let moved: Fixed = fx_sub(self.offset, fx_mul(HALF, dt));
            self.offset = if moved < 0 {
                0
            } else if moved > ONE {
                ONE
            } else {
                moved
            };
        } else {
            self.opening = false;
            if self.pos < solid.len() {
                solid[self.pos] = false;
            }
        }
    }
}

} // verus!
