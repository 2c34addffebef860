//! A ray on its way through the grid, one cell boundary at a time.

use vstd::prelude::*;
use crate::Orientation;
use crate::fixed::{
    Fixed, diff, frac, fx_add, fx_div, fx_floor, fx_fract, fx_index, fx_mul, fx_sqrt, fx_sub,
    greater, index_of, lemma_root_bounds, lesser, prod, quot, root, sum, whole, HALF, ONE,
    ROOT_MAX,
};
use crate::map::{
    ends_ray, kind_of, wall_kind, WallKind, WorldMap, FRAME_WOODEN_DOOR, TILED_FLOOR,
    WOODEN_DOOR,
};
use crate::render::Intersection;
use crate::utilities::vector2::Vector2;

verus! {

/// The length at which a ray that has met no wall is given up.
pub const MAX_RAY_LENGTH: Fixed = 100 * 65536;

/// No boundary that a ray still on its way is about to cross lies farther
/// along it than this.
pub const REACH: Fixed = 100 * 65536 + 2 * 0x100_0000_0000;

/// A ray: where it starts, its direction, the length of ray between two
/// boundaries across each axis, and the step from a cell to the next along
/// each axis.
#[derive(Debug, Clone, Copy, PartialEq, Eq, Structural)]
pub struct Ray {
    pub start: Vector2,
    pub dir: Vector2,
    pub unit: Vector2,
    pub step: Vector2,
}

/// How far a ray has come: the cell it is in, the lengths at which it next
/// crosses a boundary across each axis, its length so far, the side it
/// entered the cell by, the code it last saw, whether it has just passed an
/// open door, and whether it has met what ends it.
#[derive(Debug, Clone, Copy, PartialEq, Eq, Structural)]
pub struct RayState {
    pub cell: Vector2,
    pub lengths: Vector2,
    pub distance: Fixed,
    pub orientation: Orientation,
    pub wall_type: usize,
    pub last_was_door: bool,
    pub found: bool,
}

/// The length of ray that spans one cell along an axis, for a direction with
/// the component `along` on that axis and `across` on the other.
pub open spec fn unit_step(across: Fixed, along: Fixed) -> Fixed {
    root(sum(ONE, prod(quot(across, along), quot(across, along))))
}

/// Whether a ray that entered by the side `o` crossed from one row to the
/// next.
pub open spec fn crosses_rows(o: Orientation) -> bool {
    o == Orientation::N || o == Orientation::S
}

/// The index of the cell at `cell` in a grid of rows of `map_size.0` cells.
/// A coordinate below zero counts as zero.
pub open spec fn cell_index(map_size: (usize, usize), cell: Vector2) -> int {
    index_of(cell.y) * map_size.0 + index_of(cell.x)
}

/// Whether `cell` lies in the grid.
pub open spec fn in_grid(map_size: (usize, usize), cell: Vector2) -> bool {
    cell.x >= 0 && index_of(cell.x) < map_size.0 && cell.y >= 0 && index_of(cell.y) < map_size.1
}

/// An index as a `usize`, the largest for one beyond the range.
pub open spec fn clipped(i: int) -> usize {
    if i > usize::MAX {
        usize::MAX
    } else {
        i as usize
    }
}

/// Whether a ray that meets the plane of a door at `pos` across its cell
/// passes between the two halves of the leaf, each of which covers half of
/// `offset` of the doorway from its side.
pub open spec fn door_gap(offset: Fixed, pos: Fixed) -> bool {
    offset < ONE && pos >= prod(offset, HALF) && diff(ONE, pos) >= prod(offset, HALF)
}

impl Ray {
    /// The ray from `start` in the direction `dir`.
    pub open spec fn towards(start: Vector2, dir: Vector2) -> Ray {
        Ray {
            start,
            dir,
            unit: Vector2 { x: unit_step(dir.y, dir.x), y: unit_step(dir.x, dir.y) },
            step: Vector2 {
                x: if dir.x < 0 {
                    -65536i64
                } else {
                    ONE
                },
                y: if dir.y < 0 {
                    -65536i64
                } else {
                    ONE
                },
            },
        }
    }

    /// Each cell takes at least one and at most [`ROOT_MAX`] of ray length.
    pub open spec fn wf(self) -> bool {
        &&& 1 <= self.unit.x <= ROOT_MAX
        &&& 1 <= self.unit.y <= ROOT_MAX
    }

    /// The ray before its first step.
    pub open spec fn first(self) -> RayState {
        RayState {
            cell: Vector2 { x: whole(self.start.x), y: whole(self.start.y) },
            lengths: Vector2 {
                x: if self.dir.x < 0 {
                    prod(diff(self.start.x, whole(self.start.x)), self.unit.x)
                } else {
                    prod(diff(sum(whole(self.start.x), ONE), self.start.x), self.unit.x)
                },
                y: if self.dir.y < 0 {
                    prod(diff(self.start.y, whole(self.start.y)), self.unit.y)
                } else {
                    prod(diff(sum(whole(self.start.y), ONE), self.start.y), self.unit.y)
                },
            },
            distance: 0,
            orientation: Orientation::N,
            wall_type: TILED_FLOOR,
            last_was_door: false,
            found: false,
        }
    }

    /// The point at the length `distance` along the ray.
    pub open spec fn point_at(self, distance: Fixed) -> Vector2 {
        self.start.plus(self.dir.scaled(distance))
    }

    /// The ray across the nearer of its next two boundaries.
    pub open spec fn advance(self, s: RayState) -> RayState {
        if s.lengths.x < s.lengths.y {
            RayState {
                cell: Vector2 { x: sum(s.cell.x, self.step.x), y: s.cell.y },
                distance: s.lengths.x,
                lengths: Vector2 { x: sum(s.lengths.x, self.unit.x), y: s.lengths.y },
                orientation: if self.dir.x < 0 {
                    Orientation::W
                } else {
                    Orientation::E
                },
                ..s
            }
        } else {
            RayState {
                cell: Vector2 { x: s.cell.x, y: sum(s.cell.y, self.step.y) },
                distance: s.lengths.y,
                lengths: Vector2 { x: s.lengths.x, y: sum(s.lengths.y, self.unit.y) },
                orientation: if self.dir.y < 0 {
                    Orientation::S
                } else {
                    Orientation::N
                },
                ..s
            }
        }
    }

    /// The length at which the ray meets the plane through the middle of the
    /// cell it has just entered.
    pub open spec fn mid_distance(self, s: RayState) -> Fixed {
        if crosses_rows(s.orientation) {
            diff(s.lengths.y, prod(self.unit.y, HALF))
        } else {
            diff(s.lengths.x, prod(self.unit.x, HALF))
        }
    }

    /// The length at which the ray leaves the cell it has just entered by a
    /// side across the other axis.
    pub open spec fn side_distance(self, s: RayState) -> Fixed {
        if crosses_rows(s.orientation) {
            s.lengths.x
        } else {
            s.lengths.y
        }
    }

    /// Whether the ray meets the plane through the middle of the cell before
    /// it leaves the cell by a side.
    pub open spec fn reaches_middle(self, s: RayState) -> bool {
        self.mid_distance(s) <= self.side_distance(s)
    }

    /// The side by which the ray leaves the cell across the other axis.
    pub open spec fn side_orientation(self, s: RayState) -> Orientation {
        if crosses_rows(s.orientation) {
            if self.dir.x < 0 {
                Orientation::W
            } else {
                Orientation::E
            }
        } else {
            if self.dir.y < 0 {
                Orientation::S
            } else {
                Orientation::N
            }
        }
    }

    /// The cell that the ray enters where it leaves by a side across the
    /// other axis.
    pub open spec fn side_cell(self, s: RayState) -> Vector2 {
        if crosses_rows(s.orientation) {
            Vector2 {
                x: if self.dir.x < 0 {
                    diff(s.cell.x, ONE)
                } else {
                    sum(s.cell.x, ONE)
                },
                y: s.cell.y,
            }
        } else {
            Vector2 {
                x: s.cell.x,
                y: if self.dir.y < 0 {
                    diff(s.cell.y, ONE)
                } else {
                    sum(s.cell.y, ONE)
                },
            }
        }
    }

    /// The cell that the ray was in before it entered this one.
    pub open spec fn cell_behind(self, s: RayState) -> Vector2 {
        if crosses_rows(s.orientation) {
            Vector2 { x: s.cell.x, y: diff(s.cell.y, self.step.y) }
        } else {
            Vector2 { x: diff(s.cell.x, self.step.x), y: s.cell.y }
        }
    }

    /// Where across the cell, from 0 to [`ONE`], the ray is at the length
    /// `distance`, measured along the boundary that it has just crossed.
    pub open spec fn across_at(self, s: RayState, distance: Fixed) -> Fixed {
        if crosses_rows(s.orientation) {
            frac(sum(self.start.x, prod(self.dir.x, distance)))
        } else {
            frac(sum(self.start.y, prod(self.dir.y, distance)))
        }
    }

    /// The ray at a door: it ends at the leaf in the middle of the cell, or
    /// passes between the halves of the leaf, or ends at the jamb where it
    /// leaves by a side before the middle.
    pub open spec fn at_door(self, s: RayState, offset: Fixed) -> RayState {
        if self.reaches_middle(s) {
            let mid = self.mid_distance(s);
            if door_gap(offset, self.across_at(s, mid)) {
                RayState { distance: mid, last_was_door: true, found: false, ..s }
            } else {
                RayState { distance: mid, found: true, ..s }
            }
        } else {
            RayState {
                orientation: self.side_orientation(s),
                cell: self.side_cell(s),
                wall_type: FRAME_WOODEN_DOOR,
                distance: self.side_distance(s),
                found: true,
                ..s
            }
        }
    }

    /// The ray at a cobweb or at bars: it goes on, from the middle of the
    /// cell or from the side that it leaves by before the middle.
    pub open spec fn at_lattice(self, s: RayState) -> RayState {
        if self.reaches_middle(s) {
            RayState { distance: self.mid_distance(s), ..s }
        } else {
            RayState {
                orientation: self.side_orientation(s),
                distance: self.side_distance(s),
                ..s
            }
        }
    }

    /// What is seen of a cobweb or of bars: the face in the middle of the
    /// cell, or the cell beside it where the ray leaves before the middle.
    pub open spec fn lattice_hit(self, map: WorldMap, map_size: (usize, usize), s: RayState) -> Intersection {
        let after = self.at_lattice(s);
        let seen = if self.reaches_middle(s) {
            s.cell
        } else {
            self.side_cell(s)
        };
        Intersection {
            point: self.point_at(after.distance),
            distance: after.distance,
            map_checkv: clipped(cell_index(map_size, seen)),
            orientation: after.orientation,
            wall_type: map.wall_at(cell_index(map_size, seen)),
            is_transparent: true,
            is_up: false,
        }
    }

    /// What is seen of stairs: the boundary of their cell.
    pub open spec fn stairs_hit(self, map_size: (usize, usize), s: RayState) -> Intersection {
        Intersection {
            point: self.point_at(s.distance),
            distance: s.distance,
            map_checkv: clipped(cell_index(map_size, s.cell)),
            orientation: s.orientation,
            wall_type: s.wall_type,
            is_transparent: false,
            is_up: false,
        }
    }

    /// The ray in a cell of the grid that it has just entered, and what it
    /// sees there without ending. A wall right behind an open door shows a
    /// jamb, and so does whatever the ray sees when it comes out of a door's
    /// cell.
    pub open spec fn resolve(self, map: WorldMap, map_size: (usize, usize), a: RayState) -> (
        RayState,
        Option<Intersection>,
    ) {
        let seen = map.wall_at(cell_index(map_size, a.cell));
        let code = if a.last_was_door && seen > 0 {
            FRAME_WOODEN_DOOR
        } else {
            seen
        };
        let b = RayState { wall_type: code, last_was_door: false, ..a };
        let (c, hit) = match kind_of(code) {
            WallKind::Door => (
                self.at_door(b, map.door_offset(clipped(cell_index(map_size, a.cell)))),
                None,
            ),
            WallKind::Lattice => (self.at_lattice(b), Some(self.lattice_hit(map, map_size, b))),
            WallKind::Stairs => (b, Some(self.stairs_hit(map_size, b))),
            WallKind::Empty => (b, None),
            WallKind::StairsTop => (b, None),
            WallKind::Opaque => (RayState { found: true, ..b }, None),
            WallKind::FrameDoor => (RayState { found: true, ..b }, None),
        };
        let d = if map.wall_at(cell_index(map_size, self.cell_behind(c))) == WOODEN_DOOR {
            RayState { wall_type: FRAME_WOODEN_DOOR, ..c }
        } else {
            c
        };
        (d, hit)
    }

    /// One step of the ray: across the next boundary, and, within the grid,
    /// into what stands there.
    pub open spec fn step_from(self, map: WorldMap, map_size: (usize, usize), s: RayState) -> (
        RayState,
        Option<Intersection>,
    ) {
        let a = self.advance(s);
        if in_grid(map_size, a.cell) {
            self.resolve(map, map_size, a)
        } else {
            (a, None)
        }
    }

    /// Whether the ray goes on from `s`: it has met nothing that ends it and
    /// is shorter than [`MAX_RAY_LENGTH`].
    pub open spec fn goes_on(s: RayState) -> bool {
        !s.found && s.distance < MAX_RAY_LENGTH
    }

    /// The nearer of the next two boundaries is at most one cell beyond the
    /// length so far.
    pub open spec fn steady(self, s: RayState) -> bool {
        lesser(s.lengths.x, s.lengths.y) <= s.distance + greater(self.unit.x, self.unit.y)
    }

    /// A bound on the ray length that is left before the ray is given up.
    pub open spec fn remaining(self, s: RayState) -> nat {
        ((REACH - lesser(s.lengths.x, REACH)) + (REACH - lesser(s.lengths.y, REACH))) as nat
    }

    /// The ray followed from `s` until it ends or is given up: how it ends,
    /// and what it sees without ending on the way, in the order in which it
    /// sees it.
    pub open spec fn cast_from(self, map: WorldMap, map_size: (usize, usize), s: RayState) -> (
        RayState,
        Seq<Intersection>,
    )
        decreases self.remaining(s),
        when self.wf() && self.steady(s)
        via Self::cast_from_ends
    {
        if !Self::goes_on(s) {
            (s, Seq::empty())
        } else {
            let (next, hit) = self.step_from(map, map_size, s);
            let (last, hits) = self.cast_from(map, map_size, next);
            (
                last,
                match hit {
                    Some(h) => seq![h] + hits,
                    None => hits,
                },
            )
        }
    }

    #[via_fn]
    proof fn cast_from_ends(self, map: WorldMap, map_size: (usize, usize), s: RayState) {
        if Self::goes_on(s) {
            self.lemma_step(map, map_size, s);
        }
    }

    /// A step of a ray that goes on brings it nearer to its end, keeps it
    /// steady, and makes neither of its next two boundaries nearer. What it
    /// meets lies between the boundary that it has crossed and the next one.
    pub proof fn lemma_step(self, map: WorldMap, map_size: (usize, usize), s: RayState)
        requires
            self.wf(),
            self.steady(s),
            Self::goes_on(s),
        ensures
            self.steady(self.step_from(map, map_size, s).0),
            self.remaining(self.step_from(map, map_size, s).0) < self.remaining(s),
            self.step_from(map, map_size, s).0.lengths == self.advance(s).lengths,
            self.step_from(map, map_size, s).0.lengths.x >= s.lengths.x,
            self.step_from(map, map_size, s).0.lengths.y >= s.lengths.y,
            self.step_from(map, map_size, s).0.distance >= lesser(s.lengths.x, s.lengths.y),
            self.step_from(map, map_size, s).0.distance <= lesser(
                self.step_from(map, map_size, s).0.lengths.x,
                self.step_from(map, map_size, s).0.lengths.y,
            ),
            self.step_from(map, map_size, s).0.found || self.step_from(map, map_size, s).0.cell
                == self.advance(s).cell,
    {
        let a = self.advance(s);
        let near = lesser(s.lengths.x, s.lengths.y);
        assert(near < MAX_RAY_LENGTH + ROOT_MAX);
        assert(a.distance == near);
        if in_grid(map_size, a.cell) {
            let seen = map.wall_at(cell_index(map_size, a.cell));
            let code = if a.last_was_door && seen > 0 {
                FRAME_WOODEN_DOOR
            } else {
                seen
            };
            let b = RayState { wall_type: code, last_was_door: false, ..a };
            assert(self.side_distance(b) >= near);
            assert(prod(self.unit.y, HALF) <= self.unit.y);
            assert(prod(self.unit.x, HALF) <= self.unit.x);
            assert(prod(self.unit.y, HALF) >= 0);
            assert(prod(self.unit.x, HALF) >= 0);
            assert(self.mid_distance(b) >= near);
            if crosses_rows(b.orientation) {
                assert(self.mid_distance(b) <= b.lengths.y);
            } else {
                assert(self.mid_distance(b) <= b.lengths.x);
            }
        }
    }

    /// The ray `n` boundaries on from `s`, the map left aside.
    pub open spec fn ahead(self, s: RayState, n: nat) -> RayState
        decreases n,
    {
        if n == 0 {
            s
        } else {
            self.ahead(self.advance(s), (n - 1) as nat)
        }
    }

    /// Where a ray is `n` boundaries on depends only on where it is.
    pub proof fn lemma_ahead_of_the_same_place(self, s: RayState, t: RayState, n: nat)
        requires
            s.cell == t.cell,
            s.lengths == t.lengths,
        ensures
            self.ahead(s, n).cell == self.ahead(t, n).cell,
            self.ahead(s, n).lengths == self.ahead(t, n).lengths,
            n > 0 ==> self.ahead(s, n).distance == self.ahead(t, n).distance,
        decreases n,
    {
        if n > 0 {
            self.lemma_ahead_of_the_same_place(self.advance(s), self.advance(t), (n - 1) as nat);
        }
    }

    /// Each boundary that a ray crosses lies at least as far along it as the
    /// one before.
    pub proof fn lemma_boundaries_in_order(self, s: RayState, n: nat)
        requires
            self.unit.x >= 0,
            self.unit.y >= 0,
            n >= 1,
        ensures
            self.ahead(s, n).distance >= lesser(s.lengths.x, s.lengths.y),
            self.ahead(s, n).lengths.x >= s.lengths.x,
            self.ahead(s, n).lengths.y >= s.lengths.y,
        decreases n,
    {
        let a = self.advance(s);
        assert(self.ahead(s, n) == self.ahead(a, (n - 1) as nat));
        assert(a.lengths.x >= s.lengths.x && a.lengths.y >= s.lengths.y);
        assert(a.distance == lesser(s.lengths.x, s.lengths.y));
        if n > 1 {
            self.lemma_boundaries_in_order(a, (n - 1) as nat);
        } else {
            assert(self.ahead(a, 0) == a);
        }
    }

    /// A wall within range ends the ray: if the ray, the map left aside,
    /// enters after `n` boundaries a cell of the grid, before it is
    /// [`MAX_RAY_LENGTH`] long, and a wall stands in that cell, then it ends
    /// before it is that long.
    pub proof fn lemma_wall_in_range_ends_ray(
        self,
        map: WorldMap,
        map_size: (usize, usize),
        s: RayState,
        n: nat,
    )
        requires
            self.wf(),
            self.steady(s),
            !s.found,
            s.distance <= lesser(s.lengths.x, s.lengths.y),
            n >= 1,
            in_grid(map_size, self.ahead(s, n).cell),
            ends_ray(map.wall_at(cell_index(map_size, self.ahead(s, n).cell))),
            self.ahead(s, n).distance < MAX_RAY_LENGTH,
        ensures
            self.cast_from(map, map_size, s).0.found,
            self.cast_from(map, map_size, s).0.distance < MAX_RAY_LENGTH,
        decreases n,
    {
        let a = self.advance(s);
        self.lemma_boundaries_in_order(s, n);
        assert(Self::goes_on(s));
        self.lemma_step(map, map_size, s);
        let next = self.step_from(map, map_size, s).0;
        assert(self.cast_from(map, map_size, s).0 == self.cast_from(map, map_size, next).0);
        assert(self.ahead(s, n) == self.ahead(a, (n - 1) as nat));
        if n == 1 {
            assert(self.ahead(a, 0) == a);
            assert(next.found);
            assert(next.distance == a.distance);
            assert(self.cast_from(map, map_size, next).0 == next);
        } else {
            self.lemma_boundaries_in_order(a, (n - 1) as nat);
            if !next.found {
                self.lemma_ahead_of_the_same_place(next, a, (n - 1) as nat);
                self.lemma_wall_in_range_ends_ray(map, map_size, next, (n - 1) as nat);
            } else {
                assert(self.cast_from(map, map_size, next).0 == next);
            }
        }
    }

    /// A ray is followed until it has met what ends it or is
    /// [`MAX_RAY_LENGTH`] long, and no farther.
    pub proof fn lemma_cast_ends(self, map: WorldMap, map_size: (usize, usize), s: RayState)
        requires
            self.wf(),
            self.steady(s),
        ensures
            !Self::goes_on(self.cast_from(map, map_size, s).0),
            !Self::goes_on(s) ==> self.cast_from(map, map_size, s) == (s, Seq::<Intersection>::empty()),
        decreases self.remaining(s),
    {
        if Self::goes_on(s) {
            self.lemma_step(map, map_size, s);
            self.lemma_cast_ends(map, map_size, self.step_from(map, map_size, s).0);
        }
    }

    /// Along the whole way of a ray neither of its next two boundaries comes
    /// nearer.
    pub proof fn lemma_lengths_never_fall(self, map: WorldMap, map_size: (usize, usize), s: RayState)
        requires
            self.wf(),
            self.steady(s),
        ensures
            self.cast_from(map, map_size, s).0.lengths.x >= s.lengths.x,
            self.cast_from(map, map_size, s).0.lengths.y >= s.lengths.y,
        decreases self.remaining(s),
    {
        if Self::goes_on(s) {
            self.lemma_step(map, map_size, s);
            self.lemma_lengths_never_fall(map, map_size, self.step_from(map, map_size, s).0);
        }
    }

    /// A closed door ends the ray within its cell: a ray that enters the
    /// cell of a door whose leaf covers all of the doorway ends there, no
    /// nearer than the boundary that it has crossed and no farther than the
    /// next one.
    pub proof fn lemma_closed_door_ends_ray(self, map: WorldMap, map_size: (usize, usize), s: RayState)
        requires
            self.wf(),
            self.steady(s),
            Self::goes_on(s),
            !s.last_was_door,
            in_grid(map_size, self.advance(s).cell),
            map.wall_at(cell_index(map_size, self.advance(s).cell)) == WOODEN_DOOR,
            map.door_offset(clipped(cell_index(map_size, self.advance(s).cell))) == ONE,
        ensures
            self.step_from(map, map_size, s).0.found,
            self.step_from(map, map_size, s).0.distance >= self.advance(s).distance,
            self.step_from(map, map_size, s).0.distance <= lesser(
                self.step_from(map, map_size, s).0.lengths.x,
                self.step_from(map, map_size, s).0.lengths.y,
            ),
    {
        self.lemma_step(map, map_size, s);
    }

    /// An open door lets the ray pass: a ray that enters the cell of a door
    /// whose leaf covers nothing of the doorway does not end at the leaf. It
    /// goes on through the middle of the cell, or ends at the jamb where it
    /// leaves the cell by a side before the middle.
    pub proof fn lemma_open_door_lets_ray_pass(self, map: WorldMap, map_size: (usize, usize), s: RayState)
        requires
            !s.last_was_door,
            in_grid(map_size, self.advance(s).cell),
            map.wall_at(cell_index(map_size, self.advance(s).cell)) == WOODEN_DOOR,
            map.door_offset(clipped(cell_index(map_size, self.advance(s).cell))) == 0,
        ensures
            !(self.step_from(map, map_size, s).0.found && self.step_from(
                map,
                map_size,
                s,
            ).0.wall_type == WOODEN_DOOR),
            self.reaches_middle(self.advance(s)) ==> !self.step_from(map, map_size, s).0.found
                && self.step_from(map, map_size, s).0.last_was_door,
            !self.reaches_middle(self.advance(s)) ==> self.step_from(map, map_size, s).0.found
                && self.step_from(map, map_size, s).0.wall_type == FRAME_WOODEN_DOOR,
    {
        let a = self.advance(s);
        let b = RayState { wall_type: WOODEN_DOOR, last_was_door: false, ..a };
        assert(self.reaches_middle(b) == self.reaches_middle(a));
        let across = self.across_at(b, self.mid_distance(b));
        assert(0 <= across < ONE) by {
            vstd::arithmetic::div_mod::lemma_mod_bound(
                sum(self.start.x, prod(self.dir.x, self.mid_distance(b))) as int,
                65536,
            );
            vstd::arithmetic::div_mod::lemma_mod_bound(
                sum(self.start.y, prod(self.dir.y, self.mid_distance(b))) as int,
                65536,
            );
        }
        assert(prod(0, HALF) == 0);
    }
}

/// The index of the cell at `cell`, the largest index for one beyond the
/// range.
pub fn grid_index(map_size: (usize, usize), cell: Vector2) -> (i: usize)
    ensures
        i == clipped(cell_index(map_size, cell)),
        0 <= cell_index(map_size, cell),
{
    assert(index_of(cell.y) * map_size.0 >= 0) by (nonlinear_arith)
        requires
            index_of(cell.y) >= 0,
            map_size.0 >= 0,
    ;
    let row: usize = fx_index(cell.y);
    let column: usize = fx_index(cell.x);
    match row.checked_mul(map_size.0) {
        Some(before) => match before.checked_add(column) {
            Some(i) => i,
            None => usize::MAX,
        },
        None => usize::MAX,
    }
}

/// Whether `cell` lies in the grid.
pub fn is_in_grid(map_size: (usize, usize), cell: Vector2) -> (inside: bool)
    ensures
        inside == in_grid(map_size, cell),
{
    cell.x >= 0 && fx_index(cell.x) < map_size.0 && cell.y >= 0 && fx_index(cell.y) < map_size.1
}

/// The code of the cell at `cell`; that of an empty cell beyond the map.
pub fn wall_code_at(map: &WorldMap, map_size: (usize, usize), cell: Vector2) -> (code: usize)
    ensures
        code == map.wall_at(cell_index(map_size, cell)),
{
    let size: usize = map.walls.len();
    map.cell_at(grid_index(map_size, cell))
}

/// The part of a cell's width that lies between a point and a boundary is
/// between nothing and all of it.
proof fn lemma_within_cell(x: Fixed)
    ensures
        0 <= diff(x, whole(x)) < ONE,
        0 <= diff(sum(whole(x), ONE), x) <= ONE,
{
    vstd::arithmetic::div_mod::lemma_fundamental_div_mod(x as int, 65536);
    vstd::arithmetic::div_mod::lemma_mod_bound(x as int, 65536);
}

/// A part of a length is at most the length.
proof fn lemma_part_of(part: Fixed, length: Fixed)
    requires
        0 <= part <= ONE,
        0 <= length,
    ensures
        0 <= prod(part, length) <= length,
{
    assert(0 <= part * length <= 65536 * length) by (nonlinear_arith)
        requires
            0 <= part <= 65536,
            0 <= length,
    ;
    vstd::arithmetic::div_mod::lemma_div_is_ordered(part * length, 65536 * length, 65536);
    vstd::arithmetic::div_mod::lemma_div_multiples_vanish(length as int, 65536);
    vstd::arithmetic::div_mod::lemma_div_pos_is_pos(part * length, 65536);
}

impl Ray {
    /// The ray from a start in a direction is well formed, and steady before
    /// its first step.
    pub proof fn lemma_towards(start: Vector2, dir: Vector2)
        ensures
            Self::towards(start, dir).wf(),
            Self::towards(start, dir).steady(Self::towards(start, dir).first()),
            Self::towards(start, dir).first().lengths.x >= 0,
            Self::towards(start, dir).first().lengths.y >= 0,
    {
        let ray = Self::towards(start, dir);
        let rx = quot(dir.y, dir.x);
        let ry = quot(dir.x, dir.y);
        assert(rx * rx >= 0) by (nonlinear_arith);
        assert(ry * ry >= 0) by (nonlinear_arith);
        vstd::arithmetic::div_mod::lemma_div_pos_is_pos(rx * rx, 65536);
        vstd::arithmetic::div_mod::lemma_div_pos_is_pos(ry * ry, 65536);
        lemma_root_bounds(sum(ONE, prod(rx, rx)));
        lemma_root_bounds(sum(ONE, prod(ry, ry)));
        lemma_within_cell(start.x);
        lemma_within_cell(start.y);
        lemma_part_of(diff(start.x, whole(start.x)), ray.unit.x);
        lemma_part_of(diff(sum(whole(start.x), ONE), start.x), ray.unit.x);
        lemma_part_of(diff(start.y, whole(start.y)), ray.unit.y);
        lemma_part_of(diff(sum(whole(start.y), ONE), start.y), ray.unit.y);
    }

    /// The ray from `start` in the direction `dir`.
    pub fn new(start: Vector2, dir: Vector2) -> (ray: Self)
        ensures
            ray == Self::towards(start, dir),
            ray.wf(),
            ray.steady(ray.first()),
    {
        proof {
            Self::lemma_towards(start, dir);
        }
        let rx: Fixed = fx_div(dir.y, dir.x);
        let ry: Fixed = fx_div(dir.x, dir.y);
        Ray {
            start,
            dir,
            unit: Vector2 {
                x: fx_sqrt(fx_add(ONE, fx_mul(rx, rx))),
                y: fx_sqrt(fx_add(ONE, fx_mul(ry, ry))),
            },
            step: Vector2 {
                x: if dir.x < 0 {
                    -65536
                } else {
                    ONE
                },
                y: if dir.y < 0 {
                    -65536
                } else {
                    ONE
                },
            },
        }
    }

    /// The ray before its first step.
    pub fn begin(&self) -> (s: RayState)
        ensures
            s == self.first(),
    {
        let cell = Vector2 { x: fx_floor(self.start.x), y: fx_floor(self.start.y) };
        let x: Fixed = if self.dir.x < 0 {
            fx_mul(fx_sub(self.start.x, cell.x), self.unit.x)
        } else {
            fx_mul(fx_sub(fx_add(cell.x, ONE), self.start.x), self.unit.x)
        };
        let y: Fixed = if self.dir.y < 0 {
            fx_mul(fx_sub(self.start.y, cell.y), self.unit.y)
        } else {
            fx_mul(fx_sub(fx_add(cell.y, ONE), self.start.y), self.unit.y)
        };
        RayState {
            cell,
            lengths: Vector2 { x, y },
            distance: 0,
            orientation: Orientation::N,
            wall_type: TILED_FLOOR,
            last_was_door: false,
            found: false,
        }
    }

    /// The point at the length `distance` along the ray.
    pub fn point(&self, distance: Fixed) -> (p: Vector2)
        ensures
            p == self.point_at(distance),
    {
        Vector2 {
            x: fx_add(self.start.x, fx_mul(self.dir.x, distance)),
            y: fx_add(self.start.y, fx_mul(self.dir.y, distance)),
        }
    }

    /// One step of the ray through the map.
    pub fn step(&self, map: &WorldMap, map_size: (usize, usize), s: RayState) -> (r: (
        RayState,
        Option<Intersection>,
    ))
        ensures
            r == self.step_from(*map, map_size, s),
    {
        let mut a = s;
        if s.lengths.x < s.lengths.y {
            a.cell.x = fx_add(s.cell.x, self.step.x);
            a.distance = s.lengths.x;
            a.lengths.x = fx_add(s.lengths.x, self.unit.x);
            a.orientation = if self.dir.x < 0 {
                Orientation::W
            } else {
                Orientation::E
            };
        } else {
            a.cell.y = fx_add(s.cell.y, self.step.y);
            a.distance = s.lengths.y;
            a.lengths.y = fx_add(s.lengths.y, self.unit.y);
            a.orientation = if self.dir.y < 0 {
                Orientation::S
            } else {
                Orientation::N
            };
        }
        assert(a == self.advance(s));
        if !is_in_grid(map_size, a.cell) {
            return (a, None);
        }
        let at: usize = grid_index(map_size, a.cell);
        let seen: usize = wall_code_at(map, map_size, a.cell);
        let code: usize = if a.last_was_door && seen > 0 {
            FRAME_WOODEN_DOOR
        } else {
            seen
        };
        let mut b = a;
        b.wall_type = code;
        b.last_was_door = false;
        let rows: bool = match b.orientation {
            Orientation::N => true,
            Orientation::S => true,
            _ => false,
        };
        let mid: Fixed = if rows {
            fx_sub(b.lengths.y, fx_mul(self.unit.y, HALF))
        } else {
            fx_sub(b.lengths.x, fx_mul(self.unit.x, HALF))
        };
        let side: Fixed = if rows {
            b.lengths.x
        } else {
            b.lengths.y
        };
        let side_orientation: Orientation = if rows {
            if self.dir.x < 0 {
                Orientation::W
            } else {
                Orientation::E
            }
        } else {
            if self.dir.y < 0 {
                Orientation::S
            } else {
                Orientation::N
            }
        };
        let side_cell: Vector2 = if rows {
            Vector2 {
                x: if self.dir.x < 0 {
                    fx_sub(b.cell.x, ONE)
                } else {
                    fx_add(b.cell.x, ONE)
                },
                y: b.cell.y,
            }
        } else {
            Vector2 {
                x: b.cell.x,
                y: if self.dir.y < 0 {
                    fx_sub(b.cell.y, ONE)
                } else {
                    fx_add(b.cell.y, ONE)
                },
            }
        };
        let mut c = b;
        let mut hit: Option<Intersection> = None;
        match wall_kind(code) {
            WallKind::Door => {
                if mid <= side {
                    let offset: Fixed = map.door_cover(at);
                    let across: Fixed = if rows {
                        fx_fract(fx_add(self.start.x, fx_mul(self.dir.x, mid)))
                    } else {
                        fx_fract(fx_add(self.start.y, fx_mul(self.dir.y, mid)))
                    };
                    c.distance = mid;
                    let cover: Fixed = fx_mul(offset, HALF);
                    if offset < ONE && across >= cover && fx_sub(ONE, across) >= cover {
                        c.last_was_door = true;
                        c.found = false;
                    } else {
                        c.found = true;
                    }
                } else {
                    c.orientation = side_orientation;
                    c.cell = side_cell;
                    c.wall_type = FRAME_WOODEN_DOOR;
                    c.distance = side;
                    c.found = true;
                }
            },
            WallKind::Lattice => {
                let seen_cell: Vector2 = if mid <= side {
                    c.distance = mid;
                    b.cell
                } else {
                    c.orientation = side_orientation;
                    c.distance = side;
                    side_cell
                };
                hit = Some(
                    Intersection {
                        point: self.point(c.distance),
                        distance: c.distance,
                        map_checkv: grid_index(map_size, seen_cell),
                        orientation: c.orientation,
                        wall_type: wall_code_at(map, map_size, seen_cell),
                        is_transparent: true,
                        is_up: false,
                    },
                );
            },
            WallKind::Stairs => {
                hit = Some(
                    Intersection {
                        point: self.point(b.distance),
                        distance: b.distance,
                        map_checkv: at,
                        orientation: b.orientation,
                        wall_type: code,
                        is_transparent: false,
                        is_up: false,
                    },
                );
            },
            WallKind::Empty => {},
            WallKind::StairsTop => {},
            WallKind::Opaque => {
                c.found = true;
            },
            WallKind::FrameDoor => {
                c.found = true;
            },
        }
        let crossed_rows: bool = match c.orientation {
            Orientation::N => true,
            Orientation::S => true,
            _ => false,
        };
        let behind: Vector2 = if crossed_rows {
            Vector2 { x: c.cell.x, y: fx_sub(c.cell.y, self.step.y) }
        } else {
            Vector2 { x: fx_sub(c.cell.x, self.step.x), y: c.cell.y }
        };
        if wall_code_at(map, map_size, behind) == WOODEN_DOOR {
            c.wall_type = FRAME_WOODEN_DOOR;
        }
        (c, hit)
    }

    /// Follows the ray through the map until it ends or is given up.
    pub fn cast(&self, map: &WorldMap, map_size: (usize, usize)) -> (r: (
        RayState,
        Vec<Intersection>,
    ))
        requires
            self.wf(),
            self.steady(self.first()),
        ensures
            (r.0, r.1@) == self.cast_from(*map, map_size, self.first()),
            !Self::goes_on(r.0),
    {
        let mut s = self.begin();
        let mut hits: Vec<Intersection> = Vec::new();
        let ghost whole_cast = self.cast_from(*map, map_size, self.first());
        while !s.found && s.distance < MAX_RAY_LENGTH
            invariant
                self.wf(),
                self.steady(s),
                whole_cast.0 == self.cast_from(*map, map_size, s).0,
                whole_cast.1 == hits@ + self.cast_from(*map, map_size, s).1,
            decreases self.remaining(s),
        {
            proof {
                self.lemma_step(*map, map_size, s);
            }
            let ghost seen = hits@;
            let (next, hit) = self.step(map, map_size, s);
            if let Some(h) = hit {
                hits.push(h);
            }
            proof {
                let rest = self.cast_from(*map, map_size, next).1;
                match hit {
                    Some(h) => {
                        assert(seen + (seq![h] + rest) =~= seen.push(h) + rest);
                    },
                    None => {},
                }
            }
            s = next;
        }
        proof {
            assert(hits@ + Seq::<Intersection>::empty() =~= hits@);
        }
        (s, hits)
    }
}

} // verus!
