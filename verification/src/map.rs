//! The grid of the dungeon: what stands in each cell.

use vstd::prelude::*;
use crate::door::Door;
use crate::fixed::ONE;

verus! {

/// The code of a cell with nothing but floor in it.
pub const TILED_FLOOR: usize = 0;

/// The code of the wall whose upper tier shows [`UPPER_TIER_WALL`].
pub const TWO_TIER_WALL: usize = 8;

/// The code of the texture on the upper tier of a [`TWO_TIER_WALL`].
pub const UPPER_TIER_WALL: usize = 4;

/// The code of a cell with a door.
pub const WOODEN_DOOR: usize = 6;

/// The code of the jamb that a wall beside a door shows.
pub const FRAME_WOODEN_DOOR: usize = 7;

/// The code of the ceiling's texture.
pub const TILED_CEILING: usize = 9;

/// The code of a cell with a cobweb across it.
pub const COBWEB: usize = 10;

/// The code of a cell with metal bars across it.
pub const METAL_BARS: usize = 11;

/// The code of a cell with a flight of stairs.
pub const STAIRS: usize = 12;

/// The code of the cell at the top of a flight of stairs.
pub const STAIRS_TOP: usize = 13;

/// What a ray does at a cell.
#[derive(Debug, Clone, Copy, PartialEq, Eq, Structural)]
pub enum WallKind {
    /// Nothing in the way.
    Empty,
    /// A wall: the ray ends.
    Opaque,
    /// A door: the ray ends at its leaf or passes the gap.
    Door,
    /// The jamb of a door: the ray ends.
    FrameDoor,
    /// A cobweb or bars: seen, and seen through.
    Lattice,
    /// Stairs: seen, and seen over.
    Stairs,
    /// The top of stairs: never seen.
    StairsTop,
}

/// The kind of the cell code `code`.
pub open spec fn kind_of(code: usize) -> WallKind {
    if code == TILED_FLOOR {
        WallKind::Empty
    } else if code == WOODEN_DOOR {
        WallKind::Door
    } else if code == FRAME_WOODEN_DOOR {
        WallKind::FrameDoor
    } else if code == COBWEB || code == METAL_BARS {
        WallKind::Lattice
    } else if code == STAIRS {
        WallKind::Stairs
    } else if code == STAIRS_TOP {
        WallKind::StairsTop
    } else {
        WallKind::Opaque
    }
}

/// Whether a ray ends at a cell of the code `code`, whatever its way: at a
/// wall or at the jamb of a door.
pub open spec fn ends_ray(code: usize) -> bool {
    kind_of(code) == WallKind::Opaque || kind_of(code) == WallKind::FrameDoor
}

/// The kind of the cell code `code`.
pub fn wall_kind(code: usize) -> (kind: WallKind)
    ensures
        kind == kind_of(code),
{
    if code == TILED_FLOOR {
        WallKind::Empty
    } else if code == WOODEN_DOOR {
        WallKind::Door
    } else if code == FRAME_WOODEN_DOOR {
        WallKind::FrameDoor
    } else if code == COBWEB || code == METAL_BARS {
        WallKind::Lattice
    } else if code == STAIRS {
        WallKind::Stairs
    } else if code == STAIRS_TOP {
        WallKind::StairsTop
    } else {
        WallKind::Opaque
    }
}

/// The cell code that the colour of a map image's pixel stands for, where
/// `color` holds the bytes of the pixel that the image has.
pub open spec fn wall_code(color: Seq<u8>) -> usize {
    if color =~= seq![255u8, 255u8, 0u8, 255u8] {
        1
    } else if color =~= seq![0u8, 0u8, 0u8, 255u8] {
        2
    } else if color =~= seq![0u8, 0u8, 255u8, 255u8] {
        3
    } else if color =~= seq![255u8, 0u8, 0u8, 255u8] {
        4
    } else if color =~= seq![0u8, 255u8, 0u8, 255u8] {
        5
    } else if color =~= seq![255u8, 0u8, 255u8, 255u8] {
        WOODEN_DOOR
    } else {
        TILED_FLOOR
    }
}

/// The number of pixels that `bytes` bytes start: four bytes each, the last
/// one maybe cut short.
pub open spec fn pixel_count(bytes: int) -> int {
    (bytes + 3) / 4
}

/// The bytes of the pixel `i` of an image: four, or fewer at the end.
pub open spec fn pixel_at(image: Seq<u8>, i: int) -> Seq<u8> {
    image.subrange(4 * i, if 4 * i + 4 <= image.len() {
        4 * i + 4
    } else {
        image.len() as int
    })
}

/// The closed doors of the first `n` cells of a map image, in the order of
/// the cells.
pub open spec fn doors_of(image: Seq<u8>, n: int) -> Seq<Door>
    decreases n,
{
    if n <= 0 {
        Seq::empty()
    } else if wall_code(pixel_at(image, n - 1)) == WOODEN_DOOR {
        doors_of(image, n - 1).push(
            Door { offset: ONE, opening: false, timer: 0, pos: (n - 1) as usize },
        )
    } else {
        doors_of(image, n - 1)
    }
}

/// The first door of `doors` that belongs to the cell `pos`.
pub open spec fn door_at(doors: Seq<Door>, pos: usize) -> Option<Door>
    decreases doors.len(),
{
    if doors.len() == 0 {
        None
    } else if doors[0].pos == pos {
        Some(doors[0])
    } else {
        door_at(doors.drop_first(), pos)
    }
}

/// The place in `doors`, from `from` on, of the first door that belongs to
/// the cell `pos`.
pub open spec fn door_place(doors: Seq<Door>, pos: usize, from: int) -> Option<int>
    decreases doors.len() - from,
{
    if from < 0 || from >= doors.len() {
        None
    } else if doors[from].pos == pos {
        Some(from)
    } else {
        door_place(doors, pos, from + 1)
    }
}

/// The cells of the dungeon, row by row: the code of what stands in each, the
/// texture of its floor, whether it stops the player, and the doors.
pub struct WorldMap {
    pub walls: Vec<usize>,
    pub floors: Vec<usize>,
    pub solid: Vec<bool>,
    pub doors: Vec<Door>,
}

impl WorldMap {
    /// How far the leaf of the door of the cell `pos` covers the doorway; a
    /// cell without a door counts as closed.
    pub open spec fn door_offset(self, pos: usize) -> i64 {
        match door_at(self.doors@, pos) {
            Some(door) => door.offset,
            None => ONE,
        }
    }

    /// The code of the cell `pos`; that of an empty cell beyond the last one.
    pub open spec fn wall_at(self, pos: int) -> usize {
        if 0 <= pos < self.walls@.len() {
            self.walls@[pos]
        } else {
            TILED_FLOOR
        }
    }

    /// Whether the cell `pos` stops the player; beyond the last cell
    /// everything does.
    pub open spec fn solid_at(self, pos: int) -> bool {
        if 0 <= pos < self.solid@.len() {
            self.solid@[pos]
        } else {
            true
        }
    }

    /// The map of an image of the walls and an image of the floors, each
    /// given by the bytes of its pixels.
    pub fn new(wall_image: &[u8], floor_image: &[u8], map_size: (usize, usize)) -> (map: Self)
        requires
            map_size.0 * map_size.1 <= usize::MAX,
        ensures
            map.walls@.len() == pixel_count(wall_image@.len() as int),
            forall|i: int|
                0 <= i < map.walls@.len() ==> #[trigger] map.walls@[i] == wall_code(
                    pixel_at(wall_image@, i),
                ),
            map.floors@ == floors_of(floor_image@),
            map.doors@ == doors_of(wall_image@, map.walls@.len() as int),
            map.solid@.len() == map_size.0 * map_size.1,
            forall|i: int|
                0 <= i < map.solid@.len() ==> #[trigger] map.solid@[i] == !(i < map.walls@.len()
                    && map.walls@[i] == TILED_FLOOR),
    {
        let mut solid: Vec<bool> = Vec::new();
        let cells: usize = map_size.0 * map_size.1;
        let mut filled: usize = 0;
        while filled < cells
            invariant
                filled <= cells,
                solid@.len() == filled,
                forall|i: int| 0 <= i < filled ==> solid@[i],
            decreases cells - filled,
        {
            solid.push(true);
            filled += 1;
        }
        let mut doors: Vec<Door> = Vec::new();
        let walls = read_map_walls(wall_image, &mut solid, &mut doors);
        let floors = read_map_floors(floor_image);
        Self { walls, floors, solid, doors }
    }

    /// The place among the doors of the door that a trigger in the cell `pos`
    /// opens, if the cell holds a door.
    pub open spec fn door_to_open(self, pos: usize) -> Option<int> {
        if self.wall_at(pos as int) == WOODEN_DOOR {
            door_place(self.doors@, pos, 0)
        } else {
            None
        }
    }

    /// The doors after a trigger in the cell `pos` at `time`: the door of the
    /// cell, unless it is opening already, starts to open.
    pub open spec fn doors_triggered(self, pos: usize, time: i64) -> Seq<Door> {
        match self.door_to_open(pos) {
            Some(i) => if self.doors@[i].opening {
                self.doors@
            } else {
                self.doors@.update(i, Door { timer: time, opening: true, ..self.doors@[i] })
            },
            None => self.doors@,
        }
    }

    /// Starts to open the door of the cell `pos_door` at `time`. Nothing
    /// happens in a cell without a door, nor to a door that is opening.
    pub fn open_door(&mut self, pos_door: usize, time: i64)
        ensures
            final(self).walls == old(self).walls,
            final(self).floors == old(self).floors,
            final(self).solid == old(self).solid,
            final(self).doors@ == old(self).doors_triggered(pos_door, time),
    {
        if self.cell_at(pos_door) == WOODEN_DOOR {
            match self.find_door(pos_door) {
                Some(i) => {
                    let mut door: Door = self.doors[i];
                    if !door.opening {
                        door.timer = time;
                        door.opening = true;
                        self.doors[i] = door;
                    }
                },
                None => {},
            }
        }
    }

    /// The code of the cell `pos`; that of an empty cell beyond the last one.
    pub fn cell_at(&self, pos: usize) -> (code: usize)
        ensures
            code == self.wall_at(pos as int),
    {
        if pos < self.walls.len() {
            self.walls[pos]
        } else {
            TILED_FLOOR
        }
    }

    /// Whether the cell `pos` stops the player.
    pub fn is_solid(&self, pos: usize) -> (solid: bool)
        ensures
            solid == self.solid_at(pos as int),
    {
        if pos < self.solid.len() {
            self.solid[pos]
        } else {
            true
        }
    }

    /// The place among the doors of the first door of the cell `pos`, if it
    /// has one.
    pub fn find_door(&self, pos: usize) -> (found: Option<usize>)
        ensures
            match found {
                Some(i) => door_place(self.doors@, pos, 0) == Some(i as int) && i
                    < self.doors@.len() && door_at(self.doors@, pos) == Some(
                    self.doors@[i as int],
                ),
                None => door_place(self.doors@, pos, 0) is None && door_at(self.doors@, pos)
                    is None,
            },
    {
        let mut i: usize = 0;
        assert(self.doors@.subrange(0, self.doors@.len() as int) =~= self.doors@);
        while i < self.doors.len()
            invariant
                i <= self.doors@.len(),
                door_at(self.doors@, pos) == door_at(
                    self.doors@.subrange(i as int, self.doors@.len() as int),
                    pos,
                ),
                door_place(self.doors@, pos, 0) == door_place(self.doors@, pos, i as int),
            decreases self.doors@.len() - i,
        {
            let ghost rest = self.doors@.subrange(i as int, self.doors@.len() as int);
            assert(rest[0] == self.doors@[i as int]);
            if self.doors[i].pos == pos {
                return Some(i);
            }
            assert(rest.drop_first() =~= self.doors@.subrange(i + 1, self.doors@.len() as int));
            i += 1;
        }
        assert(self.doors@.subrange(i as int, self.doors@.len() as int).len() == 0);
        None
    }

    /// How far the leaf of the door of the cell `pos` covers the doorway.
    pub fn door_cover(&self, pos: usize) -> (offset: i64)
        ensures
            offset == self.door_offset(pos),
    {
        match self.find_door(pos) {
            Some(i) => self.doors[i].offset,
            None => ONE,
        }
    }
}

/// The floor textures that an image of the floors stands for: one for each
/// pixel, 1 where the pixel's first byte is zero.
pub open spec fn floors_of(image: Seq<u8>) -> Seq<usize> {
    Seq::new(
        pixel_count(image.len() as int) as nat,
        |i: int|
            if image[4 * i] == 0 {
                1usize
            } else {
                0usize
            },
    )
}

/// Reads the cells of the dungeon from an image of its walls: the code of
/// each cell by the colour of its pixel. A cell with a door gets a closed
/// door in `door_offset`; an empty cell is marked in `can_pass`, as far as
/// that reaches.
pub fn read_map_walls(image: &[u8], can_pass: &mut Vec<bool>, door_offset: &mut Vec<Door>) -> (walls: Vec<usize>)
    ensures
        walls@.len() == pixel_count(image@.len() as int),
        forall|i: int|
            0 <= i < walls@.len() ==> #[trigger] walls@[i] == wall_code(pixel_at(image@, i)),
        final(door_offset)@ == old(door_offset)@ + doors_of(image@, walls@.len() as int),
        final(can_pass)@.len() == old(can_pass)@.len(),
        forall|i: int|
            0 <= i < old(can_pass)@.len() ==> #[trigger] final(can_pass)@[i] == (old(
                can_pass,
            )@[i] && !(i < walls@.len() && walls@[i] == TILED_FLOOR)),
{
    let len: usize = image.len();
    let count: usize = len / 4 + (if len % 4 == 0 {
        0
    } else {
        1
    });
    let mut walls: Vec<usize> = Vec::new();
    let mut i: usize = 0;
    assert(doors_of(image@, 0) =~= Seq::empty());
    while i < count
        invariant
            len == image@.len(),
            count == pixel_count(len as int),
            i <= count,
            walls@.len() == i,
            forall|j: int| 0 <= j < i ==> #[trigger] walls@[j] == wall_code(pixel_at(image@, j)),
            door_offset@ == old(door_offset)@ + doors_of(image@, i as int),
            can_pass@.len() == old(can_pass)@.len(),
            forall|j: int|
                0 <= j < can_pass@.len() ==> #[trigger] can_pass@[j] == (old(can_pass)@[j] && !(j
                    < i && walls@[j] == TILED_FLOOR)),
        decreases count - i,
    {
        let ghost color = pixel_at(image@, i as int);
        let ghost before = door_offset@;
        let ghost passable = can_pass@;
        let ghost had = walls@;
        let code: usize = if i < len / 4 {
            let r: u8 = image[4 * i];
            let g: u8 = image[4 * i + 1];
            let b: u8 = image[4 * i + 2];
            let a: u8 = image[4 * i + 3];
            proof {
                assert(color.len() == 4);
                assert(color[0] == r && color[1] == g && color[2] == b && color[3] == a);
            }
            if r == 255 && g == 255 && b == 0 && a == 255 {
                1
            } else if r == 0 && g == 0 && b == 0 && a == 255 {
                2
            } else if r == 0 && g == 0 && b == 255 && a == 255 {
                3
            } else if r == 255 && g == 0 && b == 0 && a == 255 {
                4
            } else if r == 0 && g == 255 && b == 0 && a == 255 {
                5
            } else if r == 255 && g == 0 && b == 255 && a == 255 {
                WOODEN_DOOR
            } else {
                TILED_FLOOR
            }
        } else {
            assert(color.len() < 4);
            TILED_FLOOR
        };
        assert(code == wall_code(color));
        if code == WOODEN_DOOR {
            door_offset.push(Door::new(ONE, false, 0, i));
        } else if code == TILED_FLOOR {
            if i < can_pass.len() {
                can_pass[i] = false;
            }
        }
        walls.push(code);
        proof {
            assert(door_offset@ =~= old(door_offset)@ + doors_of(image@, i + 1));
            assert forall|j: int| 0 <= j < can_pass@.len() implies #[trigger] can_pass@[j] == (
            old(can_pass)@[j] && !(j < i + 1 && walls@[j] == TILED_FLOOR)) by {
                if j < i {
                    assert(walls@[j] == had[j]);
                }
                assert(passable[j] == (old(can_pass)@[j] && !(j < i && had[j] == TILED_FLOOR)));
            }
        }
        i += 1;
    }
    walls
}

/// Reads the floor textures from an image of the floors: texture 1 where the
/// pixel's first byte is zero, texture 0 elsewhere.
pub fn read_map_floors(image: &[u8]) -> (floors: Vec<usize>)
    ensures
        floors@ == floors_of(image@),
{
    let len: usize = image.len();
    let mut floors: Vec<usize> = Vec::new();
    let mut at: usize = 0;
    while at < len
        invariant
            len == image@.len(),
            at % 4 == 0,
            at <= len + 3,
            floors@.len() == at / 4,
            forall|j: int|
                0 <= j < floors@.len() ==> #[trigger] floors@[j] == (if image@[4 * j] == 0 {
                    1usize
                } else {
                    0usize
                }),
        decreases len + 3 - at,
    {
        floors.push(if image[at] == 0 {
            1
        } else {
            0
        });
        if at > usize::MAX - 4 {
            assert(floors@ =~= floors_of(image@));
            return floors;
        }
        at += 4;
    }
    assert(floors@ =~= floors_of(image@));
    floors
}

} // verus!
