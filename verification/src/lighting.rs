//! Light: how far it spreads from the torches, and how bright a point is.

use vstd::prelude::*;
use std::collections::VecDeque;
use crate::Orientation;
use crate::fixed::{
    Fixed, clamped, diff, floor_div, fx_add, fx_clamp, fx_div, fx_sub, lemma_product_bound, quot,
    sat, saturate, sum, ONE,
};

verus! {

/// The level of a cell that holds a torch.
pub const MAX_LIGHT: u8 = 15;

/// What the spread of light depends on: a plan of solid cells, `width` by
/// `height`, that two floors share, and the cells that hold a torch. A cell of
/// the lower floor has the index `y * width + x`, the cell above it that index
/// plus `width * height`.
pub struct LightPlan {
    pub solid: Seq<bool>,
    pub width: int,
    pub height: int,
    pub torches: Seq<usize>,
}

impl LightPlan {
    /// The number of cells of one floor.
    pub open spec fn area(self) -> int {
        self.width * self.height
    }

    /// The number of cells of both floors.
    pub open spec fn cells(self) -> int {
        2 * (self.width * self.height)
    }

    /// The plan covers each floor, and every torch stands on a cell.
    pub open spec fn wf(self) -> bool {
        &&& self.width >= 0
        &&& self.height >= 0
        &&& self.solid.len() == self.area()
        &&& forall|i: int| 0 <= i < self.torches.len() ==> (#[trigger] self.torches[i]) < self.cells()
    }

    /// Whether the cell `c` is solid.
    pub open spec fn is_solid(self, c: int) -> bool {
        self.solid[c % self.area()]
    }

    /// Whether the cell `c` holds a torch.
    pub open spec fn is_source(self, c: int) -> bool {
        exists|i: int| 0 <= i < self.torches.len() && #[trigger] self.torches[i] == c
    }

    /// Whether `b` is one of the up to six cells next to the cell `a`: left,
    /// right, before, behind, below or above it.
    pub open spec fn adjacent(self, a: int, b: int) -> bool {
        &&& 0 <= a < self.cells()
        &&& {
            ||| (b == a - 1 && a % self.width > 0)
            ||| (b == a + 1 && a % self.width < self.width - 1)
            ||| (b == a - self.width && (a / self.width) % self.height > 0)
            ||| (b == a + self.width && (a / self.width) % self.height < self.height - 1)
            ||| (b == a - self.area() && a / self.area() > 0)
            ||| (b == a + self.area() && a / self.area() < 1)
        }
    }

    /// Whether light gets from some torch to the cell `c` in at most `d` steps,
    /// each from a cell to one next to it that is not solid.
    pub open spec fn reaches(self, c: int, d: nat) -> bool
        decreases d,
    {
        self.is_source(c) || (d > 0 && !self.is_solid(c) && exists|m: int|
            #[trigger] self.adjacent(m, c) && self.reaches(m, (d - 1) as nat))
    }

    /// Whether `path` leads light from a torch on: it starts at a torch's cell,
    /// and each further cell is next to the one before it and not solid.
    pub open spec fn is_path(self, path: Seq<int>) -> bool {
        &&& path.len() > 0
        &&& self.is_source(path[0])
        &&& forall|i: int|
            1 <= i < path.len() ==> #[trigger] self.adjacent(path[i - 1], path[i])
                && !self.is_solid(path[i])
    }

    /// Whether no torch reaches a cell of `path` in fewer steps than the path
    /// takes to it.
    pub open spec fn is_shortest(self, path: Seq<int>) -> bool {
        forall|i: int| 1 <= i < path.len() ==> !#[trigger] self.reaches(path[i], (i - 1) as nat)
    }

    /// Whether `levels` is the light that the plan gives: a torch's cell has
    /// level 15, each step away costs one level, and a cell that no torch
    /// reaches in 14 steps has level 0.
    pub open spec fn lights(self, levels: Seq<u8>) -> bool {
        &&& levels.len() == self.cells()
        &&& forall|c: int| 0 <= c < levels.len() ==> #[trigger] levels[c] <= MAX_LIGHT
        &&& forall|c: int, k: int|
            0 <= c < levels.len() && 1 <= k <= 15 ==> (levels[c] >= k <==> #[trigger] self.reaches(
                c,
                (15 - k) as nat,
            ))
    }
}

/// The number of cells without light.
pub open spec fn unlit(levels: Seq<u8>) -> nat
    decreases levels.len(),
{
    if levels.len() == 0 {
        0
    } else {
        unlit(levels.drop_last()) + if levels.last() == 0 {
            1nat
        } else {
            0nat
        }
    }
}

proof fn lemma_unlit_update(levels: Seq<u8>, n: int, v: u8)
    requires
        0 <= n < levels.len(),
        levels[n] == 0,
        v != 0,
    ensures
        unlit(levels.update(n, v)) + 1 == unlit(levels),
    decreases levels.len(),
{
    let after = levels.update(n, v);
    if n == levels.len() - 1 {
        assert(after.drop_last() =~= levels.drop_last());
    } else {
        assert(after.drop_last() =~= levels.drop_last().update(n, v));
        lemma_unlit_update(levels.drop_last(), n, v);
    }
}

/// A cell next to a cell of the grid is a cell of the grid.
pub proof fn lemma_adjacent_in_grid(p: LightPlan, a: int, b: int)
    requires
        p.width >= 0,
        p.height >= 0,
        p.adjacent(a, b),
    ensures
        0 <= b < p.cells(),
{
    let w = p.width;
    let h = p.height;
    assert(w > 0 && h > 0) by (nonlinear_arith)
        requires
            w >= 0,
            h >= 0,
            0 < 2 * (w * h),
    ;
    let q = a / w;
    vstd::arithmetic::div_mod::lemma_fundamental_div_mod(a, w);
    vstd::arithmetic::div_mod::lemma_mod_bound(a, w);
    vstd::arithmetic::div_mod::lemma_fundamental_div_mod(q, h);
    vstd::arithmetic::div_mod::lemma_mod_bound(q, h);
    assert(0 <= q < 2 * h) by (nonlinear_arith)
        requires
            a == w * q + a % w,
            0 <= a % w < w,
            0 <= a < 2 * (w * h),
            w > 0,
    ;
    assert(0 <= q / h < 2) by (nonlinear_arith)
        requires
            q == h * (q / h) + q % h,
            0 <= q % h < h,
            0 <= q < 2 * h,
            h > 0,
    ;
    if b == a + 1 && a % w < w - 1 {
        assert(a + 1 < 2 * (w * h)) by (nonlinear_arith)
            requires
                a == w * q + a % w,
                a % w < w - 1,
                q < 2 * h,
                w > 0,
        ;
    } else if b == a - w && q % h > 0 {
        assert(a - w >= 0) by (nonlinear_arith)
            requires
                a == w * q + a % w,
                0 <= a % w,
                q >= 1,
                w > 0,
        ;
    } else if b == a + w && q % h < h - 1 {
        assert(q + 1 < 2 * h) by (nonlinear_arith)
            requires
                q == h * (q / h) + q % h,
                q % h < h - 1,
                q / h < 2,
                h > 0,
        ;
        assert(a + w < 2 * (w * h)) by (nonlinear_arith)
            requires
                a == w * q + a % w,
                a % w < w,
                q + 1 < 2 * h,
                w > 0,
        ;
    } else if b == a - w * h && a / (w * h) > 0 {
        vstd::arithmetic::div_mod::lemma_fundamental_div_mod(a, w * h);
        vstd::arithmetic::div_mod::lemma_mod_bound(a, w * h);
        assert(a - w * h >= 0) by (nonlinear_arith)
            requires
                a == (w * h) * (a / (w * h)) + a % (w * h),
                0 <= a % (w * h),
                a / (w * h) >= 1,
                w * h > 0,
        ;
    } else if b == a + w * h && a / (w * h) < 1 {
        vstd::arithmetic::div_mod::lemma_fundamental_div_mod(a, w * h);
        vstd::arithmetic::div_mod::lemma_mod_bound(a, w * h);
        vstd::arithmetic::div_mod::lemma_div_pos_is_pos(a, w * h);
        assert(a / (w * h) == 0);
        assert(a == a % (w * h)) by (nonlinear_arith)
            requires
                a == (w * h) * (a / (w * h)) + a % (w * h),
                a / (w * h) == 0,
        ;
    } else {
        assert(b == a - 1 && a % w > 0);
        assert(a != 0) by {
            vstd::arithmetic::div_mod::lemma_small_mod(0, w as nat);
        }
    }
}

/// Every lit cell is reached by a torch in the steps that its level leaves,
/// and every torch's cell has the highest level.
spec fn sound(p: LightPlan, levels: Seq<u8>) -> bool {
    &&& levels.len() == p.cells()
    &&& forall|c: int|
        0 <= c < levels.len() && #[trigger] levels[c] >= 1 ==> levels[c] <= 15 && p.reaches(
            c,
            (15 - levels[c]) as nat,
        )
    &&& forall|i: int|
        0 <= i < p.torches.len() ==> levels[(#[trigger] p.torches[i]) as int] == 15
}

/// No cell next to `m` that light can enter is more than one level darker.
spec fn closed(p: LightPlan, levels: Seq<u8>, m: int) -> bool {
    forall|c: int| #[trigger] p.adjacent(m, c) && !p.is_solid(c) ==> levels[c] + 1 >= levels[m]
}

/// The waiting cells are lit, and wait in the order of their levels, the
/// brightest first.
spec fn in_order(levels: Seq<u8>, queue: Seq<usize>) -> bool {
    &&& forall|i: int|
        0 <= i < queue.len() ==> (#[trigger] queue[i]) < levels.len() && levels[queue[i] as int]
            >= 1
    &&& forall|i: int, j: int|
        0 <= i <= j < queue.len() ==> levels[(#[trigger] queue[i]) as int] >= levels[(
        #[trigger] queue[j]) as int]
}

/// Every lit cell waits, is the cell `node` at hand, or is closed.
spec fn settled(p: LightPlan, levels: Seq<u8>, queue: Seq<usize>, node: int) -> bool {
    forall|c: int|
        0 <= c < levels.len() && #[trigger] levels[c] >= 1 ==> queue.contains(c as usize) || c
            == node || closed(p, levels, c)
}

/// No lit cell is more than one level darker than `top`.
spec fn above(levels: Seq<u8>, top: int) -> bool {
    forall|c: int| 0 <= c < levels.len() && #[trigger] levels[c] >= 1 ==> levels[c] + 1 >= top
}

/// What holds while the cell `node`, of the level `top`, hands its light on.
spec fn spreading(p: LightPlan, levels: Seq<u8>, queue: Seq<usize>, node: int, top: int) -> bool {
    &&& sound(p, levels)
    &&& in_order(levels, queue)
    &&& settled(p, levels, queue, node)
    &&& above(levels, top)
    &&& 0 <= node < levels.len()
    &&& levels[node] == top
    &&& top >= 1
    &&& forall|i: int| 0 <= i < queue.len() ==> levels[(#[trigger] queue[i]) as int] <= top
}

/// What holds each time the next waiting cell is taken.
spec fn waiting(p: LightPlan, levels: Seq<u8>, queue: Seq<usize>) -> bool {
    &&& sound(p, levels)
    &&& in_order(levels, queue)
    &&& settled(p, levels, queue, -1)
    &&& queue.len() > 0 ==> above(levels, levels[queue[0] as int] as int)
}

/// Hands the light of the cell `node` on to the cell `n` next to it, where `n`
/// is not solid and is more than one level darker.
#[verifier::rlimit(50)]
fn spread_to(
    light: &mut Vec<u8>,
    queue: &mut VecDeque<usize>,
    map: &[bool],
    node: usize,
    n: usize,
    level: u8,
    Ghost(p): Ghost<LightPlan>,
)
    requires
        p.wf(),
        map@ == p.solid,
        spreading(p, old(light)@, old(queue)@, node as int, level as int),
        p.adjacent(node as int, n as int),
    ensures
        spreading(p, final(light)@, final(queue)@, node as int, level as int),
        !p.is_solid(n as int) ==> final(light)@[n as int] + 1 >= level,
        forall|c: int| 0 <= c < old(light)@.len() ==> final(light)@[c] >= old(light)@[c],
        final(queue)@.len() + 2 * unlit(final(light)@) <= old(queue)@.len() + 2 * unlit(
            old(light)@,
        ),
{
    proof {
        lemma_adjacent_in_grid(p, node as int, n as int);
        vstd::arithmetic::div_mod::lemma_mod_bound(n as int, p.area());
    }
    let area: usize = map.len();
    if level >= 2 && !map[n % area] && light[n] <= level - 2 {
        let ghost before = light@;
        let ghost waited = queue@;
        assert(before[n as int] == 0);
        light[n] = level - 1;
        queue.push_back(n);
        proof {
            let after = light@;
            lemma_unlit_update(before, n as int, (level - 1) as u8);
            assert(after =~= before.update(n as int, (level - 1) as u8));
            assert(p.reaches(n as int, (15 - (level - 1)) as nat)) by {
                assert(p.reaches(node as int, (15 - level) as nat));
                assert(p.adjacent(node as int, n as int));
            }
            assert forall|c: int| 0 <= c < after.len() && #[trigger] after[c] >= 1 implies after[c]
                <= 15 && p.reaches(c, (15 - after[c]) as nat) by {
                if c != n {
                    assert(before[c] >= 1);
                }
            }
            assert forall|i: int| 0 <= i < p.torches.len() implies after[(
            #[trigger] p.torches[i]) as int] == 15 by {
                assert(before[p.torches[i] as int] == 15);
            }
            assert forall|i: int| 0 <= i < queue@.len() implies (#[trigger] queue@[i])
                < after.len() && after[queue@[i] as int] >= 1 && after[queue@[i] as int]
                <= level by {
                if i < waited.len() {
                    assert(queue@[i] == waited[i]);
                    assert(before[waited[i] as int] >= 1);
                }
            }
            assert forall|i: int, j: int| 0 <= i <= j < queue@.len() implies after[(
            #[trigger] queue@[i]) as int] >= after[(#[trigger] queue@[j]) as int] by {
                if j < waited.len() {
                    assert(queue@[i] == waited[i]);
                    assert(queue@[j] == waited[j]);
                    assert(before[waited[i] as int] >= before[waited[j] as int]);
                } else if i < waited.len() {
                    assert(queue@[i] == waited[i]);
                    assert(before[waited[i] as int] >= 1);
                }
            }
            assert forall|c: int| 0 <= c < after.len() && #[trigger] after[c] >= 1 implies queue@.contains(
                c as usize,
            ) || c == node || closed(p, after, c) by {
                if c == n {
                    assert(queue@[waited.len() as int] == n);
                } else {
                    assert(before[c] >= 1);
                    if waited.contains(c as usize) {
                        let i = choose|i: int| 0 <= i < waited.len() && waited[i] == c as usize;
                        assert(queue@[i] == c as usize);
                    } else if c != node {
                        assert(closed(p, before, c));
                        assert forall|e: int| #[trigger] p.adjacent(c, e) && !p.is_solid(
                            e,
                        ) implies after[e] + 1 >= after[c] by {
                            lemma_adjacent_in_grid(p, c, e);
                            assert(before[e] + 1 >= before[c]);
                        }
                    }
                }
            }
        }
    }
}

/// Light that gets to a cell in some number of steps gets there in any
/// larger number.
pub proof fn lemma_reaches_later(p: LightPlan, c: int, d: nat, e: nat)
    requires
        p.reaches(c, d),
        d <= e,
    ensures
        p.reaches(c, e),
    decreases d,
{
    if !p.is_source(c) {
        let m = choose|m: int| #[trigger] p.adjacent(m, c) && p.reaches(m, (d - 1) as nat);
        lemma_reaches_later(p, m, (d - 1) as nat, (e - 1) as nat);
    }
}

/// Where every lit cell is closed, a cell that a torch reaches in `d` steps is
/// at most `d` levels darker than the torch.
proof fn lemma_reached_is_lit(p: LightPlan, levels: Seq<u8>, c: int, d: nat)
    requires
        p.wf(),
        sound(p, levels),
        forall|m: int| 0 <= m < levels.len() && #[trigger] levels[m] >= 1 ==> closed(p, levels, m),
        p.reaches(c, d),
        d <= 14,
    ensures
        0 <= c < levels.len(),
        levels[c] >= 15 - d,
    decreases d,
{
    if p.is_source(c) {
        let i = choose|i: int| 0 <= i < p.torches.len() && #[trigger] p.torches[i] == c;
        assert(levels[p.torches[i] as int] == 15);
    } else {
        let m = choose|m: int| #[trigger] p.adjacent(m, c) && p.reaches(m, (d - 1) as nat);
        lemma_reached_is_lit(p, levels, m, (d - 1) as nat);
        lemma_adjacent_in_grid(p, m, c);
        assert(closed(p, levels, m));
    }
}

/// Hands the light of the cell `node` on to each of the cells next to it.
fn spread_from(
    light: &mut Vec<u8>,
    queue: &mut VecDeque<usize>,
    map: &[bool],
    width: usize,
    height: usize,
    node: usize,
    level: u8,
    Ghost(p): Ghost<LightPlan>,
)
    requires
        p.wf(),
        map@ == p.solid,
        width == p.width,
        height == p.height,
        width > 0,
        height > 0,
        map@.len() > 0,
        p.cells() <= usize::MAX,
        spreading(p, old(light)@, old(queue)@, node as int, level as int),
    ensures
        spreading(p, final(light)@, final(queue)@, node as int, level as int),
        closed(p, final(light)@, node as int),
        final(queue)@.len() + 2 * unlit(final(light)@) <= old(queue)@.len() + 2 * unlit(
            old(light)@,
        ),
{
    let area: usize = map.len();
    let x: usize = node % width;
    let y: usize = (node / width) % height;
    let z: usize = node / area;
    let ghost left = node - 1;
    let ghost right = node + 1;
    let ghost before = node - width;
    let ghost behind = node + width;
    let ghost below = node - area;
    let ghost above = node + area;
    if x > 0 {
        proof {
            lemma_adjacent_in_grid(p, node as int, left);
        }
        spread_to(light, queue, map, node, node - 1, level, Ghost(p));
    }
    assert(x > 0 && !p.is_solid(left) ==> light@[left] + 1 >= level);
    if x < width - 1 {
        proof {
            lemma_adjacent_in_grid(p, node as int, right);
        }
        spread_to(light, queue, map, node, node + 1, level, Ghost(p));
    }
    assert(x > 0 && !p.is_solid(left) ==> light@[left] + 1 >= level);
    assert(x < width - 1 && !p.is_solid(right) ==> light@[right] + 1 >= level);
    if y > 0 {
        proof {
            lemma_adjacent_in_grid(p, node as int, before);
        }
        spread_to(light, queue, map, node, node - width, level, Ghost(p));
    }
    assert(x > 0 && !p.is_solid(left) ==> light@[left] + 1 >= level);
    assert(x < width - 1 && !p.is_solid(right) ==> light@[right] + 1 >= level);
    assert(y > 0 && !p.is_solid(before) ==> light@[before] + 1 >= level);
    if y < height - 1 {
        proof {
            lemma_adjacent_in_grid(p, node as int, behind);
        }
        spread_to(light, queue, map, node, node + width, level, Ghost(p));
    }
    assert(x > 0 && !p.is_solid(left) ==> light@[left] + 1 >= level);
    assert(x < width - 1 && !p.is_solid(right) ==> light@[right] + 1 >= level);
    assert(y > 0 && !p.is_solid(before) ==> light@[before] + 1 >= level);
    assert(y < height - 1 && !p.is_solid(behind) ==> light@[behind] + 1 >= level);
    if z > 0 {
        proof {
            lemma_adjacent_in_grid(p, node as int, below);
        }
        spread_to(light, queue, map, node, node - area, level, Ghost(p));
    }
    assert(x > 0 && !p.is_solid(left) ==> light@[left] + 1 >= level);
    assert(x < width - 1 && !p.is_solid(right) ==> light@[right] + 1 >= level);
    assert(y > 0 && !p.is_solid(before) ==> light@[before] + 1 >= level);
    assert(y < height - 1 && !p.is_solid(behind) ==> light@[behind] + 1 >= level);
    assert(z > 0 && !p.is_solid(below) ==> light@[below] + 1 >= level);
    if z < 1 {
        proof {
            lemma_adjacent_in_grid(p, node as int, above);
        }
        spread_to(light, queue, map, node, node + area, level, Ghost(p));
    }
    assert(x > 0 && !p.is_solid(left) ==> light@[left] + 1 >= level);
    assert(x < width - 1 && !p.is_solid(right) ==> light@[right] + 1 >= level);
    assert(y > 0 && !p.is_solid(before) ==> light@[before] + 1 >= level);
    assert(y < height - 1 && !p.is_solid(behind) ==> light@[behind] + 1 >= level);
    assert(z > 0 && !p.is_solid(below) ==> light@[below] + 1 >= level);
    assert(z < 1 && !p.is_solid(above) ==> light@[above] + 1 >= level);
    assert forall|c: int| #[trigger] p.adjacent(node as int, c) && !p.is_solid(c) implies light@[c]
        + 1 >= light@[node as int] by {
        assert((c == left && x > 0) || (c == right && x < width - 1) || (c == before && y > 0) || (
        c == behind && y < height - 1) || (c == below && z > 0) || (c == above && z < 1));
    }
}

/// The light that torches at `torches_pos` give to the cells of a map of
/// `map_size.0` by `map_size.1` cells with two floors, where `map` tells the
/// solid cells of either floor.
#[verifier::rlimit(50)]
pub fn calculate_lighting(torches_pos: Vec<usize>, map: &[bool], map_size: (usize, usize)) -> (light_int: Vec<u8>)
    requires
        2 * (map_size.0 * map_size.1) <= usize::MAX,
        map@.len() == map_size.0 * map_size.1,
        forall|i: int|
            0 <= i < torches_pos@.len() ==> (#[trigger] torches_pos@[i]) < 2 * (map_size.0
                * map_size.1),
    ensures
        (LightPlan {
            solid: map@,
            width: map_size.0 as int,
            height: map_size.1 as int,
            torches: torches_pos@,
        }).lights(light_int@),
{
    let ghost p = LightPlan {
        solid: map@,
        width: map_size.0 as int,
        height: map_size.1 as int,
        torches: torches_pos@,
    };
    let width: usize = map_size.0;
    let height: usize = map_size.1;
    let area: usize = map.len();
    let mut lightq: VecDeque<usize> = VecDeque::new();
    let mut light_int: Vec<u8> = Vec::new();
    if area == 0 {
        return light_int;
    }
    assert(width > 0 && height > 0) by (nonlinear_arith)
        requires
            width * height > 0,
            width >= 0,
            height >= 0,
    ;
    let mut filled: usize = 0;
    while filled < 2 * area
        invariant
            filled <= 2 * area,
            2 * area <= usize::MAX,
            light_int@.len() == filled,
            forall|c: int| 0 <= c < filled ==> light_int@[c] == 0,
        decreases 2 * area - filled,
    {
        light_int.push(0);
        filled += 1;
    }
    let mut t: usize = 0;
    while t < torches_pos.len()
        invariant
            p.wf(),
            p.torches == torches_pos@,
            t <= torches_pos@.len(),
            light_int@.len() == p.cells(),
            forall|c: int|
                0 <= c < light_int@.len() ==> (#[trigger] light_int@[c] == 0 || (light_int@[c]
                    == 15 && p.is_source(c) && lightq@.contains(c as usize))),
            forall|i: int| 0 <= i < t ==> light_int@[(#[trigger] torches_pos@[i]) as int] == 15,
            forall|i: int|
                0 <= i < lightq@.len() ==> (#[trigger] lightq@[i]) < light_int@.len()
                    && light_int@[lightq@[i] as int] == 15,
        decreases torches_pos@.len() - t,
    {
        let light_pos: usize = torches_pos[t];
        let ghost waited = lightq@;
        let ghost before = light_int@;
        lightq.push_front(light_pos);
        light_int[light_pos] = 15;
        proof {
            assert(lightq@[0] == light_pos);
            assert forall|c: int| 0 <= c < light_int@.len() implies (#[trigger] light_int@[c] == 0
                || (light_int@[c] == 15 && p.is_source(c) && lightq@.contains(c as usize))) by {
                if c == light_pos {
                    assert(p.torches[t as int] == c);
                } else if before[c] != 0 {
                    let i = choose|i: int| 0 <= i < waited.len() && waited[i] == c as usize;
                    assert(lightq@[i + 1] == c as usize);
                }
            }
            assert forall|i: int| 0 <= i < lightq@.len() implies (#[trigger] lightq@[i])
                < light_int@.len() && light_int@[lightq@[i] as int] == 15 by {
                if i > 0 {
                    assert(lightq@[i] == waited[i - 1]);
                }
            }
            assert forall|i: int| 0 <= i < t + 1 implies light_int@[(
            #[trigger] torches_pos@[i]) as int] == 15 by {
                if i < t {
                    assert(before[torches_pos@[i] as int] == 15);
                }
            }
        }
        t += 1;
    }
    proof {
        assert forall|c: int| 0 <= c < light_int@.len() && #[trigger] light_int@[c] >= 1 implies p.reaches(
            c,
            (15 - light_int@[c]) as nat,
        ) by {
            assert(p.is_source(c));
        }
        assert(waiting(p, light_int@, lightq@));
    }
    while lightq.len() > 0
        invariant
            p.wf(),
            map@ == p.solid,
            width == p.width,
            height == p.height,
            area == p.area(),
            width > 0,
            height > 0,
            p.cells() <= usize::MAX,
            light_int@.len() == p.cells(),
            waiting(p, light_int@, lightq@),
        decreases lightq@.len() + 2 * unlit(light_int@),
    {
        let ghost waited = lightq@;
        let ghost start = light_int@;
        let node: usize = lightq.pop_front().unwrap();
        assert(node == waited[0]);
        let light_node: u8 = light_int[node];
        proof {
            assert forall|i: int| 0 <= i < lightq@.len() implies (#[trigger] lightq@[i])
                < start.len() && 1 <= start[lightq@[i] as int] <= light_node by {
                assert(lightq@[i] == waited[i + 1]);
                assert(start[waited[0] as int] >= start[waited[i + 1] as int]);
            }
            assert forall|i: int, j: int| 0 <= i <= j < lightq@.len() implies start[(
            #[trigger] lightq@[i]) as int] >= start[(#[trigger] lightq@[j]) as int] by {
                assert(lightq@[i] == waited[i + 1]);
                assert(lightq@[j] == waited[j + 1]);
                assert(start[waited[i + 1] as int] >= start[waited[j + 1] as int]);
            }
            assert forall|c: int| 0 <= c < start.len() && #[trigger] start[c] >= 1 implies lightq@.contains(
                c as usize,
            ) || c == node || closed(p, start, c) by {
                if waited.contains(c as usize) {
                    let i = choose|i: int| 0 <= i < waited.len() && waited[i] == c as usize;
                    if i > 0 {
                        assert(lightq@[i - 1] == c as usize);
                    }
                }
            }
            assert(spreading(p, start, lightq@, node as int, light_node as int));
        }
        spread_from(&mut light_int, &mut lightq, map, width, height, node, light_node, Ghost(p));
        proof {
            assert(closed(p, light_int@, node as int));
            assert(waiting(p, light_int@, lightq@));
        }
    }
    proof {
        assert forall|m: int| 0 <= m < light_int@.len() && #[trigger] light_int@[m] >= 1 implies closed(
            p,
            light_int@,
            m,
        ) by {
            assert(!lightq@.contains(m as usize));
        }
        assert forall|c: int, k: int| 0 <= c < light_int@.len() && 1 <= k <= 15 implies (
        light_int@[c] >= k <==> #[trigger] p.reaches(c, (15 - k) as nat)) by {
            if light_int@[c] >= k {
                lemma_reaches_later(p, c, (15 - light_int@[c]) as nat, (15 - k) as nat);
            }
            if p.reaches(c, (15 - k) as nat) {
                lemma_reached_is_lit(p, light_int@, c, (15 - k) as nat);
            }
        }
    }
    light_int
}

/// Light falls by at most one level on the step from a cell to a cell next to
/// it that is not solid.
pub proof fn lemma_light_falls_by_one(p: LightPlan, levels: Seq<u8>, m: int, c: int)
    requires
        p.wf(),
        p.lights(levels),
        p.adjacent(m, c),
        !p.is_solid(c),
    ensures
        0 <= c < levels.len(),
        levels[c] + 1 >= levels[m],
{
    lemma_adjacent_in_grid(p, m, c);
    let k = levels[m] as int;
    if k >= 2 {
        assert(p.reaches(m, (15 - k) as nat));
        assert(p.reaches(c, (15 - (k - 1)) as nat));
    }
}

/// Light does not come back by itself: a lit cell without a torch has a cell
/// next to it that is exactly one level brighter.
pub proof fn lemma_lit_cell_has_brighter_neighbour(p: LightPlan, levels: Seq<u8>, c: int) -> (m:
    int)
    requires
        p.wf(),
        p.lights(levels),
        0 <= c < levels.len(),
        levels[c] >= 1,
        !p.is_source(c),
    ensures
        p.adjacent(m, c),
        levels[m] == levels[c] + 1,
{
    let k = levels[c] as int;
    assert(p.reaches(c, (15 - k) as nat));
    let m = choose|m: int| #[trigger] p.adjacent(m, c) && p.reaches(m, (15 - k - 1) as nat);
    assert(p.reaches(m, (15 - (k + 1)) as nat));
    lemma_light_falls_by_one(p, levels, m, c);
    m
}

/// A torch reaches the cell at the place `i` of a path in `i` steps.
pub proof fn lemma_path_reaches(p: LightPlan, path: Seq<int>, i: int)
    requires
        p.wf(),
        p.is_path(path),
        0 <= i < path.len(),
    ensures
        0 <= path[i] < p.cells(),
        p.reaches(path[i], i as nat),
    decreases i,
{
    if i == 0 {
        let t = choose|t: int| 0 <= t < p.torches.len() && #[trigger] p.torches[t] == path[0];
        assert(p.torches[t] < p.cells());
    } else {
        lemma_path_reaches(p, path, i - 1);
        assert(p.adjacent(path[i - 1], path[i]));
        lemma_adjacent_in_grid(p, path[i - 1], path[i]);
    }
}

/// Along a shortest path away from the torches the level falls by one with
/// each step until it is zero, and so never rises.
pub proof fn lemma_light_along_shortest_path(
    p: LightPlan,
    levels: Seq<u8>,
    path: Seq<int>,
    i: int,
    j: int,
)
    requires
        p.wf(),
        p.lights(levels),
        p.is_path(path),
        p.is_shortest(path),
        0 <= i <= j < path.len(),
    ensures
        0 <= path[i] < levels.len(),
        0 <= path[j] < levels.len(),
        levels[path[i]] == (if i <= 15 {
            15 - i
        } else {
            0
        }),
        levels[path[j]] <= levels[path[i]],
{
    lemma_level_on_shortest_path(p, levels, path, i);
    lemma_level_on_shortest_path(p, levels, path, j);
}

proof fn lemma_level_on_shortest_path(p: LightPlan, levels: Seq<u8>, path: Seq<int>, i: int)
    requires
        p.wf(),
        p.lights(levels),
        p.is_path(path),
        p.is_shortest(path),
        0 <= i < path.len(),
    ensures
        0 <= path[i] < levels.len(),
        levels[path[i]] == (if i <= 15 {
            15 - i
        } else {
            0
        }),
{
    lemma_path_reaches(p, path, i);
    let c = path[i];
    if i == 0 {
        assert(p.reaches(c, (15 - 15) as nat));
    } else if i <= 14 {
        assert(p.reaches(c, (15 - (15 - i)) as nat));
        assert(!p.reaches(path[i], (i - 1) as nat));
        assert((15 - (16 - i)) as nat == (i - 1) as nat);
    } else {
        if levels[c] >= 1 {
            assert(p.reaches(c, (15 - 1) as nat));
            lemma_reaches_later(p, c, 14, (i - 1) as nat);
        }
    }
}

/// The brightness of a cell of the light level `level`: it falls by the
/// factor 0.7 with every 1.25 levels below 15.
pub open spec fn intensity_of(level: u8) -> Fixed {
    match level {
        0 => 907,
        1 => 1207,
        2 => 1605,
        3 => 2135,
        4 => 2840,
        5 => 3778,
        6 => 5026,
        7 => 6685,
        8 => 8893,
        9 => 11829,
        10 => 15735,
        11 => 20931,
        12 => 27843,
        13 => 37037,
        14 => 49267,
        _ => 65536,
    }
}

/// The brightness of a cell of the light level `level`.
pub fn intensity(level: u8) -> (r: Fixed)
    ensures
        r == intensity_of(level),
        0 < r <= ONE,
{
    match level {
        0 => 907,
        1 => 1207,
        2 => 1605,
        3 => 2135,
        4 => 2840,
        5 => 3778,
        6 => 5026,
        7 => 6685,
        8 => 8893,
        9 => 11829,
        10 => 15735,
        11 => 20931,
        12 => 27843,
        13 => 37037,
        14 => 49267,
        _ => 65536,
    }
}

/// A brighter level is a brighter cell.
pub proof fn lemma_intensity_rises(a: u8, b: u8)
    requires
        a <= b,
    ensures
        intensity_of(a) <= intensity_of(b),
{
}

/// The number of cells that meet at a corner.
pub const CELLS_AT_A_CORNER: Fixed = 4 * 65536;

/// The brightness of the cell (`x`, `y`) of the floor `z`; zero outside the
/// grid.
pub open spec fn light_at(lighting: Seq<Fixed>, map_size: (usize, usize), x: int, y: int, z: int) -> Fixed {
    if 0 <= x < map_size.0 && 0 <= y < map_size.1 && 0 <= z && x + map_size.0 * y + z * (
    map_size.0 * map_size.1) < lighting.len() {
        lighting[x + map_size.0 * y + z * (map_size.0 * map_size.1)]
    } else {
        0
    }
}

/// The brightness at the corner (`x`, `y`) of the floor `z`, which up to four
/// cells share: the mean of the four cells around it, those outside the grid
/// counted as dark, kept between zero and [`ONE`].
pub open spec fn vertex_light(lighting: Seq<Fixed>, map_size: (usize, usize), x: int, y: int, z: int) -> Fixed {
    clamped(
        quot(
            sum(
                sum(
                    sum(
                        light_at(lighting, map_size, x - 1, y, z),
                        light_at(lighting, map_size, x, y, z),
                    ),
                    light_at(lighting, map_size, x, y - 1, z),
                ),
                light_at(lighting, map_size, x - 1, y - 1, z),
            ),
            CELLS_AT_A_CORNER,
        ),
        0,
        ONE,
    )
}

/// The brightness of the cell (`x`, `y`) of the floor `z`; zero outside the
/// grid.
fn cell_light(lighting: &[Fixed], map_size: (usize, usize), x: usize, y: usize, z: usize) -> (r:
    Fixed)
    ensures
        r == light_at(lighting@, map_size, x as int, y as int, z as int),
{
    if x >= map_size.0 || y >= map_size.1 {
        return 0;
    }
    let len: usize = lighting.len();
    assert(map_size.0 * y >= 0 && z * (map_size.0 * map_size.1) >= 0) by (nonlinear_arith)
        requires
            map_size.0 >= 0,
            y >= 0,
            z >= 0,
            map_size.1 >= 0,
    ;
    let row: usize = match map_size.0.checked_mul(y) {
        Some(r) => r,
        None => {
            return 0;
        },
    };
    let floor: usize = if z == 0 {
        assert(z * (map_size.0 * map_size.1) == 0) by (nonlinear_arith)
            requires
                z == 0,
        ;
        0
    } else {
        assert(z * (map_size.0 * map_size.1) >= map_size.0 * map_size.1) by (nonlinear_arith)
            requires
                z >= 1,
                map_size.0 * map_size.1 >= 0,
        ;
        match map_size.0.checked_mul(map_size.1) {
            Some(area) => match z.checked_mul(area) {
                Some(f) => f,
                None => {
                    return 0;
                },
            },
            None => {
                return 0;
            },
        }
    };
    assert(floor == z * (map_size.0 * map_size.1));
    assert(row == map_size.0 * y);
    let inner: usize = match x.checked_add(row) {
        Some(i) => i,
        None => {
            return 0;
        },
    };
    match inner.checked_add(floor) {
        Some(at) => if at < len {
            lighting[at]
        } else {
            0
        },
        None => 0,
    }
}

/// The light at a corner of a cell.
#[derive(Debug, Clone, Copy, PartialEq, Eq, Structural)]
pub struct Vertex {
    pub lighting: Fixed,
}

impl Vertex {
    /// The light at the corner `pos`, given as its `x`, `y` and floor, of a
    /// grid whose cells have the brightness `lighting`.
    pub fn new(pos: [usize; 3], map_size: (usize, usize), lighting: &[Fixed]) -> (v: Self)
        ensures
            v.lighting == vertex_light(
                lighting@,
                map_size,
                pos[0] as int,
                pos[1] as int,
                pos[2] as int,
            ),
            0 <= v.lighting <= ONE,
    {
        let x: usize = pos[0];
        let y: usize = pos[1];
        let z: usize = pos[2];
        let neighbor1: Fixed = if x > 0 {
            cell_light(lighting, map_size, x - 1, y, z)
        } else {
            0
        };
        let neighbor2: Fixed = cell_light(lighting, map_size, x, y, z);
        let neighbor3: Fixed = if y > 0 {
            cell_light(lighting, map_size, x, y - 1, z)
        } else {
            0
        };
        let neighbor4: Fixed = if y > 0 && x > 0 {
            cell_light(lighting, map_size, x - 1, y - 1, z)
        } else {
            0
        };
        let total: Fixed = fx_add(fx_add(fx_add(neighbor1, neighbor2), neighbor3), neighbor4);
        let lighting = fx_clamp(fx_div(total, CELLS_AT_A_CORNER), 0, ONE);
        Self { lighting }
    }
}

impl Default for Vertex {
    /// A dark corner.
    fn default() -> (v: Self)
        ensures
            v.lighting == 0,
    {
        Self { lighting: 0 }
    }
}

/// The far edge of a cell, in texels: a point there has the full weight of
/// the far corners.
pub const SPAN: Fixed = 127 * 65536;

/// The middle between the edges of a cell, in texels.
pub const HALF_SPAN: Fixed = 127 * 32768;

/// The foot of a wall, in thirds of texels.
pub const WALL_SPAN: Fixed = 384 * 65536;

/// The height on a wall, in thirds of texels, below which the light of the
/// far edge of the cell in front comes in.
pub const LOWER_SEAM: Fixed = 256 * 65536;

/// The weight that a coordinate gives to the far side: the coordinate kept
/// within the cell.
pub open spec fn weight(x: Fixed) -> int {
    clamped(x, 0, SPAN) as int
}

/// The light at (`x`, `y`) between four corners: `v1` at the origin, `v2`
/// along `x`, `v3` along `y` and `v4` across, each weighted by the area
/// opposite to it, rounded down.
pub open spec fn bilerp_of(x: Fixed, y: Fixed, v1: Fixed, v2: Fixed, v3: Fixed, v4: Fixed) -> Fixed {
    let a = weight(x);
    let b = weight(y);
    sat(
        (v1 * (SPAN - a) * (SPAN - b) + v2 * a * (SPAN - b) + v3 * (SPAN - a) * b + v4 * a * b) / (
        SPAN * SPAN),
    )
}

/// The light at `x` between `l` at the origin and `r` at the far edge,
/// rounded down.
pub open spec fn lerp_of(x: Fixed, l: Fixed, r: Fixed) -> Fixed {
    let a = weight(x);
    sat((l * (SPAN - a) + r * a) / (SPAN as int))
}

/// The coordinate `x` as an exact weight.
fn weigh(x: Fixed) -> (a: i128)
    ensures
        a == weight(x),
        0 <= a <= SPAN,
{
    if x < 0 {
        0
    } else if x > SPAN {
        SPAN as i128
    } else {
        x as i128
    }
}

/// The value `v` with the weights `a` and `b`.
fn share(v: Fixed, a: i128, b: i128) -> (r: i128)
    requires
        0 <= a <= SPAN,
        0 <= b <= SPAN,
    ensures
        r == v * a * b,
        -0x4000_0000_0000_0000_0000_0000_0000 <= r <= 0x4000_0000_0000_0000_0000_0000_0000,
{
    proof {
        lemma_product_bound(v as int, a as int, 0x8000_0000_0000_0000);
        assert(0x8000_0000_0000_0000int * 0x8000_0000_0000_0000int
            == 0x4000_0000_0000_0000_0000_0000_0000_0000int) by (nonlinear_arith);
        assert(-0x8000_0000_0000_0000 * 0x80_0000 <= v * a <= 0x8000_0000_0000_0000 * 0x80_0000)
            by (nonlinear_arith)
            requires
                -0x8000_0000_0000_0000 <= v <= 0x8000_0000_0000_0000,
                0 <= a <= 0x80_0000,
        ;
        assert(-0x8000_0000_0000_0000 * 0x80_0000 * 0x80_0000 <= (v * a) * b
            <= 0x8000_0000_0000_0000 * 0x80_0000 * 0x80_0000) by (nonlinear_arith)
            requires
                -0x8000_0000_0000_0000 * 0x80_0000 <= v * a <= 0x8000_0000_0000_0000 * 0x80_0000,
                0 <= b <= 0x80_0000,
        ;
    }
    (v as i128) * a * b
}

/// The light at (`x`, `y`) between the four corners `v1` to `v4`.
pub fn bilerp(x: Fixed, y: Fixed, v1: Fixed, v2: Fixed, v3: Fixed, v4: Fixed) -> (r: Fixed)
    ensures
        r == bilerp_of(x, y, v1, v2, v3, v4),
{
    let a: i128 = weigh(x);
    let b: i128 = weigh(y);
    let a2: i128 = SPAN as i128 - a;
    let b2: i128 = SPAN as i128 - b;
    let total: i128 = share(v1, a2, b2) + share(v2, a, b2) + share(v3, a2, b) + share(v4, a, b);
    saturate(floor_div(total, (SPAN as i128) * (SPAN as i128)))
}

/// The light at `x` between `l` and `r`.
pub fn lerp(x: Fixed, l: Fixed, r: Fixed) -> (v: Fixed)
    ensures
        v == lerp_of(x, l, r),
{
    let a: i128 = weigh(x);
    let a2: i128 = SPAN as i128 - a;
    proof {
        assert(-0x8000_0000_0000_0000 * 0x80_0000 <= l * a2 <= 0x8000_0000_0000_0000 * 0x80_0000)
            by (nonlinear_arith)
            requires
                -0x8000_0000_0000_0000 <= l <= 0x8000_0000_0000_0000,
                0 <= a2 <= 0x80_0000,
        ;
        assert(-0x8000_0000_0000_0000 * 0x80_0000 <= r * a <= 0x8000_0000_0000_0000 * 0x80_0000)
            by (nonlinear_arith)
            requires
                -0x8000_0000_0000_0000 <= r <= 0x8000_0000_0000_0000,
                0 <= a <= 0x80_0000,
        ;
    }
    let total: i128 = (l as i128) * a2 + (r as i128) * a;
    saturate(floor_div(total, SPAN as i128))
}

/// At the origin the light between four corners is that of the first corner.
pub proof fn lemma_bilerp_at_corner(v1: Fixed, v2: Fixed, v3: Fixed, v4: Fixed)
    ensures
        bilerp_of(0, 0, v1, v2, v3, v4) == v1,
{
    let q = SPAN * SPAN;
    assert(v1 * (SPAN - 0) * (SPAN - 0) + v2 * 0 * (SPAN - 0) + v3 * (SPAN - 0) * 0 + v4 * 0 * 0
        == v1 * q) by (nonlinear_arith)
        requires
            q == SPAN * SPAN,
    ;
    assert(q > 0 && v1 * q == q * v1) by (nonlinear_arith)
        requires
            q == SPAN * SPAN,
            SPAN > 0,
    ;
    vstd::arithmetic::div_mod::lemma_div_multiples_vanish(v1 as int, q);
}

/// In the middle the light between four corners is their mean, rounded down.
pub proof fn lemma_bilerp_at_centre(v1: Fixed, v2: Fixed, v3: Fixed, v4: Fixed)
    ensures
        bilerp_of(HALF_SPAN, HALF_SPAN, v1, v2, v3, v4) == sat((v1 + v2 + v3 + v4) / 4),
{
    let a = HALF_SPAN as int;
    let q = a * a;
    let s = v1 + v2 + v3 + v4;
    assert(SPAN - a == a);
    assert(v1 * a * a + v2 * a * a + v3 * a * a + v4 * a * a == q * s) by (nonlinear_arith)
        requires
            q == a * a,
            s == v1 + v2 + v3 + v4,
    ;
    assert(SPAN * SPAN == q * 4) by (nonlinear_arith)
        requires
            SPAN == 2 * a,
            q == a * a,
    ;
    assert(q > 0) by (nonlinear_arith)
        requires
            q == a * a,
            a > 0,
    ;
    let k = s / 4;
    let r = s % 4;
    vstd::arithmetic::div_mod::lemma_fundamental_div_mod(s, 4);
    assert(q * s == (q * 4) * k + q * r && 0 <= q * r < q * 4) by (nonlinear_arith)
        requires
            s == 4 * k + r,
            0 <= r < 4,
            q > 0,
    ;
    vstd::arithmetic::div_mod::lemma_fundamental_div_mod_converse(q * s, q * 4, k, q * r);
}

/// The light at the four corners of a cell: `tl` at its origin, `tr` along
/// `x`, `bl` along `y`, and `br` across.
#[derive(Debug, Clone, Copy, PartialEq, Eq, Structural)]
pub struct Corners {
    pub tl: Fixed,
    pub tr: Fixed,
    pub bl: Fixed,
    pub br: Fixed,
}

/// The cell that the side `o` of the cell `pos` looks at, in a grid of rows
/// of `width` cells.
pub open spec fn facing_cell(pos: int, o: Orientation, width: int) -> int {
    match o {
        Orientation::N => pos - width,
        Orientation::S => pos + width,
        Orientation::E => pos - 1,
        Orientation::W => pos + 1,
    }
}

/// Of the corners of the cell in front of a wall, the two at the wall.
pub open spec fn near_edge(c: Corners, o: Orientation) -> (Fixed, Fixed) {
    match o {
        Orientation::N => (c.tl, c.tr),
        Orientation::S => (c.bl, c.br),
        Orientation::E => (c.tl, c.bl),
        Orientation::W => (c.br, c.tr),
    }
}

/// Of the corners of the cell in front of a wall, the two away from it.
pub open spec fn far_edge(c: Corners, o: Orientation) -> (Fixed, Fixed) {
    match o {
        Orientation::N => (c.bl, c.br),
        Orientation::S => (c.tl, c.tr),
        Orientation::E => (c.tr, c.br),
        Orientation::W => (c.bl, c.tl),
    }
}

/// The place along a wall that the texture column `x` has between the two
/// corners at the wall.
pub open spec fn along_wall(x: Fixed, o: Orientation) -> Fixed {
    if o == Orientation::N {
        diff(SPAN, x)
    } else {
        x
    }
}

/// The light at the corners of the cell `pos`, as `vertices` holds them, four
/// to a cell; darkness for a cell that it does not hold.
pub open spec fn corners_of(vertices: Seq<Vertex>, pos: int) -> Corners {
    if 0 <= pos && 4 * pos + 3 < vertices.len() {
        Corners {
            tl: vertices[4 * pos].lighting,
            tr: vertices[4 * pos + 1].lighting,
            bl: vertices[4 * pos + 2].lighting,
            br: vertices[4 * pos + 3].lighting,
        }
    } else {
        Corners { tl: 0, tr: 0, bl: 0, br: 0 }
    }
}

/// The four corners of the cell `pos`; dark ones for a cell that `vertices`
/// does not hold.
pub fn get_vertices(pos: usize, vertices: &[Vertex]) -> (r: (Vertex, Vertex, Vertex, Vertex))
    ensures
        (Corners { tl: r.0.lighting, tr: r.1.lighting, bl: r.2.lighting, br: r.3.lighting })
            == corners_of(vertices@, pos as int),
{
    let len: usize = vertices.len();
    if pos <= (usize::MAX - 3) / 4 && pos * 4 + 3 < len {
        (vertices[pos * 4], vertices[pos * 4 + 1], vertices[pos * 4 + 2], vertices[pos * 4 + 3])
    } else {
        let dark = Vertex { lighting: 0 };
        (dark, dark, dark, dark)
    }
}

/// Whether the four corners that `vertices` holds for the cell `pos` have
/// the light smoothed over the cells around each of them.
pub open spec fn corners_smoothed(
    vertices: Seq<Vertex>,
    lighting: Seq<Fixed>,
    map_size: (usize, usize),
    pos: int,
) -> bool {
    let x = pos % (map_size.0 as int);
    let y = (pos / (map_size.0 as int)) % (map_size.1 as int);
    let z = pos / (map_size.0 * map_size.1);
    &&& vertices[4 * pos].lighting == vertex_light(lighting, map_size, x, y, z)
    &&& vertices[4 * pos + 1].lighting == vertex_light(lighting, map_size, x + 1, y, z)
    &&& vertices[4 * pos + 2].lighting == vertex_light(lighting, map_size, x, y + 1, z)
    &&& vertices[4 * pos + 3].lighting == vertex_light(lighting, map_size, x + 1, y + 1, z)
}

/// The light of a dungeon: the brightness of each cell and, for each cell,
/// of its four corners; whether light is reckoned at all (`switch`), and
/// whether smoothly between the corners or flat by the cell
/// (`smooth_switch`).
pub struct Lighting {
    pub vertices: Vec<Vertex>,
    pub lighting: Vec<Fixed>,
    pub map_size: (usize, usize),
    pub switch: bool,
    pub smooth_switch: bool,
}

impl Lighting {
    /// Whether the corners of the cell `pos` hold the light smoothed over
    /// the cells around each of them.
    pub open spec fn cell_smoothed(self, pos: int) -> bool {
        corners_smoothed(self.vertices@, self.lighting@, self.map_size, pos)
    }

    /// Whether the corners hold, for each cell, the light smoothed over the
    /// cells around each corner.
    pub open spec fn smoothed(self) -> bool {
        &&& self.vertices@.len() == 4 * self.lighting@.len()
        &&& forall|pos: int| 0 <= pos < self.lighting@.len() ==> #[trigger] self.cell_smoothed(pos)
    }

    /// The brightness of the cell `pos`; darkness beyond the grid.
    pub open spec fn flat_at(self, pos: int) -> Fixed {
        if 0 <= pos < self.lighting@.len() {
            self.lighting@[pos]
        } else {
            0
        }
    }

    /// The light at the texel (`x`, `y`) of the floor of the cell `pos`.
    pub open spec fn floor_light(self, x: Fixed, y: Fixed, pos: usize) -> Fixed {
        if !self.switch {
            ONE
        } else if !self.smooth_switch {
            self.flat_at(pos as int)
        } else {
            let c = corners_of(self.vertices@, pos as int);
            bilerp_of(x, diff(SPAN, y), c.bl, c.br, c.tl, c.tr)
        }
    }

    /// The light at the texture column `x` and the height `y`, in thirds of
    /// texels from the top, of the side `o` of the wall in the cell `pos`.
    /// The wall takes its light from the cell that the side looks at: that of
    /// the corners at the wall, with that of the far corners coming in
    /// towards the foot, and on the upper level (`is_up`) that of the floor
    /// below coming in towards the foot and that of the far corners towards
    /// the top.
    pub open spec fn wall_light(self, x: Fixed, y: Fixed, pos: usize, o: Orientation, is_up: bool) -> Fixed {
        let front = facing_cell(pos as int, o, self.map_size.0 as int);
        if !self.switch {
            ONE
        } else if !self.smooth_switch {
            self.flat_at(front)
        } else {
            let near = near_edge(corners_of(self.vertices@, front), o);
            let far = far_edge(corners_of(self.vertices@, front), o);
            let below = near_edge(
                corners_of(self.vertices@, front - self.map_size.0 * self.map_size.1),
                o,
            );
            let ax = along_wall(x, o);
            if y > LOWER_SEAM {
                if is_up {
                    bilerp_of(ax, diff(WALL_SPAN, y), below.0, below.1, near.0, near.1)
                } else {
                    bilerp_of(ax, diff(WALL_SPAN, y), far.0, far.1, near.0, near.1)
                }
            } else if is_up && y <= SPAN {
                bilerp_of(ax, diff(SPAN, y), near.0, near.1, far.0, far.1)
            } else {
                lerp_of(ax, near.0, near.1)
            }
        }
    }

    /// The light of a map of `map_size.0` by `map_size.1` cells with the
    /// solid cells `map` and torches at `torches_pos`.
    #[verifier::rlimit(50)]
    pub fn new(torches_pos: Vec<usize>, map: &[bool], map_size: (usize, usize)) -> (l: Self)
        requires
            8 * (map_size.0 * map_size.1) <= usize::MAX,
            map@.len() == map_size.0 * map_size.1,
            forall|i: int|
                0 <= i < torches_pos@.len() ==> (#[trigger] torches_pos@[i]) < 2 * (map_size.0
                    * map_size.1),
        ensures
            l.map_size == map_size,
            l.switch,
            l.smooth_switch,
            l.smoothed(),
            exists|levels: Seq<u8>|
                (#[trigger] (LightPlan {
                    solid: map@,
                    width: map_size.0 as int,
                    height: map_size.1 as int,
                    torches: torches_pos@,
                }).lights(levels)) && l.lighting@.len() == levels.len() && forall|c: int|
                    0 <= c < levels.len() ==> #[trigger] l.lighting@[c] == intensity_of(levels[c]),
    {
        let ghost plan = LightPlan {
            solid: map@,
            width: map_size.0 as int,
            height: map_size.1 as int,
            torches: torches_pos@,
        };
        let light_int = calculate_lighting(torches_pos, map, map_size);
        let cells: usize = light_int.len();
        let mut lighting: Vec<Fixed> = Vec::new();
        let mut c: usize = 0;
        while c < cells
            invariant
                cells == light_int@.len(),
                c <= cells,
                lighting@.len() == c,
                forall|i: int| 0 <= i < c ==> #[trigger] lighting@[i] == intensity_of(light_int@[i]),
            decreases cells - c,
        {
            lighting.push(intensity(light_int[c]));
            c += 1;
        }
        let mut vertices: Vec<Vertex> = Vec::new();
        let mut pos: usize = 0;
        while pos < cells
            invariant
                cells == lighting@.len(),
                cells == 2 * (map_size.0 * map_size.1),
                8 * (map_size.0 * map_size.1) <= usize::MAX,
                pos <= cells,
                vertices@.len() == 4 * pos,
                forall|p: int|
                    0 <= p < pos ==> #[trigger] corners_smoothed(
                        vertices@,
                        lighting@,
                        map_size,
                        p,
                    ),
            decreases cells - pos,
        {
            assert(map_size.0 > 0 && map_size.1 > 0) by (nonlinear_arith)
                requires
                    map_size.0 * map_size.1 > 0,
                    map_size.0 >= 0,
                    map_size.1 >= 0,
            ;
            let x: usize = pos % map_size.0;
            let y: usize = (pos / map_size.0) % map_size.1;
            let z: usize = pos / (map_size.0 * map_size.1);
            let ghost had = vertices@;
            let tl = Vertex::new([x, y, z], map_size, &lighting);
            let tr = Vertex::new([x + 1, y, z], map_size, &lighting);
            let bl = Vertex::new([x, y + 1, z], map_size, &lighting);
            let br = Vertex::new([x + 1, y + 1, z], map_size, &lighting);
            vertices.push(tl);
            vertices.push(tr);
            vertices.push(bl);
            vertices.push(br);
            proof {
                assert(vertices@[4 * pos] == tl && vertices@[4 * pos + 1] == tr && vertices@[4
                    * pos + 2] == bl && vertices@[4 * pos + 3] == br);
                assert(corners_smoothed(vertices@, lighting@, map_size, pos as int));
                assert forall|p: int| 0 <= p < pos implies #[trigger] corners_smoothed(
                    vertices@,
                    lighting@,
                    map_size,
                    p,
                ) by {
                    assert(corners_smoothed(had, lighting@, map_size, p));
                    assert(vertices@[4 * p] == had[4 * p]);
                    assert(vertices@[4 * p + 1] == had[4 * p + 1]);
                    assert(vertices@[4 * p + 2] == had[4 * p + 2]);
                    assert(vertices@[4 * p + 3] == had[4 * p + 3]);
                }
            }
            pos += 1;
        }
        let l = Self { vertices, lighting, map_size, switch: true, smooth_switch: true };
        proof {
            assert(plan.lights(light_int@));
            assert forall|p: int| 0 <= p < l.lighting@.len() implies #[trigger] l.cell_smoothed(
                p,
            ) by {
                assert(corners_smoothed(l.vertices@, l.lighting@, map_size, p));
            }
        }
        l
    }

    /// The light at the corners of the cell `at`; darkness where there is no
    /// such cell.
    fn corners(&self, at: i128) -> (c: Corners)
        ensures
            c == corners_of(self.vertices@, at as int),
    {
        let len: usize = self.vertices.len();
        if at < 0 || at > (usize::MAX / 4) as i128 {
            return Corners { tl: 0, tr: 0, bl: 0, br: 0 };
        }
        let (tl, tr, bl, br) = get_vertices(at as usize, &self.vertices);
        Corners { tl: tl.lighting, tr: tr.lighting, bl: bl.lighting, br: br.lighting }
    }

    /// The brightness of the cell `at`; darkness where there is no such cell.
    fn flat(&self, at: i128) -> (v: Fixed)
        ensures
            v == self.flat_at(at as int),
    {
        let len: usize = self.lighting.len();
        if 0 <= at && at < len as i128 {
            self.lighting[at as usize]
        } else {
            0
        }
    }

    /// The light at the texel (`x`, `y`) of the floor of the cell `pos`.
    pub fn get_lighting_floor(&self, x: Fixed, y: Fixed, pos: usize) -> (v: Fixed)
        ensures
            v == self.floor_light(x, y, pos),
    {
        if self.switch {
            if self.smooth_switch {
                let c = self.corners(pos as i128);
                bilerp(x, fx_sub(SPAN, y), c.bl, c.br, c.tl, c.tr)
            } else {
                self.flat(pos as i128)
            }
        } else {
            ONE
        }
    }

    /// The light at the column `x` and the height `y` of the side
    /// `orientation` of the wall in the cell `pos`.
    pub fn get_lighting_wall(&self, x: Fixed, y: Fixed, pos: usize, orientation: &Orientation, is_up: bool) -> (v: Fixed)
        ensures
            v == self.wall_light(x, y, pos, *orientation, is_up),
    {
        if !self.switch {
            return ONE;
        }
        let front: i128 = match orientation {
            Orientation::N => pos as i128 - self.map_size.0 as i128,
            Orientation::S => pos as i128 + self.map_size.0 as i128,
            Orientation::E => pos as i128 - 1,
            Orientation::W => pos as i128 + 1,
        };
        if !self.smooth_switch {
            return self.flat(front);
        }
        let c = self.corners(front);
        let (near_a, near_b, far_a, far_b): (Fixed, Fixed, Fixed, Fixed) = match orientation {
            Orientation::N => (c.tl, c.tr, c.bl, c.br),
            Orientation::S => (c.bl, c.br, c.tl, c.tr),
            Orientation::E => (c.tl, c.bl, c.tr, c.br),
            Orientation::W => (c.br, c.tr, c.bl, c.tl),
        };
        let ax: Fixed = match orientation {
            Orientation::N => fx_sub(SPAN, x),
            _ => x,
        };
        if y > LOWER_SEAM {
            if is_up {
                proof {
                    lemma_product_bound(
                        self.map_size.0 as int,
                        self.map_size.1 as int,
                        0xffff_ffff_ffff_ffff,
                    );
                    assert(0xffff_ffff_ffff_ffffint * 0xffff_ffff_ffff_ffffint
                        == 0xffff_ffff_ffff_fffe_0000_0000_0000_0001int) by (nonlinear_arith);
                }
                let area: u128 = (self.map_size.0 as u128) * (self.map_size.1 as u128);
                let b = if front >= 0 && front as u128 >= area {
                    self.corners((front as u128 - area) as i128)
                } else {
                    Corners { tl: 0, tr: 0, bl: 0, br: 0 }
                };
                let (below_a, below_b): (Fixed, Fixed) = match orientation {
                    Orientation::N => (b.tl, b.tr),
                    Orientation::S => (b.bl, b.br),
                    Orientation::E => (b.tl, b.bl),
                    Orientation::W => (b.br, b.tr),
                };
                bilerp(ax, fx_sub(WALL_SPAN, y), below_a, below_b, near_a, near_b)
            } else {
                bilerp(ax, fx_sub(WALL_SPAN, y), far_a, far_b, near_a, near_b)
            }
        } else if is_up && y <= SPAN {
            bilerp(ax, fx_sub(SPAN, y), near_a, near_b, far_a, far_b)
        } else {
            lerp(ax, near_a, near_b)
        }
    }
}

/// At each corner of a cell the light between its four corners is that of
/// the corner.
pub proof fn lemma_bilerp_at_corners(v1: Fixed, v2: Fixed, v3: Fixed, v4: Fixed)
    ensures
        bilerp_of(0, 0, v1, v2, v3, v4) == v1,
        bilerp_of(SPAN, 0, v1, v2, v3, v4) == v2,
        bilerp_of(0, SPAN, v1, v2, v3, v4) == v3,
        bilerp_of(SPAN, SPAN, v1, v2, v3, v4) == v4,
{
    lemma_bilerp_at_corner(v1, v2, v3, v4);
    let n = SPAN as int;
    let q = n * n;
    assert(q > 0 && v2 * q == q * v2 && v3 * q == q * v3 && v4 * q == q * v4) by (nonlinear_arith)
        requires
            q == n * n,
            n > 0,
    ;
    assert(v1 * (n - n) * (n - 0) + v2 * n * (n - 0) + v3 * (n - n) * 0 + v4 * n * 0 == v2 * q)
        by (nonlinear_arith)
        requires
            q == n * n,
    ;
    assert(v1 * (n - 0) * (n - n) + v2 * 0 * (n - n) + v3 * (n - 0) * n + v4 * 0 * n == v3 * q)
        by (nonlinear_arith)
        requires
            q == n * n,
    ;
    assert(v1 * (n - n) * (n - n) + v2 * n * (n - n) + v3 * (n - n) * n + v4 * n * n == v4 * q)
        by (nonlinear_arith)
        requires
            q == n * n,
    ;
    vstd::arithmetic::div_mod::lemma_div_multiples_vanish(v2 as int, q);
    vstd::arithmetic::div_mod::lemma_div_multiples_vanish(v3 as int, q);
    vstd::arithmetic::div_mod::lemma_div_multiples_vanish(v4 as int, q);
}

/// Where light is reckoned smoothly, the floor of a cell has at each of its
/// corners the light of that corner, and in its middle the mean of the four
/// corners, rounded down.
pub proof fn lemma_floor_light_at_corners_and_centre(l: Lighting, pos: usize)
    requires
        l.switch,
        l.smooth_switch,
    ensures
        l.floor_light(0, 0, pos) == corners_of(l.vertices@, pos as int).tl,
        l.floor_light(SPAN, 0, pos) == corners_of(l.vertices@, pos as int).tr,
        l.floor_light(0, SPAN, pos) == corners_of(l.vertices@, pos as int).bl,
        l.floor_light(SPAN, SPAN, pos) == corners_of(l.vertices@, pos as int).br,
        l.floor_light(HALF_SPAN, HALF_SPAN, pos) == sat(
            (corners_of(l.vertices@, pos as int).tl + corners_of(l.vertices@, pos as int).tr
                + corners_of(l.vertices@, pos as int).bl + corners_of(
                l.vertices@,
                pos as int,
            ).br) / 4,
        ),
{
    let c = corners_of(l.vertices@, pos as int);
    lemma_bilerp_at_corners(c.bl, c.br, c.tl, c.tr);
    lemma_bilerp_at_centre(c.bl, c.br, c.tl, c.tr);
}

/// By how much a rising torch gains with each update.
pub const RISE_STEP: Fixed = 328;

/// By how much a falling torch loses with each update.
pub const FALL_STEP: Fixed = 524;

/// The least brightness at which a torch may turn from falling.
pub const LOW_MIN: Fixed = 51200;

/// The least brightness, from the first turn on, at which a torch turns from
/// falling.
pub const LOW_AGAIN_MIN: Fixed = 56320;

/// The bound below which a torch turns from falling.
pub const LOW_MAX: Fixed = 61440;

/// The least brightness above which a torch turns from rising.
pub const HIGH_MIN: Fixed = 58880;

/// The bound below which a torch turns from rising.
pub const HIGH_MAX: Fixed = 65536;

/// The least time for which a torch holds its height.
pub const HOLD_MIN: Fixed = 5243;

/// The bound on the time for which a torch holds its height.
pub const HOLD_MAX: Fixed = 52429;

/// The least time for which a torch stays low.
pub const PAUSE_MIN: Fixed = 2621;

/// The bound on the time for which a torch stays low.
pub const PAUSE_MAX: Fixed = 9175;

/// What a torch is doing.
#[derive(Debug, Clone, Copy, PartialEq, Eq, Structural)]
pub enum TorchState {
    /// Getting brighter, until brighter than `flicker_r_high`.
    Rising,
    /// Staying bright, for the time `flicker_r_hold`.
    Hold,
    /// Getting darker, until darker than `flicker_r_low`.
    Falling,
    /// Staying dark, for the time `flicker_r_pause`.
    Pause,
}

/// The flicker that all light in the dungeon shares: a brightness that rises
/// and falls between bounds that are drawn anew on each turn.
#[derive(Debug, Clone, Copy, PartialEq, Eq, Structural)]
pub struct Torch {
    pub intensity: Fixed,
    pub flicker_r_low: Fixed,
    pub flicker_r_high: Fixed,
    pub flicker_r_hold: Fixed,
    pub flicker_r_pause: Fixed,
    pub state: TorchState,
    pub timer: Fixed,
}

/// A number drawn from `low` up to, not including, `high`, by the thread's
/// generator of `rand` and its `gen_range`. Trusted: the result lies in that
/// range; the call panics on an empty range.
#[verifier::external_body]
fn random_between(low: Fixed, high: Fixed) -> (r: Fixed)
    requires
        low < high,
    ensures
        low <= r < high,
{
    rand::Rng::gen_range(&mut rand::thread_rng(), low..high)
}

impl Torch {
    /// The brightness stays between the bounds, and so do the two turning
    /// points.
    pub open spec fn wf(self) -> bool {
        &&& LOW_MIN - FALL_STEP <= self.intensity <= HIGH_MAX + RISE_STEP
        &&& LOW_MIN <= self.flicker_r_low < LOW_MAX
        &&& HIGH_MIN <= self.flicker_r_high < HIGH_MAX
    }

    /// Whether the torch turns to its next state at the time `timer`.
    pub open spec fn turns(self, timer: Fixed) -> bool {
        match self.state {
            TorchState::Rising => self.intensity > self.flicker_r_high,
            TorchState::Hold => diff(timer, self.timer) > self.flicker_r_hold,
            TorchState::Falling => self.intensity < self.flicker_r_low,
            TorchState::Pause => diff(timer, self.timer) > self.flicker_r_pause,
        }
    }

    /// The range from which the bound is drawn that the torch takes with it
    /// when it turns: the least value and the bound above.
    pub open spec fn draw_range(self) -> (Fixed, Fixed) {
        match self.state {
            TorchState::Rising => (HOLD_MIN, HOLD_MAX),
            TorchState::Hold => (LOW_AGAIN_MIN, LOW_MAX),
            TorchState::Falling => (PAUSE_MIN, PAUSE_MAX),
            TorchState::Pause => (HIGH_MIN, HIGH_MAX),
        }
    }

    /// The torch after an update at the time `timer`. Where it turns, it
    /// enters the next state with `draw` as the bound that ends that state,
    /// or, from a state that time ends, as the turning point after it; where
    /// it does not turn, it rises or falls by a step, or waits.
    pub open spec fn advanced(self, timer: Fixed, draw: Fixed) -> Torch {
        match self.state {
            TorchState::Rising => if self.turns(timer) {
                Torch { state: TorchState::Hold, flicker_r_hold: draw, timer, ..self }
            } else {
                Torch { intensity: sum(self.intensity, RISE_STEP), ..self }
            },
            TorchState::Hold => if self.turns(timer) {
                Torch { state: TorchState::Falling, flicker_r_low: draw, ..self }
            } else {
                self
            },
            TorchState::Falling => if self.turns(timer) {
                Torch { state: TorchState::Pause, flicker_r_pause: draw, timer, ..self }
            } else {
                Torch { intensity: diff(self.intensity, FALL_STEP), ..self }
            },
            TorchState::Pause => if self.turns(timer) {
                Torch { state: TorchState::Rising, flicker_r_high: draw, ..self }
            } else {
                self
            },
        }
    }

    /// The state that follows `state` in the round of a torch.
    pub open spec fn next_state(state: TorchState) -> TorchState {
        match state {
            TorchState::Rising => TorchState::Hold,
            TorchState::Hold => TorchState::Falling,
            TorchState::Falling => TorchState::Pause,
            TorchState::Pause => TorchState::Rising,
        }
    }

    /// The torch after the first `n` of the updates at the times `times`
    /// with the draws `draws`.
    pub open spec fn after(self, times: Seq<Fixed>, draws: Seq<Fixed>, n: nat) -> Torch
        decreases n,
    {
        if n == 0 {
            self
        } else {
            self.after(times, draws, (n - 1) as nat).advanced(times[n - 1], draws[n - 1])
        }
    }

    /// Whether each of the first `n` draws is from the range of the state in
    /// which the torch then is.
    pub open spec fn draws_fit(self, times: Seq<Fixed>, draws: Seq<Fixed>, n: nat) -> bool {
        forall|k: nat|
            k < n ==> (#[trigger] self.after(times, draws, k)).draw_range().0 <= draws[k as int]
                < self.after(times, draws, k).draw_range().1
    }

    /// Whether the torch turns to its next state at the time `timer`.
    pub fn is_turning(&self, timer: Fixed) -> (b: bool)
        ensures
            b == self.turns(timer),
    {
        match self.state {
            TorchState::Rising => self.intensity > self.flicker_r_high,
            TorchState::Hold => fx_sub(timer, self.timer) > self.flicker_r_hold,
            TorchState::Falling => self.intensity < self.flicker_r_low,
            TorchState::Pause => fx_sub(timer, self.timer) > self.flicker_r_pause,
        }
    }

    /// Updates the torch at the time `timer`, with `draw` as the bound that it
    /// takes with it if it turns. A torch within its bounds stays within
    /// them, whatever the time, if `draw` is from the range of its state.
    pub fn advance(&mut self, timer: Fixed, draw: Fixed)
        ensures
            *final(self) == old(self).advanced(timer, draw),
            old(self).wf() && old(self).draw_range().0 <= draw < old(self).draw_range().1
                ==> final(self).wf(),
    {
        let turning: bool = self.is_turning(timer);
        match self.state {
            TorchState::Rising => {
                if turning {
                    self.state = TorchState::Hold;
                    self.flicker_r_hold = draw;
                    self.timer = timer;
                } else {
                    self.intensity = fx_add(self.intensity, RISE_STEP);
                }
            },
            TorchState::Hold => {
                if turning {
                    self.state = TorchState::Falling;
                    self.flicker_r_low = draw;
                }
            },
            TorchState::Falling => {
                if turning {
                    self.state = TorchState::Pause;
                    self.flicker_r_pause = draw;
                    self.timer = timer;
                } else {
                    self.intensity = fx_sub(self.intensity, FALL_STEP);
                }
            },
            TorchState::Pause => {
                if turning {
                    self.state = TorchState::Rising;
                    self.flicker_r_high = draw;
                }
            },
        }
    }

    /// Updates the torch at the time `timer`; the bound that it takes with it
    /// if it turns is drawn at random from the range of its state.
    pub fn update_intensity(&mut self, timer: Fixed)
        ensures
            exists|draw: Fixed|
                old(self).draw_range().0 <= draw < old(self).draw_range().1 && *final(self)
                    == #[trigger] old(self).advanced(timer, draw),
            old(self).wf() ==> final(self).wf(),
    {
        let draw: Fixed = match self.state {
            TorchState::Rising => random_between(HOLD_MIN, HOLD_MAX),
            TorchState::Hold => random_between(LOW_AGAIN_MIN, LOW_MAX),
            TorchState::Falling => random_between(PAUSE_MIN, PAUSE_MAX),
            TorchState::Pause => random_between(HIGH_MIN, HIGH_MAX),
        };
        self.advance(timer, draw);
    }

    /// A rising torch with the given turning points, waiting times and
    /// brightness.
    pub fn starting(low: Fixed, high: Fixed, hold: Fixed, pause: Fixed, intensity: Fixed) -> (t:
        Self)
        ensures
            t == (Torch {
                intensity,
                flicker_r_low: low,
                flicker_r_high: high,
                flicker_r_hold: hold,
                flicker_r_pause: pause,
                state: TorchState::Rising,
                timer: 0,
            }),
    {
        Torch {
            intensity,
            flicker_r_low: low,
            flicker_r_high: high,
            flicker_r_hold: hold,
            flicker_r_pause: pause,
            state: TorchState::Rising,
            timer: 0,
        }
    }
}

impl Default for Torch {
    /// A rising torch whose brightness and turning points are drawn at
    /// random within their bounds.
    fn default() -> (t: Self)
        ensures
            t.wf(),
            t.state == TorchState::Rising,
            t.timer == 0,
            LOW_MIN <= t.intensity < LOW_MAX,
            40 * ONE <= t.flicker_r_hold < 80 * ONE,
            100 * ONE <= t.flicker_r_pause < 200 * ONE,
    {
        let low: Fixed = random_between(LOW_MIN, LOW_MAX);
        let high: Fixed = random_between(HIGH_MIN, HIGH_MAX);
        let hold: Fixed = random_between(40 * ONE, 80 * ONE);
        let pause: Fixed = random_between(100 * ONE, 200 * ONE);
        let intensity: Fixed = random_between(LOW_MIN, LOW_MAX);
        Torch::starting(low, high, hold, pause, intensity)
    }
}

/// A torch within its bounds stays within them however long it is updated,
/// at whatever times, as long as each draw is from the range of its state.
pub proof fn lemma_torch_stays_within_bounds(t: Torch, times: Seq<Fixed>, draws: Seq<Fixed>, n: nat)
    requires
        t.wf(),
        n <= times.len(),
        n <= draws.len(),
        t.draws_fit(times, draws, n),
    ensures
        t.after(times, draws, n).wf(),
    decreases n,
{
    if n > 0 {
        let m = (n - 1) as nat;
        assert forall|k: nat| k < m implies (#[trigger] t.after(times, draws, k)).draw_range().0
            <= draws[k as int] < t.after(times, draws, k).draw_range().1 by {
            assert(k < n);
        }
        lemma_torch_stays_within_bounds(t, times, draws, m);
        let before = t.after(times, draws, m);
        assert(before.draw_range().0 <= draws[m as int] < before.draw_range().1);
    }
}

/// An update turns the torch to the next state of its round exactly when
/// the bound of its state is crossed, and leaves it in its state otherwise.
pub proof fn lemma_torch_turns_when_due(t: Torch, timer: Fixed, draw: Fixed)
    ensures
        t.advanced(timer, draw).state == (if t.turns(timer) {
            Torch::next_state(t.state)
        } else {
            t.state
        }),
        t.turns(timer) ==> t.advanced(timer, draw).intensity == t.intensity,
{
}

} // verus!
