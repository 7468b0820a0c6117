//! Spatial reordering: a two-axis shell sort over the agent grid.
//!
//! The grid is a flat vector of `dim_x * dim_y` agents. A *lane* is either a
//! row (sorted by the x coordinate) or a column (sorted by the y coordinate).
//! [`shell_pass`] runs one gap-strided insertion pass over every lane of one
//! axis, swapping adjacent-at-gap agents that are out of order. The pass is
//! proved to permute each lane within itself (so also the whole grid), to
//! leave every stride-`gap` subsequence of every lane ascending — full lane
//! sortedness when the gap is one — and to be the identity on a grid whose
//! lanes are already sorted, which is what makes the reordering idempotent
//! on pre-sorted data.

use vstd::prelude::*;

use crate::system::Boid;

verus! {

/// Which coordinate a pass orders by: rows by x, columns by y.
#[derive(Clone, Copy, Debug, PartialEq, Eq, Structural)]
pub enum SortAxis {
    ByX,
    ByY,
}

/// The coordinate a pass compares.
pub open spec fn key_of(b: Boid, axis: SortAxis) -> int {
    match axis {
        SortAxis::ByX => b.position.x as int,
        SortAxis::ByY => b.position.y as int,
    }
}

/// How many lanes an axis has: one per row for `ByX`, one per column for
/// `ByY`.
pub open spec fn lane_count(axis: SortAxis, dim_x: int, dim_y: int) -> int {
    match axis {
        SortAxis::ByX => dim_y,
        SortAxis::ByY => dim_x,
    }
}

/// How many agents a lane holds.
pub open spec fn lane_len(axis: SortAxis, dim_x: int, dim_y: int) -> int {
    match axis {
        SortAxis::ByX => dim_x,
        SortAxis::ByY => dim_y,
    }
}

/// The flat index of the `k`-th agent of a lane.
pub open spec fn lane_slot(axis: SortAxis, dim_x: int, line: int, k: int) -> int {
    match axis {
        SortAxis::ByX => line * dim_x + k,
        SortAxis::ByY => line + k * dim_x,
    }
}

/// A lane is sorted when its keys are nondecreasing along the lane.
pub open spec fn lane_sorted(
    g: Seq<Boid>,
    axis: SortAxis,
    dim_x: int,
    dim_y: int,
    line: int,
) -> bool {
    forall|k1: int, k2: int|
        0 <= k1 <= k2 < lane_len(axis, dim_x, dim_y) ==> key_of(
            #[trigger] g[lane_slot(axis, dim_x, line, k1)],
            axis,
        ) <= key_of(#[trigger] g[lane_slot(axis, dim_x, line, k2)], axis)
}

/// Every lane of an axis is sorted.
pub open spec fn lanes_sorted(g: Seq<Boid>, axis: SortAxis, dim_x: int, dim_y: int) -> bool {
    forall|line: int|
        0 <= line < lane_count(axis, dim_x, dim_y) ==> #[trigger] lane_sorted(
            g,
            axis,
            dim_x,
            dim_y,
            line,
        )
}

/// Lane slots stay inside the grid.
pub proof fn lemma_slot_range(axis: SortAxis, dim_x: int, dim_y: int, line: int, k: int)
    requires
        0 <= line < lane_count(axis, dim_x, dim_y),
        0 <= k < lane_len(axis, dim_x, dim_y),
    ensures
        0 <= lane_slot(axis, dim_x, line, k) < dim_x * dim_y,
{
    match axis {
        SortAxis::ByX => {
            assert(0 <= line * dim_x + k < dim_x * dim_y) by (nonlinear_arith)
                requires
                    0 <= line < dim_y,
                    0 <= k < dim_x,
            ;
        },
        SortAxis::ByY => {
            assert(0 <= line + k * dim_x < dim_x * dim_y) by (nonlinear_arith)
                requires
                    0 <= line < dim_x,
                    0 <= k < dim_y,
            ;
        },
    }
}

/// Lane slots grow strictly along the lane (so distinct positions of one
/// lane occupy distinct grid slots).
pub proof fn lemma_slot_mono(axis: SortAxis, dim_x: int, dim_y: int, line: int, k1: int, k2: int)
    requires
        0 <= line < lane_count(axis, dim_x, dim_y),
        0 <= k1 < k2 < lane_len(axis, dim_x, dim_y),
    ensures
        lane_slot(axis, dim_x, line, k1) < lane_slot(axis, dim_x, line, k2),
{
    match axis {
        SortAxis::ByX => {},
        SortAxis::ByY => {
            assert(k1 * dim_x < k2 * dim_x) by (nonlinear_arith)
                requires
                    k1 < k2,
                    dim_x >= 1,
            ;
        },
    }
}

/// Slots of different lanes never collide.
pub proof fn lemma_lane_distinct(
    axis: SortAxis,
    dim_x: int,
    dim_y: int,
    l1: int,
    k1: int,
    l2: int,
    k2: int,
)
    requires
        l1 != l2,
        0 <= l1 < lane_count(axis, dim_x, dim_y),
        0 <= l2 < lane_count(axis, dim_x, dim_y),
        0 <= k1 < lane_len(axis, dim_x, dim_y),
        0 <= k2 < lane_len(axis, dim_x, dim_y),
    ensures
        lane_slot(axis, dim_x, l1, k1) != lane_slot(axis, dim_x, l2, k2),
{
    match axis {
        SortAxis::ByX => {
            assert(l1 * dim_x + k1 != l2 * dim_x + k2) by (nonlinear_arith)
                requires
                    l1 != l2,
                    0 <= k1 < dim_x,
                    0 <= k2 < dim_x,
                    0 <= l1,
                    0 <= l2,
            ;
        },
        SortAxis::ByY => {
            vstd::arithmetic::div_mod::lemma_mod_multiples_vanish(k1, l1, dim_x);
            vstd::arithmetic::div_mod::lemma_mod_multiples_vanish(k2, l2, dim_x);
            vstd::arithmetic::div_mod::lemma_small_mod(l1 as nat, dim_x as nat);
            vstd::arithmetic::div_mod::lemma_small_mod(l2 as nat, dim_x as nat);
            assert(k1 * dim_x + l1 == dim_x * k1 + l1) by (nonlinear_arith);
            assert(k2 * dim_x + l2 == dim_x * k2 + l2) by (nonlinear_arith);
            assert((l1 + k1 * dim_x) % dim_x == l1);
            assert((l2 + k2 * dim_x) % dim_x == l2);
        },
    }
}

/// Swapping two elements of a sequence leaves its multiset unchanged.
pub proof fn lemma_swap_multiset(s: Seq<Boid>, i1: int, i2: int)
    requires
        0 <= i1 < s.len(),
        0 <= i2 < s.len(),
    ensures
        s.update(i1, s[i2]).update(i2, s[i1]).to_multiset() == s.to_multiset(),
{
    broadcast use vstd::seq_lib::group_to_multiset_ensures;
    broadcast use vstd::multiset::group_multiset_axioms;

    if i1 == i2 {
        assert(s.update(i1, s[i2]).update(i2, s[i1]) =~= s);
    } else {
        let s1 = s.update(i1, s[i2]);
        let s2 = s1.update(i2, s[i1]);
        assert(s.contains(s[i1]));
        assert(s.contains(s[i2]));
        assert(s1.to_multiset() == s.to_multiset().insert(s[i2]).remove(s[i1]));
        assert(s1[i2] == s[i2]);
        assert(s2.to_multiset() == s1.to_multiset().insert(s[i1]).remove(s1[i2]));
        assert(s2.to_multiset() =~= s.to_multiset()) by {
            assert(forall|v: Boid| s2.to_multiset().count(v) == s.to_multiset().count(v)) by {
                assert(s.to_multiset().count(s[i1]) > 0);
                assert(s.to_multiset().count(s[i2]) > 0);
            }
        }
    }
}

/// The boids of one lane, in lane order.
pub open spec fn lane_view(g: Seq<Boid>, axis: SortAxis, dim_x: int, dim_y: int, line: int) -> Seq<
    Boid,
> {
    Seq::new(lane_len(axis, dim_x, dim_y) as nat, |k: int| g[lane_slot(axis, dim_x, line, k)])
}

/// Every residue class of a lane ascends: two lane positions a multiple of
/// `gap` apart carry nondecreasing keys. At gap one this is full lane
/// sortedness.
pub open spec fn lane_gap_ordered(
    g: Seq<Boid>,
    axis: SortAxis,
    dim_x: int,
    dim_y: int,
    line: int,
    gap: int,
) -> bool {
    forall|a: int, b: int|
        0 <= a <= b < lane_len(axis, dim_x, dim_y) && (b - a) % gap == 0 ==> key_of(
            #[trigger] g[lane_slot(axis, dim_x, line, a)],
            axis,
        ) <= key_of(#[trigger] g[lane_slot(axis, dim_x, line, b)], axis)
}

/// Positions of one residue class stay in it when one end moves by the gap.
proof fn lemma_class_shift(a: int, b: int, gap: int)
    requires
        gap >= 1,
        (b - a) % gap == 0,
    ensures
        ((b - gap) - a) % gap == 0,
        ((b + gap) - a) % gap == 0,
        (b - (a + gap)) % gap == 0,
        (b - (a - gap)) % gap == 0,
{
    vstd::arithmetic::div_mod::lemma_mod_multiples_vanish(-1, b - a, gap);
    vstd::arithmetic::div_mod::lemma_mod_multiples_vanish(1, b - a, gap);
}

/// Distinct positions of one residue class are at least a gap apart.
proof fn lemma_gap_step(lo: int, hi: int, gap: int)
    requires
        gap >= 1,
        (hi - lo) % gap == 0,
        lo < hi,
    ensures
        lo + gap <= hi,
{
    if hi - lo < gap {
        vstd::arithmetic::div_mod::lemma_small_mod((hi - lo) as nat, gap as nat);
    }
}

/// At gap one every pair of lane positions is in the same residue class, so
/// a gap-one ordered lane is sorted outright.
proof fn lemma_gap_one_sorted(g: Seq<Boid>, axis: SortAxis, dim_x: int, dim_y: int, line: int)
    requires
        lane_gap_ordered(g, axis, dim_x, dim_y, line, 1),
    ensures
        lane_sorted(g, axis, dim_x, dim_y, line),
{
    assert forall|k1: int, k2: int| 0 <= k1 <= k2 < lane_len(axis, dim_x, dim_y) implies key_of(
        #[trigger] g[lane_slot(axis, dim_x, line, k1)],
        axis,
    ) <= key_of(#[trigger] g[lane_slot(axis, dim_x, line, k2)], axis) by {
        assert((k2 - k1) % 1 == 0) by (nonlinear_arith);
    }
}

/// Which lane a flat grid slot belongs to.
pub open spec fn slot_lane(axis: SortAxis, dim_x: int, i: int) -> int {
    match axis {
        SortAxis::ByX => i / dim_x,
        SortAxis::ByY => i % dim_x,
    }
}

/// A flat grid slot's offset within its lane.
pub open spec fn slot_pos(axis: SortAxis, dim_x: int, i: int) -> int {
    match axis {
        SortAxis::ByX => i % dim_x,
        SortAxis::ByY => i / dim_x,
    }
}

/// Every grid slot decomposes into a lane and an offset that map back to it.
proof fn lemma_slot_decomp(axis: SortAxis, dim_x: int, dim_y: int, i: int)
    requires
        dim_x >= 0,
        dim_y >= 0,
        0 <= i < dim_x * dim_y,
    ensures
        0 <= slot_lane(axis, dim_x, i) < lane_count(axis, dim_x, dim_y),
        0 <= slot_pos(axis, dim_x, i) < lane_len(axis, dim_x, dim_y),
        lane_slot(axis, dim_x, slot_lane(axis, dim_x, i), slot_pos(axis, dim_x, i)) == i,
{
    assert(dim_x >= 1 && dim_y >= 1) by (nonlinear_arith)
        requires
            dim_x >= 0,
            dim_y >= 0,
            0 <= i < dim_x * dim_y,
    ;
    vstd::arithmetic::div_mod::lemma_fundamental_div_mod(i, dim_x);
    vstd::arithmetic::div_mod::lemma_mod_bound(i, dim_x);
    let q = i / dim_x;
    let r = i % dim_x;
    assert(q >= 0) by (nonlinear_arith)
        requires
            dim_x * q + r == i,
            0 <= r < dim_x,
            i >= 0,
            dim_x >= 1,
    ;
    assert(q < dim_y) by (nonlinear_arith)
        requires
            dim_x * q + r == i,
            0 <= r < dim_x,
            i < dim_x * dim_y,
            dim_x >= 1,
    ;
    match axis {
        SortAxis::ByX => {
            assert(q * dim_x + r == i) by (nonlinear_arith)
                requires
                    dim_x * q + r == i,
            ;
        },
        SortAxis::ByY => {
            assert(r + q * dim_x == i) by (nonlinear_arith)
                requires
                    dim_x * q + r == i,
            ;
        },
    }
}

/// The decomposition inverts the slot function.
proof fn lemma_slot_inverse(axis: SortAxis, dim_x: int, dim_y: int, line: int, k: int)
    requires
        0 <= line < lane_count(axis, dim_x, dim_y),
        0 <= k < lane_len(axis, dim_x, dim_y),
    ensures
        slot_lane(axis, dim_x, lane_slot(axis, dim_x, line, k)) == line,
        slot_pos(axis, dim_x, lane_slot(axis, dim_x, line, k)) == k,
{
    match axis {
        SortAxis::ByX => {
            vstd::arithmetic::div_mod::lemma_fundamental_div_mod_converse(
                line * dim_x + k,
                dim_x,
                line,
                k,
            );
        },
        SortAxis::ByY => {
            vstd::arithmetic::div_mod::lemma_fundamental_div_mod_converse(
                line + k * dim_x,
                dim_x,
                k,
                line,
            );
        },
    }
}

/// One element of the insertion pass bubbling down a lane: swap at stride
/// `gap` while the lower neighbour's key is larger, as the pass's inner loop
/// does.
pub open spec fn sp_bubble(lane: Seq<Boid>, axis: SortAxis, gap: int, j: int) -> Seq<Boid>
    decreases (if j >= 0 { j } else { 0 }),
{
    if gap < 1 || j < gap || j >= lane.len() {
        lane
    } else if key_of(lane[j - gap], axis) <= key_of(lane[j], axis) {
        lane
    } else {
        sp_bubble(lane.update(j - gap, lane[j]).update(j, lane[j - gap]), axis, gap, j - gap)
    }
}

/// The insertion pass over one lane, elements `gap` up to (excluding)
/// `upto` inserted in order.
pub open spec fn sp_lane_pass(lane: Seq<Boid>, axis: SortAxis, gap: int, upto: int) -> Seq<Boid>
    decreases (if upto >= 0 { upto } else { 0 }),
{
    if gap < 1 || upto <= gap {
        lane
    } else {
        sp_bubble(sp_lane_pass(lane, axis, gap, upto - 1), axis, gap, upto - 1)
    }
}

/// The whole pass, lane by lane: what [`shell_pass`] computes, as a function
/// of the old grid — the reordering is deterministic in the agents'
/// positions and the grid shape.
pub open spec fn sp_shell_pass(
    g: Seq<Boid>,
    axis: SortAxis,
    dim_x: int,
    dim_y: int,
    gap: int,
) -> Seq<Boid> {
    Seq::new(
        g.len(),
        |i: int|
            sp_lane_pass(
                lane_view(g, axis, dim_x, dim_y, slot_lane(axis, dim_x, i)),
                axis,
                gap,
                lane_len(axis, dim_x, dim_y),
            )[slot_pos(axis, dim_x, i)],
    )
}

/// One gap of the two-axis reordering: the row pass where the gap fits the
/// width, then the column pass where it fits the height.
pub open spec fn sp_sort_step(g: Seq<Boid>, dim_x: int, dim_y: int, gap: int) -> Seq<Boid> {
    let g1 = if gap < dim_x {
        sp_shell_pass(g, SortAxis::ByX, dim_x, dim_y, gap)
    } else {
        g
    };
    if gap < dim_y {
        sp_shell_pass(g1, SortAxis::ByY, dim_x, dim_y, gap)
    } else {
        g1
    }
}

/// The reordering after the first `n` gaps of the shell sequence: the whole
/// spatial reordering is this function of the agent store and the grid
/// shape, so reordering is deterministic in the agents' positions.
pub open spec fn sp_sort_upto(g: Seq<Boid>, dim_x: int, dim_y: int, n: int) -> Seq<Boid>
    decreases (if n >= 0 { n } else { 0 }),
{
    if n <= 0 {
        g
    } else {
        sp_sort_step(sp_sort_upto(g, dim_x, dim_y, n - 1), dim_x, dim_y, sp_shell_gap(n - 1))
    }
}

/// A grid on which the reordering is a no-op: every row already ascends by
/// x and every column by y.
pub open spec fn grid_presorted(g: Seq<Boid>, dim_x: int, dim_y: int) -> bool {
    &&& lanes_sorted(g, SortAxis::ByX, dim_x, dim_y)
    &&& lanes_sorted(g, SortAxis::ByY, dim_x, dim_y)
}

/// The decreasing gap sequence of the shell sort, ending at one.
pub open spec fn sp_shell_gap(i: int) -> int {
    if i == 0 {
        1750
    } else if i == 1 {
        701
    } else if i == 2 {
        301
    } else if i == 3 {
        132
    } else if i == 4 {
        57
    } else if i == 5 {
        23
    } else if i == 6 {
        10
    } else if i == 7 {
        4
    } else {
        1
    }
}

/// Read one gap of the shell-sort sequence.
pub fn shell_gap(i: usize) -> (g: usize)
    requires
        i < 9,
    ensures
        g as int == sp_shell_gap(i as int),
        g >= 1,
{
    if i == 0 {
        1750
    } else if i == 1 {
        701
    } else if i == 2 {
        301
    } else if i == 3 {
        132
    } else if i == 4 {
        57
    } else if i == 5 {
        23
    } else if i == 6 {
        10
    } else if i == 7 {
        4
    } else {
        1
    }
}

/// The exec computation of a lane slot, bounds included.
pub(crate) fn slot_at(axis: SortAxis, dim_x: usize, dim_y: usize, line: usize, k: usize) -> (r:
    usize)
    requires
        dim_x * dim_y <= 0x40000000,
        (line as int) < lane_count(axis, dim_x as int, dim_y as int),
        (k as int) < lane_len(axis, dim_x as int, dim_y as int),
    ensures
        r as int == lane_slot(axis, dim_x as int, line as int, k as int),
        (r as int) < dim_x * dim_y,
{
    proof {
        lemma_slot_range(axis, dim_x as int, dim_y as int, line as int, k as int);
    }
    match axis {
        SortAxis::ByX => line * dim_x + k,
        SortAxis::ByY => line + k * dim_x,
    }
}

/// The coordinate an axis compares, read from the grid.
fn key_at(g: &Vec<Boid>, i: usize, axis: SortAxis) -> (r: i64)
    requires
        (i as int) < g@.len(),
    ensures
        r as int == key_of(g@[i as int], axis),
{
    match axis {
        SortAxis::ByX => g[i].position.x,
        SortAxis::ByY => g[i].position.y,
    }
}

/// Swap two grid slots in place.
fn swap_at(g: &mut Vec<Boid>, i1: usize, i2: usize)
    requires
        (i1 as int) < old(g)@.len(),
        (i2 as int) < old(g)@.len(),
    ensures
        final(g)@ == old(g)@.update(i1 as int, old(g)@[i2 as int]).update(
            i2 as int,
            old(g)@[i1 as int],
        ),
        final(g)@.to_multiset() == old(g)@.to_multiset(),
        final(g)@.len() == old(g)@.len(),
{
    let ghost s0 = g@;
    let a: Boid = g[i1];
    let b: Boid = g[i2];
    g.set(i1, b);
    g.set(i2, a);
    proof {
        lemma_swap_multiset(s0, i1 as int, i2 as int);
    }
}

/// One gap-strided insertion pass over every lane of one axis.
///
/// The pass permutes each lane within itself (each lane's multiset of agents
/// is unchanged, hence the whole grid's too). Afterwards every residue class
/// of every lane ascends — positions a multiple of `gap` apart carry
/// nondecreasing keys — which at gap one is full lane sortedness. On a grid
/// whose lanes are already sorted it changes nothing, whatever the gap.
pub fn shell_pass(g: &mut Vec<Boid>, dim_x: usize, dim_y: usize, gap: usize, axis: SortAxis)
    requires
        old(g)@.len() == dim_x * dim_y,
        dim_x * dim_y <= 0x40000000,
        gap >= 1,
    ensures
        final(g)@.len() == old(g)@.len(),
        final(g)@.to_multiset() == old(g)@.to_multiset(),
        forall|l: int|
            0 <= l < lane_count(axis, dim_x as int, dim_y as int) ==> (#[trigger] lane_view(
                final(g)@,
                axis,
                dim_x as int,
                dim_y as int,
                l,
            )).to_multiset() == lane_view(old(g)@, axis, dim_x as int, dim_y as int, l).to_multiset(),
        forall|l: int|
            0 <= l < lane_count(axis, dim_x as int, dim_y as int) ==> #[trigger] lane_gap_ordered(
                final(g)@,
                axis,
                dim_x as int,
                dim_y as int,
                l,
                gap as int,
            ),
        gap == 1 ==> lanes_sorted(final(g)@, axis, dim_x as int, dim_y as int),
        lanes_sorted(old(g)@, axis, dim_x as int, dim_y as int) ==> final(g)@ == old(g)@,
        final(g)@ == sp_shell_pass(old(g)@, axis, dim_x as int, dim_y as int, gap as int),
{
    let ghost g0 = g@;
    let ghost target = sp_shell_pass(g0, axis, dim_x as int, dim_y as int, gap as int);
    let ghost dx = dim_x as int;
    let ghost dy = dim_y as int;
    let ghost gi = gap as int;
    let nlines: usize = match axis {
        SortAxis::ByX => dim_y,
        SortAxis::ByY => dim_x,
    };
    let llen: usize = match axis {
        SortAxis::ByX => dim_x,
        SortAxis::ByY => dim_y,
    };
    let mut line: usize = 0;
    while line < nlines
        invariant
            g@.len() == g0.len(),
            g0.len() == dx * dy,
            dx == dim_x as int && dy == dim_y as int,
            gi == gap as int,
            dx * dy <= 0x40000000,
            gap >= 1,
            nlines as int == lane_count(axis, dx, dy),
            llen as int == lane_len(axis, dx, dy),
            line <= nlines,
            g@.to_multiset() == g0.to_multiset(),
            forall|l: int|
                0 <= l < lane_count(axis, dx, dy) ==> (#[trigger] lane_view(
                    g@,
                    axis,
                    dx,
                    dy,
                    l,
                )).to_multiset() == lane_view(g0, axis, dx, dy, l).to_multiset(),
            lanes_sorted(g0, axis, dx, dy) ==> g@ == g0,
            forall|l: int|
                0 <= l < line ==> #[trigger] lane_gap_ordered(g@, axis, dx, dy, l, gi),
            target == sp_shell_pass(g0, axis, dx, dy, gi),
            forall|i: int|
                0 <= i < g0.len() ==> #[trigger] g@[i] == (if slot_lane(axis, dx, i) < line as int {
                    target[i]
                } else {
                    g0[i]
                }),
        decreases nlines - line,
    {
        proof {
            assert forall|a: int, b: int|
                0 <= a <= b < gap as int && b < llen as int && (b - a) % gi == 0 implies key_of(
                #[trigger] g@[lane_slot(axis, dx, line as int, a)],
                axis,
            ) <= key_of(#[trigger] g@[lane_slot(axis, dx, line as int, b)], axis) by {
                if a < b {
                    lemma_gap_step(a, b, gi);
                }
            }
            assert(lane_view(g@, axis, dx, dy, line as int) =~= lane_view(
                g0,
                axis,
                dx,
                dy,
                line as int,
            )) by {
                assert forall|t: int| 0 <= t < lane_len(axis, dx, dy) implies lane_view(
                    g@,
                    axis,
                    dx,
                    dy,
                    line as int,
                )[t] == lane_view(g0, axis, dx, dy, line as int)[t] by {
                    lemma_slot_range(axis, dx, dy, line as int, t);
                    lemma_slot_inverse(axis, dx, dy, line as int, t);
                }
            }
            assert(sp_lane_pass(lane_view(g0, axis, dx, dy, line as int), axis, gi, gap as int)
                == lane_view(g0, axis, dx, dy, line as int));
        }
        let mut k: usize = gap;
        while k < llen
            invariant
                g@.len() == g0.len(),
                g0.len() == dx * dy,
                dx == dim_x as int && dy == dim_y as int,
                gi == gap as int,
                dx * dy <= 0x40000000,
                gap >= 1,
                nlines as int == lane_count(axis, dx, dy),
                llen as int == lane_len(axis, dx, dy),
                line < nlines,
                gap <= k,
                k <= llen || k == gap,
                g@.to_multiset() == g0.to_multiset(),
                forall|l: int|
                    0 <= l < lane_count(axis, dx, dy) ==> (#[trigger] lane_view(
                        g@,
                        axis,
                        dx,
                        dy,
                        l,
                    )).to_multiset() == lane_view(g0, axis, dx, dy, l).to_multiset(),
                lanes_sorted(g0, axis, dx, dy) ==> g@ == g0,
                forall|l: int|
                    0 <= l < line ==> #[trigger] lane_gap_ordered(g@, axis, dx, dy, l, gi),
                forall|a: int, b: int|
                    0 <= a <= b < k && b < llen as int && (b - a) % gi == 0 ==> key_of(
                        #[trigger] g@[lane_slot(axis, dx, line as int, a)],
                        axis,
                    ) <= key_of(#[trigger] g@[lane_slot(axis, dx, line as int, b)], axis),
                target == sp_shell_pass(g0, axis, dx, dy, gi),
                forall|i: int|
                    0 <= i < g0.len() && slot_lane(axis, dx, i) != line as int
                        ==> #[trigger] g@[i] == (if slot_lane(axis, dx, i) < line as int {
                        target[i]
                    } else {
                        g0[i]
                    }),
                lane_view(g@, axis, dx, dy, line as int) == sp_lane_pass(
                    lane_view(g0, axis, dx, dy, line as int),
                    axis,
                    gi,
                    k as int,
                ),
            decreases llen - k,
        {
            let mut j: usize = k;
            loop
                invariant
                    g@.len() == g0.len(),
                    g0.len() == dx * dy,
                    dx == dim_x as int && dy == dim_y as int,
                    gi == gap as int,
                    dx * dy <= 0x40000000,
                    gap >= 1,
                    nlines as int == lane_count(axis, dx, dy),
                    llen as int == lane_len(axis, dx, dy),
                    line < nlines,
                    gap <= k < llen,
                    j <= k,
                    g@.to_multiset() == g0.to_multiset(),
                    forall|l: int|
                        0 <= l < lane_count(axis, dx, dy) ==> (#[trigger] lane_view(
                            g@,
                            axis,
                            dx,
                            dy,
                            l,
                        )).to_multiset() == lane_view(g0, axis, dx, dy, l).to_multiset(),
                    lanes_sorted(g0, axis, dx, dy) ==> g@ == g0,
                    forall|l: int|
                        0 <= l < line ==> #[trigger] lane_gap_ordered(g@, axis, dx, dy, l, gi),
                    forall|a: int, b: int|
                        0 <= a <= b <= k as int && b != j as int && (b - a) % gi == 0 ==> key_of(
                            #[trigger] g@[lane_slot(axis, dx, line as int, a)],
                            axis,
                        ) <= key_of(#[trigger] g@[lane_slot(axis, dx, line as int, b)], axis),
                    target == sp_shell_pass(g0, axis, dx, dy, gi),
                    forall|i: int|
                        0 <= i < g0.len() && slot_lane(axis, dx, i) != line as int
                            ==> #[trigger] g@[i] == (if slot_lane(axis, dx, i) < line as int {
                            target[i]
                        } else {
                            g0[i]
                        }),
                    sp_bubble(lane_view(g@, axis, dx, dy, line as int), axis, gi, j as int)
                        == sp_bubble(
                        sp_lane_pass(lane_view(g0, axis, dx, dy, line as int), axis, gi, k as int),
                        axis,
                        gi,
                        k as int,
                    ),
                ensures
                    g@.len() == g0.len(),
                    j <= k,
                    g@.to_multiset() == g0.to_multiset(),
                    forall|l: int|
                        0 <= l < lane_count(axis, dx, dy) ==> (#[trigger] lane_view(
                            g@,
                            axis,
                            dx,
                            dy,
                            l,
                        )).to_multiset() == lane_view(g0, axis, dx, dy, l).to_multiset(),
                    lanes_sorted(g0, axis, dx, dy) ==> g@ == g0,
                    forall|l: int|
                        0 <= l < line ==> #[trigger] lane_gap_ordered(g@, axis, dx, dy, l, gi),
                    forall|a: int, b: int|
                        0 <= a <= b <= k as int && b != j as int && (b - a) % gi == 0 ==> key_of(
                            #[trigger] g@[lane_slot(axis, dx, line as int, a)],
                            axis,
                        ) <= key_of(#[trigger] g@[lane_slot(axis, dx, line as int, b)], axis),
                    forall|i: int|
                        0 <= i < g0.len() && slot_lane(axis, dx, i) != line as int
                            ==> #[trigger] g@[i] == (if slot_lane(axis, dx, i) < line as int {
                            target[i]
                        } else {
                            g0[i]
                        }),
                    sp_bubble(lane_view(g@, axis, dx, dy, line as int), axis, gi, j as int)
                        == sp_bubble(
                        sp_lane_pass(lane_view(g0, axis, dx, dy, line as int), axis, gi, k as int),
                        axis,
                        gi,
                        k as int,
                    ),
                    j < gap || key_of(
                        g@[lane_slot(axis, dx, line as int, j as int - gap as int)],
                        axis,
                    ) <= key_of(g@[lane_slot(axis, dx, line as int, j as int)], axis),
                decreases j,
            {
                if j < gap {
                    break ;
                }
                let i1: usize = slot_at(axis, dim_x, dim_y, line, j - gap);
                let i2: usize = slot_at(axis, dim_x, dim_y, line, j);
                proof {
                    lemma_slot_mono(axis, dx, dy, line as int, j as int - gap as int, j as int);
                }
                let k1: i64 = key_at(g, i1, axis);
                let k2: i64 = key_at(g, i2, axis);
                if k1 <= k2 {
                    break ;
                }
                proof {
                    if lanes_sorted(g0, axis, dx, dy) {
                        assert(lane_sorted(g0, axis, dx, dy, line as int));
                        assert(false);
                    }
                }
                let ghost gpre = g@;
                swap_at(g, i1, i2);
                proof {
                    let jj = j as int;
                    let li = line as int;
                    let lane_pre = lane_view(gpre, axis, dx, dy, li);
                    let lane_new = lane_view(g@, axis, dx, dy, li);
                    lemma_slot_facts_upto(axis, dx, dy, li, llen - 1);
                    assert(lane_new =~= lane_pre.update(jj - gi, lane_pre[jj]).update(
                        jj,
                        lane_pre[jj - gi],
                    )) by {
                        assert forall|t: int| 0 <= t < lane_len(axis, dx, dy) implies lane_new[t]
                            == lane_pre.update(jj - gi, lane_pre[jj]).update(
                            jj,
                            lane_pre[jj - gi],
                        )[t] by {
                            lemma_slot_range(axis, dx, dy, li, t);
                        }
                    }
                    assert(sp_bubble(lane_new, axis, gi, jj - gi) == sp_bubble(
                        sp_lane_pass(lane_view(g0, axis, dx, dy, li), axis, gi, k as int),
                        axis,
                        gi,
                        k as int,
                    )) by {
                        assert(lane_pre[jj - gi] == gpre[lane_slot(axis, dx, li, jj - gi)]);
                        assert(lane_pre[jj] == gpre[lane_slot(axis, dx, li, jj)]);
                        assert(key_of(lane_pre[jj - gi], axis) > key_of(lane_pre[jj], axis));
                        assert(sp_bubble(lane_pre, axis, gi, jj) == sp_bubble(
                            lane_new,
                            axis,
                            gi,
                            jj - gi,
                        ));
                    }
                    assert forall|i: int|
                        0 <= i < g0.len() && slot_lane(axis, dx, i) != li implies #[trigger] g@[i]
                        == (if slot_lane(axis, dx, i) < li {
                        target[i]
                    } else {
                        g0[i]
                    }) by {
                        lemma_slot_inverse(axis, dx, dy, li, jj - gi);
                        lemma_slot_inverse(axis, dx, dy, li, jj);
                        assert(g@[i] == gpre[i]);
                    }
                    assert forall|l: int| 0 <= l < line implies #[trigger] lane_gap_ordered(
                        g@,
                        axis,
                        dx,
                        dy,
                        l,
                        gi,
                    ) by {
                        assert(lane_gap_ordered(gpre, axis, dx, dy, l, gi));
                        assert forall|a: int, b: int|
                            0 <= a <= b < lane_len(axis, dx, dy) && (b - a) % gi == 0 implies
                            key_of(#[trigger] g@[lane_slot(axis, dx, l, a)], axis) <= key_of(
                            #[trigger] g@[lane_slot(axis, dx, l, b)],
                            axis,
                        ) by {
                            lemma_lane_distinct(axis, dx, dy, l, a, li, jj - gi);
                            lemma_lane_distinct(axis, dx, dy, l, a, li, jj);
                            lemma_lane_distinct(axis, dx, dy, l, b, li, jj - gi);
                            lemma_lane_distinct(axis, dx, dy, l, b, li, jj);
                            lemma_slot_range(axis, dx, dy, l, a);
                            lemma_slot_range(axis, dx, dy, l, b);
                            assert(g@[lane_slot(axis, dx, l, a)] == gpre[lane_slot(axis, dx, l, a)]);
                            assert(g@[lane_slot(axis, dx, l, b)] == gpre[lane_slot(axis, dx, l, b)]);
                            assert(key_of(gpre[lane_slot(axis, dx, l, a)], axis) <= key_of(
                                gpre[lane_slot(axis, dx, l, b)],
                                axis,
                            ));
                        }
                    }
                    assert forall|l: int| 0 <= l < lane_count(axis, dx, dy) implies (
                    #[trigger] lane_view(g@, axis, dx, dy, l)).to_multiset() == lane_view(
                        g0,
                        axis,
                        dx,
                        dy,
                        l,
                    ).to_multiset() by {
                        if l == li {
                            lemma_swap_multiset(lane_pre, jj - gi, jj);
                        } else {
                            assert(lane_view(g@, axis, dx, dy, l) =~= lane_view(
                                gpre,
                                axis,
                                dx,
                                dy,
                                l,
                            )) by {
                                assert forall|t: int|
                                    0 <= t < lane_len(axis, dx, dy) implies lane_view(
                                    g@,
                                    axis,
                                    dx,
                                    dy,
                                    l,
                                )[t] == lane_view(gpre, axis, dx, dy, l)[t] by {
                                    lemma_lane_distinct(axis, dx, dy, l, t, li, jj - gi);
                                    lemma_lane_distinct(axis, dx, dy, l, t, li, jj);
                                    lemma_slot_range(axis, dx, dy, l, t);
                                }
                            }
                        }
                    }
                    assert forall|a: int, b: int|
                        0 <= a <= b <= k as int && b != jj - gi && (b - a) % gi == 0 implies
                        key_of(#[trigger] g@[lane_slot(axis, dx, li, a)], axis) <= key_of(
                        #[trigger] g@[lane_slot(axis, dx, li, b)],
                        axis,
                    ) by {
                        lemma_slot_facts_upto(axis, dx, dy, li, k as int);
                        if b == jj {
                            if a != jj {
                                lemma_gap_step(a, b, gi);
                                lemma_class_shift(a, b, gi);
                                if a == jj - gi {
                                    assert(g@[lane_slot(axis, dx, li, a)] == gpre[lane_slot(
                                        axis,
                                        dx,
                                        li,
                                        jj,
                                    )]);
                                    assert(g@[lane_slot(axis, dx, li, b)] == gpre[lane_slot(
                                        axis,
                                        dx,
                                        li,
                                        jj - gi,
                                    )]);
                                } else {
                                    assert(key_of(gpre[lane_slot(axis, dx, li, a)], axis)
                                        <= key_of(gpre[lane_slot(axis, dx, li, jj - gi)], axis));
                                    assert(g@[lane_slot(axis, dx, li, a)] == gpre[lane_slot(
                                        axis,
                                        dx,
                                        li,
                                        a,
                                    )]);
                                    assert(g@[lane_slot(axis, dx, li, b)] == gpre[lane_slot(
                                        axis,
                                        dx,
                                        li,
                                        jj - gi,
                                    )]);
                                }
                            }
                        } else if b > jj {
                            lemma_class_shift(a, b, gi);
                            assert(g@[lane_slot(axis, dx, li, b)] == gpre[lane_slot(
                                axis,
                                dx,
                                li,
                                b,
                            )]);
                            if a == jj - gi {
                                assert((b - (a + gi)) % gi == 0);
                                assert(key_of(gpre[lane_slot(axis, dx, li, jj)], axis) <= key_of(
                                    gpre[lane_slot(axis, dx, li, b)],
                                    axis,
                                ));
                                assert(g@[lane_slot(axis, dx, li, a)] == gpre[lane_slot(
                                    axis,
                                    dx,
                                    li,
                                    jj,
                                )]);
                            } else if a == jj {
                                assert((b - (a - gi)) % gi == 0);
                                assert(key_of(gpre[lane_slot(axis, dx, li, jj - gi)], axis)
                                    <= key_of(gpre[lane_slot(axis, dx, li, b)], axis));
                                assert(g@[lane_slot(axis, dx, li, a)] == gpre[lane_slot(
                                    axis,
                                    dx,
                                    li,
                                    jj - gi,
                                )]);
                            } else {
                                assert(g@[lane_slot(axis, dx, li, a)] == gpre[lane_slot(
                                    axis,
                                    dx,
                                    li,
                                    a,
                                )]);
                                assert(key_of(gpre[lane_slot(axis, dx, li, a)], axis) <= key_of(
                                    gpre[lane_slot(axis, dx, li, b)],
                                    axis,
                                ));
                            }
                        } else {
                            if a == jj - gi {
                                lemma_gap_step(a, b, gi);
                                assert(false);
                            } else {
                                assert(g@[lane_slot(axis, dx, li, a)] == gpre[lane_slot(
                                    axis,
                                    dx,
                                    li,
                                    a,
                                )]);
                                assert(g@[lane_slot(axis, dx, li, b)] == gpre[lane_slot(
                                    axis,
                                    dx,
                                    li,
                                    b,
                                )]);
                                assert(key_of(gpre[lane_slot(axis, dx, li, a)], axis) <= key_of(
                                    gpre[lane_slot(axis, dx, li, b)],
                                    axis,
                                ));
                            }
                        }
                    }
                }
                j = j - gap;
            }
            proof {
                let li = line as int;
                assert forall|a: int, b: int|
                    0 <= a <= b < (k + 1) as int && b < llen as int && (b - a) % gi == 0 implies
                    key_of(#[trigger] g@[lane_slot(axis, dx, li, a)], axis) <= key_of(
                    #[trigger] g@[lane_slot(axis, dx, li, b)],
                    axis,
                ) by {
                    if b == j as int && a < b {
                        lemma_gap_step(a, b, gi);
                        lemma_class_shift(a, b, gi);
                        if (j as int) < gi {
                            assert(false);
                        }
                        assert(key_of(g@[lane_slot(axis, dx, li, a)], axis) <= key_of(
                            g@[lane_slot(axis, dx, li, j as int - gi)],
                            axis,
                        ));
                    }
                }
                let lv = lane_view(g@, axis, dx, dy, li);
                assert(sp_bubble(lv, axis, gi, j as int) == lv) by {
                    if j >= gap {
                        assert(lv[j as int - gi] == g@[lane_slot(axis, dx, li, j as int - gi)]);
                        assert(lv[j as int] == g@[lane_slot(axis, dx, li, j as int)]);
                    }
                }
                assert(lv == sp_lane_pass(
                    lane_view(g0, axis, dx, dy, li),
                    axis,
                    gi,
                    (k + 1) as int,
                ));
            }
            k = k + 1;
        }
        proof {
            let li = line as int;
            assert(lane_gap_ordered(g@, axis, dx, dy, li, gi)) by {
                assert forall|a: int, b: int|
                    0 <= a <= b < lane_len(axis, dx, dy) && (b - a) % gi == 0 implies key_of(
                    #[trigger] g@[lane_slot(axis, dx, li, a)],
                    axis,
                ) <= key_of(#[trigger] g@[lane_slot(axis, dx, li, b)], axis) by {
                    assert(b < k as int && b < llen as int);
                }
            }
            assert(lane_view(g@, axis, dx, dy, li) == sp_lane_pass(
                lane_view(g0, axis, dx, dy, li),
                axis,
                gi,
                llen as int,
            )) by {
                if k as int != llen as int {
                    assert(sp_lane_pass(lane_view(g0, axis, dx, dy, li), axis, gi, gap as int)
                        == lane_view(g0, axis, dx, dy, li));
                    assert(sp_lane_pass(lane_view(g0, axis, dx, dy, li), axis, gi, llen as int)
                        == lane_view(g0, axis, dx, dy, li));
                }
            }
            assert forall|i: int|
                0 <= i < g0.len() implies #[trigger] g@[i] == (if slot_lane(axis, dx, i) < li + 1 {
                target[i]
            } else {
                g0[i]
            }) by {
                lemma_slot_decomp(axis, dx, dy, i);
                if slot_lane(axis, dx, i) == li {
                    assert(g@[i] == lane_view(g@, axis, dx, dy, li)[slot_pos(axis, dx, i)]);
                }
            }
        }
        line = line + 1;
    }
    proof {
        if gap == 1 {
            assert forall|l: int| 0 <= l < lane_count(axis, dx, dy) implies #[trigger] lane_sorted(
                g@,
                axis,
                dx,
                dy,
                l,
            ) by {
                lemma_gap_one_sorted(g@, axis, dx, dy, l);
            }
        }
        assert(g@ =~= target) by {
            assert forall|i: int| 0 <= i < g0.len() implies g@[i] == target[i] by {
                lemma_slot_decomp(axis, dx, dy, i);
            }
        }
        if lanes_sorted(g0, axis, dx, dy) {
            assert(g@ =~= g0);
        }
    }
}

/// All slots up to `k` of one lane are in range and strictly increasing —
/// packaged for the insertion-step proof.
proof fn lemma_slot_facts_upto(axis: SortAxis, dim_x: int, dim_y: int, line: int, k: int)
    requires
        0 <= line < lane_count(axis, dim_x, dim_y),
        0 <= k < lane_len(axis, dim_x, dim_y),
    ensures
        forall|a: int|
            0 <= a <= k ==> 0 <= #[trigger] lane_slot(axis, dim_x, line, a) < dim_x * dim_y,
        forall|a: int, b: int|
            0 <= a < b <= k ==> #[trigger] lane_slot(axis, dim_x, line, a) != #[trigger] lane_slot(
                axis,
                dim_x,
                line,
                b,
            ),
{
    assert forall|a: int| 0 <= a <= k implies 0 <= #[trigger] lane_slot(axis, dim_x, line, a)
        < dim_x * dim_y by {
        lemma_slot_range(axis, dim_x, dim_y, line, a);
    }
    assert forall|a: int, b: int| 0 <= a < b <= k implies #[trigger] lane_slot(
        axis,
        dim_x,
        line,
        a,
    ) != #[trigger] lane_slot(axis, dim_x, line, b) by {
        lemma_slot_mono(axis, dim_x, dim_y, line, a, b);
    }
}

} // verus!
