//! Direction-biased neighbour candidate selection.
//!
//! An agent's velocity is classified into one of eight octants (the signs of
//! the two components and which component dominates); each octant maps to a
//! fixed list of ten grid-relative offsets concentrated in the half-plane the
//! agent is moving toward. Offsets that fall outside the grid are dropped,
//! not wrapped.

use vstd::prelude::*;

use crate::fixed::{abs64, abs_i};
use crate::sort::{lane_slot, lemma_slot_range, SortAxis};
use crate::system::Boid;

verus! {

/// The offset table: for each octant (is `vx` positive, is `vy` positive,
/// does `|vx|` exceed `|vy|`), the ten candidate offsets, nearest first.
pub open spec fn sp_offsets(xpos: bool, ypos: bool, xmajor: bool) -> Seq<(i64, i64)> {
    match (xpos, ypos, xmajor) {
        (true, true, true) => seq![
            (1i64, -1i64),
            (1i64, 0i64),
            (1i64, 1i64),
            (2i64, 0i64),
            (2i64, 1i64),
            (0i64, 1i64),
            (2i64, 2i64),
            (0i64, -1i64),
            (2i64, -1i64),
            (1i64, 2i64),
        ],
        (true, true, false) => seq![
            (1i64, 1i64),
            (0i64, 1i64),
            (-1i64, 1i64),
            (0i64, 2i64),
            (1i64, 2i64),
            (1i64, 0i64),
            (2i64, 2i64),
            (-1i64, 0i64),
            (2i64, 1i64),
            (-1i64, 2i64),
        ],
        (false, true, false) => seq![
            (1i64, 1i64),
            (0i64, 1i64),
            (-1i64, 1i64),
            (0i64, 2i64),
            (-1i64, 2i64),
            (-1i64, 0i64),
            (-2i64, 2i64),
            (1i64, 0i64),
            (1i64, 2i64),
            (-2i64, 1i64),
        ],
        (false, true, true) => seq![
            (-1i64, 1i64),
            (-1i64, 0i64),
            (-1i64, -1i64),
            (-2i64, 0i64),
            (-2i64, 1i64),
            (0i64, 1i64),
            (-2i64, 2i64),
            (0i64, -1i64),
            (-1i64, 2i64),
            (-2i64, -1i64),
        ],
        (false, false, true) => seq![
            (-1i64, 1i64),
            (-1i64, 0i64),
            (-1i64, -1i64),
            (-2i64, 0i64),
            (-2i64, -1i64),
            (0i64, -1i64),
            (-2i64, -2i64),
            (0i64, 1i64),
            (-2i64, 1i64),
            (-1i64, -2i64),
        ],
        (false, false, false) => seq![
            (-1i64, -1i64),
            (0i64, -1i64),
            (1i64, -1i64),
            (0i64, -2i64),
            (-1i64, -2i64),
            (-1i64, 0i64),
            (-2i64, -2i64),
            (1i64, 0i64),
            (-2i64, -1i64),
            (1i64, -2i64),
        ],
        (true, false, false) => seq![
            (-1i64, -1i64),
            (0i64, -1i64),
            (1i64, -1i64),
            (0i64, -2i64),
            (1i64, -2i64),
            (1i64, 0i64),
            (2i64, -2i64),
            (-1i64, 0i64),
            (-1i64, -2i64),
            (2i64, -1i64),
        ],
        (true, false, true) => seq![
            (1i64, -1i64),
            (1i64, 0i64),
            (1i64, 1i64),
            (2i64, 0i64),
            (2i64, -1i64),
            (0i64, -1i64),
            (2i64, -2i64),
            (0i64, 1i64),
            (1i64, -2i64),
            (2i64, 1i64),
        ],
    }
}

/// The offsets a boid's velocity selects.
pub open spec fn sp_offsets_of(b: Boid) -> Seq<(i64, i64)> {
    sp_offsets(
        b.velocity.x > 0,
        b.velocity.y > 0,
        abs_i(b.velocity.x as int) > abs_i(b.velocity.y as int),
    )
}

/// The candidate list an offset sequence yields: the boids at the in-range
/// offset slots, in table order.
pub open spec fn sp_candidates(
    g: Seq<Boid>,
    dim_x: int,
    dim_y: int,
    col: int,
    row: int,
    offs: Seq<(i64, i64)>,
) -> Seq<Boid>
    decreases offs.len(),
{
    if offs.len() == 0 {
        Seq::empty()
    } else {
        let rest = sp_candidates(g, dim_x, dim_y, col, row, offs.drop_last());
        let o = offs.last();
        let nx = col + o.0 as int;
        let ny = row + o.1 as int;
        if 0 <= nx < dim_x && 0 <= ny < dim_y {
            rest.push(g[nx + ny * dim_x])
        } else {
            rest
        }
    }
}

/// The neighbourhood of the boid at `(col, row)`.
pub open spec fn sp_neighbourhood(
    g: Seq<Boid>,
    dim_x: int,
    dim_y: int,
    col: int,
    row: int,
) -> Seq<Boid> {
    sp_candidates(g, dim_x, dim_y, col, row, sp_offsets_of(g[col + row * dim_x]))
}

/// The table, as an array the candidate loop walks.
pub fn octant_offsets(vx: i64, vy: i64) -> (r: [(i64, i64); 10])
    ensures
        r@ == sp_offsets(vx > 0, vy > 0, abs_i(vx as int) > abs_i(vy as int)),
{
    let xpos: bool = vx > 0;
    let ypos: bool = vy > 0;
    let xmajor: bool = abs64(vx) > abs64(vy);
    let r: [(i64, i64); 10] = match (xpos, ypos, xmajor) {
        (true, true, true) => [
            (1, -1),
            (1, 0),
            (1, 1),
            (2, 0),
            (2, 1),
            (0, 1),
            (2, 2),
            (0, -1),
            (2, -1),
            (1, 2),
        ],
        (true, true, false) => [
            (1, 1),
            (0, 1),
            (-1, 1),
            (0, 2),
            (1, 2),
            (1, 0),
            (2, 2),
            (-1, 0),
            (2, 1),
            (-1, 2),
        ],
        (false, true, false) => [
            (1, 1),
            (0, 1),
            (-1, 1),
            (0, 2),
            (-1, 2),
            (-1, 0),
            (-2, 2),
            (1, 0),
            (1, 2),
            (-2, 1),
        ],
        (false, true, true) => [
            (-1, 1),
            (-1, 0),
            (-1, -1),
            (-2, 0),
            (-2, 1),
            (0, 1),
            (-2, 2),
            (0, -1),
            (-1, 2),
            (-2, -1),
        ],
        (false, false, true) => [
            (-1, 1),
            (-1, 0),
            (-1, -1),
            (-2, 0),
            (-2, -1),
            (0, -1),
            (-2, -2),
            (0, 1),
            (-2, 1),
            (-1, -2),
        ],
        (false, false, false) => [
            (-1, -1),
            (0, -1),
            (1, -1),
            (0, -2),
            (-1, -2),
            (-1, 0),
            (-2, -2),
            (1, 0),
            (-2, -1),
            (1, -2),
        ],
        (true, false, false) => [
            (-1, -1),
            (0, -1),
            (1, -1),
            (0, -2),
            (1, -2),
            (1, 0),
            (2, -2),
            (-1, 0),
            (-1, -2),
            (2, -1),
        ],
        (true, false, true) => [
            (1, -1),
            (1, 0),
            (1, 1),
            (2, 0),
            (2, -1),
            (0, -1),
            (2, -2),
            (0, 1),
            (1, -2),
            (2, 1),
        ],
    };
    proof {
        assert(r@ =~= sp_offsets(xpos, ypos, xmajor));
    }
    r
}

/// Collect the candidate neighbours of the boid at `(col, row)`: the boids
/// at the in-range slots its velocity's offset table selects, nearest first.
pub fn find_neighbours(
    g: &Vec<Boid>,
    dim_x: usize,
    dim_y: usize,
    col: usize,
    row: usize,
    boid: &Boid,
) -> (ns: Vec<Boid>)
    requires
        g@.len() == dim_x * dim_y,
        dim_x * dim_y <= 0x40000000,
        col < dim_x,
        row < dim_y,
        *boid == g@[col + row * dim_x],
    ensures
        ns@ == sp_neighbourhood(g@, dim_x as int, dim_y as int, col as int, row as int),
        ns@.len() <= 10,
        forall|i: int| 0 <= i < ns@.len() ==> g@.contains(#[trigger] ns@[i]),
{
    proof {
        lemma_slot_range(SortAxis::ByY, dim_x as int, dim_y as int, col as int, row as int);
        assert(lane_slot(SortAxis::ByY, dim_x as int, col as int, row as int) == col as int + row
            as int * dim_x as int);
    }
    let offs: [(i64, i64); 10] = octant_offsets(boid.velocity.x, boid.velocity.y);
    let ghost offseq = offs@;
    let mut ns: Vec<Boid> = Vec::new();
    let mut i: usize = 0;
    while i < 10
        invariant
            g@.len() == dim_x * dim_y,
            dim_x * dim_y <= 0x40000000,
            col < dim_x,
            row < dim_y,
            i <= 10,
            offseq == offs@,
            offseq.len() == 10,
            ns@ == sp_candidates(
                g@,
                dim_x as int,
                dim_y as int,
                col as int,
                row as int,
                offseq.take(i as int),
            ),
            ns@.len() <= i,
            forall|t: int| 0 <= t < ns@.len() ==> g@.contains(#[trigger] ns@[t]),
        decreases 10 - i,
    {
        let (dx, dy): (i64, i64) = offs[i];
        let nx: i128 = (col as i128) + (dx as i128);
        let ny: i128 = (row as i128) + (dy as i128);
        proof {
            assert(offseq.take(i as int + 1).drop_last() =~= offseq.take(i as int));
            assert(offseq.take(i as int + 1).last() == offseq[i as int]);
        }
        if 0 <= nx && nx < dim_x as i128 && 0 <= ny && ny < dim_y as i128 {
            proof {
                lemma_slot_range(SortAxis::ByY, dim_x as int, dim_y as int, nx as int, ny as int);
            }
            let slot: usize = (nx as usize) + (ny as usize) * dim_x;
            let other: Boid = g[slot];
            proof {
                assert(g@.contains(other));
            }
            ns.push(other);
        }
        i = i + 1;
    }
    proof {
        assert(offseq.take(10) =~= offseq);
    }
    ns
}

} // verus!
