//! The steering force model.
//!
//! For each candidate neighbour within the separation radius an agent
//! accumulates an inverse-distance repulsion; within the alignment radius it
//! accumulates the neighbour's velocity; within the cohesion radius the
//! neighbour's position. Each behaviour's accumulator is turned into a
//! steering force — the difference between a max-speed target velocity and
//! the agent's velocity, clamped to the force bound — and scaled by its
//! weight. The mouse adds an inverse-square term. Every function returns
//! exactly the value of its spec-level counterpart, and each behaviour's
//! unweighted steering never exceeds the force bound in magnitude.

use vstd::prelude::*;

use crate::fixed::{abs_i, ceil_sqrt, csqrt, div_trunc, lemma_csqrt_of, mul_fp, sdivq};
use crate::grid::MAX_EXTENT;
use crate::system::{params_wf, Boid, FlockingConstants};
use crate::vec2::{limit, m2, mag2_u, normalize_to, sp_limit, sp_norm, Vec2};

verus! {

/// Fixed-point product: `a * b / 1024`, truncated toward zero.
pub open spec fn sp_mulfp(a: int, b: int) -> int {
    sdivq(a * b, 1024)
}

/// The three neighbourhood accumulators: repulsion vector, velocity sum with
/// count, position sum with count.
pub ghost struct Accum {
    pub dx: int,
    pub dy: int,
    pub ax: int,
    pub ay: int,
    pub an: int,
    pub cx: int,
    pub cy: int,
    pub cn: int,
}

/// What one pass over the candidate list accumulates, in list order.
///
/// A candidate at squared distance `d2` contributes to a behaviour only when
/// `0 < d2` (a coincident agent is skipped — no division by zero) and `d2`
/// is under that behaviour's squared radius. The separation contribution is
/// the vector toward the agent rescaled to `1/distance` (fixed-point).
pub open spec fn sp_accum(bx: int, by: int, ns: Seq<Boid>, p: FlockingConstants) -> Accum
    decreases ns.len(),
{
    if ns.len() == 0 {
        Accum { dx: 0, dy: 0, ax: 0, ay: 0, an: 0, cx: 0, cy: 0, cn: 0 }
    } else {
        let a = sp_accum(bx, by, ns.drop_last(), p);
        let o = ns.last();
        let fx = bx - o.position.x;
        let fy = by - o.position.y;
        let d2 = m2(fx, fy);
        if d2 > 0 {
            let a1 = if d2 < p.sep_radius_2 {
                let rep = 1048576int / csqrt(d2);
                let n = sp_norm(fx, fy, rep);
                Accum {
                    dx: a.dx + n.0,
                    dy: a.dy + n.1,
                    ax: a.ax,
                    ay: a.ay,
                    an: a.an,
                    cx: a.cx,
                    cy: a.cy,
                    cn: a.cn,
                }
            } else {
                a
            };
            let a2 = if d2 < p.ali_radius_2 {
                Accum {
                    dx: a1.dx,
                    dy: a1.dy,
                    ax: a1.ax + o.velocity.x,
                    ay: a1.ay + o.velocity.y,
                    an: a1.an + 1,
                    cx: a1.cx,
                    cy: a1.cy,
                    cn: a1.cn,
                }
            } else {
                a1
            };
            if d2 < p.coh_radius_2 {
                Accum {
                    dx: a2.dx,
                    dy: a2.dy,
                    ax: a2.ax,
                    ay: a2.ay,
                    an: a2.an,
                    cx: a2.cx + o.position.x,
                    cy: a2.cy + o.position.y,
                    cn: a2.cn + 1,
                }
            } else {
                a2
            }
        } else {
            a
        }
    }
}

/// One behaviour's weighted steering: rescale the accumulator to a
/// max-speed target velocity, steer from the current velocity, clamp to the
/// force bound, scale by the behaviour's weight.
pub open spec fn sp_steer(
    accx: int,
    accy: int,
    velx: int,
    vely: int,
    max_speed: int,
    max_force: int,
    weight: int,
) -> (int, int) {
    let t = sp_norm(accx, accy, max_speed);
    let s = sp_limit(t.0 - velx, t.1 - vely, max_force);
    (sp_mulfp(weight, s.0), sp_mulfp(weight, s.1))
}

/// The force the neighbourhood exerts on a boid: the sum of the three
/// weighted behaviour steerings. A behaviour whose accumulator (or averaged
/// accumulator) is exactly zero contributes nothing.
pub open spec fn sp_react(b: Boid, ns: Seq<Boid>, p: FlockingConstants) -> (int, int) {
    let acc = sp_accum(b.position.x as int, b.position.y as int, ns, p);
    let vx = b.velocity.x as int;
    let vy = b.velocity.y as int;
    let sep: (int, int) = if acc.dx != 0 || acc.dy != 0 {
        sp_steer(acc.dx, acc.dy, vx, vy, p.max_speed as int, p.max_force as int, p.sep_weight as int)
    } else {
        (0, 0)
    };
    let ali: (int, int) = if acc.an > 0 && (sdivq(acc.ax, acc.an) != 0 || sdivq(acc.ay, acc.an)
        != 0) {
        sp_steer(
            sdivq(acc.ax, acc.an),
            sdivq(acc.ay, acc.an),
            vx,
            vy,
            p.max_speed as int,
            p.max_force as int,
            p.ali_weight as int,
        )
    } else {
        (0, 0)
    };
    let coh: (int, int) = if acc.cn > 0 && (sdivq(acc.cx, acc.cn) - b.position.x as int != 0
        || sdivq(acc.cy, acc.cn) - b.position.y as int != 0) {
        sp_steer(
            sdivq(acc.cx, acc.cn) - b.position.x as int,
            sdivq(acc.cy, acc.cn) - b.position.y as int,
            vx,
            vy,
            p.max_speed as int,
            p.max_force as int,
            p.coh_weight as int,
        )
    } else {
        (0, 0)
    };
    (sep.0 + ali.0 + coh.0, sep.1 + ali.1 + coh.1)
}

/// The mouse force: inverse-square repulsion from the mouse position,
/// flipped to attraction when the multiplier is `-1`; zero exactly at the
/// mouse position.
pub open spec fn sp_mouse(bx: int, by: int, mx: int, my: int, w: int, mult: int) -> (int, int) {
    let fx = bx - mx;
    let fy = by - my;
    let d2 = m2(fx, fy);
    if d2 > 0 {
        let rep = (w * 1048576) / d2;
        let n = sp_norm(fx, fy, rep);
        (n.0 * mult, n.1 * mult)
    } else {
        (0, 0)
    }
}

/// A neighbour candidate the force model accepts: position within the
/// largest simulation space and speed within the bound.
pub open spec fn nb_ok(b: Boid, max_speed: int) -> bool {
    &&& 0 <= b.position.x <= MAX_EXTENT
    &&& 0 <= b.position.y <= MAX_EXTENT
    &&& m2(b.velocity.x as int, b.velocity.y as int) <= max_speed * max_speed
}

/// Bound on one weighted behaviour steering component.
pub const STEER_BOUND: i64 = 0x4000000000;

/// Bound on a force component out of [`react_to_neighbours`].
pub const REACT_BOUND: i64 = 0xc000000000;

/// Bound on a force component out of [`react_to_mouse`].
pub const MOUSE_BOUND: i64 = 0x100000000000;

/// One behaviour's weighted steering force (see [`sp_steer`]). The
/// *unweighted* steering is clamped to `max_force`; the weight then scales
/// it in fixed point.
fn steer_term(acc: Vec2, vel: Vec2, max_speed: i64, max_force: i64, weight: i64) -> (r: Vec2)
    requires
        m2(acc.x as int, acc.y as int) > 0,
        abs_i(acc.x as int) <= 0x40000000,
        abs_i(acc.y as int) <= 0x40000000,
        abs_i(vel.x as int) <= MAX_EXTENT as int,
        abs_i(vel.y as int) <= MAX_EXTENT as int,
        0 <= max_speed <= MAX_EXTENT,
        0 <= max_force <= 0x1000000,
        0 <= weight <= 0x1000000,
    ensures
        (r.x as int, r.y as int) == sp_steer(
            acc.x as int,
            acc.y as int,
            vel.x as int,
            vel.y as int,
            max_speed as int,
            max_force as int,
            weight as int,
        ),
        abs_i(r.x as int) <= STEER_BOUND as int,
        abs_i(r.y as int) <= STEER_BOUND as int,
{
    let target: Vec2 = normalize_to(acc, max_speed);
    let steer: Vec2 = limit(
        Vec2 { x: target.x - vel.x, y: target.y - vel.y },
        max_force,
    );
    let rx: i64 = mul_fp(weight, steer.x);
    let ry: i64 = mul_fp(weight, steer.y);
    Vec2 { x: rx, y: ry }
}

/// The force the candidate neighbourhood exerts on a boid: separation,
/// alignment and cohesion, each weighted, summed (see [`sp_react`]).
pub fn react_to_neighbours(boid: &Boid, neighbours: &Vec<Boid>, p: &FlockingConstants) -> (f: Vec2)
    requires
        params_wf(*p),
        nb_ok(*boid, p.max_speed as int),
        neighbours@.len() <= 16,
        forall|i: int| 0 <= i < neighbours@.len() ==> nb_ok(
            #[trigger] neighbours@[i],
            p.max_speed as int,
        ),
    ensures
        (f.x as int, f.y as int) == sp_react(*boid, neighbours@, *p),
        abs_i(f.x as int) <= REACT_BOUND as int,
        abs_i(f.y as int) <= REACT_BOUND as int,
{
    let bx: i64 = boid.position.x;
    let by: i64 = boid.position.y;
    proof {
        crate::vec2::lemma_m2_side(
            boid.velocity.x as int,
            boid.velocity.y as int,
            p.max_speed as int,
        );
    }
    let mut dodge: Vec2 = Vec2 { x: 0, y: 0 };
    let mut ali_x: i64 = 0;
    let mut ali_y: i64 = 0;
    let mut ali_n: i64 = 0;
    let mut coh_x: i64 = 0;
    let mut coh_y: i64 = 0;
    let mut coh_n: i64 = 0;
    let n: usize = neighbours.len();
    let mut i: usize = 0;
    while i < n
        invariant
            params_wf(*p),
            nb_ok(*boid, p.max_speed as int),
            bx == boid.position.x,
            by == boid.position.y,
            n == neighbours@.len() <= 16,
            forall|t: int| 0 <= t < neighbours@.len() ==> nb_ok(
                #[trigger] neighbours@[t],
                p.max_speed as int,
            ),
            i <= n,
            sp_accum(bx as int, by as int, neighbours@.take(i as int), *p) == (Accum {
                dx: dodge.x as int,
                dy: dodge.y as int,
                ax: ali_x as int,
                ay: ali_y as int,
                an: ali_n as int,
                cx: coh_x as int,
                cy: coh_y as int,
                cn: coh_n as int,
            }),
            abs_i(dodge.x as int) <= i as int * 0x100000,
            abs_i(dodge.y as int) <= i as int * 0x100000,
            abs_i(ali_x as int) <= i as int * 0x1000000,
            abs_i(ali_y as int) <= i as int * 0x1000000,
            0 <= ali_n <= i as int,
            0 <= coh_x <= i as int * 0x1000000,
            0 <= coh_y <= i as int * 0x1000000,
            0 <= coh_n <= i as int,
        decreases n - i,
    {
        let other: Boid = neighbours[i];
        proof {
            crate::vec2::lemma_m2_side(
                other.velocity.x as int,
                other.velocity.y as int,
                p.max_speed as int,
            );
            assert(neighbours@.take(i as int + 1).drop_last() =~= neighbours@.take(i as int));
            assert(neighbours@.take(i as int + 1).last() == neighbours@[i as int]);
        }
        let fmx: i64 = bx - other.position.x;
        let fmy: i64 = by - other.position.y;
        let d2: u128 = mag2_u(fmx, fmy);
        if d2 > 0 {
            if d2 < p.sep_radius_2 as u128 {
                let l: u64 = ceil_sqrt(d2);
                proof {
                    assert(l >= 1) by (nonlinear_arith)
                        requires
                            l >= 0,
                            (l as int) * (l as int) >= d2 as int,
                            d2 >= 1,
                    ;
                    lemma_csqrt_of(d2 as int, l as int);
                    vstd::arithmetic::div_mod::lemma_fundamental_div_mod(1048576int, l as int);
                    assert(1048576int / (l as int) <= 1048576) by (nonlinear_arith)
                        requires
                            l >= 1,
                            1048576int == (l as int) * (1048576int / (l as int)) + 1048576int % (
                            l as int),
                            1048576int % (l as int) >= 0,
                            1048576int / (l as int) >= 0,
                    ;
                }
                let rep: i64 = (1048576u64 / l) as i64;
                let nv: Vec2 = normalize_to(Vec2 { x: fmx, y: fmy }, rep);
                dodge = Vec2 { x: dodge.x + nv.x, y: dodge.y + nv.y };
            }
            if d2 < p.ali_radius_2 as u128 {
                ali_x = ali_x + other.velocity.x;
                ali_y = ali_y + other.velocity.y;
                ali_n = ali_n + 1;
            }
            if d2 < p.coh_radius_2 as u128 {
                coh_x = coh_x + other.position.x;
                coh_y = coh_y + other.position.y;
                coh_n = coh_n + 1;
            }
        }
        i = i + 1;
    }
    proof {
        assert(neighbours@.take(n as int) =~= neighbours@);
    }
    let mut fx: i64 = 0;
    let mut fy: i64 = 0;
    if dodge.x != 0 || dodge.y != 0 {
        proof {
            lemma_nonzero_m2(dodge.x as int, dodge.y as int);
        }
        let s: Vec2 = steer_term(dodge, boid.velocity, p.max_speed, p.max_force, p.sep_weight);
        fx = fx + s.x;
        fy = fy + s.y;
    }
    if ali_n > 0 {
        let avgx: i64 = div_trunc(ali_x, ali_n as u64);
        let avgy: i64 = div_trunc(ali_y, ali_n as u64);
        if avgx != 0 || avgy != 0 {
            proof {
                lemma_nonzero_m2(avgx as int, avgy as int);
            }
            let s: Vec2 = steer_term(
                Vec2 { x: avgx, y: avgy },
                boid.velocity,
                p.max_speed,
                p.max_force,
                p.ali_weight,
            );
            fx = fx + s.x;
            fy = fy + s.y;
        }
    }
    if coh_n > 0 {
        let gx: i64 = div_trunc(coh_x, coh_n as u64) - bx;
        let gy: i64 = div_trunc(coh_y, coh_n as u64) - by;
        if gx != 0 || gy != 0 {
            proof {
                lemma_nonzero_m2(gx as int, gy as int);
            }
            let s: Vec2 = steer_term(
                Vec2 { x: gx, y: gy },
                boid.velocity,
                p.max_speed,
                p.max_force,
                p.coh_weight,
            );
            fx = fx + s.x;
            fy = fy + s.y;
        }
    }
    Vec2 { x: fx, y: fy }
}

/// A vector with a nonzero component has positive squared magnitude.
pub proof fn lemma_nonzero_m2(x: int, y: int)
    requires
        x != 0 || y != 0,
    ensures
        m2(x, y) > 0,
{
    assert(x * x >= 0 && y * y >= 0 && (x != 0 ==> x * x > 0) && (y != 0 ==> y * y > 0))
        by (nonlinear_arith);
}

/// Law: a behaviour's steering — the clamped difference between its target
/// velocity and the agent's velocity, *before* the behaviour weight is
/// applied — never exceeds `max_force` in magnitude, whatever the
/// accumulator and velocity were.
pub proof fn lemma_steer_within_force(
    accx: int,
    accy: int,
    velx: int,
    vely: int,
    max_speed: int,
    max_force: int,
)
    requires
        max_force >= 0,
    ensures
        ({
            let t = sp_norm(accx, accy, max_speed);
            let s = sp_limit(t.0 - velx, t.1 - vely, max_force);
            m2(s.0, s.1) <= max_force * max_force
        }),
{
    let t = sp_norm(accx, accy, max_speed);
    let x = t.0 - velx;
    let y = t.1 - vely;
    if m2(x, y) > max_force * max_force {
        assert(x * x >= 0 && y * y >= 0 && max_force * max_force >= 0) by (nonlinear_arith)
            requires
                max_force >= 0,
        ;
        crate::fixed::lemma_csqrt_exists(m2(x, y));
        let l = csqrt(m2(x, y));
        assert(l >= 1) by (nonlinear_arith)
            requires
                l >= 0,
                l * l >= x * x + y * y,
                x * x + y * y >= 1,
        ;
        crate::vec2::lemma_norm_bound(x, y, max_force, l);
    }
}

/// No candidate inside any behaviour radius.
pub open spec fn isolated(b: Boid, ns: Seq<Boid>, p: FlockingConstants) -> bool {
    forall|i: int|
        0 <= i < ns.len() ==> ({
            let d2 = m2(
                b.position.x - (#[trigger] ns[i]).position.x,
                b.position.y - ns[i].position.y,
            );
            d2 >= p.sep_radius_2 && d2 >= p.ali_radius_2 && d2 >= p.coh_radius_2
        })
}

/// An isolated agent accumulates nothing from its candidates.
proof fn lemma_isolated_accum(b: Boid, ns: Seq<Boid>, p: FlockingConstants)
    requires
        isolated(b, ns, p),
    ensures
        sp_accum(b.position.x as int, b.position.y as int, ns, p) == (Accum {
            dx: 0,
            dy: 0,
            ax: 0,
            ay: 0,
            an: 0,
            cx: 0,
            cy: 0,
            cn: 0,
        }),
    decreases ns.len(),
{
    if ns.len() > 0 {
        assert forall|i: int|
            0 <= i < ns.drop_last().len() implies ({
            let d2 = m2(
                b.position.x - (#[trigger] ns.drop_last()[i]).position.x,
                b.position.y - ns.drop_last()[i].position.y,
            );
            d2 >= p.sep_radius_2 && d2 >= p.ali_radius_2 && d2 >= p.coh_radius_2
        }) by {
            assert(ns.drop_last()[i] == ns[i]);
        }
        lemma_isolated_accum(b, ns.drop_last(), p);
        assert(ns.last() == ns[ns.len() - 1]);
    }
}

/// Law: an agent whose candidates are all outside every behaviour radius
/// feels no separation, alignment or cohesion force at all — its whole
/// per-slot force is the mouse term alone.
pub proof fn lemma_isolated_agent(b: Boid, ns: Seq<Boid>, p: FlockingConstants)
    requires
        isolated(b, ns, p),
    ensures
        sp_react(b, ns, p) == (0int, 0int),
{
    lemma_isolated_accum(b, ns, p);
}

/// The mouse force on a boid (see [`sp_mouse`]): magnitude
/// `mouse_weight / dist²`, pointing away from the mouse, flipped by the
/// multiplier.
pub fn react_to_mouse(boid: &Boid, mouse: Vec2, mouse_weight: i64, multiplier: i64) -> (f: Vec2)
    requires
        0 <= boid.position.x <= MAX_EXTENT,
        0 <= boid.position.y <= MAX_EXTENT,
        abs_i(mouse.x as int) <= MAX_EXTENT as int,
        abs_i(mouse.y as int) <= MAX_EXTENT as int,
        0 <= mouse_weight <= 0x1000000,
        multiplier == 1 || multiplier == -1,
    ensures
        (f.x as int, f.y as int) == sp_mouse(
            boid.position.x as int,
            boid.position.y as int,
            mouse.x as int,
            mouse.y as int,
            mouse_weight as int,
            multiplier as int,
        ),
        abs_i(f.x as int) <= MOUSE_BOUND as int,
        abs_i(f.y as int) <= MOUSE_BOUND as int,
{
    let fmx: i64 = boid.position.x - mouse.x;
    let fmy: i64 = boid.position.y - mouse.y;
    let d2: u128 = mag2_u(fmx, fmy);
    if d2 > 0 {
        proof {
            vstd::arithmetic::div_mod::lemma_fundamental_div_mod(
                mouse_weight as int * 1048576,
                d2 as int,
            );
            assert(mouse_weight as int * 1048576 <= 0x100000000000) by (nonlinear_arith)
                requires
                    0 <= mouse_weight <= 0x1000000,
            ;
            assert(mouse_weight as int * 1048576 >= 0) by (nonlinear_arith)
                requires
                    mouse_weight >= 0,
            ;
            let quot = (mouse_weight as int * 1048576) / (d2 as int);
            assert(0 <= quot <= mouse_weight as int * 1048576) by (nonlinear_arith)
                requires
                    d2 as int >= 1,
                    mouse_weight as int * 1048576 == (d2 as int) * quot + (mouse_weight as int
                        * 1048576) % (d2 as int),
                    0 <= (mouse_weight as int * 1048576) % (d2 as int),
                    mouse_weight as int * 1048576 >= 0,
            ;
        }
        let rep: i64 = (((mouse_weight as u128) * 1048576u128) / d2) as i64;
        let nv: Vec2 = normalize_to(Vec2 { x: fmx, y: fmy }, rep);
        if multiplier == 1 {
            nv
        } else {
            proof {
                assert(nv.x as int * (multiplier as int) == -(nv.x as int)) by (nonlinear_arith)
                    requires
                        multiplier as int == -1,
                ;
                assert(nv.y as int * (multiplier as int) == -(nv.y as int)) by (nonlinear_arith)
                    requires
                        multiplier as int == -1,
                ;
            }
            Vec2 { x: -nv.x, y: -nv.y }
        }
    } else {
        Vec2 { x: 0, y: 0 }
    }
}

} // verus!
