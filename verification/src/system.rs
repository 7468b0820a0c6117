//! The flocking system: agent store, tuning parameters, and the per-tick
//! update pipeline (spatial reordering, force computation, integration).
//!
//! All scalar quantities are fixed-point (see [`crate::fixed`]).

use vstd::prelude::*;

use crate::grid::{grid_inputs_ok, MAX_EXTENT};
use crate::vec2::{m2, Vec2};

verus! {

/// Largest tuning parameter (weight, radius, force or speed bound) the
/// engine accepts, in fixed-point units: 16384.0.
pub const MAX_PARAM: i64 = 0x1000000;

/// Tuning parameters handed to [`FlockingSystem::new`].
#[derive(Clone, Copy, Debug)]
pub struct FlockingConfig {
    pub boid_count: u32,
    pub width: i64,
    pub height: i64,
    pub max_speed: i64,
    pub max_force: i64,
    pub mouse_weight: i64,
    pub sep_weight: i64,
    pub ali_weight: i64,
    pub coh_weight: i64,
    pub sep_radius: i64,
    pub ali_radius: i64,
    pub coh_radius: i64,
}

/// The configurations the engine accepts: extents and count as the grid
/// requires, a speed bound no larger than either extent (so a wrapped
/// position always lands back inside the space), and nonnegative bounded
/// weights and radii.
pub open spec fn config_wf(c: FlockingConfig) -> bool {
    &&& grid_inputs_ok(c.width as int, c.height as int, c.boid_count as int)
    &&& 0 <= c.max_speed <= c.width
    &&& c.max_speed <= c.height
    &&& 0 <= c.max_force <= MAX_PARAM
    &&& 0 <= c.mouse_weight <= MAX_PARAM
    &&& 0 <= c.sep_weight <= MAX_PARAM
    &&& 0 <= c.ali_weight <= MAX_PARAM
    &&& 0 <= c.coh_weight <= MAX_PARAM
    &&& 0 <= c.sep_radius <= MAX_PARAM
    &&& 0 <= c.ali_radius <= MAX_PARAM
    &&& 0 <= c.coh_radius <= MAX_PARAM
}

/// Decide whether a configuration is one the engine accepts (exactly
/// [`config_wf`]), so that an unverified caller can test before building.
pub fn check_config(c: &FlockingConfig) -> (r: bool)
    ensures
        r == config_wf(*c),
{
    1 <= c.width && c.width <= MAX_EXTENT && 1 <= c.height && c.height <= MAX_EXTENT && c.width
        <= crate::grid::ASPECT_LIMIT * c.height && c.height <= crate::grid::ASPECT_LIMIT * c.width
        && c.boid_count <= crate::grid::MAX_BOIDS && 0 <= c.max_speed && c.max_speed <= c.width
        && c.max_speed <= c.height && 0 <= c.max_force && c.max_force <= MAX_PARAM && 0
        <= c.mouse_weight && c.mouse_weight <= MAX_PARAM && 0 <= c.sep_weight && c.sep_weight
        <= MAX_PARAM && 0 <= c.ali_weight && c.ali_weight <= MAX_PARAM && 0 <= c.coh_weight
        && c.coh_weight <= MAX_PARAM && 0 <= c.sep_radius && c.sep_radius <= MAX_PARAM && 0
        <= c.ali_radius && c.ali_radius <= MAX_PARAM && 0 <= c.coh_radius && c.coh_radius
        <= MAX_PARAM
}

/// Derived per-tick constants: the radii are cached squared, so the hot
/// path compares squared distances and never takes a square root first.
#[derive(Clone, Copy, Debug)]
pub struct FlockingConstants {
    pub max_speed: i64,
    pub max_force: i64,
    pub mouse_weight: i64,
    pub sep_radius_2: i64,
    pub ali_radius_2: i64,
    pub coh_radius_2: i64,
    pub sep_weight: i64,
    pub ali_weight: i64,
    pub coh_weight: i64,
}

/// Bounds under which the force model is free of overflow.
pub open spec fn params_wf(p: FlockingConstants) -> bool {
    &&& 0 <= p.max_speed <= MAX_EXTENT
    &&& 0 <= p.max_force <= MAX_PARAM
    &&& 0 <= p.mouse_weight <= MAX_PARAM
    &&& 0 <= p.sep_radius_2 <= 0x1000000000000
    &&& 0 <= p.ali_radius_2 <= 0x1000000000000
    &&& 0 <= p.coh_radius_2 <= 0x1000000000000
    &&& 0 <= p.sep_weight <= MAX_PARAM
    &&& 0 <= p.ali_weight <= MAX_PARAM
    &&& 0 <= p.coh_weight <= MAX_PARAM
}

impl FlockingConstants {
    /// Cache the derived constants of a configuration.
    pub fn from_config(conf: FlockingConfig) -> (p: FlockingConstants)
        requires
            config_wf(conf),
        ensures
            params_wf(p),
            p.max_speed == conf.max_speed,
            p.max_force == conf.max_force,
            p.mouse_weight == conf.mouse_weight,
            p.sep_weight == conf.sep_weight,
            p.ali_weight == conf.ali_weight,
            p.coh_weight == conf.coh_weight,
            p.sep_radius_2 as int == conf.sep_radius as int * conf.sep_radius as int,
            p.ali_radius_2 as int == conf.ali_radius as int * conf.ali_radius as int,
            p.coh_radius_2 as int == conf.coh_radius as int * conf.coh_radius as int,
    {
        proof {
            lemma_radius_sq(conf.sep_radius as int);
            lemma_radius_sq(conf.ali_radius as int);
            lemma_radius_sq(conf.coh_radius as int);
        }
        FlockingConstants {
            max_speed: conf.max_speed,
            max_force: conf.max_force,
            mouse_weight: conf.mouse_weight,
            sep_radius_2: conf.sep_radius * conf.sep_radius,
            ali_radius_2: conf.ali_radius * conf.ali_radius,
            coh_radius_2: conf.coh_radius * conf.coh_radius,
            sep_weight: conf.sep_weight,
            ali_weight: conf.ali_weight,
            coh_weight: conf.coh_weight,
        }
    }
}

/// The square of a bounded radius stays within the squared parameter bound.
proof fn lemma_radius_sq(r: int)
    requires
        0 <= r <= MAX_PARAM as int,
    ensures
        0 <= r * r <= 0x1000000000000,
{
    assert(0 <= r * r <= 0x1000000000000) by (nonlinear_arith)
        requires
            0 <= r <= 0x1000000,
    ;
}

/// One simulated agent: a position and a velocity, both fixed-point.
#[derive(Clone, Copy, Debug, PartialEq, Eq, Structural)]
pub struct Boid {
    pub position: Vec2,
    pub velocity: Vec2,
}

impl Boid {
    /// An agent at the origin, at rest.
    pub fn new() -> (b: Boid)
        ensures
            b.position.x == 0 && b.position.y == 0,
            b.velocity.x == 0 && b.velocity.y == 0,
    {
        Boid { position: Vec2 { x: 0, y: 0 }, velocity: Vec2 { x: 0, y: 0 } }
    }
}

/// An agent is in a good state when its position lies inside the simulation
/// space and its speed is within the bound.
pub open spec fn boid_ok(b: Boid, width: int, height: int, max_speed: int) -> bool {
    &&& 0 <= b.position.x < width
    &&& 0 <= b.position.y < height
    &&& m2(b.velocity.x as int, b.velocity.y as int) <= max_speed * max_speed
}

/// Bound on a per-agent force component: the neighbourhood and mouse terms
/// together stay well under it.
pub const FORCE_BOUND: i64 = 0x200000000000;

/// The flocking engine: a fixed-capacity grid of agents, a matching force
/// buffer, the derived constants, the mouse state, and an owned random
/// number generator seeded at construction.
pub struct FlockingSystem {
    pub width: i64,
    pub height: i64,
    pub dim_x: usize,
    pub dim_y: usize,
    pub boid_grid: Vec<Boid>,
    pub forces: Vec<Vec2>,
    pub params: FlockingConstants,
    pub mouse_position: Vec2,
    pub mouse_multiplier: i64,
    pub rng: rand::rngs::StdRng,
}

/// Toroidal wrap of one coordinate after a step: a coordinate leaving
/// through one edge re-enters through the opposite one.
pub open spec fn sp_wrap(p: int, v: int, e: int) -> int {
    let s = p + v;
    let s1 = if s <= 0 {
        s + e
    } else {
        s
    };
    if s1 >= e {
        s1 - e
    } else {
        s1
    }
}

/// The velocity after one step: the force added, then clamped to the speed
/// bound.
pub open spec fn sp_step_vel(b: Boid, fx: int, fy: int, max_speed: int) -> (int, int) {
    crate::vec2::sp_limit(b.velocity.x + fx, b.velocity.y + fy, max_speed)
}

/// The position after one step: advanced by the new velocity, wrapped across
/// the toroidal boundary.
pub open spec fn sp_step_pos(b: Boid, fx: int, fy: int, max_speed: int, w: int, h: int) -> (
    int,
    int,
) {
    let v = sp_step_vel(b, fx, fy, max_speed);
    (sp_wrap(b.position.x as int, v.0, w), sp_wrap(b.position.y as int, v.1, h))
}

/// Wrap one coordinate across the boundary, exactly as [`sp_wrap`] says.
pub fn wrap_coord(p: i64, v: i64, e: i64) -> (r: i64)
    requires
        0 <= p < e,
        e <= MAX_EXTENT,
        crate::fixed::abs_i(v as int) <= e,
    ensures
        r as int == sp_wrap(p as int, v as int, e as int),
        0 <= r < e,
{
    let mut s: i64 = p + v;
    if s <= 0 {
        s = s + e;
    }
    if s >= e {
        s = s - e;
    }
    s
}

/// Advance one agent by one tick: add the force to the velocity, clamp to
/// the speed bound, advance the position and wrap it. The result is again a
/// well-placed agent within the speed bound.
pub fn integrate(b: &Boid, f: Vec2, width: i64, height: i64, max_speed: i64) -> (nb: Boid)
    requires
        1 <= width <= MAX_EXTENT,
        1 <= height <= MAX_EXTENT,
        0 <= max_speed <= width,
        max_speed <= height,
        boid_ok(*b, width as int, height as int, max_speed as int),
        crate::fixed::abs_i(f.x as int) <= FORCE_BOUND as int,
        crate::fixed::abs_i(f.y as int) <= FORCE_BOUND as int,
    ensures
        (nb.velocity.x as int, nb.velocity.y as int) == sp_step_vel(
            *b,
            f.x as int,
            f.y as int,
            max_speed as int,
        ),
        (nb.position.x as int, nb.position.y as int) == sp_step_pos(
            *b,
            f.x as int,
            f.y as int,
            max_speed as int,
            width as int,
            height as int,
        ),
        boid_ok(nb, width as int, height as int, max_speed as int),
{
    proof {
        crate::vec2::lemma_m2_side(b.velocity.x as int, b.velocity.y as int, max_speed as int);
    }
    let v1 = Vec2 { x: b.velocity.x + f.x, y: b.velocity.y + f.y };
    let nv = crate::vec2::limit(v1, max_speed);
    let px = wrap_coord(b.position.x, nv.x, width);
    let py = wrap_coord(b.position.y, nv.y, height);
    Boid { position: Vec2 { x: px, y: py }, velocity: nv }
}

impl FlockingSystem {
    /// The engine's invariant: valid extents and parameters, an agent store
    /// of exactly `dim_x * dim_y` agents all in a good state, a force buffer
    /// of the same length with bounded entries, a mouse position within the
    /// largest space, and a mouse sign of one or minus one.
    pub open spec fn wf(self) -> bool {
        &&& 1 <= self.width <= MAX_EXTENT
        &&& 1 <= self.height <= MAX_EXTENT
        &&& params_wf(self.params)
        &&& self.params.max_speed <= self.width
        &&& self.params.max_speed <= self.height
        &&& self.boid_grid@.len() == self.dim_x * self.dim_y
        &&& self.forces@.len() == self.boid_grid@.len()
        &&& self.dim_x * self.dim_y <= 0x40000000
        &&& forall|i: int|
            0 <= i < self.boid_grid@.len() ==> boid_ok(
                #[trigger] self.boid_grid@[i],
                self.width as int,
                self.height as int,
                self.params.max_speed as int,
            )
        &&& forall|i: int|
            0 <= i < self.forces@.len() ==> crate::fixed::abs_i(#[trigger] self.forces@[i].x as int)
                <= FORCE_BOUND as int && crate::fixed::abs_i(self.forces@[i].y as int)
                <= FORCE_BOUND as int
        &&& crate::fixed::abs_i(self.mouse_position.x as int) <= MAX_EXTENT as int
        &&& crate::fixed::abs_i(self.mouse_position.y as int) <= MAX_EXTENT as int
        &&& self.mouse_multiplier == 1 || self.mouse_multiplier == -1
    }

    /// The engine's configuration-derived fields, unchanged by every tick.
    pub open spec fn same_shape(self, other: FlockingSystem) -> bool {
        &&& self.width == other.width
        &&& self.height == other.height
        &&& self.dim_x == other.dim_x
        &&& self.dim_y == other.dim_y
        &&& self.params == other.params
    }

    /// Build an engine: the grid is sized to cover the desired agent count
    /// at the configured aspect ratio, every agent starts at the origin at
    /// rest, the mouse term starts as repulsion from the origin, and the
    /// random generator is seeded once.
    #[verifier::rlimit(30)]
    pub fn new(conf: FlockingConfig) -> (s: FlockingSystem)
        requires
            config_wf(conf),
        ensures
            s.wf(),
            s.width == conf.width,
            s.height == conf.height,
            s.dim_x as int == crate::grid::sp_dim(
                conf.boid_count as int,
                conf.width as int,
                conf.height as int,
            ),
            s.dim_y as int == crate::grid::sp_dim(
                conf.boid_count as int,
                conf.height as int,
                conf.width as int,
            ),
            s.boid_grid@.len() >= conf.boid_count,
            s.params.max_speed == conf.max_speed,
            s.params.max_force == conf.max_force,
            s.params.mouse_weight == conf.mouse_weight,
            s.params.sep_weight == conf.sep_weight,
            s.params.ali_weight == conf.ali_weight,
            s.params.coh_weight == conf.coh_weight,
            s.params.sep_radius_2 as int == conf.sep_radius as int * conf.sep_radius as int,
            s.params.ali_radius_2 as int == conf.ali_radius as int * conf.ali_radius as int,
            s.params.coh_radius_2 as int == conf.coh_radius as int * conf.coh_radius as int,
            s.forces@.len() == s.boid_grid@.len(),
            forall|i: int|
                0 <= i < s.forces@.len() ==> #[trigger] s.forces@[i] == (Vec2 { x: 0, y: 0 }),
            forall|i: int|
                0 <= i < s.boid_grid@.len() ==> #[trigger] s.boid_grid@[i] == (Boid {
                    position: Vec2 { x: 0, y: 0 },
                    velocity: Vec2 { x: 0, y: 0 },
                }),
            s.mouse_multiplier == 1,
            s.mouse_position == (Vec2 { x: 0, y: 0 }),
    {
        let (dim_x, dim_y) = crate::grid::grid_size(conf.width, conf.height, conf.boid_count);
        proof {
            assert(dim_x * dim_y <= 0x40000000) by (nonlinear_arith)
                requires
                    0 <= dim_x <= 32768,
                    0 <= dim_y <= 32768,
            ;
        }
        let cap: usize = dim_x * dim_y;
        let mut grid: Vec<Boid> = Vec::new();
        let mut forces: Vec<Vec2> = Vec::new();
        let mut i: usize = 0;
        while i < cap
            invariant
                i <= cap,
                grid@.len() == i,
                forces@.len() == i,
                forall|t: int|
                    0 <= t < i ==> #[trigger] grid@[t] == (Boid {
                        position: Vec2 { x: 0, y: 0 },
                        velocity: Vec2 { x: 0, y: 0 },
                    }),
                forall|t: int| 0 <= t < i ==> #[trigger] forces@[t] == (Vec2 { x: 0, y: 0 }),
            decreases cap - i,
        {
            grid.push(Boid::new());
            forces.push(Vec2 { x: 0, y: 0 });
            i = i + 1;
        }
        let seed: u64 = crate::rng::entropy_seed();
        proof {
            assert(conf.max_speed as int * conf.max_speed as int >= 0) by (nonlinear_arith);
        }
        let s = FlockingSystem {
            width: conf.width,
            height: conf.height,
            dim_x,
            dim_y,
            boid_grid: grid,
            forces,
            params: FlockingConstants::from_config(conf),
            mouse_position: Vec2 { x: 0, y: 0 },
            mouse_multiplier: 1,
            rng: crate::rng::seeded_rng(seed),
        };
        proof {
            assert(forall|i: int|
                0 <= i < s.boid_grid@.len() ==> boid_ok(
                    #[trigger] s.boid_grid@[i],
                    s.width as int,
                    s.height as int,
                    s.params.max_speed as int,
                ));
            assert(forall|i: int|
                0 <= i < s.forces@.len() ==> crate::fixed::abs_i(#[trigger] s.forces@[i].x as int)
                    <= FORCE_BOUND as int && crate::fixed::abs_i(s.forces@[i].y as int)
                    <= FORCE_BOUND as int);
            assert(s.wf());
        }
        s
    }

    /// Read-only view of the agent store, the renderer's vertex source.
    pub fn boids(&self) -> (r: &Vec<Boid>)
        ensures
            r@ == self.boid_grid@,
    {
        &self.boid_grid
    }

    /// Move the mouse attraction/repulsion target.
    pub fn set_mouse(&mut self, x: i64, y: i64)
        requires
            old(self).wf(),
            -MAX_EXTENT <= x <= MAX_EXTENT,
            -MAX_EXTENT <= y <= MAX_EXTENT,
        ensures
            final(self).wf(),
            final(self).mouse_position == (Vec2 { x: x, y: y }),
            final(self).mouse_multiplier == old(self).mouse_multiplier,
            final(self).same_shape(*old(self)),
            final(self).boid_grid@ == old(self).boid_grid@,
            final(self).forces@ == old(self).forces@,
            final(self).rng == old(self).rng,
    {
        self.mouse_position = Vec2 { x, y };
    }

    /// Make the mouse term attract agents (held mouse button).
    pub fn enable_mouse_attraction(&mut self)
        requires
            old(self).wf(),
        ensures
            final(self).wf(),
            final(self).mouse_multiplier == -1,
            final(self).mouse_position == old(self).mouse_position,
            final(self).same_shape(*old(self)),
            final(self).boid_grid@ == old(self).boid_grid@,
            final(self).forces@ == old(self).forces@,
            final(self).rng == old(self).rng,
    {
        self.mouse_multiplier = -1;
    }

    /// Make the mouse term repel agents (the default).
    pub fn enable_mouse_repulsion(&mut self)
        requires
            old(self).wf(),
        ensures
            final(self).wf(),
            final(self).mouse_multiplier == 1,
            final(self).mouse_position == old(self).mouse_position,
            final(self).same_shape(*old(self)),
            final(self).boid_grid@ == old(self).boid_grid@,
            final(self).forces@ == old(self).forces@,
            final(self).rng == old(self).rng,
    {
        self.mouse_multiplier = 1;
    }

    /// Read the agent in one grid slot.
    pub fn boid_at(&self, col: usize, row: usize) -> (b: Boid)
        requires
            self.wf(),
            col < self.dim_x,
            row < self.dim_y,
        ensures
            b == self.boid_grid@[col as int + row as int * self.dim_x as int],
    {
        proof {
            crate::sort::lemma_slot_range(
                crate::sort::SortAxis::ByY,
                self.dim_x as int,
                self.dim_y as int,
                col as int,
                row as int,
            );
        }
        self.boid_grid[col + row * self.dim_x]
    }

    /// Place an agent into one grid slot.
    pub fn set_boid(&mut self, col: usize, row: usize, b: Boid)
        requires
            old(self).wf(),
            col < old(self).dim_x,
            row < old(self).dim_y,
            boid_ok(
                b,
                old(self).width as int,
                old(self).height as int,
                old(self).params.max_speed as int,
            ),
        ensures
            final(self).wf(),
            final(self).boid_grid@ == old(self).boid_grid@.update(
                col as int + row as int * old(self).dim_x as int,
                b,
            ),
            final(self).same_shape(*old(self)),
            final(self).forces@ == old(self).forces@,
            final(self).mouse_position == old(self).mouse_position,
            final(self).mouse_multiplier == old(self).mouse_multiplier,
            final(self).rng == old(self).rng,
    {
        proof {
            crate::sort::lemma_slot_range(
                crate::sort::SortAxis::ByY,
                self.dim_x as int,
                self.dim_y as int,
                col as int,
                row as int,
            );
        }
        let slot: usize = col + row * self.dim_x;
        self.boid_grid.set(slot, b);
    }

    /// Reset every agent: positions uniform over the space, velocities
    /// random within the speed bound.
    pub fn randomise(&mut self)
        requires
            old(self).wf(),
        ensures
            final(self).wf(),
            final(self).same_shape(*old(self)),
            final(self).boid_grid@.len() == old(self).boid_grid@.len(),
            final(self).forces@ == old(self).forces@,
            final(self).mouse_position == old(self).mouse_position,
            final(self).mouse_multiplier == old(self).mouse_multiplier,
    {
        self.randomise_positions();
        self.randomise_velocities();
    }

    /// Gather every agent at the centre of the space and re-randomise the
    /// velocities.
    pub fn centralise(&mut self)
        requires
            old(self).wf(),
        ensures
            final(self).wf(),
            final(self).same_shape(*old(self)),
            final(self).boid_grid@.len() == old(self).boid_grid@.len(),
            forall|i: int|
                0 <= i < final(self).boid_grid@.len() ==> (#[trigger] final(self).boid_grid@[i]).position.x as int == old(self).width as int / 2 && (final(self).boid_grid@[i]).position.y as int == old(self).height as int / 2,
            final(self).forces@ == old(self).forces@,
            final(self).mouse_position == old(self).mouse_position,
            final(self).mouse_multiplier == old(self).mouse_multiplier,
    {
        let cx: i64 = ((self.width as u64) / 2) as i64;
        let cy: i64 = ((self.height as u64) / 2) as i64;
        proof {
            assert(cx < self.width && cy < self.height) by (nonlinear_arith)
                requires
                    cx == self.width as int / 2,
                    cy == self.height as int / 2,
                    self.width >= 1,
                    self.height >= 1,
            ;
            assert(cx as int == self.width as int / 2 && cy as int == self.height as int / 2);
        }
        let center = Vec2 { x: cx, y: cy };
        let ghost s0 = *self;
        let n: usize = self.boid_grid.len();
        let mut i: usize = 0;
        while i < n
            invariant
                s0.wf(),
                self.same_shape(s0),
                self.rng == s0.rng,
                self.forces@ == s0.forces@,
                self.mouse_position == s0.mouse_position,
                self.mouse_multiplier == s0.mouse_multiplier,
                n == self.boid_grid@.len(),
                self.boid_grid@.len() == s0.boid_grid@.len(),
                i <= n,
                0 <= center.x < s0.width,
                0 <= center.y < s0.height,
                forall|t: int|
                    0 <= t < i ==> (#[trigger] self.boid_grid@[t]).position == center
                        && self.boid_grid@[t].velocity == s0.boid_grid@[t].velocity,
                forall|t: int| i <= t < n ==> self.boid_grid@[t] == s0.boid_grid@[t],
            decreases n - i,
        {
            let mut b: Boid = self.boid_grid[i];
            b.position = center;
            self.boid_grid.set(i, b);
            i = i + 1;
        }
        proof {
            assert(self.wf()) by {
                assert forall|t: int| 0 <= t < self.boid_grid@.len() implies boid_ok(
                    #[trigger] self.boid_grid@[t],
                    self.width as int,
                    self.height as int,
                    self.params.max_speed as int,
                ) by {
                    assert(boid_ok(
                        s0.boid_grid@[t],
                        s0.width as int,
                        s0.height as int,
                        s0.params.max_speed as int,
                    ));
                }
            }
        }
        self.randomise_velocities();
    }

    /// Move every agent to the origin and re-randomise the velocities.
    pub fn zeroise(&mut self)
        requires
            old(self).wf(),
        ensures
            final(self).wf(),
            final(self).same_shape(*old(self)),
            final(self).boid_grid@.len() == old(self).boid_grid@.len(),
            forall|i: int|
                0 <= i < final(self).boid_grid@.len() ==> (#[trigger] final(self).boid_grid@[i]).position == (Vec2 { x: 0, y: 0 }),
            final(self).forces@ == old(self).forces@,
            final(self).mouse_position == old(self).mouse_position,
            final(self).mouse_multiplier == old(self).mouse_multiplier,
    {
        let ghost s0 = *self;
        let n: usize = self.boid_grid.len();
        let mut i: usize = 0;
        while i < n
            invariant
                s0.wf(),
                self.same_shape(s0),
                self.rng == s0.rng,
                self.forces@ == s0.forces@,
                self.mouse_position == s0.mouse_position,
                self.mouse_multiplier == s0.mouse_multiplier,
                n == self.boid_grid@.len(),
                self.boid_grid@.len() == s0.boid_grid@.len(),
                i <= n,
                forall|t: int|
                    0 <= t < i ==> (#[trigger] self.boid_grid@[t]).position == (Vec2 {
                        x: 0,
                        y: 0,
                    }) && self.boid_grid@[t].velocity == s0.boid_grid@[t].velocity,
                forall|t: int| i <= t < n ==> self.boid_grid@[t] == s0.boid_grid@[t],
            decreases n - i,
        {
            let mut b: Boid = self.boid_grid[i];
            b.position = Vec2 { x: 0, y: 0 };
            self.boid_grid.set(i, b);
            i = i + 1;
        }
        proof {
            assert forall|t: int| 0 <= t < self.boid_grid@.len() implies boid_ok(
                #[trigger] self.boid_grid@[t],
                self.width as int,
                self.height as int,
                self.params.max_speed as int,
            ) by {
                assert(boid_ok(
                    s0.boid_grid@[t],
                    s0.width as int,
                    s0.height as int,
                    s0.params.max_speed as int,
                ));
            }
        }
        self.randomise_velocities();
    }

    /// Scatter every agent uniformly over the simulation space.
    fn randomise_positions(&mut self)
        requires
            old(self).wf(),
        ensures
            final(self).wf(),
            final(self).same_shape(*old(self)),
            final(self).boid_grid@.len() == old(self).boid_grid@.len(),
            final(self).forces@ == old(self).forces@,
            final(self).mouse_position == old(self).mouse_position,
            final(self).mouse_multiplier == old(self).mouse_multiplier,
    {
        let ghost s0 = *self;
        let w: i64 = self.width;
        let h: i64 = self.height;
        let n: usize = self.boid_grid.len();
        let mut i: usize = 0;
        while i < n
            invariant
                s0.wf(),
                self.same_shape(s0),
                w == s0.width,
                h == s0.height,
                self.forces@ == s0.forces@,
                self.mouse_position == s0.mouse_position,
                self.mouse_multiplier == s0.mouse_multiplier,
                n == self.boid_grid@.len(),
                self.boid_grid@.len() == s0.boid_grid@.len(),
                i <= n,
                forall|t: int|
                    0 <= t < i ==> 0 <= (#[trigger] self.boid_grid@[t]).position.x < s0.width && 0
                        <= self.boid_grid@[t].position.y < s0.height
                        && self.boid_grid@[t].velocity == s0.boid_grid@[t].velocity,
                forall|t: int| i <= t < n ==> self.boid_grid@[t] == s0.boid_grid@[t],
            decreases n - i,
        {
            let x: i64 = crate::rng::rng_below(&mut self.rng, w);
            let y: i64 = crate::rng::rng_below(&mut self.rng, h);
            let mut b: Boid = self.boid_grid[i];
            b.position = Vec2 { x, y };
            self.boid_grid.set(i, b);
            i = i + 1;
        }
        proof {
            assert forall|t: int| 0 <= t < self.boid_grid@.len() implies boid_ok(
                #[trigger] self.boid_grid@[t],
                self.width as int,
                self.height as int,
                self.params.max_speed as int,
            ) by {
                assert(boid_ok(
                    s0.boid_grid@[t],
                    s0.width as int,
                    s0.height as int,
                    s0.params.max_speed as int,
                ));
            }
        }
    }

    /// Give every agent a fresh velocity: a random direction rescaled to a
    /// random magnitude within the speed bound.
    fn randomise_velocities(&mut self)
        requires
            old(self).wf(),
        ensures
            final(self).wf(),
            final(self).same_shape(*old(self)),
            final(self).boid_grid@.len() == old(self).boid_grid@.len(),
            forall|i: int|
                0 <= i < final(self).boid_grid@.len() ==> (#[trigger] final(self).boid_grid@[i]).position == old(self).boid_grid@[i].position,
            final(self).forces@ == old(self).forces@,
            final(self).mouse_position == old(self).mouse_position,
            final(self).mouse_multiplier == old(self).mouse_multiplier,
    {
        let ghost s0 = *self;
        let ms: i64 = self.params.max_speed;
        let n: usize = self.boid_grid.len();
        let mut i: usize = 0;
        while i < n
            invariant
                s0.wf(),
                self.same_shape(s0),
                ms == s0.params.max_speed,
                self.forces@ == s0.forces@,
                self.mouse_position == s0.mouse_position,
                self.mouse_multiplier == s0.mouse_multiplier,
                n == self.boid_grid@.len(),
                self.boid_grid@.len() == s0.boid_grid@.len(),
                i <= n,
                forall|t: int|
                    0 <= t < i ==> m2(
                        (#[trigger] self.boid_grid@[t]).velocity.x as int,
                        self.boid_grid@[t].velocity.y as int,
                    ) <= s0.params.max_speed as int * s0.params.max_speed as int
                        && self.boid_grid@[t].position == s0.boid_grid@[t].position,
                forall|t: int| i <= t < n ==> self.boid_grid@[t] == s0.boid_grid@[t],
            decreases n - i,
        {
            let m: i64 = crate::rng::rng_below(&mut self.rng, ms + 1);
            let dx: i64 = crate::rng::rng_below(&mut self.rng, 2049) - 1024;
            let dy: i64 = crate::rng::rng_below(&mut self.rng, 2049) - 1024;
            let vel: Vec2 = if dx == 0 && dy == 0 {
                proof {
                    assert(m as int * m as int <= ms as int * ms as int) by (nonlinear_arith)
                        requires
                            0 <= m as int <= ms as int,
                    ;
                }
                Vec2 { x: 0, y: m }
            } else {
                proof {
                    crate::forces::lemma_nonzero_m2(dx as int, dy as int);
                    assert(m as int * m as int <= ms as int * ms as int) by (nonlinear_arith)
                        requires
                            0 <= m as int <= ms as int,
                    ;
                }
                crate::vec2::normalize_to(Vec2 { x: dx, y: dy }, m)
            };
            let mut b: Boid = self.boid_grid[i];
            b.velocity = vel;
            self.boid_grid.set(i, b);
            i = i + 1;
        }
        proof {
            assert forall|t: int| 0 <= t < self.boid_grid@.len() implies boid_ok(
                #[trigger] self.boid_grid@[t],
                self.width as int,
                self.height as int,
                self.params.max_speed as int,
            ) by {
                assert(boid_ok(
                    s0.boid_grid@[t],
                    s0.width as int,
                    s0.height as int,
                    s0.params.max_speed as int,
                ));
            }
        }
    }

    /// Spatial reordering: the two-axis shell sort over the whole gap
    /// sequence, rows by x then columns by y per gap. The agent store is
    /// permuted in place, to exactly the reordering that
    /// [`crate::sort::sp_sort_upto`] computes from the agents' positions and
    /// the grid shape; after the pass every column ascends by y; a grid
    /// whose rows and columns are already sorted comes back unchanged, so
    /// reordering twice without intervening motion is the same as once.
    pub fn sort_boids(&mut self)
        requires
            old(self).wf(),
        ensures
            final(self).wf(),
            final(self).same_shape(*old(self)),
            final(self).forces@ == old(self).forces@,
            final(self).mouse_position == old(self).mouse_position,
            final(self).mouse_multiplier == old(self).mouse_multiplier,
            final(self).boid_grid@.to_multiset() == old(self).boid_grid@.to_multiset(),
            final(self).boid_grid@.len() == old(self).boid_grid@.len(),
            final(self).rng == old(self).rng,
            final(self).boid_grid@ == crate::sort::sp_sort_upto(
                old(self).boid_grid@,
                old(self).dim_x as int,
                old(self).dim_y as int,
                9,
            ),
            crate::sort::lanes_sorted(
                final(self).boid_grid@,
                crate::sort::SortAxis::ByY,
                old(self).dim_x as int,
                old(self).dim_y as int,
            ),
            crate::sort::grid_presorted(
                old(self).boid_grid@,
                old(self).dim_x as int,
                old(self).dim_y as int,
            ) ==> final(self).boid_grid@ == old(self).boid_grid@,
    {
        let ghost s0 = *self;
        let dim_x: usize = self.dim_x;
        let dim_y: usize = self.dim_y;
        let mut gi: usize = 0;
        while gi < 8
            invariant
                s0.wf(),
                self.same_shape(s0),
                dim_x == s0.dim_x,
                dim_y == s0.dim_y,
                self.rng == s0.rng,
                self.forces@ == s0.forces@,
                self.mouse_position == s0.mouse_position,
                self.mouse_multiplier == s0.mouse_multiplier,
                self.boid_grid@.len() == s0.boid_grid@.len(),
                self.boid_grid@.to_multiset() == s0.boid_grid@.to_multiset(),
                crate::sort::grid_presorted(s0.boid_grid@, dim_x as int, dim_y as int)
                    ==> self.boid_grid@ == s0.boid_grid@,
                self.boid_grid@ == crate::sort::sp_sort_upto(
                    s0.boid_grid@,
                    dim_x as int,
                    dim_y as int,
                    gi as int,
                ),
                gi <= 8,
            decreases 8 - gi,
        {
            let ghost gprev = self.boid_grid@;
            let gap: usize = crate::sort::shell_gap(gi);
            if gap < dim_x {
                crate::sort::shell_pass(
                    &mut self.boid_grid,
                    dim_x,
                    dim_y,
                    gap,
                    crate::sort::SortAxis::ByX,
                );
            }
            if gap < dim_y {
                crate::sort::shell_pass(
                    &mut self.boid_grid,
                    dim_x,
                    dim_y,
                    gap,
                    crate::sort::SortAxis::ByY,
                );
            }
            proof {
                assert(self.boid_grid@ == crate::sort::sp_sort_step(
                    gprev,
                    dim_x as int,
                    dim_y as int,
                    gap as int,
                ));
            }
            gi = gi + 1;
        }
        let ghost g8 = self.boid_grid@;
        if 1 < dim_x {
            crate::sort::shell_pass(
                &mut self.boid_grid,
                dim_x,
                dim_y,
                1,
                crate::sort::SortAxis::ByX,
            );
        }
        if 1 < dim_y {
            crate::sort::shell_pass(
                &mut self.boid_grid,
                dim_x,
                dim_y,
                1,
                crate::sort::SortAxis::ByY,
            );
        }
        proof {
            assert(crate::sort::sp_shell_gap(8) == 1);
            assert(self.boid_grid@ == crate::sort::sp_sort_step(g8, dim_x as int, dim_y as int, 1));
            assert(self.boid_grid@ == crate::sort::sp_sort_upto(
                s0.boid_grid@,
                dim_x as int,
                dim_y as int,
                9,
            ));
        }
        proof {
            if dim_y as int <= 1 {
                assert forall|line: int|
                    0 <= line < crate::sort::lane_count(
                        crate::sort::SortAxis::ByY,
                        dim_x as int,
                        dim_y as int,
                    ) implies #[trigger] crate::sort::lane_sorted(
                    self.boid_grid@,
                    crate::sort::SortAxis::ByY,
                    dim_x as int,
                    dim_y as int,
                    line,
                ) by {
                    assert(crate::sort::lane_len(
                        crate::sort::SortAxis::ByY,
                        dim_x as int,
                        dim_y as int,
                    ) <= 1);
                }
            }
            lemma_ok_transfer(
                s0.boid_grid@,
                self.boid_grid@,
                s0.width as int,
                s0.height as int,
                s0.params.max_speed as int,
            );
        }
    }

    /// Recompute the force buffer: for every grid slot, the neighbourhood
    /// steering plus the mouse term of the agent in that slot, against a
    /// read-only snapshot of the agent store.
    pub fn calculate_forces(&mut self)
        requires
            old(self).wf(),
        ensures
            final(self).wf(),
            final(self).same_shape(*old(self)),
            final(self).boid_grid@ == old(self).boid_grid@,
            final(self).mouse_position == old(self).mouse_position,
            final(self).mouse_multiplier == old(self).mouse_multiplier,
            final(self).rng == old(self).rng,
            final(self).forces@.len() == old(self).forces@.len(),
            forall|col: int, row: int|
                0 <= col < old(self).dim_x as int && 0 <= row < old(self).dim_y as int
                    ==> (#[trigger] final(self).forces@[col + row * old(self).dim_x as int].x
                    as int, final(self).forces@[col + row * old(self).dim_x as int].y as int)
                    == sp_slot_force(
                    old(self).boid_grid@,
                    old(self).dim_x as int,
                    old(self).dim_y as int,
                    col,
                    row,
                    old(self).params,
                    old(self).mouse_position,
                    old(self).mouse_multiplier as int,
                ),
    {
        let ghost s0 = *self;
        let dim_x: usize = self.dim_x;
        let dim_y: usize = self.dim_y;
        let mut row: usize = 0;
        while row < dim_y
            invariant
                s0.wf(),
                self.same_shape(s0),
                dim_x == s0.dim_x,
                dim_y == s0.dim_y,
                self.rng == s0.rng,
                self.boid_grid@ == s0.boid_grid@,
                self.mouse_position == s0.mouse_position,
                self.mouse_multiplier == s0.mouse_multiplier,
                self.forces@.len() == s0.forces@.len(),
                row <= dim_y,
                forall|i: int|
                    0 <= i < self.forces@.len() ==> crate::fixed::abs_i(
                        #[trigger] self.forces@[i].x as int,
                    ) <= FORCE_BOUND as int && crate::fixed::abs_i(self.forces@[i].y as int)
                        <= FORCE_BOUND as int,
                forall|c: int, r: int|
                    #![trigger self.forces@[c + r * dim_x as int]]
                    0 <= c < dim_x as int && 0 <= r < row as int ==> (self.forces@[c + r
                        * dim_x as int].x as int, self.forces@[c + r * dim_x as int].y as int)
                        == sp_slot_force(
                        s0.boid_grid@,
                        dim_x as int,
                        dim_y as int,
                        c,
                        r,
                        s0.params,
                        s0.mouse_position,
                        s0.mouse_multiplier as int,
                    ),
            decreases dim_y - row,
        {
            let mut col: usize = 0;
            while col < dim_x
                invariant
                    s0.wf(),
                    self.same_shape(s0),
                    dim_x == s0.dim_x,
                    dim_y == s0.dim_y,
                    self.rng == s0.rng,
                    self.boid_grid@ == s0.boid_grid@,
                    self.mouse_position == s0.mouse_position,
                    self.mouse_multiplier == s0.mouse_multiplier,
                    self.forces@.len() == s0.forces@.len(),
                    row < dim_y,
                    col <= dim_x,
                    forall|i: int|
                        0 <= i < self.forces@.len() ==> crate::fixed::abs_i(
                            #[trigger] self.forces@[i].x as int,
                        ) <= FORCE_BOUND as int && crate::fixed::abs_i(self.forces@[i].y as int)
                            <= FORCE_BOUND as int,
                    forall|c: int, r: int|
                        #![trigger self.forces@[c + r * dim_x as int]]
                        0 <= c < dim_x as int && 0 <= r < row as int ==> (self.forces@[c
                            + r * dim_x as int].x as int, self.forces@[c + r * dim_x as int].y
                            as int) == sp_slot_force(
                            s0.boid_grid@,
                            dim_x as int,
                            dim_y as int,
                            c,
                            r,
                            s0.params,
                            s0.mouse_position,
                            s0.mouse_multiplier as int,
                        ),
                    forall|c: int|
                        #![trigger self.forces@[c + row as int * dim_x as int]]
                        0 <= c < col as int ==> (self.forces@[c + row as int * dim_x
                            as int].x as int, self.forces@[c + row as int * dim_x as int].y as int)
                            == sp_slot_force(
                            s0.boid_grid@,
                            dim_x as int,
                            dim_y as int,
                            c,
                            row as int,
                            s0.params,
                            s0.mouse_position,
                            s0.mouse_multiplier as int,
                        ),
                decreases dim_x - col,
            {
                let idx: usize = crate::sort::slot_at(
                    crate::sort::SortAxis::ByY,
                    dim_x,
                    dim_y,
                    col,
                    row,
                );
                let b: Boid = self.boid_grid[idx];
                let ns: Vec<Boid> = crate::neighbours::find_neighbours(
                    &self.boid_grid,
                    dim_x,
                    dim_y,
                    col,
                    row,
                    &b,
                );
                proof {
                    assert forall|t: int| 0 <= t < ns@.len() implies crate::forces::nb_ok(
                        #[trigger] ns@[t],
                        s0.params.max_speed as int,
                    ) by {
                        let j = choose|j: int|
                            0 <= j < self.boid_grid@.len() && self.boid_grid@[j] == ns@[t];
                        assert(boid_ok(
                            self.boid_grid@[j],
                            s0.width as int,
                            s0.height as int,
                            s0.params.max_speed as int,
                        ));
                    }
                }
                let fr: Vec2 = crate::forces::react_to_neighbours(&b, &ns, &self.params);
                let fm: Vec2 = crate::forces::react_to_mouse(
                    &b,
                    self.mouse_position,
                    self.params.mouse_weight,
                    self.mouse_multiplier,
                );
                let tot = Vec2 { x: fr.x + fm.x, y: fr.y + fm.y };
                let ghost fpre = self.forces@;
                self.forces.set(idx, tot);
                proof {
                    assert forall|c: int, r: int|
                        #![trigger self.forces@[c + r * dim_x as int]]
                        0 <= c < dim_x as int && 0 <= r < row as int implies self.forces@[c + r
                        * dim_x as int] == fpre[c + r * dim_x as int] by {
                        if c != col as int {
                            crate::sort::lemma_lane_distinct(
                                crate::sort::SortAxis::ByY,
                                dim_x as int,
                                dim_y as int,
                                c,
                                r,
                                col as int,
                                row as int,
                            );
                        } else {
                            crate::sort::lemma_slot_mono(
                                crate::sort::SortAxis::ByY,
                                dim_x as int,
                                dim_y as int,
                                c,
                                r,
                                row as int,
                            );
                        }
                        crate::sort::lemma_slot_range(
                            crate::sort::SortAxis::ByY,
                            dim_x as int,
                            dim_y as int,
                            c,
                            r,
                        );
                    }
                    assert forall|c: int|
                        #![trigger self.forces@[c + row as int * dim_x as int]]
                        0 <= c < col as int implies self.forces@[c + row as int * dim_x as int]
                        == fpre[c + row as int * dim_x as int] by {
                        crate::sort::lemma_lane_distinct(
                            crate::sort::SortAxis::ByY,
                            dim_x as int,
                            dim_y as int,
                            c,
                            row as int,
                            col as int,
                            row as int,
                        );
                        crate::sort::lemma_slot_range(
                            crate::sort::SortAxis::ByY,
                            dim_x as int,
                            dim_y as int,
                            c,
                            row as int,
                        );
                    }
                }
                col = col + 1;
            }
            row = row + 1;
        }
    }

    /// Integrate every agent against the force buffer: clamp the new
    /// velocity to the speed bound, advance the position, wrap it across the
    /// boundary. Every agent ends the tick inside the space with its speed
    /// within the bound.
    pub fn update_boids(&mut self)
        requires
            old(self).wf(),
        ensures
            final(self).wf(),
            final(self).same_shape(*old(self)),
            final(self).forces@ == old(self).forces@,
            final(self).mouse_position == old(self).mouse_position,
            final(self).mouse_multiplier == old(self).mouse_multiplier,
            final(self).rng == old(self).rng,
            final(self).boid_grid@.len() == old(self).boid_grid@.len(),
            forall|i: int|
                0 <= i < final(self).boid_grid@.len() ==> ((#[trigger] final(self).boid_grid@[i]).velocity.x as int, final(self).boid_grid@[i].velocity.y as int)
                    == sp_step_vel(
                    old(self).boid_grid@[i],
                    old(self).forces@[i].x as int,
                    old(self).forces@[i].y as int,
                    old(self).params.max_speed as int,
                ) && (final(self).boid_grid@[i].position.x as int, final(self).boid_grid@[i].position.y as int) == sp_step_pos(
                    old(self).boid_grid@[i],
                    old(self).forces@[i].x as int,
                    old(self).forces@[i].y as int,
                    old(self).params.max_speed as int,
                    old(self).width as int,
                    old(self).height as int,
                ),
    {
        let ghost s0 = *self;
        let w: i64 = self.width;
        let h: i64 = self.height;
        let ms: i64 = self.params.max_speed;
        let n: usize = self.boid_grid.len();
        let mut i: usize = 0;
        while i < n
            invariant
                s0.wf(),
                self.same_shape(s0),
                w == s0.width,
                h == s0.height,
                ms == s0.params.max_speed,
                self.rng == s0.rng,
                self.forces@ == s0.forces@,
                self.mouse_position == s0.mouse_position,
                self.mouse_multiplier == s0.mouse_multiplier,
                n == self.boid_grid@.len(),
                self.boid_grid@.len() == s0.boid_grid@.len(),
                i <= n,
                forall|t: int|
                    0 <= t < i ==> ((#[trigger] self.boid_grid@[t]).velocity.x as int,
                    self.boid_grid@[t].velocity.y as int) == sp_step_vel(
                        s0.boid_grid@[t],
                        s0.forces@[t].x as int,
                        s0.forces@[t].y as int,
                        ms as int,
                    ) && (self.boid_grid@[t].position.x as int, self.boid_grid@[t].position.y
                        as int) == sp_step_pos(
                        s0.boid_grid@[t],
                        s0.forces@[t].x as int,
                        s0.forces@[t].y as int,
                        ms as int,
                        w as int,
                        h as int,
                    ) && boid_ok(self.boid_grid@[t], w as int, h as int, ms as int),
                forall|t: int| i <= t < n ==> self.boid_grid@[t] == s0.boid_grid@[t],
            decreases n - i,
        {
            let b: Boid = self.boid_grid[i];
            let f: Vec2 = self.forces[i];
            proof {
                assert(self.boid_grid@[i as int] == s0.boid_grid@[i as int]);
                assert(boid_ok(s0.boid_grid@[i as int], w as int, h as int, ms as int));
                assert(crate::fixed::abs_i(s0.forces@[i as int].x as int) <= FORCE_BOUND as int);
            }
            let nb: Boid = integrate(&b, f, w, h, ms);
            self.boid_grid.set(i, nb);
            i = i + 1;
        }
        proof {
            assert forall|t: int| 0 <= t < self.boid_grid@.len() implies boid_ok(
                #[trigger] self.boid_grid@[t],
                self.width as int,
                self.height as int,
                self.params.max_speed as int,
            ) by {
                assert(boid_ok(self.boid_grid@[t], w as int, h as int, ms as int));
            }
        }
    }

    /// Advance the simulation one tick: reorder the agent store, recompute
    /// every force against the reordered snapshot, then integrate. After
    /// every tick each agent's position lies inside
    /// `[0, width) x [0, height)` and its speed is within `max_speed`. The
    /// tick is a function of the prior state: the snapshot is the reordering
    /// [`crate::sort::sp_sort_upto`] computes, each slot's force and
    /// integration are fixed by [`sp_tick_rel`], and the random generator is
    /// untouched.
    pub fn update(&mut self)
        requires
            old(self).wf(),
        ensures
            final(self).wf(),
            final(self).same_shape(*old(self)),
            final(self).mouse_position == old(self).mouse_position,
            final(self).mouse_multiplier == old(self).mouse_multiplier,
            final(self).rng == old(self).rng,
            final(self).boid_grid@.len() == old(self).boid_grid@.len(),
            forall|i: int|
                0 <= i < final(self).boid_grid@.len() ==> boid_ok(
                    #[trigger] final(self).boid_grid@[i],
                    old(self).width as int,
                    old(self).height as int,
                    old(self).params.max_speed as int,
                ),
            sp_tick_rel(
                old(self).boid_grid@,
                crate::sort::sp_sort_upto(
                    old(self).boid_grid@,
                    old(self).dim_x as int,
                    old(self).dim_y as int,
                    9,
                ),
                final(self).boid_grid@,
                old(self).dim_x as int,
                old(self).dim_y as int,
                old(self).params,
                old(self).mouse_position,
                old(self).mouse_multiplier as int,
                old(self).width as int,
                old(self).height as int,
            ),
    {
        let ghost pre = self.boid_grid@;
        let ghost dx = self.dim_x as int;
        let ghost dy = self.dim_y as int;
        let ghost p = self.params;
        let ghost mouse = self.mouse_position;
        let ghost mult = self.mouse_multiplier as int;
        let ghost w = self.width as int;
        let ghost h = self.height as int;
        self.sort_boids();
        let ghost g1 = self.boid_grid@;
        proof {
            assert(g1 == crate::sort::sp_sort_upto(pre, dx, dy, 9));
        }
        self.calculate_forces();
        let ghost forces1 = self.forces@;
        self.update_boids();
        proof {
            assert(sp_tick_rel(pre, g1, self.boid_grid@, dx, dy, p, mouse, mult, w, h)) by {
                assert forall|col: int, row: int|
                    #![trigger self.boid_grid@[col + row * dx]]
                    0 <= col < dx && 0 <= row < dy implies ({
                    let f = sp_slot_force(g1, dx, dy, col, row, p, mouse, mult);
                    let slot = col + row * dx;
                    (self.boid_grid@[slot].velocity.x as int, self.boid_grid@[slot].velocity.y
                        as int) == sp_step_vel(g1[slot], f.0, f.1, p.max_speed as int) && (
                    self.boid_grid@[slot].position.x as int, self.boid_grid@[slot].position.y
                        as int) == sp_step_pos(g1[slot], f.0, f.1, p.max_speed as int, w, h)
                }) by {
                    crate::sort::lemma_slot_range(crate::sort::SortAxis::ByY, dx, dy, col, row);
                    assert(forces1[col + row * dx] == self.forces@[col + row * dx]);
                }
            }
        }
    }
}

/// One full tick, related state to state: `g1` is a reordering of the
/// pre-tick agent store whose columns ascend by y (and which equals the
/// pre-tick store when that was already row- and column-sorted), and every
/// post-tick agent is the integration of `g1`'s agent in the same slot under
/// the force computed for that slot against the `g1` snapshot.
pub open spec fn sp_tick_rel(
    pre: Seq<Boid>,
    g1: Seq<Boid>,
    post: Seq<Boid>,
    dim_x: int,
    dim_y: int,
    p: FlockingConstants,
    mouse: Vec2,
    mult: int,
    w: int,
    h: int,
) -> bool {
    &&& g1.len() == pre.len()
    &&& post.len() == pre.len()
    &&& g1.to_multiset() == pre.to_multiset()
    &&& crate::sort::lanes_sorted(g1, crate::sort::SortAxis::ByY, dim_x, dim_y)
    &&& (crate::sort::grid_presorted(pre, dim_x, dim_y) ==> g1 == pre)
    &&& forall|col: int, row: int|
        #![trigger post[col + row * dim_x]]
        0 <= col < dim_x && 0 <= row < dim_y ==> ({
            let f = sp_slot_force(g1, dim_x, dim_y, col, row, p, mouse, mult);
            let slot = col + row * dim_x;
            (post[slot].velocity.x as int, post[slot].velocity.y as int) == sp_step_vel(
                g1[slot],
                f.0,
                f.1,
                p.max_speed as int,
            ) && (post[slot].position.x as int, post[slot].position.y as int) == sp_step_pos(
                g1[slot],
                f.0,
                f.1,
                p.max_speed as int,
                w,
                h,
            )
        })
}

/// The force the engine stores for the agent in slot `(col, row)`: its
/// neighbourhood steering plus its mouse term.
pub open spec fn sp_slot_force(
    g: Seq<Boid>,
    dim_x: int,
    dim_y: int,
    col: int,
    row: int,
    p: FlockingConstants,
    mouse: Vec2,
    mult: int,
) -> (int, int) {
    let b = g[col + row * dim_x];
    let rr = crate::forces::sp_react(
        b,
        crate::neighbours::sp_neighbourhood(g, dim_x, dim_y, col, row),
        p,
    );
    let mm = crate::forces::sp_mouse(
        b.position.x as int,
        b.position.y as int,
        mouse.x as int,
        mouse.y as int,
        p.mouse_weight as int,
        mult,
    );
    (rr.0 + mm.0, rr.1 + mm.1)
}

/// Elementwise goodness carries across a permutation: if two stores hold the
/// same agents (as a multiset) and every agent of the first is in a good
/// state, so is every agent of the second.
pub proof fn lemma_ok_transfer(g1: Seq<Boid>, g2: Seq<Boid>, w: int, h: int, ms: int)
    requires
        g1.to_multiset() == g2.to_multiset(),
        forall|i: int| 0 <= i < g1.len() ==> boid_ok(#[trigger] g1[i], w, h, ms),
    ensures
        forall|i: int| 0 <= i < g2.len() ==> boid_ok(#[trigger] g2[i], w, h, ms),
{
    broadcast use vstd::seq_lib::group_to_multiset_ensures;

    assert forall|i: int| 0 <= i < g2.len() implies boid_ok(#[trigger] g2[i], w, h, ms) by {
        assert(g2.contains(g2[i]));
        assert(g2.to_multiset().count(g2[i]) > 0);
        assert(g1.to_multiset().count(g2[i]) > 0);
        assert(g1.contains(g2[i]));
        let j = choose|j: int| 0 <= j < g1.len() && g1[j] == g2[i];
        assert(boid_ok(g1[j], w, h, ms));
    }
}

} // verus!
