//! Grid sizing, spatial reordering and neighbour candidate selection.

use aproxiflock::grid::grid_size;
use aproxiflock::neighbours::{find_neighbours, octant_offsets};
use aproxiflock::sort::{shell_pass, SortAxis};
use aproxiflock::system::{Boid, FlockingConfig, FlockingSystem};
use aproxiflock::vec2::Vec2;

const S: i64 = 1024;

fn boid_at_x(x: i64) -> Boid {
    Boid {
        position: Vec2 { x, y: 0 },
        velocity: Vec2 { x: 0, y: 0 },
    }
}

fn placed(px: i64, py: i64) -> Boid {
    Boid {
        position: Vec2 { x: px, y: py },
        velocity: Vec2 { x: 0, y: 0 },
    }
}

#[test]
fn grid_covers_desired_count() {
    // A square space: the grid rounds a thousand agents up to 32 x 32.
    let (dx, dy) = grid_size(800 * S, 800 * S, 1000);
    assert_eq!((dx, dy), (32, 32));
    assert!(dx * dy >= 1000);
}

#[test]
fn grid_follows_aspect_ratio() {
    // Twice as wide as tall, two agents: two columns, one row.
    let (dx, dy) = grid_size(2 * S, S, 2);
    assert_eq!((dx, dy), (2, 1));
}

#[test]
fn grid_degenerates_at_zero() {
    let (dx, dy) = grid_size(S, S, 0);
    assert_eq!((dx, dy), (0, 0));
    let (dx1, dy1) = grid_size(S, S, 1);
    assert_eq!((dx1, dy1), (1, 1));
}

#[test]
fn row_pass_sorts_by_x() {
    let mut g = vec![boid_at_x(3), boid_at_x(1), boid_at_x(2)];
    shell_pass(&mut g, 3, 1, 1, SortAxis::ByX);
    let xs: Vec<i64> = g.iter().map(|b| b.position.x).collect();
    assert_eq!(xs, vec![1, 2, 3]);
}

#[test]
fn column_pass_sorts_by_y() {
    let mut g = vec![placed(0, 30), placed(0, 10), placed(0, 20)];
    shell_pass(&mut g, 1, 3, 1, SortAxis::ByY);
    let ys: Vec<i64> = g.iter().map(|b| b.position.y).collect();
    assert_eq!(ys, vec![10, 20, 30]);
}

#[test]
fn wide_gap_pass_orders_each_stride() {
    // One row of five, gap two: the two residue classes are sorted along
    // their stride, while adjacent slots of different classes may stay
    // unordered.
    let mut g = vec![
        boid_at_x(3),
        boid_at_x(9),
        boid_at_x(1),
        boid_at_x(2),
        boid_at_x(7),
    ];
    shell_pass(&mut g, 5, 1, 2, SortAxis::ByX);
    let xs: Vec<i64> = g.iter().map(|b| b.position.x).collect();
    assert_eq!(xs, vec![1, 2, 3, 9, 7]);
}

#[test]
fn row_pass_keeps_boids_in_their_row() {
    // Two rows of two: the row pass sorts each row but moves nothing
    // between rows.
    let mut g = vec![placed(5, 0), placed(1, 0), placed(4, 1), placed(2, 1)];
    shell_pass(&mut g, 2, 2, 1, SortAxis::ByX);
    let row0: Vec<i64> = vec![g[0].position.x, g[1].position.x];
    let row1: Vec<i64> = vec![g[2].position.x, g[3].position.x];
    assert_eq!(row0, vec![1, 5]);
    assert_eq!(row1, vec![2, 4]);
    assert!(g[0].position.y == 0 && g[1].position.y == 0);
    assert!(g[2].position.y == 1 && g[3].position.y == 1);
}

#[test]
fn pass_is_identity_on_sorted_rows() {
    let sorted = vec![boid_at_x(1), boid_at_x(2), boid_at_x(3)];
    let mut g = sorted.clone();
    shell_pass(&mut g, 3, 1, 1, SortAxis::ByX);
    assert_eq!(g, sorted);
    shell_pass(&mut g, 3, 1, 2, SortAxis::ByX);
    assert_eq!(g, sorted);
}

fn four_agent_system() -> FlockingSystem {
    let conf = FlockingConfig {
        boid_count: 4,
        width: 100 * S,
        height: 100 * S,
        max_speed: 2560,
        max_force: 410,
        mouse_weight: 0,
        sep_weight: 1536,
        ali_weight: S,
        coh_weight: S,
        sep_radius: 6 * S,
        ali_radius: 11776,
        coh_radius: 11776,
    };
    FlockingSystem::new(conf)
}

#[test]
fn reordering_presorted_grid_changes_nothing() {
    // Rows already ascend by x and columns by y: a full reordering pass is
    // the identity, so reordering twice is the same as once.
    let mut sim = four_agent_system();
    assert_eq!((sim.dim_x, sim.dim_y), (2, 2));
    let grid = [
        placed(0, 0),
        placed(10 * S, 0),
        placed(0, 10 * S),
        placed(10 * S, 10 * S),
    ];
    sim.set_boid(0, 0, grid[0]);
    sim.set_boid(1, 0, grid[1]);
    sim.set_boid(0, 1, grid[2]);
    sim.set_boid(1, 1, grid[3]);
    sim.sort_boids();
    assert_eq!(*sim.boids(), grid.to_vec());
    sim.sort_boids();
    assert_eq!(*sim.boids(), grid.to_vec());
}

#[test]
fn reordering_sorts_rows_and_columns() {
    let mut sim = four_agent_system();
    sim.set_boid(0, 0, placed(10 * S, 10 * S));
    sim.set_boid(1, 0, placed(0, 10 * S));
    sim.set_boid(0, 1, placed(10 * S, 0));
    sim.set_boid(1, 1, placed(0, 0));
    sim.sort_boids();
    let b00 = sim.boid_at(0, 0);
    let b10 = sim.boid_at(1, 0);
    let b01 = sim.boid_at(0, 1);
    let b11 = sim.boid_at(1, 1);
    // Columns ascend by y after the final pass.
    assert!(b00.position.y <= b01.position.y);
    assert!(b10.position.y <= b11.position.y);
    // The four agents are still the same four agents.
    let mut xs: Vec<(i64, i64)> = sim
        .boids()
        .iter()
        .map(|b| (b.position.x, b.position.y))
        .collect();
    xs.sort();
    assert_eq!(
        xs,
        vec![(0, 0), (0, 10 * S), (10 * S, 0), (10 * S, 10 * S)]
    );
}

#[test]
fn octant_table_matches_heading() {
    // Moving right and up, mostly horizontal.
    let offs = octant_offsets(100, 50);
    assert_eq!(
        offs,
        [
            (1, -1),
            (1, 0),
            (1, 1),
            (2, 0),
            (2, 1),
            (0, 1),
            (2, 2),
            (0, -1),
            (2, -1),
            (1, 2)
        ]
    );
    // A stationary agent falls into one fixed (arbitrary but stable) octant.
    let still = octant_offsets(0, 0);
    assert_eq!(still[0], (-1, -1));
    assert_eq!(still, octant_offsets(0, 0));
}

#[test]
fn candidates_follow_table_and_drop_out_of_range() {
    // A 3 x 3 grid, every agent's x encodes its slot; the centre agent moves
    // right-up (x-major), so its candidates are the in-range offsets of that
    // octant, in table order.
    let mut g: Vec<Boid> = Vec::new();
    for slot in 0..9 {
        g.push(boid_at_x(slot as i64));
    }
    let mut centre = g[4];
    centre.velocity = Vec2 { x: S, y: 512 };
    g[4] = centre;
    let ns = find_neighbours(&g, 3, 3, 1, 1, &centre);
    let picked: Vec<i64> = ns.iter().map(|b| b.position.x).collect();
    assert_eq!(picked, vec![2, 5, 8, 7, 1]);
}
