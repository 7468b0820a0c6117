//! End-to-end engine scenarios: force model, integration, update ticks.

use aproxiflock::forces::{react_to_mouse, react_to_neighbours};
use aproxiflock::system::{
    check_config, integrate, wrap_coord, Boid, FlockingConfig, FlockingConstants, FlockingSystem,
};
use aproxiflock::vec2::Vec2;

const S: i64 = 1024;

fn boid(px: i64, py: i64, vx: i64, vy: i64) -> Boid {
    Boid {
        position: Vec2 { x: px, y: py },
        velocity: Vec2 { x: vx, y: vy },
    }
}

fn sep_only_config() -> FlockingConfig {
    FlockingConfig {
        boid_count: 2,
        width: 100 * S,
        height: 100 * S,
        max_speed: 10 * S,
        max_force: 10 * S,
        mouse_weight: 0,
        sep_weight: S,
        ali_weight: 0,
        coh_weight: 0,
        sep_radius: 5 * S,
        ali_radius: 0,
        coh_radius: 0,
    }
}

#[test]
fn two_agent_separation_points_apart() {
    // Agent A at the origin, agent B one unit along +x: A is pushed in -x,
    // B in +x, and the repulsion accumulator has magnitude 1/distance = 1.0.
    let params = FlockingConstants::from_config(sep_only_config());
    let a = boid(0, 0, 0, 0);
    let b = boid(S, 0, 0, 0);

    let fa = react_to_neighbours(&a, &vec![b], &params);
    assert_eq!(fa, Vec2 { x: -10 * S, y: 0 });

    let fb = react_to_neighbours(&b, &vec![a], &params);
    assert_eq!(fb, Vec2 { x: 10 * S, y: 0 });
}

#[test]
fn far_neighbour_contributes_nothing() {
    // One candidate far outside every radius: zero behaviour force.
    let params = FlockingConstants::from_config(sep_only_config());
    let a = boid(0, 0, 0, 0);
    let far = boid(50 * S, 0, 0, 0);
    let f = react_to_neighbours(&a, &vec![far], &params);
    assert_eq!(f, Vec2 { x: 0, y: 0 });
}

#[test]
fn no_neighbours_only_mouse_term() {
    // An isolated agent feels only the mouse: repulsion pushes it away.
    let params = FlockingConstants::from_config(sep_only_config());
    let a = boid(0, 0, 0, 0);
    let f = react_to_neighbours(&a, &Vec::new(), &params);
    assert_eq!(f, Vec2 { x: 0, y: 0 });

    let fm = react_to_mouse(&a, Vec2 { x: 50 * S, y: 50 * S }, 600 * S, 1);
    assert_eq!(fm, Vec2 { x: -86, y: -86 });
}

#[test]
fn mouse_attraction_flips_sign() {
    let a = boid(0, 0, 0, 0);
    let rep = react_to_mouse(&a, Vec2 { x: 50 * S, y: 0 }, 600 * S, 1);
    let att = react_to_mouse(&a, Vec2 { x: 50 * S, y: 0 }, 600 * S, -1);
    assert!(rep.x < 0);
    assert_eq!(att.x, -rep.x);
    assert_eq!(att.y, -rep.y);
}

#[test]
fn mouse_at_agent_position_is_zero() {
    let a = boid(7 * S, 3 * S, 0, 0);
    let f = react_to_mouse(&a, Vec2 { x: 7 * S, y: 3 * S }, 600 * S, 1);
    assert_eq!(f, Vec2 { x: 0, y: 0 });
}

fn one_agent_config(mouse_weight: i64) -> FlockingConfig {
    FlockingConfig {
        boid_count: 1,
        width: 100 * S,
        height: 100 * S,
        max_speed: 2560,
        max_force: 410,
        mouse_weight,
        sep_weight: 1536,
        ali_weight: S,
        coh_weight: S,
        sep_radius: 6 * S,
        ali_radius: 11776,
        coh_radius: 11776,
    }
}

#[test]
fn agent_accelerates_toward_attracting_mouse() {
    // Mouse at (50, 50), attraction on; an agent at (0, 50) speeds up
    // toward increasing x over successive ticks.
    let conf = one_agent_config(600 * S);
    assert!(check_config(&conf));
    let mut sim = FlockingSystem::new(conf);
    assert_eq!(sim.boids().len(), 1);
    sim.set_boid(0, 0, boid(0, 50 * S, 0, 0));
    sim.set_mouse(50 * S, 50 * S);
    sim.enable_mouse_attraction();

    sim.update();
    let v1 = sim.boid_at(0, 0).velocity.x;
    let x1 = sim.boid_at(0, 0).position.x;
    assert_eq!(v1, 245);
    assert_eq!(x1, 245);

    sim.update();
    let v2 = sim.boid_at(0, 0).velocity.x;
    let x2 = sim.boid_at(0, 0).position.x;
    assert!(v2 > v1);
    assert!(x2 > x1);

    sim.update();
    assert!(sim.boid_at(0, 0).velocity.x > v2);
    assert!(sim.boid_at(0, 0).position.x > x2);
}

#[test]
fn agent_wraps_across_right_edge() {
    // An agent just inside the right edge moving +x reappears near x = 0.
    let conf = one_agent_config(0);
    let mut sim = FlockingSystem::new(conf);
    sim.set_boid(0, 0, boid(100 * S - 51, 50 * S, S, 0));
    sim.update();
    let b = sim.boid_at(0, 0);
    assert_eq!(b.velocity, Vec2 { x: S, y: 0 });
    assert_eq!(b.position, Vec2 { x: 973, y: 50 * S });
}

#[test]
fn speed_and_position_stay_bounded() {
    // After any number of ticks every agent sits inside the space and its
    // speed is within the bound.
    let conf = FlockingConfig {
        boid_count: 50,
        width: 100 * S,
        height: 100 * S,
        max_speed: 2560,
        max_force: 410,
        mouse_weight: 600 * S,
        sep_weight: 1536,
        ali_weight: S,
        coh_weight: S,
        sep_radius: 6 * S,
        ali_radius: 11776,
        coh_radius: 11776,
    };
    let mut sim = FlockingSystem::new(conf);
    sim.randomise();
    sim.set_mouse(50 * S, 50 * S);
    for _ in 0..5 {
        sim.update();
        for b in sim.boids().iter() {
            assert!(0 <= b.position.x && b.position.x < 100 * S);
            assert!(0 <= b.position.y && b.position.y < 100 * S);
            let vx = b.velocity.x as i128;
            let vy = b.velocity.y as i128;
            assert!(vx * vx + vy * vy <= 2560 * 2560);
        }
    }
}

#[test]
fn integrate_clamps_speed() {
    let b = boid(10, 10, 0, 0);
    let nb = integrate(&b, Vec2 { x: 100000, y: 0 }, 100 * S, 100 * S, 2560);
    assert_eq!(nb.velocity, Vec2 { x: 2560, y: 0 });
    assert_eq!(nb.position, Vec2 { x: 10 + 2560, y: 10 });
}

#[test]
fn wrap_coord_cases() {
    assert_eq!(wrap_coord(90, 20, 100), 10);
    assert_eq!(wrap_coord(10, -20, 100), 90);
    assert_eq!(wrap_coord(5, -5, 100), 0);
    assert_eq!(wrap_coord(50, 10, 100), 60);
    assert_eq!(wrap_coord(0, 0, 100), 0);
}

#[test]
fn reset_commands_place_agents() {
    let conf = FlockingConfig {
        boid_count: 9,
        ..one_agent_config(0)
    };
    let mut sim = FlockingSystem::new(conf);
    sim.randomise();
    sim.zeroise();
    for b in sim.boids().iter() {
        assert_eq!(b.position, Vec2 { x: 0, y: 0 });
    }
    sim.centralise();
    for b in sim.boids().iter() {
        assert_eq!(b.position, Vec2 { x: 50 * S, y: 50 * S });
    }
    sim.randomise();
    for b in sim.boids().iter() {
        assert!(0 <= b.position.x && b.position.x < 100 * S);
        assert!(0 <= b.position.y && b.position.y < 100 * S);
    }
}

#[test]
fn rejects_bad_config() {
    let mut conf = one_agent_config(0);
    conf.max_speed = conf.width + 1;
    assert!(!check_config(&conf));
    conf.max_speed = 2560;
    assert!(check_config(&conf));
    conf.width = 0;
    assert!(!check_config(&conf));
}
