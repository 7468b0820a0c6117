//! Scalar arithmetic, configuration building, frame-rate counting and
//! control-event dispatch.

use std::cell::Cell;

use aproxiflock::config::{
    build_flocking_config, merge, window_size, ConfigBuilder, SimulationConfig, UserFlockingConfig,
    UserSimulationConfig, UserWindowConfig, WindowSize,
};
use aproxiflock::event::{handle_event, BoidControlEvent, BoidKey};
use aproxiflock::fixed::{abs64, ceil_sqrt, div_trunc, mul_fp, muldiv_trunc};
use aproxiflock::fps::{FpsCache, FpsCounter, NUM_SAMPLES};
use aproxiflock::system::{Boid, FlockingConfig, FlockingSystem};
use aproxiflock::vec2::{limit, mag2_u, normalize_to, Vec2};

const S: i64 = 1024;

#[test]
fn ceil_sqrt_rounds_up() {
    assert_eq!(ceil_sqrt(0), 0);
    assert_eq!(ceil_sqrt(1), 1);
    assert_eq!(ceil_sqrt(2), 2);
    assert_eq!(ceil_sqrt(4), 2);
    assert_eq!(ceil_sqrt(5), 3);
    assert_eq!(ceil_sqrt(1000), 32);
    assert_eq!(ceil_sqrt(1u128 << 40), 1u64 << 20);
}

#[test]
fn truncated_products_and_quotients() {
    assert_eq!(muldiv_trunc(7, 3, 2), 10);
    assert_eq!(muldiv_trunc(-7, 3, 2), -10);
    assert_eq!(muldiv_trunc(7, -3, 2), -10);
    assert_eq!(muldiv_trunc(-7, -3, 2), 10);
    assert_eq!(mul_fp(1536, 1024), 1536);
    assert_eq!(mul_fp(1536, -410), -615);
    assert_eq!(div_trunc(7, 2), 3);
    assert_eq!(div_trunc(-7, 2), -3);
    assert_eq!(abs64(-5), 5);
    assert_eq!(abs64(5), 5);
}

#[test]
fn normalize_rescales_to_target() {
    let v = Vec2 { x: 3 * S, y: 4 * S };
    let r = normalize_to(v, S);
    assert_eq!(r, Vec2 { x: 614, y: 819 });
    let rx = r.x as i128;
    let ry = r.y as i128;
    assert!(rx * rx + ry * ry <= (S as i128) * (S as i128));
    assert_eq!(mag2_u(3, 4), 25);
}

#[test]
fn limit_clamps_only_when_over() {
    assert_eq!(limit(Vec2 { x: 2 * S, y: 0 }, S), Vec2 { x: S, y: 0 });
    assert_eq!(limit(Vec2 { x: 500, y: 300 }, S), Vec2 { x: 500, y: 300 });
}

#[test]
fn default_config_values() {
    let c = SimulationConfig::default();
    assert_eq!(c.boid_count, 1000);
    assert!(matches!(c.window_size, WindowSize::Dimensions((800, 800))));
    assert!(!c.debug);
    assert_eq!(c.max_speed, 2560);
    assert_eq!(c.max_force, 410);
    assert_eq!(c.mouse_weight, 600 * S);
    assert_eq!(c.sep_radius, 6 * S);
    assert_eq!(c.ali_radius, 11776);
    assert_eq!(c.coh_radius, 11776);
    assert_eq!(c.sep_weight, 1536);
    assert_eq!(c.ali_weight, S);
    assert_eq!(c.coh_weight, S);
    assert_eq!(c.boid_size, 3 * S);
}

#[test]
fn merge_keeps_or_replaces() {
    let mut v: i64 = 5;
    merge(&mut v, None);
    assert_eq!(v, 5);
    merge(&mut v, Some(9));
    assert_eq!(v, 9);
}

#[test]
fn window_size_precedence() {
    let full = UserWindowConfig {
        size: Some((640, 480)),
        fullscreen: Some(true),
    };
    assert!(matches!(window_size(Some(full)), Some(WindowSize::Fullscreen)));

    let dims = UserWindowConfig {
        size: Some((640, 480)),
        fullscreen: Some(false),
    };
    assert!(matches!(
        window_size(Some(dims)),
        Some(WindowSize::Dimensions((640, 480)))
    ));

    let neither = UserWindowConfig {
        size: None,
        fullscreen: None,
    };
    assert!(window_size(Some(neither)).is_none());
    assert!(window_size(None).is_none());
}

#[test]
fn builder_applies_overrides() {
    let mut builder = ConfigBuilder::new();
    let uc = UserSimulationConfig {
        boid_count: Some(42),
        debug: Some(true),
        window: Some(UserWindowConfig {
            size: None,
            fullscreen: Some(true),
        }),
        flocking: Some(UserFlockingConfig {
            max_speed: Some(99),
            max_force: None,
            mouse_weight: None,
            sep_weight: Some(7),
            ali_weight: None,
            coh_weight: None,
            sep_radius: None,
            ali_radius: None,
            coh_radius: None,
        }),
        boid_size: None,
    };
    builder.apply(uc);
    let c = builder.build();
    assert_eq!(c.boid_count, 42);
    assert!(c.debug);
    assert!(matches!(c.window_size, WindowSize::Fullscreen));
    assert_eq!(c.max_speed, 99);
    assert_eq!(c.max_force, 410);
    assert_eq!(c.sep_weight, 7);
    assert_eq!(c.ali_weight, S);
    assert_eq!(c.boid_size, 3 * S);
}

#[test]
fn flocking_config_takes_window_extents() {
    let sim = SimulationConfig::default();
    let fc: FlockingConfig = build_flocking_config(&sim, 640 * S, 480 * S);
    assert_eq!(fc.width, 640 * S);
    assert_eq!(fc.height, 480 * S);
    assert_eq!(fc.boid_count, 1000);
    assert_eq!(fc.max_speed, 2560);
    assert_eq!(fc.sep_radius, 6 * S);
}

#[test]
fn fresh_counter_reports_zero() {
    let c = FpsCounter::new();
    assert_eq!(c.average_delta(), 0);
    assert_eq!(c.average_fps(), 0);
}

#[test]
fn counter_averages_samples() {
    // Twenty 10 ms frames average to 10 ms, i.e. 100 frames per second.
    let c = FpsCounter {
        last_sampled: std::time::Instant::now(),
        samples: vec![10_000_000u64; NUM_SAMPLES],
        current_sample: 0,
        rolling_dt_sum: 200_000_000u128,
    };
    assert_eq!(c.average_delta(), 10_000_000);
    assert_eq!(c.average_fps(), 100);
}

#[test]
fn counter_cursor_wraps() {
    let mut c = FpsCounter::new();
    for _ in 0..(NUM_SAMPLES + 1) {
        c.tick();
    }
    assert_eq!(c.current_sample, 1);
}

#[test]
fn cache_reports_changed_rate() {
    let counter = FpsCounter {
        last_sampled: std::time::Instant::now(),
        samples: vec![10_000_000u64; NUM_SAMPLES],
        current_sample: 0,
        rolling_dt_sum: 200_000_000u128,
    };
    let mut cache = FpsCache {
        cache_interval: 0,
        last_updated: std::time::Instant::now() - std::time::Duration::from_secs(1),
        last_yielded_fps: 0,
    };
    let seen: Cell<u32> = Cell::new(0);
    cache.poll(&counter, |fps| seen.set(fps));
    assert_eq!(seen.get(), 100);
    assert_eq!(cache.last_yielded_fps, 100);

    // Unchanged rate: the handler is not called again.
    cache.last_updated = std::time::Instant::now() - std::time::Duration::from_secs(1);
    let again: Cell<bool> = Cell::new(false);
    cache.poll(&counter, |_| again.set(true));
    assert!(!again.get());
}

#[test]
fn cache_respects_interval() {
    let counter = FpsCounter {
        last_sampled: std::time::Instant::now(),
        samples: vec![10_000_000u64; NUM_SAMPLES],
        current_sample: 0,
        rolling_dt_sum: 200_000_000u128,
    };
    let mut cache = FpsCache::new(10_000);
    let seen: Cell<bool> = Cell::new(false);
    cache.poll(&counter, |_| seen.set(true));
    assert!(!seen.get());
}

fn test_system() -> FlockingSystem {
    FlockingSystem::new(FlockingConfig {
        boid_count: 4,
        width: 100 * S,
        height: 100 * S,
        max_speed: 2560,
        max_force: 410,
        mouse_weight: 0,
        sep_weight: 1536,
        ali_weight: S,
        coh_weight: S,
        sep_radius: 6 * S,
        ali_radius: 11776,
        coh_radius: 11776,
    })
}

#[test]
fn events_drive_mouse_state() {
    let mut sim = test_system();
    handle_event(&mut sim, BoidControlEvent::MouseMove(100, 200));
    assert_eq!(sim.mouse_position, Vec2 { x: 100, y: 200 });
    handle_event(&mut sim, BoidControlEvent::MousePress);
    assert_eq!(sim.mouse_multiplier, -1);
    handle_event(&mut sim, BoidControlEvent::MouseRelease);
    assert_eq!(sim.mouse_multiplier, 1);
}

#[test]
fn events_reset_the_flock() {
    let mut sim = test_system();
    handle_event(&mut sim, BoidControlEvent::Key(BoidKey::R));
    handle_event(&mut sim, BoidControlEvent::Key(BoidKey::F));
    for b in sim.boids().iter() {
        assert_eq!(b.position, Vec2 { x: 0, y: 0 });
    }
    handle_event(&mut sim, BoidControlEvent::Key(BoidKey::C));
    for b in sim.boids().iter() {
        assert_eq!(b.position, Vec2 { x: 50 * S, y: 50 * S });
    }
    let before: Vec<Boid> = sim.boids().clone();
    handle_event(&mut sim, BoidControlEvent::Stop);
    handle_event(&mut sim, BoidControlEvent::Pause);
    handle_event(&mut sim, BoidControlEvent::Key(BoidKey::Other));
    assert_eq!(*sim.boids(), before);
}
