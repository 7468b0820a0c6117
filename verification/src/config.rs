//! Simulation configuration and its builder.
//!
//! A [`SimulationConfig`] starts from the defaults and is overridden field
//! by field from a user-supplied [`UserSimulationConfig`] (whatever layer
//! parsed it); [`merge`] takes each optional override. Scalar tuning values
//! are fixed-point (see [`crate::fixed`]).

use vstd::prelude::*;

use crate::system::FlockingConfig;

verus! {

/// How the window should be sized.
#[derive(Clone, Copy, Debug)]
pub enum WindowSize {
    Fullscreen,
    Dimensions((u32, u32)),
}

/// The resolved simulation configuration.
#[derive(Clone, Copy, Debug)]
pub struct SimulationConfig {
    pub boid_count: u32,
    pub window_size: WindowSize,
    pub debug: bool,
    pub max_speed: i64,
    pub max_force: i64,
    pub mouse_weight: i64,
    pub sep_weight: i64,
    pub ali_weight: i64,
    pub coh_weight: i64,
    pub sep_radius: i64,
    pub ali_radius: i64,
    pub coh_radius: i64,
    pub boid_size: i64,
}

/// The default configuration: a thousand agents in an 800 by 800 window,
/// the classic tuning (speed 2.5, force about 0.4, separation radius 6,
/// alignment and cohesion radius 11.5, weights 1.5 / 1 / 1, mouse weight
/// 600), all in fixed-point units.
pub open spec fn sp_default_config() -> SimulationConfig {
    SimulationConfig {
        boid_count: 1000,
        window_size: WindowSize::Dimensions((800, 800)),
        debug: false,
        max_speed: 2560,
        max_force: 410,
        mouse_weight: 614400,
        sep_radius: 6144,
        ali_radius: 11776,
        coh_radius: 11776,
        sep_weight: 1536,
        ali_weight: 1024,
        coh_weight: 1024,
        boid_size: 3072,
    }
}

impl Default for SimulationConfig {
    /// The default configuration (see [`sp_default_config`]).
    fn default() -> (c: SimulationConfig)
        ensures
            c == sp_default_config(),
    {
        SimulationConfig {
            boid_count: 1000,
            window_size: WindowSize::Dimensions((800, 800)),
            debug: false,
            max_speed: 2560,
            max_force: 410,
            mouse_weight: 614400,
            sep_radius: 6144,
            ali_radius: 11776,
            coh_radius: 11776,
            sep_weight: 1536,
            ali_weight: 1024,
            coh_weight: 1024,
            boid_size: 3072,
        }
    }
}

/// Overwrite a setting when an override for it was given.
pub fn merge<T>(existing: &mut T, candidate: Option<T>)
    ensures
        *final(existing) == (match candidate {
            Option::Some(v) => v,
            Option::None => *old(existing),
        }),
{
    if let Some(v) = candidate {
        *existing = v;
    }
}

/// The window settings a user may give.
#[derive(Clone, Copy, Debug)]
pub struct UserWindowConfig {
    pub size: Option<(u32, u32)>,
    pub fullscreen: Option<bool>,
}

/// The flocking settings a user may give (fixed-point scalars).
#[derive(Clone, Copy, Debug)]
pub struct UserFlockingConfig {
    pub max_speed: Option<i64>,
    pub max_force: Option<i64>,
    pub mouse_weight: Option<i64>,
    pub sep_weight: Option<i64>,
    pub ali_weight: Option<i64>,
    pub coh_weight: Option<i64>,
    pub sep_radius: Option<i64>,
    pub ali_radius: Option<i64>,
    pub coh_radius: Option<i64>,
}

/// Everything a user may override.
#[derive(Clone, Copy, Debug)]
pub struct UserSimulationConfig {
    pub boid_count: Option<u32>,
    pub debug: Option<bool>,
    pub window: Option<UserWindowConfig>,
    pub flocking: Option<UserFlockingConfig>,
    pub boid_size: Option<i64>,
}

/// The window-size override a user window section amounts to: an explicit
/// fullscreen wish wins over given dimensions; neither leaves the setting
/// alone.
pub open spec fn sp_window_size(window_conf: Option<UserWindowConfig>) -> Option<WindowSize> {
    match window_conf {
        Option::Some(w) => {
            if w.fullscreen == Option::Some(true) {
                Option::Some(WindowSize::Fullscreen)
            } else if w.size is Some {
                Option::Some(WindowSize::Dimensions(w.size->0))
            } else {
                Option::None
            }
        },
        Option::None => Option::None,
    }
}

/// Turn a user window section into a window-size override.
pub fn window_size(window_conf: Option<UserWindowConfig>) -> (r: Option<WindowSize>)
    ensures
        r == sp_window_size(window_conf),
{
    match window_conf {
        Some(UserWindowConfig { fullscreen: Some(true), .. }) => Some(WindowSize::Fullscreen),
        Some(UserWindowConfig { size: Some(dims), .. }) => Some(WindowSize::Dimensions(dims)),
        _ => None,
    }
}

/// A default setting overridden where the user gave a value.
pub open spec fn sp_pick<T>(o: Option<T>, d: T) -> T {
    match o {
        Option::Some(v) => v,
        Option::None => d,
    }
}

/// The configuration that applying a user override to a base yields.
pub open spec fn sp_apply(c: SimulationConfig, uc: UserSimulationConfig) -> SimulationConfig {
    let f = uc.flocking;
    SimulationConfig {
        boid_count: sp_pick(uc.boid_count, c.boid_count),
        window_size: sp_pick(sp_window_size(uc.window), c.window_size),
        debug: sp_pick(uc.debug, c.debug),
        boid_size: sp_pick(uc.boid_size, c.boid_size),
        max_speed: if f is Some { sp_pick(f->0.max_speed, c.max_speed) } else { c.max_speed },
        max_force: if f is Some { sp_pick(f->0.max_force, c.max_force) } else { c.max_force },
        mouse_weight: if f is Some { sp_pick(f->0.mouse_weight, c.mouse_weight) } else {
            c.mouse_weight
        },
        sep_weight: if f is Some { sp_pick(f->0.sep_weight, c.sep_weight) } else { c.sep_weight },
        ali_weight: if f is Some { sp_pick(f->0.ali_weight, c.ali_weight) } else { c.ali_weight },
        coh_weight: if f is Some { sp_pick(f->0.coh_weight, c.coh_weight) } else { c.coh_weight },
        sep_radius: if f is Some { sp_pick(f->0.sep_radius, c.sep_radius) } else { c.sep_radius },
        ali_radius: if f is Some { sp_pick(f->0.ali_radius, c.ali_radius) } else { c.ali_radius },
        coh_radius: if f is Some { sp_pick(f->0.coh_radius, c.coh_radius) } else { c.coh_radius },
    }
}

/// Builds a [`SimulationConfig`] from the defaults and user overrides.
pub struct ConfigBuilder {
    pub config: SimulationConfig,
}

impl ConfigBuilder {
    /// Start from the defaults.
    pub fn new() -> (r: ConfigBuilder)
        ensures
            r.config == sp_default_config(),
    {
        ConfigBuilder { config: SimulationConfig::default() }
    }

    /// Apply a user override on top of the current configuration.
    pub fn apply(&mut self, uc: UserSimulationConfig)
        ensures
            final(self).config == sp_apply(old(self).config, uc),
    {
        let c = &mut self.config;
        merge(&mut c.boid_count, uc.boid_count);
        merge(&mut c.debug, uc.debug);
        merge(&mut c.window_size, window_size(uc.window));
        merge(&mut c.boid_size, uc.boid_size);
        if let Some(uc_flock) = uc.flocking {
            merge(&mut c.max_speed, uc_flock.max_speed);
            merge(&mut c.max_force, uc_flock.max_force);
            merge(&mut c.mouse_weight, uc_flock.mouse_weight);
            merge(&mut c.sep_weight, uc_flock.sep_weight);
            merge(&mut c.ali_weight, uc_flock.ali_weight);
            merge(&mut c.coh_weight, uc_flock.coh_weight);
            merge(&mut c.sep_radius, uc_flock.sep_radius);
            merge(&mut c.ali_radius, uc_flock.ali_radius);
            merge(&mut c.coh_radius, uc_flock.coh_radius);
        }
    }

    /// The finished configuration.
    pub fn build(self) -> (r: SimulationConfig)
        ensures
            r == self.config,
    {
        self.config
    }
}

/// Map a resolved configuration plus the actual window extents onto the
/// engine's parameters.
pub fn build_flocking_config(sim_config: &SimulationConfig, width: i64, height: i64) -> (r:
    FlockingConfig)
    ensures
        r == (FlockingConfig {
            boid_count: sim_config.boid_count,
            width: width,
            height: height,
            max_speed: sim_config.max_speed,
            max_force: sim_config.max_force,
            mouse_weight: sim_config.mouse_weight,
            sep_weight: sim_config.sep_weight,
            ali_weight: sim_config.ali_weight,
            coh_weight: sim_config.coh_weight,
            sep_radius: sim_config.sep_radius,
            ali_radius: sim_config.ali_radius,
            coh_radius: sim_config.coh_radius,
        }),
{
    FlockingConfig {
        boid_count: sim_config.boid_count,
        width,
        height,
        max_speed: sim_config.max_speed,
        max_force: sim_config.max_force,
        mouse_weight: sim_config.mouse_weight,
        sep_weight: sim_config.sep_weight,
        ali_weight: sim_config.ali_weight,
        coh_weight: sim_config.coh_weight,
        sep_radius: sim_config.sep_radius,
        ali_radius: sim_config.ali_radius,
        coh_radius: sim_config.coh_radius,
    }
}

} // verus!
