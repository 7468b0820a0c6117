//! Control events and their effect on the engine.
//!
//! The windowing layer translates raw input into these events; the verified
//! dispatcher applies each one: mouse movement retargets the mouse force,
//! press and release flip it between attraction and repulsion, and the three
//! letter keys reset the flock.

use vstd::prelude::*;

use crate::grid::MAX_EXTENT;
use crate::system::FlockingSystem;
use crate::vec2::Vec2;

verus! {

/// The keys the simulation reacts to.
#[derive(Clone, Copy, Debug, PartialEq, Eq, Structural)]
pub enum BoidKey {
    R,
    F,
    C,
    Other,
}

/// One control event, in simulation coordinates (fixed-point).
#[derive(Clone, Copy, Debug, PartialEq, Eq, Structural)]
pub enum BoidControlEvent {
    Stop,
    Pause,
    Key(BoidKey),
    MouseMove(i64, i64),
    MousePress,
    MouseRelease,
}

/// Mouse coordinates the engine accepts.
pub open spec fn event_ok(e: BoidControlEvent) -> bool {
    match e {
        BoidControlEvent::MouseMove(x, y) => -MAX_EXTENT <= x <= MAX_EXTENT && -MAX_EXTENT <= y
            <= MAX_EXTENT,
        _ => true,
    }
}

/// Apply one control event to the engine: mouse movement retargets the
/// mouse force, press enables attraction, release restores repulsion, and
/// the R, F and C keys scatter, zero and centre the flock; everything else
/// changes nothing.
pub fn handle_event(simulation: &mut FlockingSystem, event: BoidControlEvent)
    requires
        old(simulation).wf(),
        event_ok(event),
    ensures
        final(simulation).wf(),
        final(simulation).same_shape(*old(simulation)),
        (match event {
            BoidControlEvent::MouseMove(x, y) => final(simulation).mouse_position == (Vec2 {
                x: x,
                y: y,
            }) && final(simulation).mouse_multiplier == old(simulation).mouse_multiplier && final(simulation).boid_grid@ == old(simulation).boid_grid@ && final(simulation).rng == old(
                simulation,
            ).rng,
            BoidControlEvent::MousePress => final(simulation).mouse_multiplier == -1 && final(simulation).mouse_position == old(simulation).mouse_position && final(simulation).boid_grid@
                == old(simulation).boid_grid@ && final(simulation).rng == old(simulation).rng,
            BoidControlEvent::MouseRelease => final(simulation).mouse_multiplier == 1 && final(simulation).mouse_position == old(simulation).mouse_position && final(simulation).boid_grid@
                == old(simulation).boid_grid@ && final(simulation).rng == old(simulation).rng,
            BoidControlEvent::Key(k) => {
                &&& final(simulation).boid_grid@.len() == old(simulation).boid_grid@.len()
                &&& final(simulation).mouse_position == old(simulation).mouse_position
                &&& final(simulation).mouse_multiplier == old(simulation).mouse_multiplier
                &&& (k == BoidKey::F ==> forall|i: int|
                    0 <= i < final(simulation).boid_grid@.len() ==> (#[trigger] final(simulation).boid_grid@[i]).position == (Vec2 { x: 0, y: 0 }))
                &&& (k == BoidKey::C ==> forall|i: int|
                    0 <= i < final(simulation).boid_grid@.len() ==> (#[trigger] final(simulation).boid_grid@[i]).position.x as int == old(simulation).width as int / 2 && (
                    final(simulation).boid_grid@[i]).position.y as int == old(simulation).height
                        as int / 2)
                &&& (k == BoidKey::Other ==> *final(simulation) == *old(simulation))
            },
            _ => *final(simulation) == *old(simulation),
        }),
{
    match event {
        BoidControlEvent::MouseMove(x, y) => simulation.set_mouse(x, y),
        BoidControlEvent::MousePress => simulation.enable_mouse_attraction(),
        BoidControlEvent::MouseRelease => simulation.enable_mouse_repulsion(),
        BoidControlEvent::Key(BoidKey::R) => simulation.randomise(),
        BoidControlEvent::Key(BoidKey::F) => simulation.zeroise(),
        BoidControlEvent::Key(BoidKey::C) => simulation.centralise(),
        _ => (),
    }
}

} // verus!
