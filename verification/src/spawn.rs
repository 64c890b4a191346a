//! Bringing a duck onto the lake.

use vstd::prelude::*;
use crate::agent::Agent;
use crate::boid::Boid;
use crate::chance::{random_chance, random_range};
use crate::duck::{Duck, Pose};
use crate::target::TargetPosition;
use crate::vec3::Vec3;

verus! {

/// The upward speed with which a duck enters the lake.
pub const ENTRY_SPEED: i64 = 3_000_000;

/// The widest angle, to either side, at which a head starts out.
pub const HEAD_START: i64 = 300_000;

/// The least speed multiplier of a duckling.
pub const CHILD_SPEED_MIN: i64 = 1_300_000;

/// The greatest speed multiplier of a duckling.
pub const CHILD_SPEED_MAX: i64 = 2_100_000;

/// The least speed multiplier of an adult.
pub const ADULT_SPEED_MIN: i64 = 900_000;

/// The greatest speed multiplier of an adult.
pub const ADULT_SPEED_MAX: i64 = 1_100_000;

/// A request to bring a duck onto the lake.
#[derive(Clone, Copy, Debug, PartialEq, Eq, Structural)]
pub struct AddDuck {
    pub transform: Pose,
    pub is_player: bool,
    pub is_child: bool,
}

/// What is drawn when a duck enters the lake.
#[derive(Clone, Copy, Debug, PartialEq, Eq, Structural)]
pub struct Hatch {
    /// The angle at which the head starts out.
    pub head_angle: i64,
    /// Whether the duck starts out paddling.
    pub is_kicking: bool,
    /// The duck's speed multiplier.
    pub speed_mod: i64,
}

impl Hatch {
    /// The draw is one that a duck of the given age may get: the head within
    /// `HEAD_START` to either side, the speed multiplier within the bounds
    /// of its class.
    pub open spec fn fits(self, is_child: bool) -> bool {
        &&& -HEAD_START <= self.head_angle <= HEAD_START
        &&& if is_child {
            CHILD_SPEED_MIN <= self.speed_mod <= CHILD_SPEED_MAX
        } else {
            ADULT_SPEED_MIN <= self.speed_mod <= ADULT_SPEED_MAX
        }
    }

    /// Draws what a duck of the given age enters the lake with. It starts
    /// out paddling with one chance in five.
    pub fn draw(is_child: bool) -> (h: Hatch)
        ensures
            h.fits(is_child),
    {
        let speed_mod = if is_child {
            random_range(CHILD_SPEED_MIN, CHILD_SPEED_MAX + 1)
        } else {
            random_range(ADULT_SPEED_MIN, ADULT_SPEED_MAX + 1)
        };
        Hatch {
            head_angle: random_range(-HEAD_START, HEAD_START + 1),
            is_kicking: random_chance(1, 5),
            speed_mod,
        }
    }
}

/// The agent that the request `request` brings onto the lake under the
/// identity `id`, with the draw `hatch`. It stands where the request says
/// and rises at `ENTRY_SPEED`. Any duck but the player's has a target, at
/// the water below where it stands, and steering forces, at rest. It
/// follows nobody and has no true parent.
pub open spec fn spawn_spec(id: u64, request: AddDuck, hatch: Hatch) -> Agent {
    Agent {
        id,
        is_player: request.is_player,
        is_duckling: request.is_child,
        transform: request.transform,
        duck: Duck {
            is_kicking: hatch.is_kicking,
            is_boosting: false,
            speed_mod: hatch.speed_mod,
            velocity: Vec3 { x: 0, y: ENTRY_SPEED, z: 0 },
            angular_acceleration: 0,
            angular_velocity: 0,
            target_head_angle: 0,
            actual_head_angle: hatch.head_angle,
            above_sea_level: request.transform.translation.y,
        },
        target: if request.is_player {
            None
        } else {
            Some(
                TargetPosition {
                    pos: Vec3 {
                        x: request.transform.translation.x,
                        y: 0,
                        z: request.transform.translation.z,
                    },
                },
            )
        },
        boid: if request.is_player {
            None
        } else {
            Some(Boid { separation: Vec3::zero_spec(), seek_target: Vec3::zero_spec() })
        },
        true_parent: None,
        following: None,
        done: false,
    }
}

/// Brings a duck onto the lake with a given draw.
pub fn spawn_agent(id: u64, request: AddDuck, hatch: Hatch) -> (a: Agent)
    ensures
        a == spawn_spec(id, request, hatch),
        request.transform.within_limits() && hatch.fits(request.is_child) ==> a.within_limits(),
{
    let duck = Duck {
        is_kicking: hatch.is_kicking,
        is_boosting: false,
        speed_mod: hatch.speed_mod,
        velocity: Vec3 { x: 0, y: ENTRY_SPEED, z: 0 },
        angular_acceleration: 0,
        angular_velocity: 0,
        target_head_angle: 0,
        actual_head_angle: hatch.head_angle,
        above_sea_level: request.transform.translation.y,
    };
    let target = if request.is_player {
        None
    } else {
        Some(TargetPosition::from_tf(request.transform))
    };
    let boid = if request.is_player {
        None
    } else {
        Some(Boid::new())
    };
    Agent {
        id,
        is_player: request.is_player,
        is_duckling: request.is_child,
        transform: request.transform,
        duck,
        target,
        boid,
        true_parent: None,
        following: None,
        done: false,
    }
}

/// Brings a duck onto the lake, drawing what it starts out with.
pub fn on_add_duck(id: u64, request: AddDuck) -> (a: Agent)
    ensures
        exists|hatch: Hatch| hatch.fits(request.is_child) && a == #[trigger] spawn_spec(id, request, hatch),
        request.transform.within_limits() ==> a.within_limits(),
{
    let hatch = Hatch::draw(request.is_child);
    spawn_agent(id, request, hatch)
}

} // verus!
