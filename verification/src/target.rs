//! Where a duck wants to go.

use vstd::prelude::*;
use crate::chance::{random_chance, random_vec, polar_spec};
use crate::duck::Pose;
use crate::fixed::{LIMIT, SCALE};
use crate::vec3::{Vec2, Vec3};

verus! {

/// The shortest nudge of a wandering target.
pub const NUDGE_MIN: i64 = 100_000;

/// The bound that a nudge of a wandering target stays under.
pub const NUDGE_MAX: i64 = 4_000_000;

/// The radius around the origin inside which a wandering target lands.
pub const ROAM_RADIUS: i64 = 200_000_000;

/// The point a duck is heading for.
#[derive(Clone, Copy, Debug, PartialEq, Eq, Structural)]
pub struct TargetPosition {
    pub pos: Vec3,
}

/// What a wandering target does in one tick.
#[derive(Clone, Copy, Debug, PartialEq, Eq, Structural)]
pub enum Wander {
    /// The target stays where it is.
    Stay,
    /// The target shifts by an offset on the water plane.
    Nudge(Vec2),
    /// The target jumps to a point on the water plane.
    Teleport(Vec2),
}

/// Which of the three a tick brings, given the two coin tosses and the
/// offsets that go with them. The nudge is looked at first.
pub open spec fn wander_choice_spec(nudge: bool, teleport: bool, offset: Vec2, spot: Vec2) -> Wander {
    if nudge {
        Wander::Nudge(offset)
    } else if teleport {
        Wander::Teleport(spot)
    } else {
        Wander::Stay
    }
}

/// Which of the three a tick brings, given the two coin tosses and the
/// offsets that go with them. The nudge is looked at first.
pub fn wander_choice(nudge: bool, teleport: bool, offset: Vec2, spot: Vec2) -> (w: Wander)
    ensures
        w == wander_choice_spec(nudge, teleport, offset, spot),
{
    if nudge {
        Wander::Nudge(offset)
    } else if teleport {
        Wander::Teleport(spot)
    } else {
        Wander::Stay
    }
}

impl Wander {
    /// The offset or point is within `LIMIT`.
    pub open spec fn within_limits(self) -> bool {
        match self {
            Wander::Stay => true,
            Wander::Nudge(v) => v.bounded(LIMIT as int),
            Wander::Teleport(v) => v.bounded(LIMIT as int),
        }
    }

    /// The draw is one that `direction` allows: a nudge lies along it at a
    /// distance from `NUDGE_MIN` up to `NUDGE_MAX`, a teleport along it
    /// within `ROAM_RADIUS`.
    pub open spec fn drawn_along(self, direction: Vec2) -> bool {
        match self {
            Wander::Stay => true,
            Wander::Nudge(v) => exists|r: int|
                NUDGE_MIN <= r < NUDGE_MAX && (v.x as int, v.y as int) == #[trigger] polar_spec(
                    r,
                    direction,
                ),
            Wander::Teleport(v) => exists|r: int|
                0 <= r < ROAM_RADIUS && (v.x as int, v.y as int) == #[trigger] polar_spec(
                    r,
                    direction,
                ),
        }
    }

    /// Draws what a wandering target does this tick: with one chance in a
    /// thousand a nudge, else with three chances in a hundred thousand a
    /// teleport, else nothing. `direction` is a unit vector on the water plane.
    pub fn draw(direction: Vec2) -> (w: Wander)
        requires
            direction.bounded(SCALE as int),
        ensures
            w.within_limits(),
            w.drawn_along(direction),
    {
        let nudge = random_chance(1, 1000);
        let offset = if nudge {
            random_vec(NUDGE_MIN, NUDGE_MAX, direction)
        } else {
            Vec2::new(0, 0)
        };
        let teleport = !nudge && random_chance(3, 100_000);
        let spot = if teleport {
            random_vec(0, ROAM_RADIUS, direction)
        } else {
            Vec2::new(0, 0)
        };
        wander_choice(nudge, teleport, offset, spot)
    }
}

impl Default for TargetPosition {
    /// A target at the origin.
    fn default() -> (t: TargetPosition)
        ensures
            t == (TargetPosition { pos: Vec3::zero_spec() }),
    {
        TargetPosition { pos: Vec3::zero() }
    }
}

impl TargetPosition {
    /// The point is within `LIMIT`.
    pub open spec fn within_limits(self) -> bool {
        self.pos.bounded(LIMIT as int)
    }

    /// The target of a duck that stands at `tf`: its position, at water level.
    pub fn from_tf(tf: Pose) -> (t: TargetPosition)
        ensures
            t.pos == (Vec3 { x: tf.translation.x, y: 0, z: tf.translation.z }),
    {
        TargetPosition { pos: tf.translation.with_y(0) }
    }

    /// `after` is the target `self` after the wandering `w`: a nudge shifts
    /// it on the water plane, a teleport replaces its place on the water
    /// plane; its height stays.
    pub open spec fn wanders_to(self, after: TargetPosition, w: Wander) -> bool {
        &&& after.pos.y == self.pos.y
        &&& match w {
            Wander::Stay => after.pos == self.pos,
            Wander::Nudge(v) => {
                &&& after.pos.x == self.pos.x + v.x
                &&& after.pos.z == self.pos.z + v.y
            },
            Wander::Teleport(v) => {
                &&& after.pos.x == v.x
                &&& after.pos.z == v.y
            },
        }
    }

    /// Lets the target wander.
    pub fn wander(&mut self, w: Wander)
        requires
            old(self).within_limits(),
            w.within_limits(),
        ensures
            old(self).wanders_to(*final(self), w),
            final(self).pos.bounded(2 * LIMIT),
    {
        match w {
            Wander::Stay => {},
            Wander::Nudge(v) => {
                self.pos.x = self.pos.x + v.x;
                self.pos.z = self.pos.z + v.y;
            },
            Wander::Teleport(v) => {
                self.pos.x = v.x;
                self.pos.z = v.y;
            },
        }
    }
}

} // verus!
