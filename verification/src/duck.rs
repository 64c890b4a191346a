//! One duck: its kinematic state, the steering decision, and the steps of
//! the physics integrator.

use vstd::prelude::*;
use crate::fixed::{
    lemma_mul_fixed_bound, lemma_trunc_div_bounds, mul_fixed, mul_fixed_spec, trunc_div,
    within_limit, LIMIT, SCALE,
};
use crate::vec3::Vec3;

verus! {

/// Downward acceleration above the water, per second squared.
pub const GRAVITY: i64 = -9_810_000;

/// The nominal length of a tick, in seconds.
pub const TICK: i64 = 20_000;

/// The longest tick the integrator accepts: one second.
pub const MAX_TICK: i64 = 1_000_000;

/// The largest magnitude that a speed or a yaw rate may reach in the course
/// of a tick.
pub const SLACK: i64 = 100_000_000_000_000_000;

/// Forward thrust of a kicking duck before its speed multiplier.
pub const KICK_THRUST: i64 = 10_000_000;

/// Extra forward thrust of a kicking duck that also boosts.
pub const BOOST_THRUST: i64 = 30_000_000;

/// Upward acceleration per unit of depth below the surface.
pub const BUOYANCY_GAIN: i64 = 100;

/// Angular acceleration per radian of bearing error.
pub const TURN_GAIN: i64 = 7;

/// Steering forces shorter than this are ignored.
pub const DEAD_ZONE: i64 = 1_500_000;

/// The most the head turns in one tick, in radians.
pub const HEAD_RATE: i64 = 60_000;

/// Where a body is and how it is oriented: its position and the three unit
/// axes of its own frame, expressed in world coordinates.
#[derive(Clone, Copy, Debug, PartialEq, Eq, Structural)]
pub struct Pose {
    pub translation: Vec3,
    /// The body's local x axis.
    pub right: Vec3,
    /// The body's local y axis.
    pub up: Vec3,
    /// The body's local z axis.
    pub forward: Vec3,
}

impl Pose {
    /// The position is within `LIMIT` and no axis coordinate exceeds one.
    pub open spec fn within_limits(self) -> bool {
        &&& self.translation.bounded(LIMIT as int)
        &&& self.right.bounded(SCALE as int)
        &&& self.up.bounded(SCALE as int)
        &&& self.forward.bounded(SCALE as int)
    }

    /// A pose at `translation` whose axes are the world's.
    pub fn upright(translation: Vec3) -> (p: Pose)
        ensures
            p.translation == translation,
            p.right == (Vec3 { x: SCALE, y: 0, z: 0 }),
            p.up == (Vec3 { x: 0, y: SCALE, z: 0 }),
            p.forward == (Vec3 { x: 0, y: 0, z: SCALE }),
    {
        Pose {
            translation,
            right: Vec3 { x: SCALE, y: 0, z: 0 },
            up: Vec3 { x: 0, y: SCALE, z: 0 },
            forward: Vec3 { x: 0, y: 0, z: SCALE },
        }
    }

    /// Tells whether the pose is within the limits of the arithmetic.
    pub fn is_within_limits(&self) -> (b: bool)
        ensures
            b == self.within_limits(),
    {
        self.translation.is_bounded(LIMIT) && self.right.is_bounded(SCALE) && self.up.is_bounded(
            SCALE,
        ) && self.forward.is_bounded(SCALE)
    }
}

/// The kinematic state of one duck.
#[derive(Clone, Copy, Debug, PartialEq, Eq, Structural)]
pub struct Duck {
    /// Whether the duck is paddling forward.
    pub is_kicking: bool,
    pub is_boosting: bool,
    /// The duck's own multiplier on forward thrust.
    pub speed_mod: i64,
    pub velocity: Vec3,
    /// Yaw acceleration, set afresh by every steering decision.
    pub angular_acceleration: i64,
    /// Yaw rate.
    pub angular_velocity: i64,
    pub target_head_angle: i64,
    pub actual_head_angle: i64,
    /// Height above the water surface as sampled this tick.
    pub above_sea_level: i64,
}

impl Default for Duck {
    /// A duck at rest at the surface, with a speed multiplier of zero.
    fn default() -> (d: Duck)
        ensures
            d == (Duck {
                is_kicking: false,
                is_boosting: false,
                speed_mod: 0,
                velocity: Vec3::zero_spec(),
                angular_acceleration: 0,
                angular_velocity: 0,
                target_head_angle: 0,
                actual_head_angle: 0,
                above_sea_level: 0,
            }),
    {
        Duck {
            is_kicking: false,
            is_boosting: false,
            speed_mod: 0,
            velocity: Vec3::zero(),
            angular_acceleration: 0,
            angular_velocity: 0,
            target_head_angle: 0,
            actual_head_angle: 0,
            above_sea_level: 0,
        }
    }
}

/// Upward acceleration at height `h`: proportional to depth, none above water.
pub open spec fn buoyancy_spec(h: int) -> int {
    if h < 0 {
        -h * BUOYANCY_GAIN
    } else {
        0
    }
}

/// `force` is shorter than `radius`.
pub open spec fn shorter_than(force: Vec3, radius: int) -> bool {
    radius > 0 && force.norm_sq() < radius * radius
}

/// The magnitude of `a`.
pub open spec fn abs_spec(a: int) -> int {
    if a >= 0 {
        a
    } else {
        -a
    }
}

/// `v` pulled toward zero by the factor `num / den`.
pub open spec fn damped(v: int, num: int, den: int) -> int {
    trunc_div(v * num, den)
}

/// `v` limited to the interval from `-m` to `m`.
pub open spec fn clamped(v: int, m: int) -> int {
    if v < -m {
        -m
    } else if v > m {
        m
    } else {
        v
    }
}

impl Duck {
    /// Speeds and yaw rate are within `m`; every other stored quantity is
    /// within `LIMIT` (the angular acceleration within `TURN_GAIN` times
    /// `LIMIT`), and the multiplier is not negative.
    pub open spec fn within(self, m: int) -> bool {
        &&& 0 <= self.speed_mod <= LIMIT
        &&& self.velocity.bounded(m)
        &&& -m <= self.angular_velocity <= m
        &&& -TURN_GAIN * LIMIT <= self.angular_acceleration <= TURN_GAIN * LIMIT
        &&& within_limit(self.target_head_angle as int)
        &&& within_limit(self.actual_head_angle as int)
        &&& within_limit(self.above_sea_level as int)
    }

    /// The state a tick may start from: everything within `LIMIT`.
    pub open spec fn within_limits(self) -> bool {
        self.within(LIMIT as int)
    }

    /// The state a step of a tick accepts: speeds and yaw rate within `SLACK`.
    pub open spec fn within_slack(self) -> bool {
        self.within(SLACK as int)
    }

    /// The duck is submerged: at or below the surface.
    pub open spec fn in_water(self) -> bool {
        self.above_sea_level <= 0
    }

    /// Forward thrust in the body frame: none unless the duck is submerged
    /// and paddling; else `KICK_THRUST` times the speed multiplier, and
    /// `BOOST_THRUST` on top of that if the duck boosts.
    pub open spec fn thrust_spec(self) -> int {
        if self.in_water() && self.is_kicking {
            mul_fixed_spec(KICK_THRUST as int, self.speed_mod as int) + (if self.is_boosting {
                BOOST_THRUST as int
            } else {
                0
            })
        } else {
            0
        }
    }

    /// World-frame acceleration along one world axis, given that axis's
    /// coordinate of the body's up and forward axes.
    pub open spec fn accel_axis_spec(self, up: int, forward: int) -> int {
        mul_fixed_spec(up, buoyancy_spec(self.above_sea_level as int)) + mul_fixed_spec(
            forward,
            self.thrust_spec(),
        )
    }

    /// The signed turn for a force at unsigned bearing `angle` whose component
    /// along the body's right axis is `right_component`.
    pub open spec fn turn_spec(angle: int, right_component: int) -> int {
        if right_component > 0 {
            abs_spec(angle)
        } else {
            -abs_spec(angle)
        }
    }

    /// `after` is the duck `self` after a steering decision on `force`: all
    /// but the thrust flag and the angular acceleration is kept. A force
    /// shorter than `radius` clears both. Any other force sets the flag if it
    /// points into the forward half-space of `tf`, and sets the acceleration
    /// to `TURN_GAIN` times the signed turn.
    pub open spec fn steers_to(
        self,
        after: Duck,
        tf: Pose,
        force: Vec3,
        radius: int,
        angle: int,
    ) -> bool {
        &&& after == (Duck {
            is_kicking: after.is_kicking,
            angular_acceleration: after.angular_acceleration,
            ..self
        })
        &&& shorter_than(force, radius) ==> !after.is_kicking && after.angular_acceleration == 0
        &&& !shorter_than(force, radius) ==> {
            &&& after.is_kicking == (force.dot_spec(tf.forward) > 0)
            &&& after.angular_acceleration == TURN_GAIN * Duck::turn_spec(
                angle,
                force.dot_spec(tf.right),
            )
        }
    }

    /// `after` is the duck `self` after gravity has acted for `dt` at the
    /// pose `tf`: above the water the vertical speed falls by `GRAVITY`
    /// times `dt`; nothing else changes.
    pub open spec fn falls_to(self, after: Duck, tf: Pose, dt: int) -> bool {
        &&& after == (Duck { velocity: after.velocity, ..self })
        &&& after.velocity.x == self.velocity.x
        &&& after.velocity.z == self.velocity.z
        &&& after.velocity.y == self.velocity.y + (if tf.translation.y > 0 {
            mul_fixed_spec(GRAVITY as int, dt)
        } else {
            0
        })
    }

    /// `after` is the duck `self` after accelerating for `dt` at the pose
    /// `tf`: the velocity gains the world-frame acceleration times `dt`, the
    /// yaw rate gains the angular acceleration times `dt`.
    pub open spec fn accelerates_to(self, after: Duck, tf: Pose, dt: int) -> bool {
        &&& after == (Duck {
            velocity: after.velocity,
            angular_velocity: after.angular_velocity,
            ..self
        })
        &&& after.velocity.x == self.velocity.x + mul_fixed_spec(
            self.accel_axis_spec(tf.up.x as int, tf.forward.x as int),
            dt,
        )
        &&& after.velocity.y == self.velocity.y + mul_fixed_spec(
            self.accel_axis_spec(tf.up.y as int, tf.forward.y as int),
            dt,
        )
        &&& after.velocity.z == self.velocity.z + mul_fixed_spec(
            self.accel_axis_spec(tf.up.z as int, tf.forward.z as int),
            dt,
        )
        &&& after.angular_velocity == self.angular_velocity + mul_fixed_spec(
            self.angular_acceleration as int,
            dt,
        )
    }

    /// `after` is the duck `self` after one tick of drag: at or below the
    /// surface the vertical speed keeps four fifths and the horizontal speed
    /// nineteen twentieths; the yaw rate keeps nineteen twentieths at any
    /// height.
    pub open spec fn damps_to(self, after: Duck) -> bool {
        &&& after == (Duck {
            velocity: after.velocity,
            angular_velocity: after.angular_velocity,
            ..self
        })
        &&& after.angular_velocity == damped(self.angular_velocity as int, 19, 20)
        &&& self.above_sea_level <= 0 ==> {
            &&& after.velocity.x == damped(self.velocity.x as int, 19, 20)
            &&& after.velocity.y == damped(self.velocity.y as int, 4, 5)
            &&& after.velocity.z == damped(self.velocity.z as int, 19, 20)
        }
        &&& self.above_sea_level > 0 ==> after.velocity == self.velocity
    }

    /// `after` is the duck `self` after its head has moved for one tick: a
    /// `retarget` replaces the target angle, and the head then steps toward
    /// the target by at most `HEAD_RATE`.
    pub open spec fn head_turns_to(self, after: Duck, retarget: Option<i64>) -> bool {
        &&& after == (Duck {
            target_head_angle: after.target_head_angle,
            actual_head_angle: after.actual_head_angle,
            ..self
        })
        &&& after.target_head_angle == (match retarget {
            Some(t) => t,
            None => self.target_head_angle,
        })
        &&& after.actual_head_angle == self.actual_head_angle + clamped(
            after.target_head_angle - self.actual_head_angle,
            HEAD_RATE as int,
        )
    }

    /// `after` is the duck `self` with `impulse` added to its vertical speed.
    pub open spec fn jumps_to(self, after: Duck, impulse: int) -> bool {
        &&& after == (Duck { velocity: after.velocity, ..self })
        &&& after.velocity.x == self.velocity.x
        &&& after.velocity.z == self.velocity.z
        &&& after.velocity.y == self.velocity.y + impulse
    }

    /// `after` is the pose `tf` after the duck `self` has moved for `dt`: the
    /// position advances by velocity times `dt`, the axes stay.
    pub open spec fn carries(self, tf: Pose, after: Pose, dt: int) -> bool {
        &&& after == (Pose { translation: after.translation, ..tf })
        &&& after.translation.x == tf.translation.x + mul_fixed_spec(self.velocity.x as int, dt)
        &&& after.translation.y == tf.translation.y + mul_fixed_spec(self.velocity.y as int, dt)
        &&& after.translation.z == tf.translation.z + mul_fixed_spec(self.velocity.z as int, dt)
    }

    /// The yaw by which the duck turns in `dt`.
    pub open spec fn yaw_spec(self, dt: int) -> int {
        mul_fixed_spec(self.angular_velocity as int, dt)
    }

    /// Tells whether speeds and yaw rate are within `m` and every other
    /// stored quantity within its limit.
    pub fn is_within(&self, m: i64) -> (b: bool)
        requires
            m >= 0,
        ensures
            b == self.within(m as int),
    {
        0 <= self.speed_mod && self.speed_mod <= LIMIT && self.velocity.is_bounded(m)
            && -m <= self.angular_velocity && self.angular_velocity <= m && -TURN_GAIN * LIMIT
            <= self.angular_acceleration && self.angular_acceleration <= TURN_GAIN * LIMIT && -LIMIT
            <= self.target_head_angle && self.target_head_angle <= LIMIT && -LIMIT
            <= self.actual_head_angle && self.actual_head_angle <= LIMIT && -LIMIT
            <= self.above_sea_level && self.above_sea_level <= LIMIT
    }

    /// Tells whether the duck is in a state that a tick may start from.
    pub fn is_within_limits(&self) -> (b: bool)
        ensures
            b == self.within_limits(),
    {
        self.is_within(LIMIT)
    }

    /// Tells whether the duck is submerged: at or below the surface.
    pub fn is_in_water(&self) -> (b: bool)
        ensures
            b == self.in_water(),
    {
        self.above_sea_level <= 0
    }

    /// The acceleration the duck applies to itself, in its own frame: thrust
    /// along its forward axis and buoyancy along its up axis.
    pub fn body_fixed_acceleration(&self) -> (a: Vec3)
        requires
            self.within_slack(),
        ensures
            a.x == 0,
            a.y == buoyancy_spec(self.above_sea_level as int),
            a.z == self.thrust_spec(),
            0 <= a.y <= BUOYANCY_GAIN * LIMIT,
            0 <= a.z <= 10 * LIMIT + BOOST_THRUST,
    {
        let buoyancy: i64 = if self.above_sea_level < 0 {
            -self.above_sea_level * BUOYANCY_GAIN
        } else {
            0
        };
        let thrust: i64 = if self.is_in_water() && self.is_kicking {
            proof {
                lemma_kick_exact(self.speed_mod as int);
            }
            let kick: i64 = mul_fixed(KICK_THRUST, self.speed_mod);
            let boost: i64 = if self.is_boosting {
                BOOST_THRUST
            } else {
                0
            };
            kick + boost
        } else {
            0
        };
        Vec3 { x: 0, y: buoyancy, z: thrust }
    }

    /// Turns a steering force into a decision. A force shorter than `radius`
    /// lets the duck coast: no thrust, no turning. Otherwise the duck turns
    /// toward the force, to the right when the force has a positive component
    /// along the body's right axis, by `TURN_GAIN` times the bearing; and it
    /// paddles only if the force points into the forward half-space.
    ///
    /// `angle` is the unsigned angle between `force` and the body's forward
    /// axis, in radians, as the caller measured it.
    pub fn move_with_force(&mut self, tf: Pose, force: Vec3, radius: i64, angle: i64)
        requires
            tf.within_limits(),
            force.bounded(i64::MAX / 2),
            within_limit(angle as int),
        ensures
            old(self).steers_to(*final(self), tf, force, radius as int, angle as int),
            forall|m: int| old(self).within(m) ==> #[trigger] final(self).within(m),
    {
        if radius > 0 {
            proof {
                crate::vec3::lemma_product_fits(radius, radius);
            }
            let r2: i128 = (radius as i128) * (radius as i128);
            if force.length_squared() < r2 as u128 {
                self.is_kicking = false;
                self.angular_acceleration = 0;
                return ;
            }
        }
        let right_component: i128 = force.dot(tf.right);
        let forward_component: i128 = force.dot(tf.forward);
        let magnitude: i64 = if angle >= 0 {
            angle
        } else {
            -angle
        };
        let turn: i64 = if right_component > 0 {
            magnitude
        } else {
            -magnitude
        };
        self.is_kicking = forward_component > 0;
        self.angular_acceleration = turn * TURN_GAIN;
    }

    /// Records the height above the water at which the pose stands.
    pub fn sample_height(&mut self, tf: Pose)
        ensures
            *final(self) == (Duck { above_sea_level: tf.translation.y, ..*old(self) }),
    {
        self.above_sea_level = tf.translation.y;
    }

    /// Lets gravity act for one tick on a duck whose pose is above the water.
    pub fn apply_gravity(&mut self, tf: Pose, dt: i64)
        requires
            old(self).within_slack(),
            0 <= dt <= MAX_TICK,
        ensures
            old(self).falls_to(*final(self), tf, dt as int),
    {
        if tf.translation.y > 0 {
            proof {
                lemma_mul_fixed_bound(GRAVITY as int, dt as int, 9_810_000, 1_000_000);
            }
            self.velocity.y = self.velocity.y + mul_fixed(GRAVITY, dt);
        }
    }

    /// Accelerates for one tick: the body-fixed acceleration, carried into
    /// the world by the pose's axes, is added to the velocity, and the
    /// angular acceleration to the yaw rate.
    pub fn accelerate(&mut self, tf: Pose, dt: i64)
        requires
            old(self).within_slack(),
            tf.within_limits(),
            0 <= dt <= MAX_TICK,
        ensures
            old(self).accelerates_to(*final(self), tf, dt as int),
    {
        let bfa = self.body_fixed_acceleration();
        let ax = axis_acceleration(bfa, tf.up.x, tf.forward.x);
        let ay = axis_acceleration(bfa, tf.up.y, tf.forward.y);
        let az = axis_acceleration(bfa, tf.up.z, tf.forward.z);
        proof {
            lemma_mul_fixed_bound(ax as int, dt as int, 140_000_000_000_000, 1_000_000);
            lemma_mul_fixed_bound(ay as int, dt as int, 140_000_000_000_000, 1_000_000);
            lemma_mul_fixed_bound(az as int, dt as int, 140_000_000_000_000, 1_000_000);
            lemma_mul_fixed_bound(
                self.angular_acceleration as int,
                dt as int,
                7_000_000_000_000,
                1_000_000,
            );
        }
        self.velocity.x = self.velocity.x + mul_fixed(ax, dt);
        self.velocity.y = self.velocity.y + mul_fixed(ay, dt);
        self.velocity.z = self.velocity.z + mul_fixed(az, dt);
        self.angular_velocity = self.angular_velocity + mul_fixed(self.angular_acceleration, dt);
    }

    /// Applies one tick of drag: at or below the surface the vertical speed
    /// keeps four fifths and the horizontal speed nineteen twentieths; the
    /// yaw rate keeps nineteen twentieths at any height.
    pub fn damp(&mut self)
        requires
            old(self).within_slack(),
        ensures
            old(self).damps_to(*final(self)),
            forall|m: int| old(self).within(m) ==> #[trigger] final(self).within(m),
    {
        proof {
            lemma_trunc_div_bounds(self.velocity.x * 19, 20);
            lemma_trunc_div_bounds(self.velocity.y * 4, 5);
            lemma_trunc_div_bounds(self.velocity.z * 19, 20);
            lemma_trunc_div_bounds(self.angular_velocity * 19, 20);
        }
        if self.above_sea_level <= 0 {
            self.velocity.y = self.velocity.y * 4 / 5;
            self.velocity.x = self.velocity.x * 19 / 20;
            self.velocity.z = self.velocity.z * 19 / 20;
        }
        self.angular_velocity = self.angular_velocity * 19 / 20;
    }

    /// Moves the head one tick toward its target angle, by at most
    /// `HEAD_RATE`; a `retarget` first replaces the target.
    pub fn turn_head(&mut self, retarget: Option<i64>)
        requires
            old(self).within_slack(),
            retarget matches Some(t) ==> within_limit(t as int),
        ensures
            old(self).head_turns_to(*final(self), retarget),
            forall|m: int| old(self).within(m) ==> #[trigger] final(self).within(m),
    {
        if let Some(t) = retarget {
            self.target_head_angle = t;
        }
        let delta: i64 = self.target_head_angle - self.actual_head_angle;
        let step: i64 = if delta < -HEAD_RATE {
            -HEAD_RATE
        } else if delta > HEAD_RATE {
            HEAD_RATE
        } else {
            delta
        };
        self.actual_head_angle = self.actual_head_angle + step;
    }

    /// Adds an upward impulse to the velocity.
    pub fn jump(&mut self, impulse: i64)
        requires
            old(self).within_slack(),
            within_limit(impulse as int),
        ensures
            old(self).jumps_to(*final(self), impulse as int),
    {
        self.velocity.y = self.velocity.y + impulse;
    }

    /// Integrates one tick of motion into the pose: the position advances by
    /// velocity times `dt`. Returns the yaw, in radians, by which the body is
    /// to be rotated about its own up axis: yaw rate times `dt`.
    pub fn propagate(&self, tf: &mut Pose, dt: i64) -> (yaw: i64)
        requires
            self.within_slack(),
            old(tf).within_limits(),
            0 <= dt <= MAX_TICK,
        ensures
            self.carries(*old(tf), *final(tf), dt as int),
            yaw == self.yaw_spec(dt as int),
    {
        proof {
            lemma_mul_fixed_bound(self.velocity.x as int, dt as int, SLACK as int, 1_000_000);
            lemma_mul_fixed_bound(self.velocity.y as int, dt as int, SLACK as int, 1_000_000);
            lemma_mul_fixed_bound(self.velocity.z as int, dt as int, SLACK as int, 1_000_000);
            lemma_mul_fixed_bound(
                self.angular_velocity as int,
                dt as int,
                SLACK as int,
                1_000_000,
            );
        }
        tf.translation.x = tf.translation.x + mul_fixed(self.velocity.x, dt);
        tf.translation.y = tf.translation.y + mul_fixed(self.velocity.y, dt);
        tf.translation.z = tf.translation.z + mul_fixed(self.velocity.z, dt);
        mul_fixed(self.angular_velocity, dt)
    }
}

/// One world coordinate of a body-fixed acceleration `bfa`, given that
/// coordinate of the body's up and forward axes.
fn axis_acceleration(bfa: Vec3, up: i64, forward: i64) -> (a: i64)
    requires
        0 <= bfa.y <= BUOYANCY_GAIN * LIMIT,
        0 <= bfa.z <= 10 * LIMIT + BOOST_THRUST,
        -SCALE <= up <= SCALE,
        -SCALE <= forward <= SCALE,
    ensures
        a == mul_fixed_spec(up as int, bfa.y as int) + mul_fixed_spec(forward as int, bfa.z as int),
        -140_000_000_000_000 <= a <= 140_000_000_000_000,
{
    proof {
        lemma_mul_fixed_bound(up as int, bfa.y as int, 1_000_000, 100_000_000_000_000);
        lemma_mul_fixed_bound(forward as int, bfa.z as int, 1_000_000, 10_000_030_000_000);
    }
    mul_fixed(up, bfa.y) + mul_fixed(forward, bfa.z)
}

/// The thrust of a kick is ten times the speed multiplier, with nothing
/// lost to rounding.
pub(crate) proof fn lemma_kick_exact(speed_mod: int)
    requires
        0 <= speed_mod <= LIMIT,
    ensures
        mul_fixed_spec(KICK_THRUST as int, speed_mod) == 10 * speed_mod,
{
    assert(KICK_THRUST * speed_mod == (10 * speed_mod) * SCALE);
    vstd::arithmetic::div_mod::lemma_div_by_multiple(10 * speed_mod, SCALE as int);
}

/// A steering decision on a bearing within `LIMIT` leaves the duck within
/// the limits it was in.
pub(crate) proof fn lemma_steering_keeps_limits(
    before: Duck,
    after: Duck,
    tf: Pose,
    force: Vec3,
    radius: int,
    angle: int,
    m: int,
)
    requires
        before.steers_to(after, tf, force, radius, angle),
        before.within(m),
        within_limit(angle),
    ensures
        after.within(m),
{
}

/// In the run `trace` of a duck through its ticks, tick `k` took a steering
/// decision on a force inside the dead zone, and whatever else the tick did
/// left the thrust flag and the angular acceleration as the decision set them.
pub open spec fn coasts_at(
    trace: Seq<Duck>,
    poses: Seq<Pose>,
    forces: Seq<Vec3>,
    angles: Seq<int>,
    k: int,
) -> bool {
    &&& shorter_than(forces[k], DEAD_ZONE as int)
    &&& exists|steered: Duck|
        {
            &&& #[trigger] trace[k].steers_to(
                steered,
                poses[k],
                forces[k],
                DEAD_ZONE as int,
                angles[k],
            )
            &&& trace[k + 1].is_kicking == steered.is_kicking
            &&& trace[k + 1].angular_acceleration == steered.angular_acceleration
        }
}

/// While the steering force stays inside the dead zone, tick after tick,
/// the duck neither paddles nor turns: after every one of those ticks the
/// thrust flag is off and the angular acceleration is zero.
pub proof fn lemma_dead_zone_holds(
    trace: Seq<Duck>,
    poses: Seq<Pose>,
    forces: Seq<Vec3>,
    angles: Seq<int>,
)
    requires
        trace.len() == forces.len() + 1,
        poses.len() == forces.len(),
        angles.len() == forces.len(),
        forall|k: int| 0 <= k < forces.len() ==> #[trigger] coasts_at(trace, poses, forces, angles, k),
    ensures
        forall|k: int|
            1 <= k < trace.len() ==> !(#[trigger] trace[k]).is_kicking
                && trace[k].angular_acceleration == 0,
{
    assert forall|k: int| 1 <= k < trace.len() implies !(#[trigger] trace[k]).is_kicking
        && trace[k].angular_acceleration == 0 by {
        assert(coasts_at(trace, poses, forces, angles, k - 1));
    }
}

/// From step `k` of the run `m` to the next, the magnitude falls to
/// nineteen twentieths or less.
pub open spec fn decays_at(m: Seq<int>, k: int) -> bool {
    0 <= m[k + 1] && 20 * m[k + 1] <= 19 * m[k]
}

/// Fourteen steps of decay at least halve a magnitude.
proof fn lemma_decay_halves(m: Seq<int>, k: int)
    requires
        0 <= k,
        k + 14 < m.len(),
        forall|i: int| 0 <= i < m.len() - 1 ==> #[trigger] decays_at(m, i),
    ensures
        0 <= 2 * m[k + 14] <= m[k],
{
    assert(decays_at(m, k));
    assert(decays_at(m, k + 1));
    assert(decays_at(m, k + 2));
    assert(decays_at(m, k + 3));
    assert(decays_at(m, k + 4));
    assert(decays_at(m, k + 5));
    assert(decays_at(m, k + 6));
    assert(decays_at(m, k + 7));
    assert(decays_at(m, k + 8));
    assert(decays_at(m, k + 9));
    assert(decays_at(m, k + 10));
    assert(decays_at(m, k + 11));
    assert(decays_at(m, k + 12));
    assert(decays_at(m, k + 13));
}

/// After fourteen times `j` steps of decay a magnitude has halved `j` times.
proof fn lemma_decay_power(m: Seq<int>, j: nat)
    requires
        14 * j < m.len(),
        forall|i: int| 0 <= i < m.len() - 1 ==> #[trigger] decays_at(m, i),
        0 <= m[0],
    ensures
        0 <= m[14 * (j as int)] * vstd::arithmetic::power2::pow2(j) <= m[0],
    decreases j,
{
    vstd::arithmetic::power2::lemma_pow2_pos(j);
    if j == 0 {
        vstd::arithmetic::power2::lemma2_to64();
    } else {
        lemma_decay_power(m, (j - 1) as nat);
        lemma_decay_halves(m, 14 * (j - 1));
        vstd::arithmetic::power2::lemma_pow2_unfold(j);
        let p = vstd::arithmetic::power2::pow2((j - 1) as nat) as int;
        let a = m[14 * (j - 1)];
        let b = m[14 * (j as int)];
        assert(m[14 * (j - 1) + 14] == b);
        assert(0 <= b * (2 * p) <= a * p) by (nonlinear_arith)
            requires
                0 <= 2 * b <= a,
                p >= 0,
        ;
    }
}

/// A magnitude that starts below two to the power `j` and falls to
/// nineteen twentieths or less at every step never grows, and is zero from
/// step fourteen times `j` on.
pub proof fn lemma_decay_reaches_zero(m: Seq<int>, j: nat)
    requires
        m.len() >= 1,
        0 <= m[0] < vstd::arithmetic::power2::pow2(j),
        forall|i: int| 0 <= i < m.len() - 1 ==> #[trigger] decays_at(m, i),
    ensures
        forall|k: int| 0 <= k < m.len() - 1 ==> 0 <= #[trigger] m[k + 1] <= m[k],
        forall|k: int| 14 * j <= k < m.len() ==> #[trigger] m[k] == 0,
{
    assert forall|k: int| 0 <= k < m.len() - 1 implies 0 <= #[trigger] m[k + 1] <= m[k] by {
        assert(decays_at(m, k));
        if k > 0 {
            assert(decays_at(m, k - 1));
        }
    }
    let rest = 14 * (j as int);
    if m.len() > rest {
        lemma_decay_power(m, j);
        let p = vstd::arithmetic::power2::pow2(j) as int;
        assert(m[rest] >= 0) by {
            if rest > 0 {
                assert(decays_at(m, rest - 1));
            }
        }
        assert(m[rest] == 0) by (nonlinear_arith)
            requires
                0 <= m[rest] * p < p,
                m[rest] >= 0,
        ;
        lemma_zero_stays(m, rest, (m.len() - 1) as int);
    }
}

/// Once zero, a decaying magnitude stays zero.
proof fn lemma_zero_stays(m: Seq<int>, rest: int, k: int)
    requires
        0 <= rest <= k < m.len(),
        m[rest] == 0,
        forall|i: int| 0 <= i < m.len() - 1 ==> #[trigger] decays_at(m, i),
    ensures
        forall|i: int| rest <= i <= k ==> #[trigger] m[i] == 0,
    decreases k - rest,
{
    if k > rest {
        lemma_zero_stays(m, rest, k - 1);
        assert(decays_at(m, k - 1));
    }
}

/// In the run `trace`, only drag acts between step `k` and the next.
pub open spec fn damps_at(trace: Seq<Duck>, k: int) -> bool {
    trace[k].damps_to(trace[k + 1])
}

/// The number of ticks after which drag alone has brought the duck `d` to
/// rest: 560 for a duck within the limits that a tick starts from, 798 for
/// any other that a step of a tick accepts.
pub open spec fn rest_after(d: Duck) -> int {
    if d.within_limits() {
        560
    } else {
        798
    }
}

/// A duck on which nothing acts but drag slows down and comes to rest.
/// Its yaw rate never grows in magnitude and is zero after `rest` ticks; and
/// if the duck is at or below the surface, the same holds of each
/// coordinate of its velocity. Here `rest` is what `rest_after` gives for
/// the duck at the start.
pub proof fn lemma_damping_converges(trace: Seq<Duck>)
    requires
        trace.len() >= 1,
        trace[0].within_slack(),
        forall|k: int| 0 <= k < trace.len() - 1 ==> #[trigger] damps_at(trace, k),
    ensures
        forall|k: int|
            0 <= k < trace.len() - 1 ==> abs_spec(
                (#[trigger] trace[k + 1]).angular_velocity as int,
            ) <= abs_spec(trace[k].angular_velocity as int),
        forall|k: int|
            rest_after(trace[0]) <= k < trace.len() ==> (#[trigger] trace[k]).angular_velocity == 0,
        trace[0].above_sea_level <= 0 ==> forall|k: int|
            0 <= k < trace.len() - 1 ==> {
                &&& abs_spec((#[trigger] trace[k + 1]).velocity.x as int) <= abs_spec(
                    trace[k].velocity.x as int,
                )
                &&& abs_spec(trace[k + 1].velocity.y as int) <= abs_spec(trace[k].velocity.y as int)
                &&& abs_spec(trace[k + 1].velocity.z as int) <= abs_spec(trace[k].velocity.z as int)
            },
        trace[0].above_sea_level <= 0 ==> forall|k: int|
            rest_after(trace[0]) <= k < trace.len() ==> (#[trigger] trace[k]).velocity
                == Vec3::zero_spec(),
{
    vstd::arithmetic::power2::lemma2_to64_rest();
    let j: nat = if trace[0].within_limits() { 40 } else { 57 };
    assert(14 * j == rest_after(trace[0]));
    let w = Seq::new(trace.len(), |k: int| abs_spec(trace[k].angular_velocity as int));
    assert forall|i: int| 0 <= i < w.len() - 1 implies #[trigger] decays_at(w, i) by {
        assert(damps_at(trace, i));
        lemma_trunc_div_bounds(trace[i].angular_velocity * 19, 20);
    }
    lemma_decay_reaches_zero(w, j);
    assert forall|k: int| 0 <= k < trace.len() - 1 implies abs_spec(
        (#[trigger] trace[k + 1]).angular_velocity as int,
    ) <= abs_spec(trace[k].angular_velocity as int) by {
        assert(w[k + 1] <= w[k]);
    }
    assert forall|k: int| rest_after(trace[0]) <= k < trace.len() implies (
    #[trigger] trace[k]).angular_velocity == 0 by {
        assert(w[k] == 0);
    }
    if trace[0].above_sea_level <= 0 {
        lemma_stays_submerged(trace, (trace.len() - 1) as int);
        let x = Seq::new(trace.len(), |k: int| abs_spec(trace[k].velocity.x as int));
        let y = Seq::new(trace.len(), |k: int| abs_spec(trace[k].velocity.y as int));
        let z = Seq::new(trace.len(), |k: int| abs_spec(trace[k].velocity.z as int));
        assert forall|i: int| 0 <= i < trace.len() - 1 implies #[trigger] decays_at(x, i)
            && decays_at(y, i) && decays_at(z, i) by {
            assert(damps_at(trace, i));
            assert(trace[i].above_sea_level <= 0);
            lemma_trunc_div_bounds(trace[i].velocity.x * 19, 20);
            lemma_trunc_div_bounds(trace[i].velocity.y * 4, 5);
            lemma_trunc_div_bounds(trace[i].velocity.z * 19, 20);
        }
        assert forall|i: int| 0 <= i < y.len() - 1 implies #[trigger] decays_at(y, i) by {
            assert(decays_at(x, i));
        }
        assert forall|i: int| 0 <= i < z.len() - 1 implies #[trigger] decays_at(z, i) by {
            assert(decays_at(x, i));
        }
        lemma_decay_reaches_zero(x, j);
        lemma_decay_reaches_zero(y, j);
        lemma_decay_reaches_zero(z, j);
        assert forall|k: int| 0 <= k < trace.len() - 1 implies {
            &&& abs_spec((#[trigger] trace[k + 1]).velocity.x as int) <= abs_spec(
                trace[k].velocity.x as int,
            )
            &&& abs_spec(trace[k + 1].velocity.y as int) <= abs_spec(trace[k].velocity.y as int)
            &&& abs_spec(trace[k + 1].velocity.z as int) <= abs_spec(trace[k].velocity.z as int)
        } by {
            assert(x[k + 1] <= x[k]);
            assert(y[k + 1] <= y[k]);
            assert(z[k + 1] <= z[k]);
        }
        assert forall|k: int| rest_after(trace[0]) <= k < trace.len() implies (
        #[trigger] trace[k]).velocity == Vec3::zero_spec() by {
            assert(x[k] == 0);
            assert(y[k] == 0);
            assert(z[k] == 0);
        }
    }
}

/// Drag does not move a duck: one at or below the surface stays there.
proof fn lemma_stays_submerged(trace: Seq<Duck>, k: int)
    requires
        0 <= k < trace.len(),
        trace[0].above_sea_level <= 0,
        forall|i: int| 0 <= i < trace.len() - 1 ==> #[trigger] damps_at(trace, i),
    ensures
        forall|i: int| 0 <= i <= k ==> (#[trigger] trace[i]).above_sea_level <= 0,
    decreases k,
{
    if k > 0 {
        lemma_stays_submerged(trace, k - 1);
        assert(damps_at(trace, k - 1));
    }
}

} // verus!
