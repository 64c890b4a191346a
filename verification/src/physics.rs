//! The physics passes over the table, and the integrator that runs them in
//! order for one agent.

use vstd::prelude::*;
use crate::agent::{find_agent, index_of, table_within_limits, table_within_slack, Agent};
use crate::chance::{random_chance, random_range};
use crate::duck::{Duck, Pose, MAX_TICK, SLACK};
use crate::fixed::{lemma_mul_fixed_bound, within_limit, LIMIT};
use crate::vec3::Vec3;

verus! {

/// The least upward impulse of a jump.
pub const JUMP_MIN: i64 = 4_000_000;

/// The greatest upward impulse of a jump.
pub const JUMP_MAX: i64 = 11_000_000;

/// The widest angle, to either side, at which a head comes to rest.
pub const HEAD_SWING: i64 = 2_000_000;

/// A request that a duck jump.
#[derive(Clone, Copy, Debug, PartialEq, Eq, Structural)]
pub struct DuckJump {
    pub duck: u64,
}

/// `after` differs from `before` in its kinematic state at most.
pub open spec fn only_duck_changed(before: Agent, after: Agent) -> bool {
    after == (Agent { duck: after.duck, ..before })
}

/// The kinematic state of every agent is one that a step of a tick accepts.
pub open spec fn ducks_within_slack(agents: Seq<Agent>) -> bool {
    forall|i: int| 0 <= i < agents.len() ==> (#[trigger] agents[i]).duck.within_slack()
}

/// `after` is the duck `before` after its head has moved for one tick,
/// with or without a new target angle within `HEAD_SWING`.
pub open spec fn head_moves(before: Duck, after: Duck) -> bool {
    exists|retarget: Option<i64>|
        (retarget matches Some(t) ==> -HEAD_SWING <= t <= HEAD_SWING) && #[trigger] before.head_turns_to(
            after,
            retarget,
        )
}

/// The duck of `a` with the height of its pose recorded.
pub open spec fn sampled_spec(a: Agent) -> Duck {
    Duck { above_sea_level: a.transform.translation.y, ..a.duck }
}

/// `after` and `yaw` are what one tick of length `dt` makes of the agent
/// `before`: the height is sampled, gravity acts, the duck accelerates,
/// drag acts, and the pose advances, in this order; `yaw` is the angle by
/// which the body is to be turned about its own up axis.
pub open spec fn integrates_to(before: Agent, after: Agent, yaw: int, dt: int) -> bool {
    exists|fallen: Duck, pushed: Duck|
        #![trigger fallen.accelerates_to(pushed, before.transform, dt)]
        {
            &&& sampled_spec(before).falls_to(fallen, before.transform, dt)
            &&& fallen.accelerates_to(pushed, before.transform, dt)
            &&& pushed.damps_to(after.duck)
            &&& after.duck.carries(before.transform, after.transform, dt)
            &&& yaw == after.duck.yaw_spec(dt)
            &&& after == (Agent { duck: after.duck, transform: after.transform, ..before })
        }
}

/// Runs the physics of one tick of length `dt` on one agent: height
/// sampling, gravity, acceleration, drag, and motion, in this order.
/// Returns the agent after the tick and the yaw by which its body is to be
/// turned about its own up axis.
pub fn integrate(a: Agent, dt: i64) -> (r: (Agent, i64))
    requires
        a.transform.within_limits(),
        a.duck.within_limits(),
        0 <= dt <= MAX_TICK,
    ensures
        integrates_to(a, r.0, r.1 as int, dt as int),
        r.0.duck.within_slack(),
{
    let mut duck = a.duck;
    let mut tf = a.transform;
    duck.sample_height(tf);
    let ghost sampled = duck;
    duck.apply_gravity(tf, dt);
    let ghost fallen = duck;
    proof {
        lemma_mul_fixed_bound(crate::duck::GRAVITY as int, dt as int, 9_810_000, 1_000_000);
    }
    duck.accelerate(tf, dt);
    let ghost pushed = duck;
    proof {
        lemma_accelerated_bound(fallen, pushed, tf, dt as int);
    }
    duck.damp();
    let yaw = duck.propagate(&mut tf, dt);
    proof {
        assert(sampled == sampled_spec(a));
        assert(sampled.falls_to(fallen, a.transform, dt as int));
        assert(fallen.accelerates_to(pushed, a.transform, dt as int));
    }
    (Agent { duck, transform: tf, ..a }, yaw)
}

/// Accelerating for at most `MAX_TICK` adds less than 140 units a second
/// to each speed and less than 7 to the yaw rate, for each unit of `LIMIT`.
proof fn lemma_accelerated_bound(before: Duck, after: Duck, tf: Pose, dt: int)
    requires
        before.within(2 * LIMIT),
        tf.within_limits(),
        0 <= dt <= MAX_TICK,
        before.accelerates_to(after, tf, dt),
    ensures
        after.within(150 * LIMIT),
{
    let b = crate::duck::buoyancy_spec(before.above_sea_level as int);
    let t = before.thrust_spec();
    if before.in_water() && before.is_kicking {
        crate::duck::lemma_kick_exact(before.speed_mod as int);
    }
    assert(0 <= b <= 100 * LIMIT);
    assert(0 <= t <= 10 * LIMIT + crate::duck::BOOST_THRUST);
    lemma_mul_fixed_bound(tf.up.x as int, b, 1_000_000, 100_000_000_000_000);
    lemma_mul_fixed_bound(tf.up.y as int, b, 1_000_000, 100_000_000_000_000);
    lemma_mul_fixed_bound(tf.up.z as int, b, 1_000_000, 100_000_000_000_000);
    lemma_mul_fixed_bound(tf.forward.x as int, t, 1_000_000, 10_000_030_000_000);
    lemma_mul_fixed_bound(tf.forward.y as int, t, 1_000_000, 10_000_030_000_000);
    lemma_mul_fixed_bound(tf.forward.z as int, t, 1_000_000, 10_000_030_000_000);
    let ax = before.accel_axis_spec(tf.up.x as int, tf.forward.x as int);
    let ay = before.accel_axis_spec(tf.up.y as int, tf.forward.y as int);
    let az = before.accel_axis_spec(tf.up.z as int, tf.forward.z as int);
    lemma_mul_fixed_bound(ax, dt, 140_000_000_000_000, 1_000_000);
    lemma_mul_fixed_bound(ay, dt, 140_000_000_000_000, 1_000_000);
    lemma_mul_fixed_bound(az, dt, 140_000_000_000_000, 1_000_000);
    lemma_mul_fixed_bound(before.angular_acceleration as int, dt, 7_000_000_000_000, 1_000_000);
}

/// Records for every agent the height at which it stands.
pub fn update_ducks_above_sea_level(agents: &mut Vec<Agent>)
    ensures
        final(agents)@.len() == old(agents)@.len(),
        forall|i: int|
            0 <= i < old(agents)@.len() ==> (#[trigger] final(agents)@[i]) == (Agent {
                duck: Duck {
                    above_sea_level: old(agents)@[i].transform.translation.y,
                    ..old(agents)@[i].duck
                },
                ..old(agents)@[i]
            }),
{
    let mut i: usize = 0;
    while i < agents.len()
        invariant
            i <= agents.len(),
            agents@.len() == old(agents)@.len(),
            forall|k: int|
                0 <= k < i ==> (#[trigger] agents@[k]) == (Agent {
                    duck: Duck {
                        above_sea_level: old(agents)@[k].transform.translation.y,
                        ..old(agents)@[k].duck
                    },
                    ..old(agents)@[k]
                }),
            forall|k: int| i <= k < agents@.len() ==> (#[trigger] agents@[k]) == old(agents)@[k],
        decreases agents.len() - i,
    {
        let a = agents[i];
        let mut duck = a.duck;
        duck.sample_height(a.transform);
        agents.set(i, Agent { duck, ..a });
        i = i + 1;
    }
}

/// Lets gravity act for `dt` on every agent that stands above the water.
pub fn apply_gravity_to_ducks(agents: &mut Vec<Agent>, dt: i64)
    requires
        table_within_slack(old(agents)@),
        0 <= dt <= MAX_TICK,
    ensures
        final(agents)@.len() == old(agents)@.len(),
        forall|i: int|
            0 <= i < old(agents)@.len() ==> only_duck_changed(
                old(agents)@[i],
                #[trigger] final(agents)@[i],
            ) && old(agents)@[i].duck.falls_to(
                final(agents)@[i].duck,
                old(agents)@[i].transform,
                dt as int,
            ),
{
    let mut i: usize = 0;
    while i < agents.len()
        invariant
            i <= agents.len(),
            agents@.len() == old(agents)@.len(),
            table_within_slack(old(agents)@),
            0 <= dt <= MAX_TICK,
            forall|k: int|
                0 <= k < i ==> only_duck_changed(old(agents)@[k], #[trigger] agents@[k]) && old(
                    agents,
                )@[k].duck.falls_to(agents@[k].duck, old(agents)@[k].transform, dt as int),
            forall|k: int| i <= k < agents@.len() ==> (#[trigger] agents@[k]) == old(agents)@[k],
        decreases agents.len() - i,
    {
        let a = agents[i];
        assert(old(agents)@[i as int].within_slack());
        let mut duck = a.duck;
        duck.apply_gravity(a.transform, dt);
        agents.set(i, Agent { duck, ..a });
        i = i + 1;
    }
}

/// Accelerates every agent for `dt`.
pub fn accelerate_ducks(agents: &mut Vec<Agent>, dt: i64)
    requires
        table_within_slack(old(agents)@),
        0 <= dt <= MAX_TICK,
    ensures
        final(agents)@.len() == old(agents)@.len(),
        forall|i: int|
            0 <= i < old(agents)@.len() ==> only_duck_changed(
                old(agents)@[i],
                #[trigger] final(agents)@[i],
            ) && old(agents)@[i].duck.accelerates_to(
                final(agents)@[i].duck,
                old(agents)@[i].transform,
                dt as int,
            ),
{
    let mut i: usize = 0;
    while i < agents.len()
        invariant
            i <= agents.len(),
            agents@.len() == old(agents)@.len(),
            table_within_slack(old(agents)@),
            0 <= dt <= MAX_TICK,
            forall|k: int|
                0 <= k < i ==> only_duck_changed(old(agents)@[k], #[trigger] agents@[k]) && old(
                    agents,
                )@[k].duck.accelerates_to(agents@[k].duck, old(agents)@[k].transform, dt as int),
            forall|k: int| i <= k < agents@.len() ==> (#[trigger] agents@[k]) == old(agents)@[k],
        decreases agents.len() - i,
    {
        let a = agents[i];
        assert(old(agents)@[i as int].within_slack());
        let mut duck = a.duck;
        duck.accelerate(a.transform, dt);
        agents.set(i, Agent { duck, ..a });
        i = i + 1;
    }
}

/// Applies one tick of drag to every agent.
pub fn damp_velocity(agents: &mut Vec<Agent>)
    requires
        table_within_slack(old(agents)@),
    ensures
        final(agents)@.len() == old(agents)@.len(),
        forall|i: int|
            0 <= i < old(agents)@.len() ==> only_duck_changed(
                old(agents)@[i],
                #[trigger] final(agents)@[i],
            ) && old(agents)@[i].duck.damps_to(final(agents)@[i].duck),
        table_within_slack(final(agents)@),
        table_within_limits(old(agents)@) ==> table_within_limits(final(agents)@),
{
    let mut i: usize = 0;
    while i < agents.len()
        invariant
            i <= agents.len(),
            agents@.len() == old(agents)@.len(),
            table_within_slack(old(agents)@),
            forall|k: int|
                0 <= k < i ==> only_duck_changed(old(agents)@[k], #[trigger] agents@[k]) && old(
                    agents,
                )@[k].duck.damps_to(agents@[k].duck),
            forall|k: int| 0 <= k < i ==> (#[trigger] agents@[k]).within_slack(),
            forall|k: int|
                0 <= k < i && old(agents)@[k].within_limits() ==> (#[trigger] agents@[k]).within_limits(),
            forall|k: int| i <= k < agents@.len() ==> (#[trigger] agents@[k]) == old(agents)@[k],
        decreases agents.len() - i,
    {
        let a = agents[i];
        assert(old(agents)@[i as int].within_slack());
        let mut duck = a.duck;
        duck.damp();
        assert(a.duck.within(SLACK as int) ==> duck.within(SLACK as int));
        assert(a.duck.within(LIMIT as int) ==> duck.within(LIMIT as int));
        assert(a.within_limits() ==> (Agent { duck, ..a }).within_limits());
        agents.set(i, Agent { duck, ..a });
        i = i + 1;
    }
}

/// Moves every head for one tick: with one chance in a hundred the head
/// takes a new target angle, drawn within `HEAD_SWING` to either side, and
/// in any case it steps toward its target.
pub fn move_duck_heads(agents: &mut Vec<Agent>)
    requires
        ducks_within_slack(old(agents)@),
    ensures
        final(agents)@.len() == old(agents)@.len(),
        forall|i: int|
            0 <= i < old(agents)@.len() ==> only_duck_changed(
                old(agents)@[i],
                #[trigger] final(agents)@[i],
            ) && head_moves(old(agents)@[i].duck, final(agents)@[i].duck),
        ducks_within_slack(final(agents)@),
{
    let mut i: usize = 0;
    while i < agents.len()
        invariant
            i <= agents.len(),
            agents@.len() == old(agents)@.len(),
            ducks_within_slack(old(agents)@),
            forall|k: int|
                0 <= k < i ==> only_duck_changed(old(agents)@[k], #[trigger] agents@[k])
                    && head_moves(old(agents)@[k].duck, agents@[k].duck),
            forall|k: int| 0 <= k < i ==> (#[trigger] agents@[k]).duck.within_slack(),
            forall|k: int| i <= k < agents@.len() ==> (#[trigger] agents@[k]) == old(agents)@[k],
        decreases agents.len() - i,
    {
        let a = agents[i];
        assert(old(agents)@[i as int].duck.within_slack());
        let retarget: Option<i64> = if random_chance(1, 100) {
            Some(random_range(-HEAD_SWING, HEAD_SWING + 1))
        } else {
            None
        };
        let mut duck = a.duck;
        duck.turn_head(retarget);
        assert(a.duck.head_turns_to(duck, retarget));
        assert(a.duck.within(SLACK as int) ==> duck.within(SLACK as int));
        agents.set(i, Agent { duck, ..a });
        i = i + 1;
    }
}

/// Advances every pose by `dt`. Returns, for every agent of the table, the
/// yaw by which its body is to be turned about its own up axis.
pub fn propagate_duck_physics(agents: &mut Vec<Agent>, dt: i64) -> (yaws: Vec<i64>)
    requires
        table_within_slack(old(agents)@),
        0 <= dt <= MAX_TICK,
    ensures
        final(agents)@.len() == old(agents)@.len(),
        yaws@.len() == old(agents)@.len(),
        forall|i: int|
            0 <= i < old(agents)@.len() ==> {
                &&& (#[trigger] final(agents)@[i]) == (Agent {
                    transform: final(agents)@[i].transform,
                    ..old(agents)@[i]
                })
                &&& old(agents)@[i].duck.carries(
                    old(agents)@[i].transform,
                    final(agents)@[i].transform,
                    dt as int,
                )
                &&& yaws@[i] == old(agents)@[i].duck.yaw_spec(dt as int)
            },
{
    let mut yaws: Vec<i64> = Vec::new();
    let mut i: usize = 0;
    while i < agents.len()
        invariant
            i <= agents.len(),
            agents@.len() == old(agents)@.len(),
            yaws@.len() == i,
            table_within_slack(old(agents)@),
            0 <= dt <= MAX_TICK,
            forall|k: int|
                0 <= k < i ==> {
                    &&& (#[trigger] agents@[k]) == (Agent {
                        transform: agents@[k].transform,
                        ..old(agents)@[k]
                    })
                    &&& old(agents)@[k].duck.carries(
                        old(agents)@[k].transform,
                        agents@[k].transform,
                        dt as int,
                    )
                    &&& yaws@[k] == old(agents)@[k].duck.yaw_spec(dt as int)
                },
            forall|k: int| i <= k < agents@.len() ==> (#[trigger] agents@[k]) == old(agents)@[k],
        decreases agents.len() - i,
    {
        let a = agents[i];
        assert(old(agents)@[i as int].within_slack());
        let mut tf = a.transform;
        let yaw = a.duck.propagate(&mut tf, dt);
        agents.set(i, Agent { transform: tf, ..a });
        yaws.push(yaw);
        i = i + 1;
    }
    yaws
}

/// `after` is `before` but for its vertical speed, which has grown by no
/// less than `low` and no more than `high`.
pub open spec fn lifted(before: Agent, after: Agent, low: int, high: int) -> bool {
    &&& only_duck_changed(before, after)
    &&& after.duck == (Duck { velocity: after.duck.velocity, ..before.duck })
    &&& after.duck.velocity.x == before.duck.velocity.x
    &&& after.duck.velocity.z == before.duck.velocity.z
    &&& before.duck.velocity.y + low <= after.duck.velocity.y <= before.duck.velocity.y + high
}

/// The agent `a` with `impulse` added to its vertical speed.
pub open spec fn jumped_spec(a: Agent, impulse: int) -> Agent {
    Agent {
        duck: Duck {
            velocity: Vec3 {
                x: a.duck.velocity.x,
                y: (a.duck.velocity.y + impulse) as i64,
                z: a.duck.velocity.z,
            },
            ..a.duck
        },
        ..a
    }
}

/// The table after the duck that bears `id` has jumped with `impulse`: the
/// table itself, where it holds no such duck.
pub open spec fn jump_spec(agents: Seq<Agent>, id: u64, impulse: int) -> Seq<Agent> {
    match index_of(agents, id) {
        Some(i) => agents.update(i, jumped_spec(agents[i], impulse)),
        None => agents,
    }
}

/// The table after the first `n` of `messages` have been handled in order,
/// each with the impulse that stands at its place in `impulses`. A message
/// that names a duck which the table does not hold changes nothing.
pub open spec fn jumps_upto(
    agents: Seq<Agent>,
    messages: Seq<DuckJump>,
    impulses: Seq<i64>,
    n: int,
) -> Seq<Agent>
    decreases n,
{
    if n <= 0 {
        agents
    } else {
        jump_spec(
            jumps_upto(agents, messages, impulses, n - 1),
            messages[n - 1].duck,
            impulses[n - 1] as int,
        )
    }
}

/// Every impulse lies between `JUMP_MIN` and `JUMP_MAX`.
pub open spec fn jump_impulses(impulses: Seq<i64>) -> bool {
    forall|k: int| 0 <= k < impulses.len() ==> JUMP_MIN <= #[trigger] impulses[k] <= JUMP_MAX
}

/// Adds `impulse` to the vertical speed of the agent at place `i`.
fn lift_at(agents: &mut Vec<Agent>, i: usize, impulse: i64)
    requires
        i < old(agents)@.len(),
        old(agents)@[i as int].duck.within_slack(),
        within_limit(impulse as int),
    ensures
        final(agents)@ == old(agents)@.update(i as int, jumped_spec(old(agents)@[i as int], impulse as int)),
        lifted(old(agents)@[i as int], final(agents)@[i as int], impulse as int, impulse as int),
{
    let a = agents[i];
    let mut duck = a.duck;
    duck.jump(impulse);
    agents.set(i, Agent { duck, ..a });
    assert(agents@ =~= old(agents)@.update(
        i as int,
        jumped_spec(old(agents)@[i as int], impulse as int),
    ));
}

/// Gives the duck that bears `id` an upward impulse. Returns whether the
/// table holds such a duck; where it does not, nothing changes.
pub fn jump_duck(agents: &mut Vec<Agent>, id: u64, impulse: i64) -> (found: bool)
    requires
        table_within_slack(old(agents)@),
        within_limit(impulse as int),
    ensures
        found == (index_of(old(agents)@, id) is Some),
        final(agents)@ == jump_spec(old(agents)@, id, impulse as int),
{
    match find_agent(agents, id) {
        Some(i) => {
            assert(agents@[i as int].within_slack());
            lift_at(agents, i, impulse);
            true
        },
        None => false,
    }
}

/// Makes the ducks named by `messages` jump, in order, each with an impulse
/// drawn from `JUMP_MIN` to `JUMP_MAX`. A message that names a duck which
/// the table does not hold is skipped.
///
/// Whatever is drawn, the table is what `jump_duck` makes of it message by
/// message, for some impulses in that range; so only vertical speeds
/// change, none falls, and none grows by more than `JUMP_MAX` for each
/// message.
pub fn handle_duck_jump_messages(agents: &mut Vec<Agent>, messages: &Vec<DuckJump>)
    requires
        table_within_limits(old(agents)@),
        messages@.len() <= crate::agent::MAX_AGENTS,
    ensures
        exists|impulses: Seq<i64>|
            #![trigger jumps_upto(old(agents)@, messages@, impulses, messages@.len() as int)]
            {
                &&& impulses.len() == messages@.len()
                &&& jump_impulses(impulses)
                &&& final(agents)@ == jumps_upto(
                    old(agents)@,
                    messages@,
                    impulses,
                    messages@.len() as int,
                )
            },
        final(agents)@.len() == old(agents)@.len(),
        forall|i: int|
            0 <= i < old(agents)@.len() ==> lifted(
                old(agents)@[i],
                #[trigger] final(agents)@[i],
                0,
                JUMP_MAX * messages@.len(),
            ),
        table_within_slack(final(agents)@),
{
    let ghost mut impulses: Seq<i64> = Seq::empty();
    let mut j: usize = 0;
    while j < messages.len()
        invariant
            j <= messages.len(),
            messages@.len() <= crate::agent::MAX_AGENTS,
            agents@.len() == old(agents)@.len(),
            table_within_limits(old(agents)@),
            impulses.len() == j,
            jump_impulses(impulses),
            agents@ == jumps_upto(old(agents)@, messages@, impulses, j as int),
            forall|i: int|
                0 <= i < agents@.len() ==> lifted(
                    old(agents)@[i],
                    #[trigger] agents@[i],
                    0,
                    JUMP_MAX * j,
                ),
        decreases messages.len() - j,
    {
        proof {
            lemma_lifted_within_slack(old(agents)@, agents@, j as int);
        }
        let id = messages[j].duck;
        let ghost before = agents@;
        let ghost earlier = impulses;
        let ghost mut drawn: i64 = JUMP_MIN;
        if let Some(i) = find_agent(agents, id) {
            let impulse = random_range(JUMP_MIN, JUMP_MAX + 1);
            assert(before[i as int].within_slack());
            lift_at(agents, i, impulse);
            proof {
                drawn = impulse;
            }
        }
        proof {
            impulses = earlier.push(drawn);
            assert(agents@ == jump_spec(before, id, drawn as int));
            lemma_jumps_prefix(old(agents)@, messages@, earlier, impulses, j as int);
            assert forall|i: int| 0 <= i < agents@.len() implies lifted(
                old(agents)@[i],
                #[trigger] agents@[i],
                0,
                JUMP_MAX * (j + 1),
            ) by {
                assert(lifted(old(agents)@[i], before[i], 0, JUMP_MAX * j));
                assert(before[i].within_slack());
            }
        }
        j = j + 1;
    }
    proof {
        lemma_lifted_within_slack(old(agents)@, agents@, messages@.len() as int);
    }
}

/// What the first `n` messages make of a table depends on the first `n`
/// impulses only.
proof fn lemma_jumps_prefix(
    agents: Seq<Agent>,
    messages: Seq<DuckJump>,
    a: Seq<i64>,
    b: Seq<i64>,
    n: int,
)
    requires
        0 <= n <= a.len(),
        n <= b.len(),
        forall|k: int| 0 <= k < n ==> a[k] == b[k],
    ensures
        jumps_upto(agents, messages, a, n) == jumps_upto(agents, messages, b, n),
    decreases n,
{
    if n > 0 {
        lemma_jumps_prefix(agents, messages, a, b, n - 1);
    }
}

/// A table whose speeds have grown by at most `JUMP_MAX` times `n` since
/// it was within limits is one that the steps of a tick accept.
proof fn lemma_lifted_within_slack(before: Seq<Agent>, after: Seq<Agent>, n: int)
    requires
        table_within_limits(before),
        after.len() == before.len(),
        0 <= n <= crate::agent::MAX_AGENTS,
        forall|i: int|
            0 <= i < after.len() ==> lifted(before[i], #[trigger] after[i], 0, JUMP_MAX * n),
    ensures
        table_within_slack(after),
{
    assert forall|i: int| 0 <= i < after.len() implies (#[trigger] after[i]).within_slack() by {
        assert(before[i].within_limits());
        assert(lifted(before[i], after[i], 0, JUMP_MAX * n));
    }
    assert forall|i: int| 0 <= i < before.len() implies (#[trigger] after[i]).id
        == before[i].id by {
        assert(lifted(before[i], after[i], 0, JUMP_MAX * n));
    }
    crate::agent::lemma_same_ids_distinct(before, after);
}

} // verus!
