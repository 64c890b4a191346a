//! The force passes over the table: seek, separation, and the steering
//! decision that follows from them.

use vstd::prelude::*;
use crate::agent::{distinct_ids, table_within_slack, Agent, FORCE_LIMIT};
use crate::boid::{
    lemma_repulsion_antisymmetric, repulsion, repulsion_axis_spec, seek_axis_spec, seek_force,
    separation_weight, weight_spec, Boid,
};
use crate::duck::DEAD_ZONE;
use crate::fixed::{within_limit, SCALE};
use crate::notice::Notice;
use crate::vec3::Vec3;

verus! {

/// The vector from `q` to `p`.
pub open spec fn offset(p: Vec3, q: Vec3) -> Vec3 {
    Vec3 { x: (p.x - q.x) as i64, y: (p.y - q.y) as i64, z: (p.z - q.z) as i64 }
}

/// The push that `other` gives `ego`: the repulsion along the offset between
/// them, times the weight of their classes. An agent does not push itself.
pub open spec fn push_spec(ego: Agent, other: Agent) -> (int, int, int) {
    if ego.id == other.id {
        (0, 0, 0)
    } else {
        let d = offset(ego.transform.translation, other.transform.translation);
        let w = weight_spec(!ego.is_duckling, !other.is_duckling);
        (
            w * repulsion_axis_spec(d, d.x as int),
            w * repulsion_axis_spec(d, d.y as int),
            w * repulsion_axis_spec(d, d.z as int),
        )
    }
}

/// The sum of the pushes that the first `n` agents give `ego`.
pub open spec fn separation_upto(ego: Agent, agents: Seq<Agent>, n: int) -> (int, int, int)
    decreases n,
{
    if n <= 0 {
        (0, 0, 0)
    } else {
        let s = separation_upto(ego, agents, n - 1);
        let p = push_spec(ego, agents[n - 1]);
        (s.0 + p.0, s.1 + p.1, s.2 + p.2)
    }
}

/// `after` is `before` with its separation force computed afresh against
/// the table `agents`. An agent without steering forces stays as it is.
pub open spec fn separates_to(before: Agent, after: Agent, agents: Seq<Agent>) -> bool {
    match before.boid {
        Some(b) => {
            &&& after.boid is Some
            &&& after == (Agent {
                boid: Some(Boid { separation: after.boid->0.separation, ..b }),
                ..before
            })
            &&& after.boid->0.separation.coords() == separation_upto(
                before,
                agents,
                agents.len() as int,
            )
        },
        None => after == before,
    }
}

/// `after` is `before` with its seek force computed afresh from its target.
/// An agent without steering forces or without a target stays as it is.
pub open spec fn seeks_to(before: Agent, after: Agent) -> bool {
    match (before.boid, before.target) {
        (Some(b), Some(t)) => {
            let d = offset(t.pos, before.transform.translation);
            &&& after.boid is Some
            &&& after == (Agent {
                boid: Some(Boid { seek_target: after.boid->0.seek_target, ..b }),
                ..before
            })
            &&& after.boid->0.seek_target.x == seek_axis_spec(d, d.x as int)
            &&& after.boid->0.seek_target.y == seek_axis_spec(d, d.y as int)
            &&& after.boid->0.seek_target.z == seek_axis_spec(d, d.z as int)
        },
        _ => after == before,
    }
}

/// The steering force of a boid as a vector.
pub open spec fn total_vec(b: Boid) -> Vec3 {
    Vec3 {
        x: (b.seek_target.x + b.separation.x) as i64,
        y: (b.seek_target.y + b.separation.y) as i64,
        z: (b.seek_target.z + b.separation.z) as i64,
    }
}

/// `after` is `before` after the steering decision on its total force,
/// taken with the dead zone `DEAD_ZONE` and the bearing `angle`. An agent
/// without steering forces stays as it is.
pub open spec fn controls_to(before: Agent, after: Agent, angle: int) -> bool {
    match before.boid {
        Some(b) => {
            &&& after == (Agent { duck: after.duck, ..before })
            &&& before.duck.steers_to(
                after.duck,
                before.transform,
                total_vec(b),
                DEAD_ZONE as int,
                angle,
            )
        },
        None => after == before,
    }
}

/// What a steering decision reports: that the duck began to paddle, or
/// that it stopped.
pub open spec fn thrust_notice_spec(before: Agent, after: Agent) -> Seq<Notice> {
    if !before.duck.is_kicking && after.duck.is_kicking {
        seq![Notice::ThrustBegan { duck: before.id }]
    } else if before.duck.is_kicking && !after.duck.is_kicking {
        seq![Notice::ThrustEnded { duck: before.id }]
    } else {
        Seq::empty()
    }
}

/// The reports of the steering decisions of the first `n` agents.
pub open spec fn thrust_notices_upto(before: Seq<Agent>, after: Seq<Agent>, n: int) -> Seq<Notice>
    decreases n,
{
    if n <= 0 {
        Seq::empty()
    } else {
        thrust_notices_upto(before, after, n - 1) + thrust_notice_spec(before[n - 1], after[n - 1])
    }
}

/// In a table of distinct identities an agent is pushed by every agent of
/// the table but itself: the push of the agent at another place is the
/// weighted repulsion along the offset between the two.
pub proof fn lemma_every_other_agent_pushes(agents: Seq<Agent>, i: int, j: int)
    requires
        distinct_ids(agents),
        0 <= i < agents.len(),
        0 <= j < agents.len(),
        i != j,
    ensures
        push_spec(agents[i], agents[j]) == ({
            let d = offset(agents[i].transform.translation, agents[j].transform.translation);
            let w = weight_spec(!agents[i].is_duckling, !agents[j].is_duckling);
            (
                w * repulsion_axis_spec(d, d.x as int),
                w * repulsion_axis_spec(d, d.y as int),
                w * repulsion_axis_spec(d, d.z as int),
            )
        }),
{
    if i < j {
        assert(agents[i].id != agents[j].id);
    } else {
        assert(agents[j].id != agents[i].id);
    }
}

/// Two agents of one class push each other apart with equal strength in
/// opposite directions. This holds of two adults, and of two ducklings.
pub proof fn lemma_pushes_are_opposite(a: Agent, b: Agent)
    requires
        a.transform.within_limits(),
        b.transform.within_limits(),
        a.is_duckling == b.is_duckling,
    ensures
        push_spec(a, b).0 == -push_spec(b, a).0,
        push_spec(a, b).1 == -push_spec(b, a).1,
        push_spec(a, b).2 == -push_spec(b, a).2,
{
    if a.id != b.id {
        let d = offset(a.transform.translation, b.transform.translation);
        let e = offset(b.transform.translation, a.transform.translation);
        lemma_repulsion_antisymmetric(d, e);
        let w = weight_spec(!a.is_duckling, !b.is_duckling);
        assert(w * (-repulsion_axis_spec(d, d.x as int)) == -(w * repulsion_axis_spec(
            d,
            d.x as int,
        ))) by (nonlinear_arith);
        assert(w * (-repulsion_axis_spec(d, d.y as int)) == -(w * repulsion_axis_spec(
            d,
            d.y as int,
        ))) by (nonlinear_arith);
        assert(w * (-repulsion_axis_spec(d, d.z as int)) == -(w * repulsion_axis_spec(
            d,
            d.z as int,
        ))) by (nonlinear_arith);
    }
}

/// The separation force on `ego`: the sum of the pushes of all agents of the
/// table, in table order.
pub fn separation_force(ego: &Agent, agents: &Vec<Agent>) -> (f: Vec3)
    requires
        table_within_slack(agents@),
        ego.transform.within_limits(),
    ensures
        f.coords() == separation_upto(*ego, agents@, agents@.len() as int),
        f.bounded(FORCE_LIMIT as int),
{
    let mut f = Vec3::zero();
    let ego_is_adult = !ego.is_duckling;
    let mut j: usize = 0;
    while j < agents.len()
        invariant
            j <= agents.len(),
            table_within_slack(agents@),
            ego.transform.within_limits(),
            ego_is_adult == !ego.is_duckling,
            f.coords() == separation_upto(*ego, agents@, j as int),
            f.bounded(200_000_000 * j),
        decreases agents.len() - j,
    {
        let other = agents[j];
        assert(agents@[j as int].within_slack());
        if ego.id != other.id {
            let w = separation_weight(ego_is_adult, !other.is_duckling);
            let delta = ego.transform.translation.minus(other.transform.translation);
            assert(delta == offset(ego.transform.translation, other.transform.translation));
            let force = repulsion(delta);
            proof {
                lemma_weighted_bound(w as int, force.x as int);
                lemma_weighted_bound(w as int, force.y as int);
                lemma_weighted_bound(w as int, force.z as int);
            }
            f = Vec3 { x: f.x + force.x * w, y: f.y + force.y * w, z: f.z + force.z * w };
        }
        j = j + 1;
    }
    f
}

/// A repulsion coordinate times a class weight is at most two hundred units.
proof fn lemma_weighted_bound(w: int, c: int)
    requires
        0 <= w <= 200,
        -SCALE <= c <= SCALE,
    ensures
        -200 * SCALE <= w * c <= 200 * SCALE,
        c * w == w * c,
{
    assert(-200 * SCALE <= w * c <= 200 * SCALE) by (nonlinear_arith)
        requires
            0 <= w <= 200,
            -1_000_000 <= c <= 1_000_000,
    ;
    assert(c * w == w * c) by (nonlinear_arith);
}

/// Computes afresh the separation force of every agent that has steering
/// forces, each against the table as it stands.
pub fn update_separation_force(agents: &mut Vec<Agent>)
    requires
        table_within_slack(old(agents)@),
    ensures
        final(agents)@.len() == old(agents)@.len(),
        forall|i: int|
            0 <= i < old(agents)@.len() ==> separates_to(
                old(agents)@[i],
                #[trigger] final(agents)@[i],
                old(agents)@,
            ),
        table_within_slack(final(agents)@),
{
    let mut out: Vec<Agent> = Vec::new();
    let mut i: usize = 0;
    while i < agents.len()
        invariant
            i <= agents.len(),
            *agents == *old(agents),
            table_within_slack(agents@),
            out@.len() == i,
            forall|k: int| 0 <= k < i ==> separates_to(agents@[k], #[trigger] out@[k], agents@),
            forall|k: int| 0 <= k < i ==> (#[trigger] out@[k]).within_slack(),
        decreases agents.len() - i,
    {
        let a = agents[i];
        assert(agents@[i as int].within_slack());
        let r = match a.boid {
            Some(b) => {
                let f = separation_force(&a, agents);
                Agent { boid: Some(Boid { separation: f, ..b }), ..a }
            },
            None => a,
        };
        out.push(r);
        i = i + 1;
    }
    *agents = out;
}

/// Computes afresh the seek force of every agent that has steering forces
/// and a target.
pub fn update_tracking_force_for_target_seekers(agents: &mut Vec<Agent>)
    requires
        table_within_slack(old(agents)@),
    ensures
        final(agents)@.len() == old(agents)@.len(),
        forall|i: int|
            0 <= i < old(agents)@.len() ==> seeks_to(old(agents)@[i], #[trigger] final(agents)@[i]),
        table_within_slack(final(agents)@),
{
    let mut i: usize = 0;
    while i < agents.len()
        invariant
            i <= agents.len(),
            agents@.len() == old(agents)@.len(),
            table_within_slack(old(agents)@),
            forall|k: int| 0 <= k < i ==> seeks_to(old(agents)@[k], #[trigger] agents@[k]),
            forall|k: int| 0 <= k < i ==> (#[trigger] agents@[k]).within_slack(),
            forall|k: int| i <= k < agents@.len() ==> (#[trigger] agents@[k]) == old(agents)@[k],
        decreases agents.len() - i,
    {
        let a = agents[i];
        assert(old(agents)@[i as int].within_slack());
        if let Some(b) = a.boid {
            if let Some(t) = a.target {
                let delta = t.pos.minus(a.transform.translation);
                assert(delta == offset(t.pos, a.transform.translation));
                let f = seek_force(delta);
                agents.set(i, Agent { boid: Some(Boid { seek_target: f, ..b }), ..a });
            }
        }
        i = i + 1;
    }
}

/// Takes the steering decision of every agent that has steering forces, on
/// its total force. `bearings` holds for every agent of the table the
/// unsigned angle, in radians, between its total force and its forward
/// axis. Returns the reports of ducks that began or stopped paddling.
pub fn control_boids(agents: &mut Vec<Agent>, bearings: &Vec<i64>) -> (notices: Vec<Notice>)
    requires
        table_within_slack(old(agents)@),
        bearings@.len() == old(agents)@.len(),
        forall|i: int| 0 <= i < bearings@.len() ==> within_limit(#[trigger] bearings@[i] as int),
    ensures
        final(agents)@.len() == old(agents)@.len(),
        forall|i: int|
            0 <= i < old(agents)@.len() ==> controls_to(
                old(agents)@[i],
                #[trigger] final(agents)@[i],
                bearings@[i] as int,
            ),
        notices@ == thrust_notices_upto(
            old(agents)@,
            final(agents)@,
            old(agents)@.len() as int,
        ),
        table_within_slack(final(agents)@),
{
    let mut notices: Vec<Notice> = Vec::new();
    let mut out: Vec<Agent> = Vec::new();
    let mut i: usize = 0;
    while i < agents.len()
        invariant
            i <= agents.len(),
            *agents == *old(agents),
            table_within_slack(agents@),
            bearings@.len() == agents@.len(),
            forall|k: int| 0 <= k < bearings@.len() ==> within_limit(#[trigger] bearings@[k] as int),
            out@.len() == i,
            forall|k: int|
                0 <= k < i ==> controls_to(agents@[k], #[trigger] out@[k], bearings@[k] as int),
            forall|k: int| 0 <= k < i ==> (#[trigger] out@[k]).within_slack(),
            notices@ == thrust_notices_upto(agents@, out@, i as int),
        decreases agents.len() - i,
    {
        let a = agents[i];
        assert(agents@[i as int].within_slack());
        assert(within_limit(bearings@[i as int] as int));
        let mut r = a;
        if let Some(b) = a.boid {
            let force = b.total_force();
            assert(force == total_vec(b));
            let mut duck = a.duck;
            duck.move_with_force(a.transform, force, DEAD_ZONE, bearings[i]);
            r = Agent { duck, ..a };
            if !a.duck.is_kicking && duck.is_kicking {
                notices.push(Notice::ThrustBegan { duck: a.id });
            } else if a.duck.is_kicking && !duck.is_kicking {
                notices.push(Notice::ThrustEnded { duck: a.id });
            }
        }
        let ghost prev = out@;
        out.push(r);
        proof {
            lemma_thrust_notices_prefix(agents@, prev, out@, i as int);
            assert(thrust_notice_spec(agents@[i as int], out@[i as int]) =~= if !a.duck.is_kicking
                && r.duck.is_kicking {
                seq![Notice::ThrustBegan { duck: a.id }]
            } else if a.duck.is_kicking && !r.duck.is_kicking {
                seq![Notice::ThrustEnded { duck: a.id }]
            } else {
                Seq::empty()
            });
        }
        i = i + 1;
    }
    *agents = out;
    notices
}

/// The reports of the first `n` decisions depend on the first `n` outcomes only.
proof fn lemma_thrust_notices_prefix(before: Seq<Agent>, a: Seq<Agent>, b: Seq<Agent>, n: int)
    requires
        0 <= n <= a.len(),
        n <= b.len(),
        forall|k: int| 0 <= k < n ==> a[k] == b[k],
    ensures
        thrust_notices_upto(before, a, n) == thrust_notices_upto(before, b, n),
    decreases n,
{
    if n > 0 {
        lemma_thrust_notices_prefix(before, a, b, n - 1);
    }
}

} // verus!
