//! The target passes over the table: wandering, and keeping the target of a
//! follower at the water below the agent it follows.

use vstd::prelude::*;
use crate::agent::{find_agent, position_of, table_within_limits, table_within_slack, Agent};
use crate::fixed::SCALE;
use crate::target::{TargetPosition, Wander};
use crate::vec3::{Vec2, Vec3};

verus! {

/// `after` is `before` with its target at the water below the agent that
/// it follows, as that agent stands in `agents`. An agent that follows
/// nobody, has no target, or follows an agent that the table does not hold
/// stays as it is.
pub open spec fn tracks_to(before: Agent, after: Agent, agents: Seq<Agent>) -> bool {
    match (before.following, before.target) {
        (Some(f), Some(t)) => match position_of(agents, f) {
            Some(p) => after == (Agent {
                target: Some(TargetPosition { pos: Vec3 { x: p.x, y: 0, z: p.z } }),
                ..before
            }),
            None => after == before,
        },
        _ => after == before,
    }
}

/// `after` is `before` with its target having wandered as some draw along
/// `direction` says. An agent without a target stays as it is.
pub open spec fn roams_to(before: Agent, after: Agent, direction: Vec2) -> bool {
    match before.target {
        Some(t) => {
            &&& after.target is Some
            &&& after == (Agent { target: after.target, ..before })
            &&& exists|w: Wander|
                w.drawn_along(direction) && #[trigger] t.wanders_to(after.target->0, w)
        },
        None => after == before,
    }
}

/// Puts the target of every follower at the water below the agent it follows.
pub fn update_target_pos_for_ducks_with_parents(agents: &mut Vec<Agent>)
    requires
        table_within_slack(old(agents)@),
    ensures
        final(agents)@.len() == old(agents)@.len(),
        forall|i: int|
            0 <= i < old(agents)@.len() ==> tracks_to(
                old(agents)@[i],
                #[trigger] final(agents)@[i],
                old(agents)@,
            ),
        table_within_slack(final(agents)@),
{
    let mut out: Vec<Agent> = Vec::new();
    let mut i: usize = 0;
    while i < agents.len()
        invariant
            i <= agents.len(),
            *agents == *old(agents),
            table_within_slack(agents@),
            out@.len() == i,
            forall|k: int| 0 <= k < i ==> tracks_to(agents@[k], #[trigger] out@[k], agents@),
            forall|k: int| 0 <= k < i ==> (#[trigger] out@[k]).within_slack(),
        decreases agents.len() - i,
    {
        let a = agents[i];
        assert(agents@[i as int].within_slack());
        let mut r = a;
        if let Some(f) = a.following {
            if a.target.is_some() {
                if let Some(j) = find_agent(agents, f) {
                    assert(agents@[j as int].within_slack());
                    r = Agent {
                        target: Some(TargetPosition::from_tf(agents[j].transform)),
                        ..a
                    };
                }
            }
        }
        out.push(r);
        i = i + 1;
    }
    *agents = out;
}

/// Lets the target of every agent wander for one tick. `directions` holds
/// for every agent of the table a unit vector on the water plane, along
/// which its target moves if it moves.
pub fn randomly_wander(agents: &mut Vec<Agent>, directions: &Vec<Vec2>)
    requires
        table_within_limits(old(agents)@),
        directions@.len() == old(agents)@.len(),
        forall|i: int| 0 <= i < directions@.len() ==> (#[trigger] directions@[i]).bounded(SCALE as int),
    ensures
        final(agents)@.len() == old(agents)@.len(),
        forall|i: int|
            0 <= i < old(agents)@.len() ==> roams_to(
                old(agents)@[i],
                #[trigger] final(agents)@[i],
                directions@[i],
            ),
        table_within_slack(final(agents)@),
{
    let mut i: usize = 0;
    while i < agents.len()
        invariant
            i <= agents.len(),
            agents@.len() == old(agents)@.len(),
            table_within_limits(old(agents)@),
            directions@.len() == agents@.len(),
            forall|k: int|
                0 <= k < directions@.len() ==> (#[trigger] directions@[k]).bounded(SCALE as int),
            forall|k: int|
                0 <= k < i ==> roams_to(old(agents)@[k], #[trigger] agents@[k], directions@[k]),
            forall|k: int| 0 <= k < i ==> (#[trigger] agents@[k]).within_slack(),
            forall|k: int| i <= k < agents@.len() ==> (#[trigger] agents@[k]) == old(agents)@[k],
        decreases agents.len() - i,
    {
        let a = agents[i];
        assert(old(agents)@[i as int].within_limits());
        assert(directions@[i as int].bounded(SCALE as int));
        if let Some(t) = a.target {
            let w = Wander::draw(directions[i]);
            let mut moved = t;
            moved.wander(w);
            assert(t.wanders_to(moved, w));
            agents.set(i, Agent { target: Some(moved), ..a });
        }
        assert(agents@[i as int].within_slack());
        i = i + 1;
    }
}

} // verus!
