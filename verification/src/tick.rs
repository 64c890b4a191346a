//! One tick of the lake, as two passes over the table with the caller's
//! measurement of bearings in between.
//!
//! `plan` lets every duck decide where it wants to go: it assigns and seeks
//! parents, moves the targets, and computes the steering forces. The caller
//! then measures, for every duck, the angle between its steering force and
//! its forward axis. `act` turns forces into steering decisions and runs
//! the physics.

use vstd::prelude::*;
use crate::agent::{table_within_limits, table_within_slack, Agent};
use crate::duck::{lemma_steering_keeps_limits, DEAD_ZONE, MAX_TICK};
use crate::family::{
    assign_parent_to_parentless_ducks, assign_true_parents, eligible_id, lemma_resolve_frame,
    notices_upto, orphan, resolve_spec,
};
use crate::fixed::{within_limit, LIMIT, SCALE};
use crate::notice::Notice;
use crate::physics::{
    ducks_within_slack, head_moves, integrate, integrates_to, move_duck_heads, only_duck_changed,
};
use crate::steering::{
    control_boids, controls_to, seeks_to, separates_to, thrust_notices_upto, total_vec,
    update_separation_force, update_tracking_force_for_target_seekers,
};
use crate::tracker::{randomly_wander, roams_to, tracks_to, update_target_pos_for_ducks_with_parents};
use crate::vec3::Vec2;

verus! {

/// `after` is the table `before` after a round of assigning true parents:
/// a true parent once assigned stays, nothing but true parents changes,
/// and a newly assigned parent is an eligible parent of the table.
pub open spec fn parents_assigned(before: Seq<Agent>, after: Seq<Agent>) -> bool {
    &&& after.len() == before.len()
    &&& forall|i: int|
        0 <= i < before.len() ==> {
            &&& (#[trigger] after[i]) == (Agent { true_parent: after[i].true_parent, ..before[i] })
            &&& (!orphan(before[i]) ==> after[i] == before[i])
            &&& (after[i].true_parent matches Some(p) ==> before[i].true_parent == Some(p)
                || eligible_id(before, p))
        }
}

/// `after` is the table `before` after every duckling has looked once for
/// whom to follow.
pub open spec fn parents_sought(before: Seq<Agent>, after: Seq<Agent>) -> bool {
    &&& after.len() == before.len()
    &&& forall|i: int|
        0 <= i < before.len() ==> (#[trigger] after[i]) == resolve_spec(before[i], before)
}

/// `after` is the table `before` after every target has wandered along
/// its direction.
pub open spec fn targets_roamed(before: Seq<Agent>, after: Seq<Agent>, directions: Seq<Vec2>) -> bool {
    &&& after.len() == before.len()
    &&& forall|i: int| 0 <= i < before.len() ==> roams_to(before[i], #[trigger] after[i], directions[i])
}

/// `after` is the table `before` after the target of every follower has
/// been put at the water below the agent it follows.
pub open spec fn targets_tracked(before: Seq<Agent>, after: Seq<Agent>) -> bool {
    &&& after.len() == before.len()
    &&& forall|i: int| 0 <= i < before.len() ==> tracks_to(before[i], #[trigger] after[i], before)
}

/// `after` is the table `before` with every seek force computed afresh.
pub open spec fn seeks_updated(before: Seq<Agent>, after: Seq<Agent>) -> bool {
    &&& after.len() == before.len()
    &&& forall|i: int| 0 <= i < before.len() ==> seeks_to(before[i], #[trigger] after[i])
}

/// `after` is the table `before` with every separation force computed afresh.
pub open spec fn separations_updated(before: Seq<Agent>, after: Seq<Agent>) -> bool {
    &&& after.len() == before.len()
    &&& forall|i: int| 0 <= i < before.len() ==> separates_to(before[i], #[trigger] after[i], before)
}

/// `after` is the table `before` after every steering decision.
pub open spec fn boids_controlled(before: Seq<Agent>, after: Seq<Agent>, bearings: Seq<i64>) -> bool {
    &&& after.len() == before.len()
    &&& forall|i: int|
        0 <= i < before.len() ==> controls_to(before[i], #[trigger] after[i], bearings[i] as int)
}

/// `after` and `yaws` are what the physics of one tick of length `dt`
/// makes of the table `before`.
pub open spec fn ducks_integrated(
    before: Seq<Agent>,
    after: Seq<Agent>,
    yaws: Seq<i64>,
    dt: int,
) -> bool {
    &&& after.len() == before.len()
    &&& yaws.len() == before.len()
    &&& forall|i: int|
        0 <= i < before.len() ==> integrates_to(before[i], #[trigger] after[i], yaws[i] as int, dt)
}

/// `after` is the table `before` after every head has moved for one tick.
pub open spec fn heads_moved(before: Seq<Agent>, after: Seq<Agent>) -> bool {
    &&& after.len() == before.len()
    &&& forall|i: int|
        0 <= i < before.len() ==> only_duck_changed(before[i], #[trigger] after[i]) && head_moves(
            before[i].duck,
            after[i].duck,
        )
}

/// `after` and `notices` are what the first half of a tick makes of the
/// table `before`: true parents are assigned; ducklings look for whom to
/// follow, which is what `notices` reports; targets wander and are then put
/// below the agents followed; seek forces and then separation forces are
/// computed afresh. Each step works on the table that the step before it left.
pub open spec fn planned(
    before: Seq<Agent>,
    after: Seq<Agent>,
    notices: Seq<Notice>,
    directions: Seq<Vec2>,
) -> bool {
    exists|adopted: Seq<Agent>, found: Seq<Agent>, roamed: Seq<Agent>, synced: Seq<Agent>, sought: Seq<Agent>|
        #![trigger parents_assigned(before, adopted), parents_sought(adopted, found), targets_roamed(found, roamed, directions), targets_tracked(roamed, synced), seeks_updated(synced, sought)]
        {
            &&& parents_assigned(before, adopted)
            &&& parents_sought(adopted, found)
            &&& notices == notices_upto(adopted, adopted.len() as int)
            &&& targets_roamed(found, roamed, directions)
            &&& targets_tracked(roamed, synced)
            &&& seeks_updated(synced, sought)
            &&& separations_updated(sought, after)
        }
}

/// `after`, `notices` and `yaws` are what the second half of a tick of
/// length `dt` makes of the table `before`: steering decisions are taken,
/// which is what `notices` reports; the physics runs; heads move.
pub open spec fn acted(
    before: Seq<Agent>,
    after: Seq<Agent>,
    notices: Seq<Notice>,
    yaws: Seq<i64>,
    bearings: Seq<i64>,
    dt: int,
) -> bool {
    exists|steered: Seq<Agent>, moved: Seq<Agent>|
        #![trigger boids_controlled(before, steered, bearings), ducks_integrated(steered, moved, yaws, dt)]
        {
            &&& boids_controlled(before, steered, bearings)
            &&& notices == thrust_notices_upto(before, steered, before.len() as int)
            &&& ducks_integrated(steered, moved, yaws, dt)
            &&& heads_moved(moved, after)
        }
}

/// The poses and the kinematic state of every agent are within `LIMIT`.
pub open spec fn table_calm(agents: Seq<Agent>) -> bool {
    forall|i: int|
        0 <= i < agents.len() ==> (#[trigger] agents[i]).transform.within_limits()
            && agents[i].duck.within_limits()
}

/// The first half of a tick: the search for parents, the targets, and the
/// steering forces, in this order. `directions` holds for every agent of
/// the table a unit vector on the water plane, along which its target moves
/// if it moves. Returns the reports of the search for parents.
pub fn plan(agents: &mut Vec<Agent>, directions: &Vec<Vec2>) -> (notices: Vec<Notice>)
    requires
        table_within_limits(old(agents)@),
        directions@.len() == old(agents)@.len(),
        forall|i: int| 0 <= i < directions@.len() ==> (#[trigger] directions@[i]).bounded(SCALE as int),
    ensures
        planned(old(agents)@, final(agents)@, notices@, directions@),
        table_within_slack(final(agents)@),
        table_calm(final(agents)@),
{
    assign_true_parents(agents);
    let ghost adopted = agents@;
    proof {
        assert forall|i: int| 0 <= i < adopted.len() implies (#[trigger] adopted[i]).within_limits() by {
            assert(old(agents)@[i].within_limits());
        }
    }
    let notices = assign_parent_to_parentless_ducks(agents);
    let ghost found = agents@;
    proof {
        assert forall|i: int| 0 <= i < found.len() implies (#[trigger] found[i]).within_limits() by {
            assert(adopted[i].within_limits());
            lemma_resolve_frame(adopted[i], adopted);
        }
    }
    randomly_wander(agents, directions);
    let ghost roamed = agents@;
    update_target_pos_for_ducks_with_parents(agents);
    let ghost synced = agents@;
    update_tracking_force_for_target_seekers(agents);
    let ghost sought = agents@;
    update_separation_force(agents);
    proof {
        assert(parents_assigned(old(agents)@, adopted));
        assert(parents_sought(adopted, found));
        assert(targets_roamed(found, roamed, directions@));
        assert(targets_tracked(roamed, synced));
        assert(seeks_updated(synced, sought));
        assert(separations_updated(sought, agents@));
        assert forall|i: int| 0 <= i < agents@.len() implies (#[trigger] agents@[i]).transform.within_limits()
            && agents@[i].duck.within_limits() by {
            assert(found[i].within_limits());
            assert(roams_to(found[i], roamed[i], directions@[i]));
            assert(tracks_to(roamed[i], synced[i], roamed));
            assert(seeks_to(synced[i], sought[i]));
            assert(separates_to(sought[i], agents@[i], sought));
        }
    }
    notices
}

/// Runs the physics of one tick of length `dt` on every agent. Returns,
/// for every agent of the table, the yaw by which its body is to be turned
/// about its own up axis.
pub fn integrate_ducks(agents: &mut Vec<Agent>, dt: i64) -> (yaws: Vec<i64>)
    requires
        table_calm(old(agents)@),
        0 <= dt <= MAX_TICK,
    ensures
        ducks_integrated(old(agents)@, final(agents)@, yaws@, dt as int),
        ducks_within_slack(final(agents)@),
{
    let mut yaws: Vec<i64> = Vec::new();
    let mut i: usize = 0;
    while i < agents.len()
        invariant
            i <= agents.len(),
            agents@.len() == old(agents)@.len(),
            yaws@.len() == i,
            table_calm(old(agents)@),
            0 <= dt <= MAX_TICK,
            forall|k: int|
                0 <= k < i ==> integrates_to(
                    old(agents)@[k],
                    #[trigger] agents@[k],
                    yaws@[k] as int,
                    dt as int,
                ),
            forall|k: int| 0 <= k < i ==> (#[trigger] agents@[k]).duck.within_slack(),
            forall|k: int| i <= k < agents@.len() ==> (#[trigger] agents@[k]) == old(agents)@[k],
        decreases agents.len() - i,
    {
        let a = agents[i];
        assert(old(agents)@[i as int].transform.within_limits());
        let r = integrate(a, dt);
        agents.set(i, r.0);
        yaws.push(r.1);
        i = i + 1;
    }
    yaws
}

/// The second half of a tick of length `dt`: the steering decisions, the
/// physics, and the heads, in this order. `bearings` holds for every agent
/// of the table the unsigned angle, in radians, between its total force and
/// its forward axis. Returns the reports of ducks that began or stopped
/// paddling, and for every agent of the table the yaw by which its body is
/// to be turned about its own up axis.
pub fn act(agents: &mut Vec<Agent>, bearings: &Vec<i64>, dt: i64) -> (r: (Vec<Notice>, Vec<i64>))
    requires
        table_within_slack(old(agents)@),
        table_calm(old(agents)@),
        bearings@.len() == old(agents)@.len(),
        forall|i: int| 0 <= i < bearings@.len() ==> within_limit(#[trigger] bearings@[i] as int),
        0 <= dt <= MAX_TICK,
    ensures
        acted(old(agents)@, final(agents)@, r.0@, r.1@, bearings@, dt as int),
{
    let notices = control_boids(agents, bearings);
    let ghost steered = agents@;
    proof {
        assert forall|i: int| 0 <= i < steered.len() implies (#[trigger] steered[i]).transform.within_limits()
            && steered[i].duck.within_limits() by {
            let b = old(agents)@[i];
            assert(b.transform.within_limits() && b.duck.within_limits());
            assert(controls_to(b, steered[i], bearings@[i] as int));
            assert(within_limit(bearings@[i] as int));
            if let Some(forces) = b.boid {
                lemma_steering_keeps_limits(
                    b.duck,
                    steered[i].duck,
                    b.transform,
                    total_vec(forces),
                    DEAD_ZONE as int,
                    bearings@[i] as int,
                    LIMIT as int,
                );
            }
        }
    }
    let yaws = integrate_ducks(agents, dt);
    let ghost moved = agents@;
    move_duck_heads(agents);
    proof {
        assert(boids_controlled(old(agents)@, steered, bearings@));
        assert(ducks_integrated(steered, moved, yaws@, dt as int));
        assert(heads_moved(moved, agents@));
    }
    (notices, yaws)
}

/// Tells whether `plan` may be called on the table with these directions.
pub fn is_ready_to_plan(agents: &Vec<Agent>, directions: &Vec<Vec2>) -> (b: bool)
    ensures
        b == {
            &&& table_within_limits(agents@)
            &&& directions@.len() == agents@.len()
            &&& forall|i: int|
                0 <= i < directions@.len() ==> (#[trigger] directions@[i]).bounded(SCALE as int)
        },
{
    if directions.len() != agents.len() || !crate::agent::is_table_within_limits(agents) {
        return false;
    }
    let mut i: usize = 0;
    while i < directions.len()
        invariant
            i <= directions.len(),
            forall|k: int| 0 <= k < i ==> (#[trigger] directions@[k]).bounded(SCALE as int),
        decreases directions.len() - i,
    {
        let d = directions[i];
        if !(-SCALE <= d.x && d.x <= SCALE && -SCALE <= d.y && d.y <= SCALE) {
            return false;
        }
        i = i + 1;
    }
    true
}

/// Tells whether `act` may be called on the table with these bearings and
/// this length of tick.
pub fn is_ready_to_act(agents: &Vec<Agent>, bearings: &Vec<i64>, dt: i64) -> (b: bool)
    ensures
        b == {
            &&& table_within_slack(agents@)
            &&& table_calm(agents@)
            &&& bearings@.len() == agents@.len()
            &&& forall|i: int| 0 <= i < bearings@.len() ==> within_limit(#[trigger] bearings@[i] as int)
            &&& 0 <= dt <= MAX_TICK
        },
{
    if bearings.len() != agents.len() || dt < 0 || dt > MAX_TICK
        || !crate::agent::is_table_within_slack(agents) {
        return false;
    }
    let mut i: usize = 0;
    while i < agents.len()
        invariant
            i <= agents.len(),
            bearings@.len() == agents@.len(),
            forall|k: int|
                0 <= k < i ==> (#[trigger] agents@[k]).transform.within_limits()
                    && agents@[k].duck.within_limits(),
            forall|k: int| 0 <= k < i ==> within_limit(#[trigger] bearings@[k] as int),
        decreases agents.len() - i,
    {
        let angle = bearings[i];
        if !agents[i].duck.is_within_limits() || !agents[i].transform.is_within_limits()
            || angle < -LIMIT || angle > LIMIT {
            return false;
        }
        i = i + 1;
    }
    true
}

} // verus!
