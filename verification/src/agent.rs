//! The table of agents: every duck on the lake, with all that the rules
//! read and write of it.

use vstd::prelude::*;
use crate::boid::Boid;
use crate::duck::{Duck, Pose};
use crate::target::TargetPosition;
use crate::vec3::{Vec3, SPAN};

verus! {

/// The most agents a table may hold for the sums over it to stay inside the
/// machine integers.
pub const MAX_AGENTS: usize = 1_000_000;

/// The largest magnitude of a coordinate of a separation force.
pub const FORCE_LIMIT: i64 = 200_000_000_000_000;

/// One duck, adult or duckling.
#[derive(Clone, Copy, Debug, PartialEq, Eq)]
pub struct Agent {
    /// The identity by which other agents refer to this one.
    pub id: u64,
    /// Whether this is the duck that the player steers.
    pub is_player: bool,
    /// Whether this is a duckling rather than an adult.
    pub is_duckling: bool,
    pub transform: Pose,
    pub duck: Duck,
    /// Where the duck wants to go; the player's duck has no target.
    pub target: Option<TargetPosition>,
    /// The steering forces; the player's duck has none.
    pub boid: Option<Boid>,
    /// The adult this duckling belongs to, once assigned.
    pub true_parent: Option<u64>,
    /// The agent this one is following at the moment.
    pub following: Option<u64>,
    /// Whether the duckling has found its true parent.
    pub done: bool,
}

impl Agent {
    /// Speeds and yaw rate are within `speed`, the target within `reach`,
    /// and every other stored quantity within its limit.
    pub open spec fn within(self, speed: int, reach: int) -> bool {
        &&& self.transform.within_limits()
        &&& self.duck.within(speed)
        &&& (self.target matches Some(t) ==> t.pos.bounded(reach))
        &&& (self.boid matches Some(b) ==> b.separation.bounded(FORCE_LIMIT as int)
            && b.seek_target.bounded(2 * SPAN))
    }

    /// The state a tick may start from: speeds, yaw rate and target within
    /// `LIMIT`.
    pub open spec fn within_limits(self) -> bool {
        self.within(crate::fixed::LIMIT as int, crate::fixed::LIMIT as int)
    }

    /// The state a step of a tick accepts: speeds and yaw rate within
    /// `SLACK`, the target within `SPAN`.
    pub open spec fn within_slack(self) -> bool {
        self.within(crate::duck::SLACK as int, SPAN as int)
    }

    /// Tells whether speeds and yaw rate are within `speed`, the target
    /// within `reach`, and every other stored quantity within its limit.
    pub fn is_within(&self, speed: i64, reach: i64) -> (b: bool)
        requires
            speed >= 0,
            reach >= 0,
        ensures
            b == self.within(speed as int, reach as int),
    {
        let target_ok = match self.target {
            Some(t) => t.pos.is_bounded(reach),
            None => true,
        };
        let boid_ok = match self.boid {
            Some(b) => b.separation.is_bounded(FORCE_LIMIT) && b.seek_target.is_bounded(2 * SPAN),
            None => true,
        };
        self.transform.is_within_limits() && self.duck.is_within(speed) && target_ok && boid_ok
    }

    /// Tells whether the agent is in a state that a tick may start from.
    pub fn is_within_limits(&self) -> (b: bool)
        ensures
            b == self.within_limits(),
    {
        self.is_within(crate::fixed::LIMIT, crate::fixed::LIMIT)
    }

    /// Tells whether the agent is in a state that a step of a tick accepts.
    pub fn is_within_slack(&self) -> (b: bool)
        ensures
            b == self.within_slack(),
    {
        self.is_within(crate::duck::SLACK, SPAN)
    }
}

/// No two agents of the table bear the same identity.
pub open spec fn distinct_ids(agents: Seq<Agent>) -> bool {
    forall|i: int, j: int|
        0 <= i < j < agents.len() ==> (#[trigger] agents[i]).id != (#[trigger] agents[j]).id
}

/// The tables are equally long, and agents at the same place bear the same
/// identity.
pub open spec fn same_ids(a: Seq<Agent>, b: Seq<Agent>) -> bool {
    &&& a.len() == b.len()
    &&& forall|i: int| 0 <= i < a.len() ==> (#[trigger] b[i]).id == a[i].id
}

/// The table holds at most `MAX_AGENTS`, no two of them with the same
/// identity, and every agent of it is in a state that a tick may start from.
pub open spec fn table_within_limits(agents: Seq<Agent>) -> bool {
    &&& agents.len() <= MAX_AGENTS
    &&& distinct_ids(agents)
    &&& forall|i: int| 0 <= i < agents.len() ==> (#[trigger] agents[i]).within_limits()
}

/// The table holds at most `MAX_AGENTS`, no two of them with the same
/// identity, and every agent of it is in a state that a step of a tick
/// accepts.
pub open spec fn table_within_slack(agents: Seq<Agent>) -> bool {
    &&& agents.len() <= MAX_AGENTS
    &&& distinct_ids(agents)
    &&& forall|i: int| 0 <= i < agents.len() ==> (#[trigger] agents[i]).within_slack()
}

/// A table that keeps its identities in place keeps them distinct.
pub proof fn lemma_same_ids_distinct(a: Seq<Agent>, b: Seq<Agent>)
    requires
        distinct_ids(a),
        same_ids(a, b),
    ensures
        distinct_ids(b),
{
    assert forall|i: int, j: int| 0 <= i < j < b.len() implies (#[trigger] b[i]).id != (
    #[trigger] b[j]).id by {
        assert(a[i].id != a[j].id);
    }
}

/// In a table of distinct identities, an identity is found where it stands.
pub proof fn lemma_index_of_distinct(agents: Seq<Agent>, i: int)
    requires
        distinct_ids(agents),
        0 <= i < agents.len(),
    ensures
        index_of(agents, agents[i].id) == Some(i),
{
    lemma_index_from_distinct(agents, i, 0);
}

proof fn lemma_index_from_distinct(agents: Seq<Agent>, i: int, start: int)
    requires
        distinct_ids(agents),
        0 <= start <= i < agents.len(),
    ensures
        index_from(agents, agents[i].id, start) == Some(i),
    decreases i - start,
{
    if start < i {
        assert(agents[start].id != agents[i].id);
        lemma_index_from_distinct(agents, i, start + 1);
    }
}

/// The index of the first agent from `start` on that bears `id`.
pub open spec fn index_from(agents: Seq<Agent>, id: u64, start: int) -> Option<int>
    decreases agents.len() - start,
{
    if start < 0 || start >= agents.len() {
        None
    } else if agents[start].id == id {
        Some(start)
    } else {
        index_from(agents, id, start + 1)
    }
}

/// The index of the first agent that bears `id`.
pub open spec fn index_of(agents: Seq<Agent>, id: u64) -> Option<int> {
    index_from(agents, id, 0)
}

/// The position of the agent that bears `id`, if there is one.
pub open spec fn position_of(agents: Seq<Agent>, id: u64) -> Option<Vec3> {
    match index_of(agents, id) {
        Some(i) => Some(agents[i].transform.translation),
        None => None,
    }
}

/// Tells whether no two agents of the table bear the same identity.
pub fn has_distinct_ids(agents: &Vec<Agent>) -> (b: bool)
    ensures
        b == distinct_ids(agents@),
{
    let mut i: usize = 0;
    while i < agents.len()
        invariant
            i <= agents.len(),
            forall|p: int, q: int|
                0 <= p < q < agents@.len() && p < i ==> (#[trigger] agents@[p]).id != (
                #[trigger] agents@[q]).id,
        decreases agents.len() - i,
    {
        let mut j: usize = i + 1;
        while j < agents.len()
            invariant
                i < j <= agents.len(),
                forall|q: int| i < q < j ==> agents@[i as int].id != (#[trigger] agents@[q]).id,
            decreases agents.len() - j,
        {
            if agents[i].id == agents[j].id {
                assert(agents@[i as int].id == agents@[j as int].id);
                return false;
            }
            j = j + 1;
        }
        i = i + 1;
    }
    true
}

/// Tells whether the table is in a state that a tick may start from.
pub fn is_table_within_limits(agents: &Vec<Agent>) -> (b: bool)
    ensures
        b == table_within_limits(agents@),
{
    if agents.len() > MAX_AGENTS || !has_distinct_ids(agents) {
        return false;
    }
    let mut i: usize = 0;
    while i < agents.len()
        invariant
            i <= agents.len(),
            forall|k: int| 0 <= k < i ==> (#[trigger] agents@[k]).within_limits(),
        decreases agents.len() - i,
    {
        if !agents[i].is_within_limits() {
            return false;
        }
        i = i + 1;
    }
    true
}

/// Tells whether the table is in a state that a step of a tick accepts.
pub fn is_table_within_slack(agents: &Vec<Agent>) -> (b: bool)
    ensures
        b == table_within_slack(agents@),
{
    if agents.len() > MAX_AGENTS || !has_distinct_ids(agents) {
        return false;
    }
    let mut i: usize = 0;
    while i < agents.len()
        invariant
            i <= agents.len(),
            forall|k: int| 0 <= k < i ==> (#[trigger] agents@[k]).within_slack(),
        decreases agents.len() - i,
    {
        if !agents[i].is_within_slack() {
            return false;
        }
        i = i + 1;
    }
    true
}

/// Finds the first agent that bears `id`.
pub fn find_agent(agents: &Vec<Agent>, id: u64) -> (found: Option<usize>)
    ensures
        match found {
            Some(i) => index_of(agents@, id) == Some(i as int) && i < agents.len(),
            None => index_of(agents@, id) is None,
        },
{
    let mut i: usize = 0;
    while i < agents.len()
        invariant
            i <= agents.len(),
            index_of(agents@, id) == index_from(agents@, id, i as int),
        decreases agents.len() - i,
    {
        if agents[i].id == id {
            return Some(i);
        }
        i = i + 1;
    }
    None
}

} // verus!
