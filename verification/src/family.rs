//! Who belongs to whom, and who follows whom.
//!
//! A duckling has a true parent, assigned once and never changed, and an
//! agent it follows at the moment. Until the two agree the duckling keeps
//! looking among the adults near it.

use vstd::prelude::*;
use crate::agent::{table_within_slack, Agent};
use crate::chance::random_chance;
use crate::fixed::LIMIT;
use crate::notice::Notice;
use crate::vec3::Vec3;

verus! {

/// How near an adult must be for a duckling to consider following it.
pub const FOLLOW_RADIUS: i64 = 15_000_000;

/// The squared distance between two points.
pub open spec fn dist_sq(p: Vec3, q: Vec3) -> int {
    (p.x - q.x) * (p.x - q.x) + (p.y - q.y) * (p.y - q.y) + (p.z - q.z) * (p.z - q.z)
}

/// `a` is an adult within `FOLLOW_RADIUS` of `d`.
pub open spec fn in_reach(d: Agent, a: Agent) -> bool {
    !a.is_duckling && dist_sq(d.transform.translation, a.transform.translation) <= FOLLOW_RADIUS
        * FOLLOW_RADIUS
}

/// `d` is a duckling with a true parent that it has not been marked as
/// having found.
pub open spec fn seeking(d: Agent) -> bool {
    d.is_duckling && !d.done && d.true_parent is Some
}

/// The true parent of `d` is among the adults in its reach.
pub open spec fn parent_in_reach(d: Agent, agents: Seq<Agent>) -> bool {
    exists|j: int|
        0 <= j < agents.len() && #[trigger] in_reach(d, agents[j]) && d.true_parent == Some(
            agents[j].id,
        )
}

/// The last of the first `n` agents that is the player's duck and in reach of `d`.
pub open spec fn player_in_reach(d: Agent, agents: Seq<Agent>, n: int) -> Option<u64>
    decreases n,
{
    if n <= 0 || n > agents.len() {
        None
    } else if in_reach(d, agents[n - 1]) && agents[n - 1].is_player {
        Some(agents[n - 1].id)
    } else {
        player_in_reach(d, agents, n - 1)
    }
}

/// The agent `d` after one round of looking for whom to follow.
///
/// Nothing changes for an agent that is not seeking. A duckling that already
/// follows its true parent is marked done. Otherwise, if the true parent is
/// in reach, the duckling follows it and is marked done; failing that, it
/// follows the player's duck if that is in reach; failing that, it follows
/// whom it followed before.
pub open spec fn resolve_spec(d: Agent, agents: Seq<Agent>) -> Agent {
    if !seeking(d) {
        d
    } else if d.following == d.true_parent {
        Agent { done: true, ..d }
    } else if parent_in_reach(d, agents) {
        Agent { following: d.true_parent, done: true, ..d }
    } else {
        match player_in_reach(d, agents, agents.len() as int) {
            Some(p) => Agent { following: Some(p), ..d },
            None => d,
        }
    }
}

/// What one round of looking reports for the agent `d`: a reunion when the
/// duckling newly follows its true parent, and a hand-over addressed to the
/// agent it followed before, if it followed one.
pub open spec fn notices_spec(d: Agent, agents: Seq<Agent>) -> Seq<Notice> {
    if seeking(d) && d.following != d.true_parent && parent_in_reach(d, agents) {
        let reunited = Notice::Reunited { duckling: d.id, parent: d.true_parent->0 };
        match d.following {
            Some(old) => seq![reunited, Notice::HandedOver { from: old, duckling: d.id }],
            None => seq![reunited],
        }
    } else {
        Seq::empty()
    }
}

/// The reports for the first `n` agents of the table, in table order.
pub open spec fn notices_upto(agents: Seq<Agent>, n: int) -> Seq<Notice>
    decreases n,
{
    if n <= 0 {
        Seq::empty()
    } else {
        notices_upto(agents, n - 1) + notices_spec(agents[n - 1], agents)
    }
}

/// The agent `d` after one round of looking in each of `tables`, in order.
pub open spec fn resolve_many(d: Agent, tables: Seq<Seq<Agent>>) -> Agent
    decreases tables.len(),
{
    if tables.len() == 0 {
        d
    } else {
        resolve_spec(resolve_many(d, tables.drop_last()), tables.last())
    }
}

/// A duckling that follows its true parent goes on following it, however
/// many rounds of looking come, and whatever the tables hold.
pub proof fn lemma_following_true_parent_is_final(d: Agent, tables: Seq<Seq<Agent>>)
    requires
        d.true_parent is Some,
        d.following == d.true_parent,
    ensures
        resolve_many(d, tables).following == d.following,
        resolve_many(d, tables).true_parent == d.true_parent,
    decreases tables.len(),
{
    if tables.len() > 0 {
        lemma_following_true_parent_is_final(d, tables.drop_last());
    }
}

/// Looking for whom to follow never changes the true parent, nor anything
/// but whom the agent follows and whether it is done; and a round that marks
/// a duckling done leaves it following its true parent.
pub proof fn lemma_resolve_frame(d: Agent, agents: Seq<Agent>)
    ensures
        resolve_spec(d, agents) == (Agent {
            following: resolve_spec(d, agents).following,
            done: resolve_spec(d, agents).done,
            ..d
        }),
        resolve_spec(d, agents).done && !d.done ==> resolve_spec(d, agents).following
            == d.true_parent,
        d.done ==> resolve_spec(d, agents) == d,
{
}

/// Tells whether two points are within `FOLLOW_RADIUS` of each other.
pub fn within_reach(p: Vec3, q: Vec3) -> (b: bool)
    requires
        p.bounded(LIMIT as int),
        q.bounded(LIMIT as int),
    ensures
        b == (dist_sq(p, q) <= FOLLOW_RADIUS * FOLLOW_RADIUS),
{
    let delta = p.minus(q);
    proof {
        assert(delta.x * delta.x >= 0) by (nonlinear_arith);
        assert(delta.y * delta.y >= 0) by (nonlinear_arith);
        assert(delta.z * delta.z >= 0) by (nonlinear_arith);
        assert(FOLLOW_RADIUS * FOLLOW_RADIUS == 225_000_000_000_000);
    }
    delta.length_squared() <= 225_000_000_000_000
}

/// Lets the agent `d` look once for whom to follow among `agents`, scanned
/// in table order, and appends what there is to report.
pub fn resolve(d: Agent, agents: &Vec<Agent>, notices: &mut Vec<Notice>) -> (r: Agent)
    requires
        table_within_slack(agents@),
        d.transform.within_limits(),
    ensures
        r == resolve_spec(d, agents@),
        final(notices)@ == old(notices)@ + notices_spec(d, agents@),
{
    if !d.is_duckling || d.done {
        return d;
    }
    let tp: u64 = match d.true_parent {
        Some(t) => t,
        None => {
            return d;
        },
    };
    if let Some(f) = d.following {
        if f == tp {
            return Agent { done: true, ..d };
        }
    }
    let mut follow: Option<u64> = d.following;
    let mut j: usize = 0;
    while j < agents.len()
        invariant
            j <= agents.len(),
            table_within_slack(agents@),
            d.transform.within_limits(),
            d.true_parent == Some(tp),
            seeking(d),
            d.following != d.true_parent,
            *notices == *old(notices),
            forall|k: int|
                0 <= k < j ==> !(#[trigger] in_reach(d, agents@[k]) && agents@[k].id == tp),
            follow == (match player_in_reach(d, agents@, j as int) {
                Some(p) => Some(p),
                None => d.following,
            }),
        decreases agents.len() - j,
    {
        let a = agents[j];
        assert(agents@[j as int].within_slack());
        if !a.is_duckling && within_reach(d.transform.translation, a.transform.translation) {
            if a.id == tp {
                assert(in_reach(d, agents@[j as int]));
                notices.push(Notice::Reunited { duckling: d.id, parent: tp });
                if let Some(old_leader) = d.following {
                    notices.push(Notice::HandedOver { from: old_leader, duckling: d.id });
                }
                return Agent { following: Some(tp), done: true, ..d };
            } else if a.is_player {
                follow = Some(a.id);
            }
        }
        j = j + 1;
    }
    Agent { following: follow, ..d }
}

/// One round of the search for parents: every duckling that is still seeking
/// looks once for whom to follow, as `resolve_spec` says, each against the
/// table as it stood before the round. Returns what there is to report, in
/// table order.
pub fn assign_parent_to_parentless_ducks(agents: &mut Vec<Agent>) -> (notices: Vec<Notice>)
    requires
        table_within_slack(old(agents)@),
    ensures
        final(agents)@.len() == old(agents)@.len(),
        forall|i: int|
            0 <= i < old(agents)@.len() ==> (#[trigger] final(agents)@[i]) == resolve_spec(
                old(agents)@[i],
                old(agents)@,
            ),
        notices@ == notices_upto(old(agents)@, old(agents)@.len() as int),
{
    let mut notices: Vec<Notice> = Vec::new();
    let mut out: Vec<Agent> = Vec::new();
    let mut i: usize = 0;
    while i < agents.len()
        invariant
            i <= agents.len(),
            *agents == *old(agents),
            table_within_slack(agents@),
            out@.len() == i,
            forall|k: int| 0 <= k < i ==> (#[trigger] out@[k]) == resolve_spec(agents@[k], agents@),
            notices@ == notices_upto(agents@, i as int),
        decreases agents.len() - i,
    {
        assert(agents@[i as int].within_slack());
        let r = resolve(agents[i], agents, &mut notices);
        out.push(r);
        i = i + 1;
    }
    *agents = out;
    notices
}

/// `a` may be assigned as a true parent: an adult other than the player's duck.
pub open spec fn eligible_parent(a: Agent) -> bool {
    !a.is_duckling && !a.is_player
}

/// `d` is a duckling that has no true parent yet.
pub open spec fn orphan(d: Agent) -> bool {
    d.is_duckling && d.true_parent is None
}

/// Some eligible parent of the table bears `id`.
pub open spec fn eligible_id(agents: Seq<Agent>, id: u64) -> bool {
    exists|j: int| 0 <= j < agents.len() && eligible_parent(#[trigger] agents[j]) && agents[j].id == id
}

/// The last of the first `n` agents that is an eligible parent and whose
/// draw came up.
pub open spec fn drawn_parent(agents: Seq<Agent>, draws: Seq<bool>, n: int) -> Option<u64>
    decreases n,
{
    if n <= 0 || n > agents.len() || n > draws.len() {
        None
    } else if eligible_parent(agents[n - 1]) && draws[n - 1] {
        Some(agents[n - 1].id)
    } else {
        drawn_parent(agents, draws, n - 1)
    }
}

/// The agent `d` after the draws of one tick: an orphan takes the drawn
/// parent, if there is one; nothing else changes.
pub open spec fn adopt_spec(d: Agent, agents: Seq<Agent>, draws: Seq<bool>) -> Agent {
    if orphan(d) {
        match drawn_parent(agents, draws, agents.len() as int) {
            Some(p) => Agent { true_parent: Some(p), ..d },
            None => d,
        }
    } else {
        d
    }
}

/// A drawn parent is an eligible parent of the table.
pub proof fn lemma_drawn_parent_eligible(agents: Seq<Agent>, draws: Seq<bool>, n: int)
    ensures
        drawn_parent(agents, draws, n) matches Some(p) ==> eligible_id(agents, p),
    decreases n,
{
    if n <= 0 || n > agents.len() || n > draws.len() {
    } else if eligible_parent(agents[n - 1]) && draws[n - 1] {
        assert(eligible_parent(agents[n - 1]));
    } else {
        lemma_drawn_parent_eligible(agents, draws, n - 1);
    }
}

/// The number of the first `n` agents that follow the agent `id`.
pub open spec fn followers_upto(agents: Seq<Agent>, id: u64, n: int) -> nat
    decreases n,
{
    if n <= 0 {
        0
    } else if agents[n - 1].following == Some(id) {
        followers_upto(agents, id, n - 1) + 1
    } else {
        followers_upto(agents, id, n - 1)
    }
}

/// The number of the first `n` agents whose true parent is the agent `id`.
pub open spec fn children_upto(agents: Seq<Agent>, id: u64, n: int) -> nat
    decreases n,
{
    if n <= 0 {
        0
    } else if agents[n - 1].true_parent == Some(id) {
        children_upto(agents, id, n - 1) + 1
    } else {
        children_upto(agents, id, n - 1)
    }
}

/// Gives the duckling `d` the parent that the draws of this tick name:
/// `draws` holds one coin toss for every agent of the table, and the last
/// eligible parent whose toss came up is taken. A duckling that has a true
/// parent keeps it.
pub fn adopt(d: Agent, agents: &Vec<Agent>, draws: &Vec<bool>) -> (r: Agent)
    requires
        draws@.len() == agents@.len(),
    ensures
        r == adopt_spec(d, agents@, draws@),
{
    if !d.is_duckling || d.true_parent.is_some() {
        return d;
    }
    let mut parent: Option<u64> = None;
    let mut j: usize = 0;
    while j < agents.len()
        invariant
            j <= agents.len(),
            draws@.len() == agents@.len(),
            parent == drawn_parent(agents@, draws@, j as int),
        decreases agents.len() - j,
    {
        let a = agents[j];
        if !a.is_duckling && !a.is_player && draws[j] {
            parent = Some(a.id);
        }
        j = j + 1;
    }
    match parent {
        Some(p) => Agent { true_parent: Some(p), ..d },
        None => d,
    }
}

/// Tosses, for one duckling, a coin with one chance in a hundred for every
/// eligible parent of the table.
fn draw_parents(agents: &Vec<Agent>) -> (draws: Vec<bool>)
    ensures
        draws@.len() == agents@.len(),
{
    let mut draws: Vec<bool> = Vec::new();
    let mut j: usize = 0;
    while j < agents.len()
        invariant
            j <= agents.len(),
            draws@.len() == j,
        decreases agents.len() - j,
    {
        let a = agents[j];
        let toss = if !a.is_duckling && !a.is_player {
            random_chance(1, 100)
        } else {
            false
        };
        draws.push(toss);
        j = j + 1;
    }
    draws
}

/// One round of assigning true parents: for every duckling without one, a
/// coin is tossed for each eligible parent, and the duckling takes the last
/// whose toss came up. Whatever the tosses, a true parent once assigned
/// stays, nothing but true parents changes, and a newly assigned parent is
/// an eligible parent of the table.
pub fn assign_true_parents(agents: &mut Vec<Agent>)
    ensures
        final(agents)@.len() == old(agents)@.len(),
        forall|i: int|
            0 <= i < old(agents)@.len() ==> {
                &&& (#[trigger] final(agents)@[i]) == (Agent {
                    true_parent: final(agents)@[i].true_parent,
                    ..old(agents)@[i]
                })
                &&& (!orphan(old(agents)@[i]) ==> final(agents)@[i] == old(agents)@[i])
                &&& (final(agents)@[i].true_parent matches Some(p) ==> old(agents)@[i].true_parent
                    == Some(p) || eligible_id(old(agents)@, p))
            },
{
    let mut out: Vec<Agent> = Vec::new();
    let mut i: usize = 0;
    while i < agents.len()
        invariant
            i <= agents.len(),
            *agents == *old(agents),
            out@.len() == i,
            forall|k: int|
                0 <= k < i ==> {
                    &&& (#[trigger] out@[k]) == (Agent {
                        true_parent: out@[k].true_parent,
                        ..agents@[k]
                    })
                    &&& (!orphan(agents@[k]) ==> out@[k] == agents@[k])
                    &&& (out@[k].true_parent matches Some(p) ==> agents@[k].true_parent == Some(p)
                        || eligible_id(agents@, p))
                },
        decreases agents.len() - i,
    {
        let d = agents[i];
        let r = if d.is_duckling && d.true_parent.is_none() {
            let draws = draw_parents(agents);
            proof {
                lemma_drawn_parent_eligible(agents@, draws@, agents@.len() as int);
            }
            adopt(d, agents, &draws)
        } else {
            d
        };
        out.push(r);
        i = i + 1;
    }
    *agents = out;
}

/// Counts the agents that follow the agent `id`.
pub fn follower_count(agents: &Vec<Agent>, id: u64) -> (n: usize)
    ensures
        n == followers_upto(agents@, id, agents@.len() as int),
{
    let mut n: usize = 0;
    let mut j: usize = 0;
    while j < agents.len()
        invariant
            j <= agents.len(),
            n <= j,
            n == followers_upto(agents@, id, j as int),
        decreases agents.len() - j,
    {
        if let Some(f) = agents[j].following {
            if f == id {
                n = n + 1;
            }
        }
        j = j + 1;
    }
    n
}

/// Counts the agents whose true parent is the agent `id`.
pub fn child_count(agents: &Vec<Agent>, id: u64) -> (n: usize)
    ensures
        n == children_upto(agents@, id, agents@.len() as int),
{
    let mut n: usize = 0;
    let mut j: usize = 0;
    while j < agents.len()
        invariant
            j <= agents.len(),
            n <= j,
            n == children_upto(agents@, id, j as int),
        decreases agents.len() - j,
    {
        if let Some(p) = agents[j].true_parent {
            if p == id {
                n = n + 1;
            }
        }
        j = j + 1;
    }
    n
}

} // verus!
