//! The order of a tick. The clock moves first, needs drain by what it
//! added, goals are scored and chosen on the drained needs, and actions run
//! on what was chosen. Answering path requests, handing waypoints over,
//! steering and clearing up after arrivals follow, in that order.

use crate::math::Point;
use crate::movement::{on_arrive, ArrivedEvent};
use crate::navigation::PathPlanner;
use crate::needs::{
    drain_needs, eat_action_system, move_to_nearest_system, path_requests, TargetKind,
};
use crate::thinker::{satiety_scorer_system, thinker_system};
use crate::time_control::TimeController;
use crate::world::{AgentView, World};
use vstd::prelude::*;

verus! {

impl AgentView {
    /// The agent after the first half of a tick, up to the point where it
    /// walks: its satiety drained, its goals scored on what is left, its
    /// thinker given its turn, and its eating action run.
    pub open spec fn decided(self, scaled_delta: nat) -> AgentView {
        self.drained(scaled_delta).rescored().thought().ate(scaled_delta)
    }

    /// The agent after the arrivals in `events` have been dealt with, first
    /// to last; `entity` is the index of the agent.
    pub open spec fn settled(self, entity: int, events: Seq<ArrivedEvent>) -> AgentView
        decreases events.len(),
    {
        if events.len() == 0 {
            self
        } else if events.last().entity == entity {
            self.settled(entity, events.drop_last()).arrived()
        } else {
            self.settled(entity, events.drop_last())
        }
    }
}

/// Every agent after the first half of a tick, up to the point where it walks.
pub open spec fn decided_all(agents: Seq<AgentView>, scaled_delta: nat) -> Seq<AgentView> {
    Seq::new(agents.len(), |i: int| agents[i].decided(scaled_delta))
}

/// Runs the first half of a tick, for `real_delta` microseconds of real time:
/// the clock is advanced, every need drains by the simulated time that the
/// clock added, goals are scored and chosen, eating actions run, and then the
/// actions of walking to the nearest fruit, which queue their path requests
/// with the planner. `fruit` are the places of the fruit.
pub fn run_decisions(
    world: &mut World,
    time_controller: &mut TimeController,
    real_delta: u64,
    fruit: &Vec<Point>,
    planner: &mut PathPlanner,
)
    ensures
        final(time_controller)@ == old(time_controller)@.ticked(real_delta as nat),
        final(world)@.len() == old(world)@.len(),
        forall|i: int|
            0 <= i < old(world)@.len() ==> final(world)@[i] == old(world)@[i].decided(
                final(time_controller)@.scaled_delta,
            ).sought(TargetKind::Fruit, fruit@),
        final(planner)@ == old(planner)@ + path_requests(
            decided_all(old(world)@, final(time_controller)@.scaled_delta),
            TargetKind::Fruit,
            fruit@,
            old(world)@.len() as int,
        ),
{
    time_controller.tick(real_delta);
    drain_needs(world, time_controller);
    satiety_scorer_system(world);
    thinker_system(world);
    eat_action_system(world, time_controller);
    assert(world@ =~= decided_all(old(world)@, time_controller@.scaled_delta));
    move_to_nearest_system(world, TargetKind::Fruit, fruit, planner);
}

/// Clears up at the end of a tick: every agent that an event says has
/// arrived loses its destination. The events are dealt with first to last;
/// one for an index that names no agent is passed over.
pub fn settle_arrivals(world: &mut World, events: &Vec<ArrivedEvent>)
    ensures
        final(world)@.len() == old(world)@.len(),
        forall|i: int|
            0 <= i < old(world)@.len() ==> final(world)@[i] == old(world)@[i].settled(i, events@),
{
    let n: usize = events.len();
    let mut k: usize = 0;
    while k < n
        invariant
            k <= n,
            n == events@.len(),
            world@.len() == old(world)@.len(),
            forall|i: int|
                0 <= i < old(world)@.len() ==> world@[i] == old(world)@[i].settled(
                    i,
                    events@.take(k as int),
                ),
        decreases n - k,
    {
        let ghost before = world@;
        on_arrive(world, &events[k]);
        proof {
            let done = events@.take(k as int + 1);
            assert(done.drop_last() =~= events@.take(k as int));
            assert(done.last() == events@[k as int]);
        }
        k = k + 1;
    }
    assert(events@.take(n as int) =~= events@);
}

/// An agent that an event names has no destination once the arrivals are
/// dealt with, and an agent that none names is left as it was.
pub proof fn lemma_settled(agent: AgentView, entity: int, events: Seq<ArrivedEvent>)
    ensures
        agent.settled(entity, events) == if exists|k: int|
            0 <= k < events.len() && events[k].entity == entity {
            agent.arrived()
        } else {
            agent
        },
    decreases events.len(),
{
    if events.len() > 0 {
        let before = events.drop_last();
        lemma_settled(agent, entity, before);
        if events.last().entity == entity {
            assert(events[events.len() - 1].entity == entity);
        } else if exists|k: int| 0 <= k < events.len() && events[k].entity == entity {
            let k = choose|k: int| 0 <= k < events.len() && events[k].entity == entity;
            assert(before[k].entity == entity);
        } else {
            assert(forall|k: int| 0 <= k < before.len() ==> before[k] == events[k]);
        }
    }
}

} // verus!
