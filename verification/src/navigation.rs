//! Path requests, the queue that holds them until the navigation mesh is
//! ready, and the waypoint stack that an agent walks along.

use crate::math::Point;
use crate::movement::Destination;
use crate::world::{Agent, AgentView, World};
use vstd::prelude::*;

verus! {

/// A request for a path from one point to another, on behalf of an agent.
#[derive(Clone, Copy, PartialEq, Eq, Debug, Structural)]
pub struct FindPathEvent {
    pub from_point: Point,
    pub to_point: Point,
    pub entity: usize,
}

impl FindPathEvent {
    pub fn new(from_point: Point, to_point: Point, entity: usize) -> (event: FindPathEvent)
        ensures
            event == (FindPathEvent { from_point, to_point, entity }),
    {
        FindPathEvent { from_point, to_point, entity }
    }
}

/// Says that the mesh holds no path for the request of this agent.
#[derive(Clone, Copy, PartialEq, Eq, Debug, Structural)]
pub struct NoPathFoundEvent {
    pub entity: usize,
}

/// The waypoints an agent has still to visit, the last of them first: the
/// next waypoint is at the end of `path`, the final destination at its start.
#[derive(Debug)]
pub struct EntityPath {
    pub path: Vec<Point>,
}

impl View for EntityPath {
    type V = Seq<Point>;

    open spec fn view(&self) -> Seq<Point> {
        self.path@
    }
}

impl EntityPath {
    pub fn new(path: Vec<Point>) -> (entity_path: EntityPath)
        ensures
            entity_path@ == path@,
    {
        EntityPath { path }
    }
}

/// The path requests that wait for the navigation mesh, oldest first.
#[derive(Debug)]
pub struct PathPlanner {
    pub pending: Vec<FindPathEvent>,
}

impl View for PathPlanner {
    type V = Seq<FindPathEvent>;

    open spec fn view(&self) -> Seq<FindPathEvent> {
        self.pending@
    }
}

impl PathPlanner {
    /// A planner with no request waiting.
    pub fn new() -> (planner: PathPlanner)
        ensures
            planner@ == Seq::<FindPathEvent>::empty(),
    {
        PathPlanner { pending: Vec::new() }
    }

    /// Files a request. Nothing is answered here: the request waits until the
    /// mesh is ready and `take_serviceable` hands it out.
    pub fn request(&mut self, event: FindPathEvent)
        ensures
            final(self)@ == old(self)@.push(event),
    {
        self.pending.push(event);
    }

    /// Hands out the requests that can be answered now. While the mesh is not
    /// ready that is none of them, and all stay queued; once it is ready it is
    /// all of them, oldest first, and the queue is left empty.
    pub fn take_serviceable(&mut self, mesh_ready: bool) -> (requests: Vec<FindPathEvent>)
        ensures
            mesh_ready ==> requests@ == old(self)@ && final(self)@ == Seq::<FindPathEvent>::empty(),
            !mesh_ready ==> requests@ == Seq::<FindPathEvent>::empty() && final(self)@ == old(
                self,
            )@,
    {
        let mut requests: Vec<FindPathEvent> = Vec::new();
        if mesh_ready {
            std::mem::swap(&mut self.pending, &mut requests);
        }
        requests
    }
}

impl AgentView {
    /// The agent once the mesh has answered its request with `answer`, the
    /// waypoints in the order in which they are to be walked. The agent holds
    /// them in reverse, so that the next waypoint is always the last; a path
    /// that it held before is gone.
    pub open spec fn with_path(self, answer: Seq<Point>) -> AgentView {
        AgentView { path: Some(answer.reverse()), ..self }
    }

    /// The agent after the hand-over from path to destination. An agent that
    /// has a path and no destination takes the next waypoint off the end of
    /// the path as its destination; if the path is empty, the path itself is
    /// taken away. An agent in transit, or without a path, is left alone.
    pub open spec fn traversed(self) -> AgentView {
        match (self.path, self.destination) {
            (Some(path), None) => if path.len() > 0 {
                AgentView {
                    destination: Some(Destination { value: path.last() }),
                    path: Some(path.drop_last()),
                    ..self
                }
            } else {
                AgentView { path: None, ..self }
            },
            _ => self,
        }
    }

    /// The agent after `hops` hand-overs from path to destination, each but
    /// the first after the agent has reached the destination before.
    pub open spec fn hopped(self, hops: nat) -> AgentView
        decreases hops,
    {
        if hops == 0 {
            self
        } else {
            AgentView { destination: None, ..self.hopped((hops - 1) as nat) }.traversed()
        }
    }
}

/// The waypoints of `path` in reverse.
pub fn reversed(path: &Vec<Point>) -> (turned: Vec<Point>)
    ensures
        turned@ == path@.reverse(),
{
    let n: usize = path.len();
    let mut turned: Vec<Point> = Vec::new();
    let mut i: usize = 0;
    while i < n
        invariant
            i <= n,
            n == path@.len(),
            turned@.len() == i,
            forall|j: int| 0 <= j < i ==> turned@[j] == path@[n - 1 - j],
        decreases n - i,
    {
        turned.push(path[n - 1 - i]);
        i = i + 1;
    }
    assert(turned@ =~= path@.reverse());
    turned
}

impl Agent {
    /// Hands the next waypoint over from path to destination.
    pub fn traverse(&mut self)
        ensures
            final(self)@ == old(self)@.traversed(),
    {
        if self.destination.is_some() {
            return ;
        }
        let next: Option<Point> = match &mut self.path {
            Some(path) => path.path.pop(),
            None => {
                return ;
            },
        };
        match next {
            Some(waypoint) => {
                self.destination = Some(Destination::new(waypoint));
            },
            None => {
                self.path = None;
            },
        }
    }
}

/// Settles one path request with what the mesh answered: `Some` with the
/// waypoints in the order in which they are to be walked, or `None` where
/// the mesh holds no path.
///
/// With an answer the agent that asked gets the waypoints as its path, the
/// last of them first, in place of any path it held; a request on behalf of
/// an agent that does not exist changes nothing. Without one the world is
/// left as it is and the event that says so is returned.
pub fn find_path(world: &mut World, request: &FindPathEvent, answer: Option<Vec<Point>>) -> (failed:
    Option<NoPathFoundEvent>)
    ensures
        match answer {
            Some(path) => {
                &&& failed is None
                &&& final(world)@ == if request.entity < old(world)@.len() {
                    old(world)@.update(
                        request.entity as int,
                        old(world)@[request.entity as int].with_path(path@),
                    )
                } else {
                    old(world)@
                }
            },
            None => {
                &&& failed == Some(NoPathFoundEvent { entity: request.entity })
                &&& final(world)@ == old(world)@
            },
        },
{
    match answer {
        Some(path) => {
            if request.entity < world.agents.len() {
                let stack: Vec<Point> = reversed(&path);
                world.agents[request.entity].path = Some(EntityPath::new(stack));
            }
            None
        },
        None => Some(NoPathFoundEvent { entity: request.entity }),
    }
}

/// Hands, for every agent that has a path and is not in transit, the next
/// waypoint over as its destination, and takes the path away once it is empty.
pub fn traverse_path(world: &mut World)
    ensures
        final(world)@.len() == old(world)@.len(),
        forall|i: int| 0 <= i < old(world)@.len() ==> final(world)@[i] == old(world)@[i].traversed(),
{
    let n: usize = world.agents.len();
    let mut i: usize = 0;
    while i < n
        invariant
            i <= n,
            n == world.agents@.len(),
            n == old(world).agents@.len(),
            forall|j: int| 0 <= j < i ==> world.agents@[j]@ == old(world).agents@[j]@.traversed(),
            forall|j: int| i <= j < n ==> world.agents@[j] == old(world).agents@[j],
        decreases n - i,
    {
        world.agents[i].traverse();
        i = i + 1;
    }
}

/// An agent that is given a path walks its waypoints in the order in which
/// the mesh gave them: the destination of its hop number `k + 1` is waypoint
/// `k` of the answer, and what is left of its path are the waypoints after
/// that one, the last of them first.
pub proof fn lemma_waypoints_in_travel_order(agent: AgentView, answer: Seq<Point>, k: nat)
    requires
        agent.destination is None,
        k < answer.len(),
    ensures
        agent.with_path(answer).hopped(k + 1).destination == Some(Destination { value: answer[k as int] }),
        agent.with_path(answer).hopped(k + 1).path == Some(answer.skip(k as int + 1).reverse()),
    decreases k,
{
    let start = agent.with_path(answer);
    let before = AgentView { destination: None, ..start.hopped(k) };
    if k == 0 {
        assert(start.hopped(0) == start);
        assert(answer.skip(0) =~= answer);
    } else {
        lemma_waypoints_in_travel_order(agent, answer, (k - 1) as nat);
    }
    let stack = answer.skip(k as int).reverse();
    assert(before.path == Some(stack));
    assert(stack.len() > 0);
    assert(stack.last() == answer[k as int]);
    assert(stack.drop_last() =~= answer.skip(k as int + 1).reverse());
}

/// After the last waypoint the path is used up, and the next hand-over takes
/// it away: the agent has arrived for good.
pub proof fn lemma_path_ends(agent: AgentView, answer: Seq<Point>)
    requires
        agent.destination is None,
    ensures
        agent.with_path(answer).hopped(answer.len() + 1).path is None,
        agent.with_path(answer).hopped(answer.len() + 1).destination is None,
{
    let start = agent.with_path(answer);
    let n = answer.len();
    if n == 0 {
        assert(start.hopped(0) == start);
        assert(start.hopped(1) == AgentView { destination: None, ..start.hopped(0) }.traversed());
    } else {
        lemma_waypoints_in_travel_order(agent, answer, (n - 1) as nat);
        assert(answer.skip(n as int).reverse() =~= Seq::<Point>::empty());
    }
}

/// Where every waypoint that the mesh gives is nearer to the last of them
/// than the one before, every destination that the agent is handed is nearer
/// to where the path ends than the one before.
pub proof fn lemma_walk_approaches_the_end(agent: AgentView, answer: Seq<Point>, k: nat)
    requires
        agent.destination is None,
        k + 1 < answer.len(),
        forall|i: int|
            0 <= i < answer.len() - 1 ==> answer[i + 1].dist_sq(answer.last()) < (
            #[trigger] answer[i]).dist_sq(answer.last()),
    ensures
        agent.with_path(answer).hopped(k + 2).destination->0.value.dist_sq(answer.last())
            < agent.with_path(answer).hopped(k + 1).destination->0.value.dist_sq(answer.last()),
{
    lemma_waypoints_in_travel_order(agent, answer, k);
    lemma_waypoints_in_travel_order(agent, answer, k + 1);
    assert(answer[k as int + 1].dist_sq(answer.last()) < answer[k as int].dist_sq(answer.last()));
}

} // verus!
