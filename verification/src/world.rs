//! The arena of agents. An agent is known by its index in the arena, which
//! never changes; what an agent may lack (a need, a thinker, an action, a
//! destination, a path) is an optional field of its record.

use crate::math::Point;
use crate::movement::{Destination, Speed};
use crate::navigation::EntityPath;
use crate::needs::{Action, Satiety};
use crate::thinker::{Thinker, ThinkerView};
use vstd::prelude::*;

verus! {

/// One agent.
#[derive(Debug)]
pub struct Agent {
    /// Where the agent stands.
    pub translation: Point,
    /// The way it faces: its rotation about the vertical axis, in millionths
    /// of a degree.
    pub yaw: u32,
    pub speed: Speed,
    pub satiety: Option<Satiety>,
    pub thinker: Option<Thinker>,
    /// The action that the agent has taken up, if any.
    pub action: Option<Action>,
    /// The point that the agent is steering toward. An agent with a
    /// destination is in transit.
    pub destination: Option<Destination>,
    /// The waypoints that the agent has still to visit.
    pub path: Option<EntityPath>,
}

/// An agent as plain values.
pub struct AgentView {
    pub translation: Point,
    pub yaw: u32,
    pub speed: Speed,
    pub satiety: Option<Satiety>,
    pub thinker: Option<ThinkerView>,
    pub action: Option<Action>,
    pub destination: Option<Destination>,
    pub path: Option<Seq<Point>>,
}

impl View for Agent {
    type V = AgentView;

    open spec fn view(&self) -> AgentView {
        AgentView {
            translation: self.translation,
            yaw: self.yaw,
            speed: self.speed,
            satiety: self.satiety,
            thinker: match self.thinker {
                Some(thinker) => Some(thinker@),
                None => None,
            },
            action: self.action,
            destination: self.destination,
            path: match self.path {
                Some(path) => Some(path@),
                None => None,
            },
        }
    }
}

impl Agent {
    /// An agent that stands at `translation` and has no need, thinker, action,
    /// destination or path.
    pub fn new(translation: Point, yaw: u32, speed: Speed) -> (agent: Agent)
        ensures
            agent@ == (AgentView {
                translation,
                yaw,
                speed,
                satiety: None,
                thinker: None,
                action: None,
                destination: None,
                path: None,
            }),
    {
        Agent {
            translation,
            yaw,
            speed,
            satiety: None,
            thinker: None,
            action: None,
            destination: None,
            path: None,
        }
    }

    pub fn with_satiety(self, satiety: Satiety) -> (agent: Agent)
        ensures
            agent@ == (AgentView { satiety: Some(satiety), ..self@ }),
    {
        let mut agent = self;
        agent.satiety = Some(satiety);
        agent
    }

    pub fn with_thinker(self, thinker: Thinker) -> (agent: Agent)
        ensures
            agent@ == (AgentView { thinker: Some(thinker@), ..self@ }),
    {
        let mut agent = self;
        agent.thinker = Some(thinker);
        agent
    }
}

/// All agents, each at the index that names it.
#[derive(Debug)]
pub struct World {
    pub agents: Vec<Agent>,
}

impl View for World {
    type V = Seq<AgentView>;

    open spec fn view(&self) -> Seq<AgentView> {
        Seq::new(self.agents@.len(), |i: int| self.agents@[i]@)
    }
}

impl World {
    /// A world without agents.
    pub fn new() -> (world: World)
        ensures
            world@ == Seq::<AgentView>::empty(),
    {
        World { agents: Vec::new() }
    }

    pub fn len(&self) -> (len: usize)
        ensures
            len == self@.len(),
    {
        self.agents.len()
    }

    /// Adds an agent and returns the index that names it from now on.
    pub fn spawn(&mut self, agent: Agent) -> (entity: usize)
        ensures
            entity == old(self)@.len(),
            final(self)@ == old(self)@.push(agent@),
    {
        let entity: usize = self.agents.len();
        self.agents.push(agent);
        entity
    }
}

} // verus!
