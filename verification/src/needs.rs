//! Satiety, the one need that agents have: how it drains, how eating restores
//! it, and how hungry an agent with a given satiety is; and the actions by
//! which an agent looks after it, eating and walking to the nearest food,
//! each a small state machine that runs over as many ticks as it needs.

use crate::math::{nearest_index, nearest_point, Point};
use crate::navigation::{FindPathEvent, PathPlanner};
use crate::time_control::{accrue, accrued, TimeController};
use crate::world::{Agent, AgentView, World};
use vstd::prelude::*;

verus! {

/// A full store of satiety: one hundred points, counted in millionths.
pub const SATIETY_MAX: u64 = 100_000_000;

/// Eating never fills the store beyond ninety points.
pub const SATIETY_EAT_CAP: u64 = 90_000_000;

/// The default drain empties a full store in eight simulated hours.
pub const DEFAULT_DRAIN_PER_SEC: i64 = 3_472;

/// The score of an agent that wants nothing more than its goal.
pub const SCORE_ONE: u64 = 1_000_000;

/// An agent has reached what it walked to once its squared distance to it is
/// no more than this: 1.1 square world units.
pub const REACH_DIST_SQ: u128 = 1_100_000_000_000;

/// How sated an agent is, and how fast that wears off. Both numbers count
/// millionths of a point; the rate is per simulated second.
#[derive(Clone, Copy, PartialEq, Eq, Debug, Structural)]
pub struct Satiety {
    pub value: u64,
    pub drain_speed_per_sec: i64,
}

impl Satiety {
    /// The satiety left after `scaled_delta` simulated microseconds. A value
    /// above the maximum is first brought down to it; a rate of zero or less
    /// drains nothing; the value stops at zero.
    pub open spec fn drained(self, scaled_delta: nat) -> Satiety {
        let held: nat = if self.value > SATIETY_MAX {
            SATIETY_MAX as nat
        } else {
            self.value as nat
        };
        let loss: nat = if self.drain_speed_per_sec <= 0 {
            0
        } else {
            accrued(self.drain_speed_per_sec as nat, scaled_delta)
        };
        Satiety {
            value: if loss >= held {
                0
            } else {
                (held - loss) as u64
            },
            drain_speed_per_sec: self.drain_speed_per_sec,
        }
    }

    /// The satiety after eating for `scaled_delta` simulated microseconds at
    /// `per_second` millionths of a point per second. The value stops at the
    /// eating cap, and a value above the cap comes down to it.
    pub open spec fn replenished(self, per_second: nat, scaled_delta: nat) -> Satiety {
        let fed: nat = self.value as nat + accrued(per_second, scaled_delta);
        Satiety {
            value: if fed >= SATIETY_EAT_CAP {
                SATIETY_EAT_CAP
            } else {
                fed as u64
            },
            drain_speed_per_sec: self.drain_speed_per_sec,
        }
    }

    pub fn new(value: u64, drain_speed_per_sec: i64) -> (satiety: Satiety)
        ensures
            satiety == (Satiety { value, drain_speed_per_sec }),
    {
        Satiety { value, drain_speed_per_sec }
    }

    /// Drains the store for one tick of `scaled_delta` simulated microseconds.
    pub fn drain(&mut self, scaled_delta: u64)
        ensures
            *final(self) == old(self).drained(scaled_delta as nat),
            final(self).value <= SATIETY_MAX,
            final(self).value <= old(self).value,
            old(self).drain_speed_per_sec <= 0 && old(self).value <= SATIETY_MAX ==> *final(self)
                == *old(self),
    {
        let held: u64 = if self.value > SATIETY_MAX {
            SATIETY_MAX
        } else {
            self.value
        };
        if self.drain_speed_per_sec <= 0 {
            self.value = held;
        } else {
            let loss: u128 = accrue(self.drain_speed_per_sec as u64, scaled_delta);
            if loss >= held as u128 {
                self.value = 0;
            } else {
                self.value = held - loss as u64;
            }
        }
    }

    /// Feeds the store for one tick of `scaled_delta` simulated microseconds.
    pub fn replenish(&mut self, per_second: u64, scaled_delta: u64)
        ensures
            *final(self) == old(self).replenished(per_second as nat, scaled_delta as nat),
            final(self).value <= SATIETY_EAT_CAP,
    {
        let gain: u128 = accrue(per_second, scaled_delta);
        if gain >= SATIETY_EAT_CAP as u128 || self.value >= SATIETY_EAT_CAP || self.value as u128
            + gain >= SATIETY_EAT_CAP as u128 {
            self.value = SATIETY_EAT_CAP;
        } else {
            self.value = self.value + gain as u64;
        }
    }
}

impl Default for Satiety {
    /// A full store that drains at the default rate.
    fn default() -> (satiety: Satiety)
        ensures
            satiety == (Satiety { value: SATIETY_MAX, drain_speed_per_sec: DEFAULT_DRAIN_PER_SEC }),
    {
        Satiety { value: SATIETY_MAX, drain_speed_per_sec: DEFAULT_DRAIN_PER_SEC }
    }
}

/// One update of a store of satiety.
pub enum NeedUpdate {
    /// A drain step of so many simulated microseconds.
    Drain(nat),
    /// Eating at a rate per second for so many simulated microseconds.
    Feed(nat, nat),
}

/// The store after one update.
pub open spec fn updated(satiety: Satiety, update: NeedUpdate) -> Satiety {
    match update {
        NeedUpdate::Drain(micros) => satiety.drained(micros),
        NeedUpdate::Feed(per_second, micros) => satiety.replenished(per_second, micros),
    }
}

/// The store after a sequence of updates, first to last.
pub open spec fn updated_through(satiety: Satiety, updates: Seq<NeedUpdate>) -> Satiety
    decreases updates.len(),
{
    if updates.len() == 0 {
        satiety
    } else {
        updated(updated_through(satiety, updates.drop_last()), updates.last())
    }
}

/// A store that starts within range stays within range whatever is done to
/// it, for however long: no sequence of drain and eating steps takes it below
/// zero or above the maximum, and straight after an eating step it is no
/// higher than the eating cap.
pub proof fn lemma_satiety_stays_in_range(satiety: Satiety, updates: Seq<NeedUpdate>)
    requires
        satiety.value <= SATIETY_MAX,
    ensures
        0 <= updated_through(satiety, updates).value <= SATIETY_MAX,
        updates.len() > 0 && updates.last() is Feed ==> updated_through(satiety, updates).value
            <= SATIETY_EAT_CAP,
    decreases updates.len(),
{
    if updates.len() > 0 {
        lemma_satiety_stays_in_range(satiety, updates.drop_last());
    }
}

/// Draining alone never raises the store: after any sequence of drain steps
/// the value is at most what it was.
pub proof fn lemma_draining_never_raises(satiety: Satiety, updates: Seq<NeedUpdate>)
    requires
        satiety.value <= SATIETY_MAX,
        forall|i: int| 0 <= i < updates.len() ==> updates[i] is Drain,
    ensures
        updated_through(satiety, updates).value <= satiety.value,
    decreases updates.len(),
{
    if updates.len() > 0 {
        let before = updates.drop_last();
        assert(forall|i: int| 0 <= i < before.len() ==> before[i] == updates[i]);
        lemma_draining_never_raises(satiety, before);
        assert(updates.last() == updates[updates.len() - 1]);
    }
}

/// How much an agent with `value` satiety wants food: nothing when the store
/// is full, `SCORE_ONE` when it is empty, and linear in between.
pub open spec fn hunger(value: nat) -> nat {
    if value >= SATIETY_MAX {
        0
    } else {
        ((SATIETY_MAX - value) / 100) as nat
    }
}

/// The scorer that measures hunger.
#[derive(Clone, Copy, PartialEq, Eq, Debug, Structural)]
pub struct Hungry;

impl Hungry {
    /// The hunger score of an agent with this satiety.
    pub fn score(&self, satiety: &Satiety) -> (score: u64)
        ensures
            score == hunger(satiety.value as nat),
            score <= SCORE_ONE,
    {
        if satiety.value >= SATIETY_MAX {
            0
        } else {
            (SATIETY_MAX - satiety.value) / 100
        }
    }
}

/// Where an action stands. An action is asked for, runs over as many ticks
/// as it needs, and ends in success or failure; one that is cancelled fails
/// the next time it runs.
#[derive(Clone, Copy, PartialEq, Eq, Debug, Structural)]
pub enum ActionState {
    Requested,
    Executing,
    Success,
    Failure,
    Cancelled,
}

impl ActionState {
    /// Success and failure are final: an action in either state runs no more.
    pub open spec fn is_terminal(self) -> bool {
        self is Success || self is Failure
    }

    pub fn terminal(&self) -> (terminal: bool)
        ensures
            terminal == self.is_terminal(),
    {
        match self {
            ActionState::Success => true,
            ActionState::Failure => true,
            _ => false,
        }
    }
}

/// The action of eating: feed at `per_second` until satiety reaches `until`,
/// both in millionths of a point.
#[derive(Clone, Copy, PartialEq, Eq, Debug, Structural)]
pub struct Eat {
    pub until: u64,
    pub per_second: u64,
}

impl Eat {
    pub fn new(until: u64, per_second: u64) -> (eat: Eat)
        ensures
            eat == (Eat { until, per_second }),
    {
        Eat { until, per_second }
    }
}

/// The kinds of thing that an agent can walk to.
#[derive(Clone, Copy, PartialEq, Eq, Debug, Structural)]
pub enum TargetKind {
    Fruit,
    Tree,
}

/// The action of walking to the nearest thing of one kind.
#[derive(Clone, Copy, PartialEq, Eq, Debug, Structural)]
pub struct MoveToNearest {
    pub kind: TargetKind,
}

impl MoveToNearest {
    pub fn new(kind: TargetKind) -> (action: MoveToNearest)
        ensures
            action.kind == kind,
    {
        MoveToNearest { kind }
    }
}

/// What an action does.
#[derive(Clone, Copy, PartialEq, Eq, Debug, Structural)]
pub enum ActionKind {
    Eat(Eat),
    MoveToNearest(MoveToNearest),
}

/// An action that an agent has taken up, and where it stands.
#[derive(Clone, Copy, PartialEq, Eq, Debug, Structural)]
pub struct Action {
    pub kind: ActionKind,
    pub state: ActionState,
}

impl Action {
    /// A fresh action, asked for and not yet begun.
    pub fn new(kind: ActionKind) -> (action: Action)
        ensures
            action == (Action { kind, state: ActionState::Requested }),
    {
        Action { kind, state: ActionState::Requested }
    }
}

impl AgentView {
    /// The agent after a drain step. An agent without satiety is left as it is.
    pub open spec fn drained(self, scaled_delta: nat) -> AgentView {
        AgentView {
            satiety: match self.satiety {
                Some(satiety) => Some(satiety.drained(scaled_delta)),
                None => None,
            },
            ..self
        }
    }

    /// The agent after one run of its eating action. Only an agent whose
    /// action is to eat, and which has satiety, is changed.
    ///
    /// A requested action begins. One that executes feeds the agent for the
    /// tick and succeeds as soon as satiety has reached the action's goal. A
    /// cancelled one fails. One that has ended stays as it is.
    pub open spec fn ate(self, scaled_delta: nat) -> AgentView {
        match (self.action, self.satiety) {
            (Some(action), Some(satiety)) => match action.kind {
                ActionKind::Eat(eat) => match action.state {
                    ActionState::Requested => AgentView {
                        action: Some(Action { kind: action.kind, state: ActionState::Executing }),
                        ..self
                    },
                    ActionState::Executing => {
                        let fed = satiety.replenished(eat.per_second as nat, scaled_delta);
                        AgentView {
                            satiety: Some(fed),
                            action: Some(
                                Action {
                                    kind: action.kind,
                                    state: if fed.value >= eat.until {
                                        ActionState::Success
                                    } else {
                                        ActionState::Executing
                                    },
                                },
                            ),
                            ..self
                        }
                    },
                    ActionState::Cancelled => AgentView {
                        action: Some(Action { kind: action.kind, state: ActionState::Failure }),
                        ..self
                    },
                    _ => self,
                },
                _ => self,
            },
            _ => self,
        }
    }

    /// The state of the agent's action of walking to the nearest thing of
    /// `kind`, if that is what the agent is doing.
    pub open spec fn seeking(self, kind: TargetKind) -> Option<ActionState> {
        match self.action {
            Some(action) => match action.kind {
                ActionKind::MoveToNearest(seek) => if seek.kind == kind {
                    Some(action.state)
                } else {
                    None
                },
                _ => None,
            },
            None => None,
        }
    }

    /// The state that one run takes the action of walking to the nearest of
    /// `goals` to, from `state`.
    ///
    /// A requested action begins. One that executes succeeds once the nearest
    /// goal is within reach, and goes on executing while it is not, or while
    /// there is no goal at all: it never fails for want of a goal or a path.
    /// A cancelled one fails. One that has ended stays as it is.
    pub open spec fn sought_state(self, state: ActionState, goals: Seq<Point>) -> ActionState {
        match state {
            ActionState::Requested => ActionState::Executing,
            ActionState::Executing => match nearest_index(goals, self.translation) {
                Some(i) => if self.translation.dist_sq(goals[i]) > REACH_DIST_SQ {
                    ActionState::Executing
                } else {
                    ActionState::Success
                },
                None => ActionState::Executing,
            },
            ActionState::Cancelled => ActionState::Failure,
            _ => state,
        }
    }

    /// The agent after one run of its action of walking to the nearest of
    /// `goals`, the things of `kind`. Only an agent whose action that is, is
    /// changed, and only in the state of the action.
    pub open spec fn sought(self, kind: TargetKind, goals: Seq<Point>) -> AgentView {
        match self.seeking(kind) {
            Some(state) => AgentView {
                action: Some(
                    Action { kind: self.action->0.kind, state: self.sought_state(state, goals) },
                ),
                ..self
            },
            None => self,
        }
    }

    /// The path request that one run of the action of walking to the nearest
    /// of `goals` files for the agent `entity`: one from where the agent
    /// stands to the nearest goal, if the action executes, that goal is out of
    /// reach, and the agent has no path yet.
    pub open spec fn path_request(
        self,
        kind: TargetKind,
        goals: Seq<Point>,
        entity: usize,
    ) -> Option<FindPathEvent> {
        match (self.seeking(kind), nearest_index(goals, self.translation)) {
            (Some(ActionState::Executing), Some(i)) => if self.translation.dist_sq(goals[i])
                > REACH_DIST_SQ && self.path is None {
                Some(
                    FindPathEvent {
                        from_point: self.translation,
                        to_point: goals[i],
                        entity,
                    },
                )
            } else {
                None
            },
            _ => None,
        }
    }
}

/// The path requests that the first `upto` agents file in one run of their
/// actions of walking to the nearest of `goals`, in the order of the agents.
pub open spec fn path_requests(
    agents: Seq<AgentView>,
    kind: TargetKind,
    goals: Seq<Point>,
    upto: int,
) -> Seq<FindPathEvent>
    decreases upto,
{
    if upto <= 0 {
        Seq::empty()
    } else {
        let before = path_requests(agents, kind, goals, upto - 1);
        match agents[upto - 1].path_request(kind, goals, (upto - 1) as usize) {
            Some(event) => before.push(event),
            None => before,
        }
    }
}

impl Agent {
    /// Drains the agent's satiety for one tick.
    pub fn drain(&mut self, scaled_delta: u64)
        ensures
            final(self)@ == old(self)@.drained(scaled_delta as nat),
    {
        match self.satiety {
            Some(satiety) => {
                let mut left: Satiety = satiety;
                left.drain(scaled_delta);
                self.satiety = Some(left);
            },
            None => {},
        }
    }

    /// Runs the agent's eating action for one tick.
    pub fn eat(&mut self, scaled_delta: u64)
        ensures
            final(self)@ == old(self)@.ate(scaled_delta as nat),
    {
        match (self.action, self.satiety) {
            (Some(action), Some(satiety)) => {
                match action.kind {
                    ActionKind::Eat(eat) => {
                        match action.state {
                            ActionState::Requested => {
                                self.action = Some(
                                    Action { kind: action.kind, state: ActionState::Executing },
                                );
                            },
                            ActionState::Executing => {
                                let mut fed: Satiety = satiety;
                                fed.replenish(eat.per_second, scaled_delta);
                                let state: ActionState = if fed.value >= eat.until {
                                    ActionState::Success
                                } else {
                                    ActionState::Executing
                                };
                                self.satiety = Some(fed);
                                self.action = Some(Action { kind: action.kind, state });
                            },
                            ActionState::Cancelled => {
                                self.action = Some(
                                    Action { kind: action.kind, state: ActionState::Failure },
                                );
                            },
                            _ => {},
                        }
                    },
                    _ => {},
                }
            },
            _ => {},
        }
    }

    /// Runs the agent's action of walking to the nearest of `goals`, the
    /// things of `kind`, and returns the path request that it files, if any.
    /// `entity` is the index of the agent.
    pub fn seek(&mut self, kind: TargetKind, goals: &Vec<Point>, entity: usize) -> (request: Option<
        FindPathEvent,
    >)
        ensures
            final(self)@ == old(self)@.sought(kind, goals@),
            request == old(self)@.path_request(kind, goals@, entity),
    {
        let action: Action = match self.action {
            Some(action) => action,
            None => {
                return None;
            },
        };
        let seek: MoveToNearest = match action.kind {
            ActionKind::MoveToNearest(seek) => seek,
            _ => {
                return None;
            },
        };
        if !same_kind(seek.kind, kind) {
            return None;
        }
        match action.state {
            ActionState::Requested => {
                self.action = Some(Action { kind: action.kind, state: ActionState::Executing });
                None
            },
            ActionState::Executing => {
                match nearest_point(goals, &self.translation) {
                    Some(i) => {
                        let goal: Point = goals[i];
                        if self.translation.distance_squared(&goal) > REACH_DIST_SQ {
                            if self.path.is_none() {
                                Some(FindPathEvent::new(self.translation, goal, entity))
                            } else {
                                None
                            }
                        } else {
                            self.action = Some(
                                Action { kind: action.kind, state: ActionState::Success },
                            );
                            None
                        }
                    },
                    None => None,
                }
            },
            ActionState::Cancelled => {
                self.action = Some(Action { kind: action.kind, state: ActionState::Failure });
                None
            },
            _ => None,
        }
    }

    /// Cancels the agent's action, if it has one that has not ended. The
    /// action fails the next time it runs.
    pub fn cancel_action(&mut self)
        ensures
            final(self)@ == (AgentView {
                action: match old(self)@.action {
                    Some(action) => Some(
                        Action {
                            kind: action.kind,
                            state: if action.state.is_terminal() {
                                action.state
                            } else {
                                ActionState::Cancelled
                            },
                        },
                    ),
                    None => None,
                },
                ..old(self)@
            }),
    {
        match self.action {
            Some(action) => {
                if !action.state.terminal() {
                    self.action = Some(Action { kind: action.kind, state: ActionState::Cancelled });
                }
            },
            None => {},
        }
    }
}

/// Whether two kinds are the same.
fn same_kind(a: TargetKind, b: TargetKind) -> (same: bool)
    ensures
        same == (a == b),
{
    match (a, b) {
        (TargetKind::Fruit, TargetKind::Fruit) => true,
        (TargetKind::Tree, TargetKind::Tree) => true,
        _ => false,
    }
}

/// Drains the satiety of every agent for the tick that the clock last made.
pub fn drain_needs(world: &mut World, time_controller: &TimeController)
    ensures
        final(world)@.len() == old(world)@.len(),
        forall|i: int|
            0 <= i < old(world)@.len() ==> final(world)@[i] == old(world)@[i].drained(
                time_controller@.scaled_delta,
            ),
{
    let scaled_delta: u64 = time_controller.scaled_delta();
    let n: usize = world.agents.len();
    let mut i: usize = 0;
    while i < n
        invariant
            i <= n,
            n == world.agents@.len(),
            n == old(world).agents@.len(),
            scaled_delta == time_controller@.scaled_delta,
            forall|j: int|
                0 <= j < i ==> world.agents@[j]@ == old(world).agents@[j]@.drained(
                    scaled_delta as nat,
                ),
            forall|j: int| i <= j < n ==> world.agents@[j] == old(world).agents@[j],
        decreases n - i,
    {
        world.agents[i].drain(scaled_delta);
        i = i + 1;
    }
}

/// Runs the eating action of every agent that has one, for the tick that the
/// clock last made.
pub fn eat_action_system(world: &mut World, time_controller: &TimeController)
    ensures
        final(world)@.len() == old(world)@.len(),
        forall|i: int|
            0 <= i < old(world)@.len() ==> final(world)@[i] == old(world)@[i].ate(
                time_controller@.scaled_delta,
            ),
{
    let scaled_delta: u64 = time_controller.scaled_delta();
    let n: usize = world.agents.len();
    let mut i: usize = 0;
    while i < n
        invariant
            i <= n,
            n == world.agents@.len(),
            n == old(world).agents@.len(),
            scaled_delta == time_controller@.scaled_delta,
            forall|j: int|
                0 <= j < i ==> world.agents@[j]@ == old(world).agents@[j]@.ate(scaled_delta as nat),
            forall|j: int| i <= j < n ==> world.agents@[j] == old(world).agents@[j],
        decreases n - i,
    {
        world.agents[i].eat(scaled_delta);
        i = i + 1;
    }
}

/// Runs, for every agent that has one, the action of walking to the nearest
/// thing of `kind`; `goals` are the places of the things of that kind. The
/// path requests that the agents file are queued with the planner, in the
/// order of the agents, behind those that wait there already. No agent files
/// more than one.
pub fn move_to_nearest_system(
    world: &mut World,
    kind: TargetKind,
    goals: &Vec<Point>,
    planner: &mut PathPlanner,
)
    ensures
        final(world)@.len() == old(world)@.len(),
        forall|i: int|
            0 <= i < old(world)@.len() ==> final(world)@[i] == old(world)@[i].sought(kind, goals@),
        final(planner)@ == old(planner)@ + path_requests(
            old(world)@,
            kind,
            goals@,
            old(world)@.len() as int,
        ),
{
    let n: usize = world.agents.len();
    let mut i: usize = 0;
    while i < n
        invariant
            i <= n,
            n == world.agents@.len(),
            n == old(world).agents@.len(),
            forall|j: int|
                0 <= j < i ==> world.agents@[j]@ == old(world).agents@[j]@.sought(kind, goals@),
            forall|j: int| i <= j < n ==> world.agents@[j] == old(world).agents@[j],
            planner@ == old(planner)@ + path_requests(old(world)@, kind, goals@, i as int),
        decreases n - i,
    {
        let request: Option<FindPathEvent> = world.agents[i].seek(kind, goals, i);
        assert(old(world)@[i as int] == old(world).agents@[i as int]@);
        match request {
            Some(event) => {
                planner.request(event);
            },
            None => {},
        }
        i = i + 1;
    }
}

/// An agent that walks to the nearest thing of a kind goes on doing so until
/// it is there or is told to stop. One run of an executing action ends in
/// success exactly when the nearest goal is within reach, and never in
/// failure: not while the goal is out of reach, not when there is no goal,
/// and not when no path to it is found. The run moves nothing.
pub proof fn lemma_seeking_goes_on(agent: AgentView, kind: TargetKind, goals: Seq<Point>)
    requires
        agent.seeking(kind) == Some(ActionState::Executing),
    ensures
        agent.sought(kind, goals).seeking(kind) == Some(ActionState::Success) <==> (nearest_index(
            goals,
            agent.translation,
        ) matches Some(i) && agent.translation.dist_sq(goals[i]) <= REACH_DIST_SQ),
        agent.sought(kind, goals).seeking(kind) == Some(ActionState::Success) || agent.sought(
            kind,
            goals,
        ).seeking(kind) == Some(ActionState::Executing),
        agent.sought(kind, goals).translation == agent.translation,
        agent.sought(kind, goals).path == agent.path,
        agent.sought(kind, goals).destination == agent.destination,
{
}

} // verus!
