//! Utility-based choice: each candidate goal has a scorer, and the thinker
//! takes up the goal that scores highest.

use crate::needs::{hunger, Action, ActionKind, ActionState, Hungry, Satiety, SCORE_ONE};
use crate::world::{Agent, AgentView, World};
use vstd::prelude::*;

verus! {

/// How a candidate goal is scored.
#[derive(Clone, Copy, PartialEq, Eq, Debug, Structural)]
pub enum Scorer {
    /// By the agent's hunger.
    Hungry(Hungry),
    /// Always the same score, in millionths; more than `SCORE_ONE` counts as
    /// `SCORE_ONE`.
    Fixed(u64),
}

/// A candidate goal: its scorer, the score that the scorer last gave, and the
/// action to take up when the goal is chosen.
#[derive(Clone, Copy, PartialEq, Eq, Debug, Structural)]
pub struct Choice {
    pub scorer: Scorer,
    pub score: u64,
    pub action: ActionKind,
}

impl Choice {
    /// The choice with its score brought up to date. A hunger scorer reads
    /// the agent's satiety and keeps its last score when the agent has none.
    pub open spec fn rescored(self, satiety: Option<Satiety>) -> Choice {
        Choice {
            score: match self.scorer {
                Scorer::Hungry(_) => match satiety {
                    Some(s) => hunger(s.value as nat) as u64,
                    None => self.score,
                },
                Scorer::Fixed(score) => if score > SCORE_ONE {
                    SCORE_ONE
                } else {
                    score
                },
            },
            ..self
        }
    }

    /// Brings the score up to date.
    pub fn rescore(&mut self, satiety: &Option<Satiety>)
        ensures
            *final(self) == old(self).rescored(*satiety),
            satiety is Some || old(self).scorer is Fixed ==> final(self).score <= SCORE_ONE,
    {
        match self.scorer {
            Scorer::Hungry(scorer) => {
                match satiety {
                    Some(s) => {
                        self.score = scorer.score(s);
                    },
                    None => {},
                }
            },
            Scorer::Fixed(score) => {
                self.score = if score > SCORE_ONE {
                    SCORE_ONE
                } else {
                    score
                };
            },
        }
    }
}

/// The candidate goals of one agent, in the order they were registered, and
/// the score that a goal must exceed to be taken up.
#[derive(Debug)]
pub struct Thinker {
    pub choices: Vec<Choice>,
    pub threshold: u64,
}

/// A thinker as plain values.
pub struct ThinkerView {
    pub choices: Seq<Choice>,
    pub threshold: u64,
}

impl View for Thinker {
    type V = ThinkerView;

    open spec fn view(&self) -> ThinkerView {
        ThinkerView { choices: self.choices@, threshold: self.threshold }
    }
}

/// Whether choice `i` is the one to take up: it scores above the threshold,
/// no choice scores higher, and every choice registered before it scores
/// lower.
pub open spec fn is_pick(choices: Seq<Choice>, threshold: u64, i: int) -> bool {
    &&& 0 <= i < choices.len()
    &&& choices[i].score > threshold
    &&& forall|j: int| 0 <= j < choices.len() ==> choices[j].score <= choices[i].score
    &&& forall|j: int| 0 <= j < i ==> choices[j].score < choices[i].score
}

/// The choice to take up, if any scores above the threshold.
pub open spec fn picked(choices: Seq<Choice>, threshold: u64) -> Option<int> {
    if exists|i: int| is_pick(choices, threshold, i) {
        Some(choose|i: int| is_pick(choices, threshold, i))
    } else {
        None
    }
}

/// At most one choice is the one to take up: ties go to the choice that was
/// registered first, and to no other.
pub proof fn lemma_pick_unique(choices: Seq<Choice>, threshold: u64, i: int, j: int)
    requires
        is_pick(choices, threshold, i),
        is_pick(choices, threshold, j),
    ensures
        i == j,
{
}

/// A choice that meets `is_pick` is the one that `picked` names.
pub proof fn lemma_picked_is(choices: Seq<Choice>, threshold: u64, i: int)
    requires
        is_pick(choices, threshold, i),
    ensures
        picked(choices, threshold) == Some(i),
{
    let k = choose|k: int| is_pick(choices, threshold, k);
    lemma_pick_unique(choices, threshold, i, k);
}

/// The choice does not depend on which actions the candidates stand for, nor
/// on anything but the scores, their order and the threshold: two lists of
/// candidates with the same scores in the same order give the same pick.
pub proof fn lemma_pick_is_determined_by_scores(
    a: Seq<Choice>,
    b: Seq<Choice>,
    threshold: u64,
)
    requires
        a.len() == b.len(),
        forall|i: int| 0 <= i < a.len() ==> a[i].score == b[i].score,
    ensures
        picked(a, threshold) == picked(b, threshold),
{
    if exists|i: int| is_pick(a, threshold, i) {
        let i = choose|i: int| is_pick(a, threshold, i);
        assert(is_pick(b, threshold, i));
        lemma_picked_is(b, threshold, i);
    } else if exists|i: int| is_pick(b, threshold, i) {
        let i = choose|i: int| is_pick(b, threshold, i);
        assert(is_pick(a, threshold, i));
    }
}

impl Thinker {
    /// A thinker with no candidate goal yet. With a threshold of zero any
    /// positive score is enough for a goal to be taken up.
    pub fn new(threshold: u64) -> (thinker: Thinker)
        ensures
            thinker@ == (ThinkerView { choices: Seq::<Choice>::empty(), threshold }),
    {
        Thinker { choices: Vec::new(), threshold }
    }

    /// Registers a candidate goal after those already there. Its score
    /// starts at zero.
    pub fn when(self, scorer: Scorer, action: ActionKind) -> (thinker: Thinker)
        ensures
            thinker@ == (ThinkerView {
                choices: self@.choices.push(Choice { scorer, score: 0, action }),
                threshold: self@.threshold,
            }),
    {
        let mut thinker = self;
        thinker.choices.push(Choice { scorer, score: 0, action });
        thinker
    }

    /// The candidate to take up: the highest score above the threshold, and
    /// among equal scores the candidate registered first. `None` when no
    /// score is above the threshold.
    pub fn pick(&self) -> (choice: Option<usize>)
        ensures
            match choice {
                Some(i) => is_pick(self@.choices, self@.threshold, i as int),
                None => forall|j: int|
                    0 <= j < self@.choices.len() ==> self@.choices[j].score <= self@.threshold,
            },
            picked(self@.choices, self@.threshold) == match choice {
                Some(i) => Some(i as int),
                None => None::<int>,
            },
    {
        let mut best: Option<usize> = None;
        let mut i: usize = 0;
        while i < self.choices.len()
            invariant
                i <= self.choices@.len(),
                match best {
                    Some(b) => {
                        &&& b < i
                        &&& self.choices@[b as int].score > self.threshold
                        &&& forall|j: int| 0 <= j < i ==> self.choices@[j].score <= self.choices@[b as int].score
                        &&& forall|j: int| 0 <= j < b ==> self.choices@[j].score < self.choices@[b as int].score
                    },
                    None => forall|j: int| 0 <= j < i ==> self.choices@[j].score <= self.threshold,
                },
            decreases self.choices@.len() - i,
        {
            let score: u64 = self.choices[i].score;
            let better: bool = match best {
                Some(b) => score > self.choices[b].score,
                None => score > self.threshold,
            };
            if better {
                best = Some(i);
            }
            i = i + 1;
        }
        proof {
            match best {
                Some(b) => {
                    lemma_picked_is(self@.choices, self@.threshold, b as int);
                },
                None => {
                    assert(forall|k: int| !is_pick(self@.choices, self@.threshold, k));
                },
            }
        }
        best
    }
}

impl ThinkerView {
    /// The thinker with every score brought up to date.
    pub open spec fn rescored(self, satiety: Option<Satiety>) -> ThinkerView {
        ThinkerView {
            choices: Seq::new(self.choices.len(), |i: int| self.choices[i].rescored(satiety)),
            threshold: self.threshold,
        }
    }
}

impl AgentView {
    /// The agent with the scores of its candidate goals brought up to date.
    pub open spec fn rescored(self) -> AgentView {
        AgentView {
            thinker: match self.thinker {
                Some(thinker) => Some(thinker.rescored(self.satiety)),
                None => None,
            },
            ..self
        }
    }

    /// The agent after its thinker has had its turn. An idle agent takes up
    /// the goal that its thinker picks, as a requested action, and stays idle
    /// when no goal scores above the threshold. An action that has ended is
    /// taken away, so that the agent is idle at the next turn. An action
    /// that has not ended is left alone.
    pub open spec fn thought(self) -> AgentView {
        match self.thinker {
            Some(thinker) => match self.action {
                Some(action) => if action.state.is_terminal() {
                    AgentView { action: None, ..self }
                } else {
                    self
                },
                None => match picked(thinker.choices, thinker.threshold) {
                    Some(i) => AgentView {
                        action: Some(
                            Action { kind: thinker.choices[i].action, state: ActionState::Requested },
                        ),
                        ..self
                    },
                    None => self,
                },
            },
            None => self,
        }
    }
}

impl Thinker {
    /// Brings the score of every candidate goal up to date.
    pub fn rescore(&mut self, satiety: &Option<Satiety>)
        ensures
            final(self)@ == old(self)@.rescored(*satiety),
    {
        let n: usize = self.choices.len();
        let mut i: usize = 0;
        while i < n
            invariant
                i <= n,
                n == self.choices@.len(),
                n == old(self).choices@.len(),
                self.threshold == old(self).threshold,
                forall|j: int|
                    0 <= j < i ==> self.choices@[j] == old(self).choices@[j].rescored(*satiety),
                forall|j: int| i <= j < n ==> self.choices@[j] == old(self).choices@[j],
            decreases n - i,
        {
            self.choices[i].rescore(satiety);
            i = i + 1;
        }
        assert(self@.choices =~= old(self)@.rescored(*satiety).choices);
    }
}

impl Agent {
    /// Brings the scores of the agent's candidate goals up to date.
    pub fn rescore(&mut self)
        ensures
            final(self)@ == old(self)@.rescored(),
    {
        let satiety: Option<Satiety> = self.satiety;
        match &mut self.thinker {
            Some(thinker) => {
                thinker.rescore(&satiety);
            },
            None => {},
        }
    }

    /// Gives the agent's thinker its turn.
    pub fn think(&mut self)
        ensures
            final(self)@ == old(self)@.thought(),
    {
        let taken: Option<Action> = match &self.thinker {
            Some(thinker) => match self.action {
                Some(action) => if action.state.terminal() {
                    None
                } else {
                    Some(action)
                },
                None => match thinker.pick() {
                    Some(i) => Some(Action::new(thinker.choices[i].action)),
                    None => None,
                },
            },
            None => self.action,
        };
        self.action = taken;
    }
}

/// Brings the scores of every agent's candidate goals up to date: a hunger
/// scorer gives `hunger` of the agent's satiety.
pub fn satiety_scorer_system(world: &mut World)
    ensures
        final(world)@.len() == old(world)@.len(),
        forall|i: int| 0 <= i < old(world)@.len() ==> final(world)@[i] == old(world)@[i].rescored(),
{
    let n: usize = world.agents.len();
    let mut i: usize = 0;
    while i < n
        invariant
            i <= n,
            n == world.agents@.len(),
            n == old(world).agents@.len(),
            forall|j: int| 0 <= j < i ==> world.agents@[j]@ == old(world).agents@[j]@.rescored(),
            forall|j: int| i <= j < n ==> world.agents@[j] == old(world).agents@[j],
        decreases n - i,
    {
        world.agents[i].rescore();
        i = i + 1;
    }
}

/// Gives every agent's thinker its turn.
pub fn thinker_system(world: &mut World)
    ensures
        final(world)@.len() == old(world)@.len(),
        forall|i: int| 0 <= i < old(world)@.len() ==> final(world)@[i] == old(world)@[i].thought(),
{
    let n: usize = world.agents.len();
    let mut i: usize = 0;
    while i < n
        invariant
            i <= n,
            n == world.agents@.len(),
            n == old(world).agents@.len(),
            forall|j: int| 0 <= j < i ==> world.agents@[j]@ == old(world).agents@[j]@.thought(),
            forall|j: int| i <= j < n ==> world.agents@[j] == old(world).agents@[j],
        decreases n - i,
    {
        world.agents[i].think();
        i = i + 1;
    }
}

/// Two agents with the same candidate goals, the same scores and the same
/// action, if any, are left with the same action by their thinkers: nothing
/// else bears on the choice.
pub proof fn lemma_thinking_is_determined(a: AgentView, b: AgentView)
    requires
        a.thinker == b.thinker,
        a.satiety == b.satiety,
        a.action == b.action,
    ensures
        a.rescored().thought().action == b.rescored().thought().action,
{
}

} // verus!
