use wildlife_sim::math::Point;
use wildlife_sim::movement::Speed;
use wildlife_sim::needs::{
    Action, ActionKind, ActionState, Eat, Hungry, MoveToNearest, Satiety, TargetKind,
};
use wildlife_sim::thinker::{satiety_scorer_system, thinker_system, Choice, Scorer, Thinker};
use wildlife_sim::world::{Agent, World};

const POINT: u64 = 1_000_000;

fn seek_fruit() -> ActionKind {
    ActionKind::MoveToNearest(MoveToNearest::new(TargetKind::Fruit))
}

fn eat() -> ActionKind {
    ActionKind::Eat(Eat::new(80 * POINT, 5 * POINT))
}

fn thinker_with_scores(threshold: u64, scores: &[u64]) -> Thinker {
    let mut thinker = Thinker::new(threshold);
    for (i, score) in scores.iter().enumerate() {
        thinker = thinker.when(
            Scorer::Fixed(*score),
            ActionKind::Eat(Eat::new(i as u64, 1)),
        );
    }
    thinker.rescore(&None);
    thinker
}

fn agent() -> Agent {
    Agent::new(Point::new(0, 0, 0), 0, Speed::new(1_125_000))
}

#[test]
fn when_registers_choices_in_order() {
    let thinker = Thinker::new(7)
        .when(Scorer::Hungry(Hungry), seek_fruit())
        .when(Scorer::Fixed(3), eat());
    assert_eq!(thinker.threshold, 7);
    assert_eq!(
        thinker.choices,
        vec![
            Choice {
                scorer: Scorer::Hungry(Hungry),
                score: 0,
                action: seek_fruit()
            },
            Choice {
                scorer: Scorer::Fixed(3),
                score: 0,
                action: eat()
            },
        ]
    );
}

#[test]
fn pick_takes_the_highest_score() {
    assert_eq!(thinker_with_scores(0, &[1, 5, 3]).pick(), Some(1));
    assert_eq!(thinker_with_scores(0, &[9, 5, 3]).pick(), Some(0));
    assert_eq!(thinker_with_scores(0, &[1, 5, 30]).pick(), Some(2));
    assert_eq!(thinker_with_scores(0, &[4]).pick(), Some(0));
}

#[test]
fn pick_breaks_ties_by_order_of_registration() {
    assert_eq!(thinker_with_scores(0, &[5, 5, 5]).pick(), Some(0));
    assert_eq!(thinker_with_scores(0, &[1, 5, 5]).pick(), Some(1));
    assert_eq!(thinker_with_scores(0, &[5, 1, 5]).pick(), Some(0));
    assert_eq!(thinker_with_scores(0, &[1, 2, 9, 9, 3, 9]).pick(), Some(2));
}

#[test]
fn pick_wants_a_score_above_the_threshold() {
    assert_eq!(thinker_with_scores(0, &[0, 0, 0]).pick(), None);
    assert_eq!(thinker_with_scores(0, &[0, 1, 0]).pick(), Some(1));
    assert_eq!(thinker_with_scores(5, &[5, 4, 5]).pick(), None);
    assert_eq!(thinker_with_scores(5, &[5, 6, 5]).pick(), Some(1));
    assert_eq!(thinker_with_scores(1_000_000, &[1_000_000]).pick(), None);
    assert_eq!(thinker_with_scores(0, &[]).pick(), None);
}

#[test]
fn pick_is_the_same_however_often_it_is_asked() {
    let scores = [300_000, 900_000, 900_000, 10, 900_000];
    let first = thinker_with_scores(0, &scores).pick();
    assert_eq!(first, Some(1));
    let thinker = thinker_with_scores(0, &scores);
    for _ in 0..100 {
        assert_eq!(thinker.pick(), first);
        assert_eq!(thinker_with_scores(0, &scores).pick(), first);
    }
}

#[test]
fn a_fixed_score_is_at_most_one() {
    let thinker = thinker_with_scores(0, &[2_000_000, 1_000_000, 999_999, u64::MAX]);
    let scores: Vec<u64> = thinker.choices.iter().map(|c| c.score).collect();
    assert_eq!(scores, vec![1_000_000, 1_000_000, 999_999, 1_000_000]);
    assert_eq!(thinker.pick(), Some(0));
}

#[test]
fn scorer_system_scores_hunger_from_satiety() {
    let mut world = World::new();
    let thinker = || {
        Thinker::new(0)
            .when(Scorer::Fixed(300_000), eat())
            .when(Scorer::Hungry(Hungry), seek_fruit())
    };
    world.spawn(
        agent()
            .with_satiety(Satiety::new(10 * POINT, 0))
            .with_thinker(thinker()),
    );
    world.spawn(
        agent()
            .with_satiety(Satiety::new(100 * POINT, 0))
            .with_thinker(thinker()),
    );
    world.spawn(agent().with_thinker(thinker()));
    world.spawn(agent().with_satiety(Satiety::new(10 * POINT, 0)));
    satiety_scorer_system(&mut world);
    let scores = |i: usize| -> Vec<u64> {
        world.agents[i]
            .thinker
            .as_ref()
            .unwrap()
            .choices
            .iter()
            .map(|c| c.score)
            .collect()
    };
    assert_eq!(scores(0), vec![300_000, 900_000]);
    assert_eq!(scores(1), vec![300_000, 0]);
    // without satiety the hunger scorer keeps its last score
    assert_eq!(scores(2), vec![300_000, 0]);
    assert!(world.agents[3].thinker.is_none());
    assert_eq!(world.agents[0].satiety, Some(Satiety::new(10 * POINT, 0)));
}

#[test]
fn an_idle_agent_takes_up_the_goal_that_scores_highest() {
    let mut world = World::new();
    world.spawn(
        agent().with_satiety(Satiety::new(10 * POINT, 0)).with_thinker(
            Thinker::new(0)
                .when(Scorer::Fixed(300_000), eat())
                .when(Scorer::Hungry(Hungry), seek_fruit())
                .when(Scorer::Fixed(900_000), eat()),
        ),
    );
    satiety_scorer_system(&mut world);
    thinker_system(&mut world);
    assert_eq!(
        world.agents[0].action,
        Some(Action {
            kind: seek_fruit(),
            state: ActionState::Requested
        })
    );
}

#[test]
fn a_sated_agent_stays_idle() {
    let mut world = World::new();
    world.spawn(
        agent()
            .with_satiety(Satiety::new(100 * POINT, 0))
            .with_thinker(Thinker::new(0).when(Scorer::Hungry(Hungry), seek_fruit())),
    );
    // hungry, but not enough for its threshold
    world.spawn(
        agent()
            .with_satiety(Satiety::new(50 * POINT, 0))
            .with_thinker(Thinker::new(500_000).when(Scorer::Hungry(Hungry), seek_fruit())),
    );
    // no candidate at all
    world.spawn(agent().with_thinker(Thinker::new(0)));
    for _ in 0..3 {
        satiety_scorer_system(&mut world);
        thinker_system(&mut world);
        assert_eq!(world.agents[0].action, None);
        assert_eq!(world.agents[1].action, None);
        assert_eq!(world.agents[2].action, None);
    }
}

#[test]
fn the_thinker_leaves_a_running_action_alone() {
    for state in [
        ActionState::Requested,
        ActionState::Executing,
        ActionState::Cancelled,
    ] {
        let mut world = World::new();
        let mut busy = agent()
            .with_satiety(Satiety::new(0, 0))
            .with_thinker(Thinker::new(0).when(Scorer::Hungry(Hungry), seek_fruit()));
        busy.action = Some(Action { kind: eat(), state });
        world.spawn(busy);
        satiety_scorer_system(&mut world);
        thinker_system(&mut world);
        assert_eq!(world.agents[0].action, Some(Action { kind: eat(), state }));
    }
}

#[test]
fn the_thinker_clears_an_ended_action_and_picks_at_its_next_turn() {
    for state in [ActionState::Success, ActionState::Failure] {
        let mut world = World::new();
        let mut done = agent()
            .with_satiety(Satiety::new(0, 0))
            .with_thinker(Thinker::new(0).when(Scorer::Hungry(Hungry), seek_fruit()));
        done.action = Some(Action { kind: eat(), state });
        world.spawn(done);
        satiety_scorer_system(&mut world);
        thinker_system(&mut world);
        assert_eq!(world.agents[0].action, None);
        thinker_system(&mut world);
        assert_eq!(world.agents[0].action, Some(Action::new(seek_fruit())));
    }
}

#[test]
fn an_agent_without_a_thinker_keeps_its_action() {
    let mut world = World::new();
    let mut done = agent();
    done.action = Some(Action {
        kind: eat(),
        state: ActionState::Success,
    });
    world.spawn(done);
    world.spawn(agent());
    thinker_system(&mut world);
    assert_eq!(
        world.agents[0].action,
        Some(Action {
            kind: eat(),
            state: ActionState::Success
        })
    );
    assert_eq!(world.agents[1].action, None);
}

#[test]
fn equal_agents_choose_alike() {
    let build = || {
        agent().with_satiety(Satiety::new(37 * POINT, 0)).with_thinker(
            Thinker::new(100_000)
                .when(Scorer::Fixed(630_000), eat())
                .when(Scorer::Hungry(Hungry), seek_fruit())
                .when(Scorer::Fixed(630_000), seek_fruit()),
        )
    };
    let mut world = World::new();
    for _ in 0..20 {
        world.spawn(build());
    }
    satiety_scorer_system(&mut world);
    thinker_system(&mut world);
    for agent in &world.agents {
        // hunger is 630_000 as well: the first of the three wins
        assert_eq!(agent.action, Some(Action::new(eat())));
    }
}
