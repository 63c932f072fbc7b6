use wildlife_sim::math::Point;
use wildlife_sim::movement::{on_arrive, ArrivedEvent, Destination, Speed};
use wildlife_sim::navigation::{
    find_path, reversed, traverse_path, EntityPath, FindPathEvent, NoPathFoundEvent, PathPlanner,
};
use wildlife_sim::world::{Agent, World};

const UNIT: i32 = 1_000_000;

fn agent_at(x: i32, z: i32) -> Agent {
    Agent::new(Point::new(x, 0, z), 0, Speed::new(1_125_000))
}

/// A mesh without obstacles: the path is the straight line, one waypoint per
/// world unit, the last of them the target itself.
fn open_mesh(from: Point, to: Point) -> Option<Vec<Point>> {
    let mut path = Vec::new();
    let mut at = from;
    while at != to {
        at = at.move_towards(&to, UNIT as u64);
        path.push(at);
    }
    Some(path)
}

fn path_of(world: &World, entity: usize) -> Option<Vec<Point>> {
    world.agents[entity].path.as_ref().map(|p| p.path.clone())
}

#[test]
fn requests_wait_until_the_mesh_is_ready() {
    let mut planner = PathPlanner::new();
    let first = FindPathEvent::new(Point::new(0, 0, 0), Point::new(1, 0, 0), 0);
    let second = FindPathEvent::new(Point::new(0, 0, 0), Point::new(2, 0, 0), 1);
    planner.request(first);
    for _ in 0..5 {
        assert!(planner.take_serviceable(false).is_empty());
        assert_eq!(planner.pending, vec![first]);
    }
    planner.request(second);
    assert!(planner.take_serviceable(false).is_empty());
    assert_eq!(planner.take_serviceable(true), vec![first, second]);
    assert!(planner.pending.is_empty());
    assert!(planner.take_serviceable(true).is_empty());
    assert!(planner.take_serviceable(false).is_empty());
}

#[test]
fn a_found_path_is_held_last_waypoint_first() {
    let mut world = World::new();
    world.spawn(agent_at(0, 0));
    world.spawn(agent_at(0, 0));
    let answer = vec![
        Point::new(UNIT, 0, 0),
        Point::new(2 * UNIT, 0, UNIT),
        Point::new(3 * UNIT, 0, 3 * UNIT),
    ];
    let request = FindPathEvent::new(Point::new(0, 0, 0), Point::new(3 * UNIT, 0, 3 * UNIT), 1);
    assert_eq!(find_path(&mut world, &request, Some(answer.clone())), None);
    assert_eq!(
        path_of(&world, 1),
        Some(vec![
            Point::new(3 * UNIT, 0, 3 * UNIT),
            Point::new(2 * UNIT, 0, UNIT),
            Point::new(UNIT, 0, 0),
        ])
    );
    assert_eq!(path_of(&world, 0), None);
    assert_eq!(world.agents[1].destination, None);
    assert_eq!(world.agents[1].translation, Point::new(0, 0, 0));
}

#[test]
fn reversed_turns_a_path_round() {
    let a = Point::new(1, 0, 0);
    let b = Point::new(2, 0, 0);
    let c = Point::new(3, 0, 0);
    assert_eq!(reversed(&vec![a, b, c]), vec![c, b, a]);
    assert_eq!(reversed(&vec![a]), vec![a]);
    assert_eq!(reversed(&Vec::new()), Vec::<Point>::new());
    assert_eq!(reversed(&vec![a, b]), vec![b, a]);
}

#[test]
fn a_new_path_takes_the_place_of_the_old() {
    let mut world = World::new();
    world.spawn(agent_at(0, 0));
    let request = FindPathEvent::new(Point::new(0, 0, 0), Point::new(9, 0, 9), 0);
    find_path(&mut world, &request, Some(vec![Point::new(1, 0, 0), Point::new(2, 0, 0)]));
    find_path(&mut world, &request, Some(vec![Point::new(7, 0, 0)]));
    assert_eq!(path_of(&world, 0), Some(vec![Point::new(7, 0, 0)]));
    find_path(&mut world, &request, Some(Vec::new()));
    assert_eq!(path_of(&world, 0), Some(Vec::new()));
}

#[test]
fn no_path_is_said_out_loud() {
    let mut world = World::new();
    world.spawn(agent_at(0, 0));
    world.agents[0].path = Some(EntityPath::new(vec![Point::new(1, 0, 0)]));
    let request = FindPathEvent::new(Point::new(0, 0, 0), Point::new(9, 0, 9), 0);
    assert_eq!(
        find_path(&mut world, &request, None),
        Some(NoPathFoundEvent { entity: 0 })
    );
    // nothing else changes, a path held before included
    assert_eq!(path_of(&world, 0), Some(vec![Point::new(1, 0, 0)]));
    let request = FindPathEvent::new(Point::new(0, 0, 0), Point::new(9, 0, 9), 17);
    assert_eq!(
        find_path(&mut world, &request, None),
        Some(NoPathFoundEvent { entity: 17 })
    );
}

#[test]
fn a_path_for_no_one_is_dropped() {
    let mut world = World::new();
    world.spawn(agent_at(0, 0));
    let request = FindPathEvent::new(Point::new(0, 0, 0), Point::new(9, 0, 9), 1);
    assert_eq!(find_path(&mut world, &request, Some(vec![Point::new(1, 0, 0)])), None);
    assert_eq!(world.len(), 1);
    assert_eq!(path_of(&world, 0), None);
}

#[test]
fn traverse_hands_over_one_waypoint_at_a_time() {
    let mut world = World::new();
    world.spawn(agent_at(0, 0));
    let a = Point::new(UNIT, 0, 0);
    let b = Point::new(2 * UNIT, 0, 0);
    let request = FindPathEvent::new(Point::new(0, 0, 0), b, 0);
    find_path(&mut world, &request, Some(vec![a, b]));
    traverse_path(&mut world);
    assert_eq!(world.agents[0].destination, Some(Destination::new(a)));
    assert_eq!(path_of(&world, 0), Some(vec![b]));
    // in transit: nothing is handed over
    traverse_path(&mut world);
    traverse_path(&mut world);
    assert_eq!(world.agents[0].destination, Some(Destination::new(a)));
    assert_eq!(path_of(&world, 0), Some(vec![b]));
    on_arrive(&mut world, &ArrivedEvent { entity: 0 });
    traverse_path(&mut world);
    assert_eq!(world.agents[0].destination, Some(Destination::new(b)));
    assert_eq!(path_of(&world, 0), Some(Vec::new()));
    on_arrive(&mut world, &ArrivedEvent { entity: 0 });
    // the path is used up: it is taken away, and no destination is made up
    traverse_path(&mut world);
    assert_eq!(world.agents[0].destination, None);
    assert_eq!(path_of(&world, 0), None);
    traverse_path(&mut world);
    assert_eq!(world.agents[0].destination, None);
    assert_eq!(path_of(&world, 0), None);
}

#[test]
fn traverse_leaves_agents_without_a_path_alone() {
    let mut world = World::new();
    world.spawn(agent_at(0, 0));
    world.spawn(agent_at(5, 5));
    world.agents[1].destination = Some(Destination::new(Point::new(1, 1, 1)));
    traverse_path(&mut world);
    assert_eq!(world.agents[0].destination, None);
    assert_eq!(path_of(&world, 0), None);
    assert_eq!(
        world.agents[1].destination,
        Some(Destination::new(Point::new(1, 1, 1)))
    );
}

#[test]
fn waypoints_are_walked_in_the_order_the_mesh_gave_them() {
    let from = Point::new(-3 * UNIT, 0, 2 * UNIT);
    let to = Point::new(4 * UNIT, 0, -5 * UNIT);
    let answer = open_mesh(from, to).unwrap();
    assert!(answer.len() > 5);
    assert_eq!(*answer.last().unwrap(), to);
    let mut world = World::new();
    world.spawn(agent_at(from.x, from.z));
    let request = FindPathEvent::new(from, to, 0);
    assert_eq!(find_path(&mut world, &request, Some(answer.clone())), None);
    // held with the target first and the waypoint next to the start last
    let held = path_of(&world, 0).unwrap();
    assert_eq!(held[0], to);
    assert_eq!(*held.last().unwrap(), answer[0]);
    let mut visited = Vec::new();
    let mut left = from.distance_squared(&to);
    loop {
        traverse_path(&mut world);
        match world.agents[0].destination {
            Some(destination) => {
                // each waypoint is nearer to the target than the one before
                let d = destination.value.distance_squared(&to);
                assert!(d < left);
                left = d;
                visited.push(destination.value);
                world.agents[0].translation = destination.value;
                on_arrive(&mut world, &ArrivedEvent { entity: 0 });
            }
            None => break,
        }
    }
    assert_eq!(visited, answer);
    assert_eq!(left, 0);
    assert_eq!(path_of(&world, 0), None);
}
