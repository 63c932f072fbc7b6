//! What animals do beyond following their goals: they back away from an
//! obstacle when no path can be found, and wander off to a random place when
//! told to.

use crate::math::{floor_sqrt, gap, isqrt, spec_gap, Point};
use crate::movement::Destination;
use crate::navigation::{FindPathEvent, NoPathFoundEvent, PathPlanner};
use crate::vegetation::{nearest_within, within_dist_sqrd_of_transforms};
use crate::world::{Agent, AgentView, World};
use rand::Rng;
use vstd::prelude::*;

verus! {

/// How far from where it stands a stuck animal is sent: 1.5 world units.
pub const STANDOFF_DIST: u64 = 1_500_000;

/// An animal is stuck on an obstacle whose squared distance to it is less
/// than this: half a square world unit.
pub const STUCK_DIST_SQ: u128 = 500_000_000_000;

/// Animals wander to points whose horizontal coordinates are at least
/// `-WANDER_RANGE` and less than `WANDER_RANGE`: twenty world units.
pub const WANDER_RANGE: i32 = 20_000_000;

/// The coordinate in the range of `i32` that is nearest to `value`.
pub open spec fn clamped(value: int) -> int {
    if value < i32::MIN {
        i32::MIN as int
    } else if value > i32::MAX {
        i32::MAX as int
    } else {
        value
    }
}

/// One coordinate of the place to escape to: from `from`, on the side away
/// from `obstacle`, as far as that coordinate's share of the standoff
/// distance, `len` being the distance between the two in the plane.
pub open spec fn fled(from: int, obstacle: int, len: nat) -> int {
    let offset = (spec_gap(from, obstacle) * STANDOFF_DIST) / (len as int);
    if from >= obstacle {
        clamped(from + offset)
    } else {
        clamped(from - offset)
    }
}

/// The place to escape to from `from`, straight away from `obstacle` in the
/// horizontal plane and at the height of `from`. There is none where the two
/// stand at the same place in the plane, for want of a direction.
pub open spec fn escape_from(from: Point, obstacle: Point) -> Option<Point> {
    if from.x == obstacle.x && from.z == obstacle.z {
        None
    } else {
        let len = floor_sqrt(from.planar_dist_sq(obstacle));
        Some(
            Point {
                x: fled(from.x as int, obstacle.x as int, len) as i32,
                y: from.y,
                z: fled(from.z as int, obstacle.z as int, len) as i32,
            },
        )
    }
}

/// One coordinate of the place to escape to.
fn flee_coordinate(from: i32, obstacle: i32, len: u64) -> (to: i32)
    requires
        len > 0,
        spec_gap(from as int, obstacle as int) <= len,
    ensures
        to == fled(from as int, obstacle as int, len as nat),
        from >= obstacle ==> from <= to <= from + STANDOFF_DIST,
        from < obstacle ==> from - STANDOFF_DIST <= to <= from,
{
    let g: u64 = gap(from, obstacle);
    assert(g * STANDOFF_DIST <= 0xffff_ffff * 1_500_000) by (nonlinear_arith)
        requires
            g <= 0xffff_ffff,
            STANDOFF_DIST == 1_500_000,
    ;
    let offset: u64 = g * STANDOFF_DIST / len;
    assert(0 <= (g * STANDOFF_DIST) / (len as int) <= STANDOFF_DIST) by (nonlinear_arith)
        requires
            0 <= g <= len,
            0 < len,
            STANDOFF_DIST == 1_500_000,
    ;
    let to: i64 = if from >= obstacle {
        from as i64 + offset as i64
    } else {
        from as i64 - offset as i64
    };
    if to < i32::MIN as i64 {
        i32::MIN
    } else if to > i32::MAX as i64 {
        i32::MAX
    } else {
        to as i32
    }
}

/// The place to escape to from `from`, straight away from `obstacle`. It lies
/// at the height of `from`, on the far side of `from` as seen from the
/// obstacle, and in neither horizontal coordinate farther from `from` than
/// the standoff distance.
pub fn escape(from: &Point, obstacle: &Point) -> (target: Option<Point>)
    ensures
        target == escape_from(*from, *obstacle),
        target matches Some(to) ==> {
            &&& to.y == from.y
            &&& from.x >= obstacle.x ==> from.x <= to.x <= from.x + STANDOFF_DIST
            &&& from.x < obstacle.x ==> from.x - STANDOFF_DIST <= to.x <= from.x
            &&& from.z >= obstacle.z ==> from.z <= to.z <= from.z + STANDOFF_DIST
            &&& from.z < obstacle.z ==> from.z - STANDOFF_DIST <= to.z <= from.z
        },
{
    if from.x == obstacle.x && from.z == obstacle.z {
        return None;
    }
    let dx: u128 = gap(from.x, obstacle.x) as u128;
    let dz: u128 = gap(from.z, obstacle.z) as u128;
    proof {
        crate::math::lemma_square_of_gap(from.x as int, obstacle.x as int);
        crate::math::lemma_square_of_gap(from.z as int, obstacle.z as int);
    }
    let planar: u128 = dx * dx + dz * dz;
    let len: u64 = isqrt(planar);
    proof {
        assert(0 <= dz * dz) by (nonlinear_arith);
        assert(0 <= dx * dx) by (nonlinear_arith);
        crate::math::lemma_floor_sqrt_is_largest(planar as nat, dx as nat);
        crate::math::lemma_floor_sqrt_is_largest(planar as nat, dz as nat);
        assert(planar > 0) by (nonlinear_arith)
            requires
                planar == dx * dx + dz * dz,
                dx > 0 || dz > 0,
                dx >= 0,
                dz >= 0,
        ;
        crate::math::lemma_floor_sqrt_positive(planar as nat);
    }
    Some(
        Point {
            x: flee_coordinate(from.x, obstacle.x, len),
            y: from.y,
            z: flee_coordinate(from.z, obstacle.z, len),
        },
    )
}

impl AgentView {
    /// The agent after it has been told that no path was found for it. An
    /// agent that is not in transit and stands within the stuck distance of
    /// an obstacle is sent straight away from the nearest one; any other
    /// agent is left alone.
    pub open spec fn unstuck(self, obstacles: Seq<Point>) -> AgentView {
        if self.destination is Some {
            self
        } else {
            match nearest_within(STUCK_DIST_SQ as nat, obstacles, self.translation) {
                Some(obstacle) => match escape_from(self.translation, obstacle) {
                    Some(target) => AgentView {
                        destination: Some(Destination { value: target }),
                        ..self
                    },
                    None => self,
                },
                None => self,
            }
        }
    }

    /// Whether the agent neither is in transit nor has a path.
    pub open spec fn is_idle(self) -> bool {
        self.destination is None && self.path is None
    }
}

impl Agent {
    /// Reacts to the news that no path was found for the agent.
    pub fn unstick(&mut self, obstacles: &Vec<Point>)
        ensures
            final(self)@ == old(self)@.unstuck(obstacles@),
    {
        if self.destination.is_some() {
            return ;
        }
        match within_dist_sqrd_of_transforms(STUCK_DIST_SQ, obstacles, &self.translation) {
            Some(obstacle) => {
                match escape(&self.translation, &obstacle) {
                    Some(target) => {
                        self.destination = Some(Destination::new(target));
                    },
                    None => {},
                }
            },
            None => {},
        }
    }

    /// Whether the agent neither is in transit nor has a path.
    pub fn idle(&self) -> (idle: bool)
        ensures
            idle == self@.is_idle(),
    {
        self.destination.is_none() && self.path.is_none()
    }

    /// The request for a path from where the agent stands to the point on
    /// the ground with horizontal coordinates `x` and `z`.
    pub fn wander_request(&self, entity: usize, x: i32, z: i32) -> (request: FindPathEvent)
        ensures
            request == (FindPathEvent {
                from_point: self@.translation,
                to_point: Point { x, y: 0, z },
                entity,
            }),
    {
        FindPathEvent::new(self.translation, Point::new(x, 0, z), entity)
    }
}

/// Reacts to the news that no path was found for an agent: if the agent is
/// not in transit and stands within the stuck distance of one of
/// `obstacles`, it is given a destination straight away from the nearest.
/// News of an agent that does not exist changes nothing.
pub fn unstuck_animals(world: &mut World, event: &NoPathFoundEvent, obstacles: &Vec<Point>)
    ensures
        final(world)@ == if event.entity < old(world)@.len() {
            old(world)@.update(
                event.entity as int,
                old(world)@[event.entity as int].unstuck(obstacles@),
            )
        } else {
            old(world)@
        },
{
    if event.entity < world.agents.len() {
        world.agents[event.entity].unstick(obstacles);
    }
}

/// The indices of the idle agents among the first `upto`, in rising order.
pub open spec fn idle_agents(agents: Seq<AgentView>, upto: int) -> Seq<int>
    decreases upto,
{
    if upto <= 0 {
        Seq::empty()
    } else {
        let before = idle_agents(agents, upto - 1);
        if agents[upto - 1].is_idle() {
            before.push(upto - 1)
        } else {
            before
        }
    }
}

/// Whether `request` asks for a path for `entity` from where that agent
/// stands to a point on the ground within the wander range.
pub open spec fn is_wander_request(
    request: FindPathEvent,
    agents: Seq<AgentView>,
    entity: int,
) -> bool {
    &&& request.entity == entity
    &&& request.from_point == agents[entity].translation
    &&& request.to_point.y == 0
    &&& -WANDER_RANGE <= request.to_point.x < WANDER_RANGE
    &&& -WANDER_RANGE <= request.to_point.z < WANDER_RANGE
}

/// A random number that is at least `low` and less than `high`.
///
/// This is `random_range` of the crate `rand`, on the generator that `rng`
/// hands out, for the half-open range from `low` to `high`. It is taken on
/// trust that the number lies in that range; which number it is, is left open.
/// The range must not be empty, since `random_range` panics on an empty one.
#[verifier::external_body]
fn random_coordinate(low: i32, high: i32) -> (value: i32)
    requires
        low < high,
    ensures
        low <= value < high,
{
    rand::rng().random_range(low..high)
}

/// Sends every idle agent to a random place: for each agent that neither is
/// in transit nor has a path, a request for a path from where it stands to a
/// random point on the ground within the wander range is queued with the
/// planner, in the order of the agents, behind the requests that wait there
/// already.
pub fn goto_random(world: &World, planner: &mut PathPlanner)
    ensures
        final(planner)@.len() == old(planner)@.len() + idle_agents(
            world@,
            world@.len() as int,
        ).len(),
        final(planner)@.subrange(0, old(planner)@.len() as int) == old(planner)@,
        forall|k: int|
            0 <= k < idle_agents(world@, world@.len() as int).len() ==> is_wander_request(
                #[trigger] final(planner)@[old(planner)@.len() + k],
                world@,
                idle_agents(world@, world@.len() as int)[k],
            ),
{
    let n: usize = world.agents.len();
    let mut i: usize = 0;
    while i < n
        invariant
            i <= n,
            n == world.agents@.len(),
            planner@.len() == old(planner)@.len() + idle_agents(world@, i as int).len(),
            planner@.subrange(0, old(planner)@.len() as int) == old(planner)@,
            forall|k: int|
                0 <= k < idle_agents(world@, i as int).len() ==> is_wander_request(
                    #[trigger] planner@[old(planner)@.len() + k],
                    world@,
                    idle_agents(world@, i as int)[k],
                ),
        decreases n - i,
    {
        if world.agents[i].idle() {
            let x: i32 = random_coordinate(-WANDER_RANGE, WANDER_RANGE);
            let z: i32 = random_coordinate(-WANDER_RANGE, WANDER_RANGE);
            let request: FindPathEvent = world.agents[i].wander_request(i, x, z);
            let ghost before = planner@;
            planner.request(request);
            assert(planner@.subrange(0, old(planner)@.len() as int) =~= before.subrange(
                0,
                old(planner)@.len() as int,
            ));
        }
        i = i + 1;
    }
}

} // verus!
