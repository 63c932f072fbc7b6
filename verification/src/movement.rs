//! Steering: an agent with a destination first turns in place until it
//! faces the destination, then walks straight toward it, and arrives once it
//! is within the arrival distance.

use crate::math::Point;
use crate::time_control::{accrue, accrued, TimeController};
use crate::world::{Agent, AgentView, World};
use vstd::prelude::*;

verus! {

/// A full turn, in millionths of a degree. Yaws lie in `0..FULL_TURN`.
pub const FULL_TURN: u32 = 360_000_000;

pub const HALF_TURN: u32 = 180_000_000;

/// The fastest an agent turns, in millionths of a degree per simulated second.
pub const MAX_TURN_RATE: u64 = 328_280_635;

/// An agent that is off its heading by no more than this counts as facing it.
pub const FACING_TOLERANCE: u32 = 1_145_920;

/// An agent whose squared distance to its destination is no more than this
/// has arrived: one world unit, squared.
pub const ARRIVAL_DIST_SQ: u128 = 1_000_000_000_000;

/// The yaw in `0..FULL_TURN` that points the same way as `angle`.
pub open spec fn wrapped(angle: int) -> int {
    angle % 360_000_000
}

/// The counter-clockwise arc from `from` to `to`, in `0..FULL_TURN`.
pub open spec fn arc(from: int, to: int) -> int {
    wrapped(to - from)
}

/// The angle between two yaws, the short way round: at most a half turn.
pub open spec fn angular_distance(a: int, b: int) -> int {
    if arc(a, b) <= HALF_TURN {
        arc(a, b)
    } else {
        FULL_TURN - arc(a, b)
    }
}

/// The yaw reached from `current` by turning toward `target` the short way
/// round by at most `max_step`. A target exactly opposite is reached
/// counter-clockwise.
pub open spec fn turned_towards(current: int, target: int, max_step: nat) -> int {
    if max_step >= angular_distance(current, target) {
        wrapped(target)
    } else if arc(current, target) <= HALF_TURN {
        wrapped(current + max_step)
    } else {
        wrapped(current - max_step)
    }
}

/// The yaw of an agent that faces along `bearing`. The model's forward axis
/// points opposite to the direction it looks at, so this is `bearing` plus a
/// half turn.
pub open spec fn facing_yaw(bearing: int) -> int {
    wrapped(bearing + HALF_TURN)
}

/// A number that is `turns` full turns and a yaw wraps to that yaw.
pub proof fn lemma_wrapped(angle: int, turns: int, yaw: int)
    requires
        angle == turns * FULL_TURN + yaw,
        0 <= yaw < FULL_TURN,
    ensures
        wrapped(angle) == yaw,
{
    vstd::arithmetic::div_mod::lemma_fundamental_div_mod_converse(
        angle,
        FULL_TURN as int,
        turns,
        yaw,
    );
}

/// The arc between two angles is the arc between the yaws they wrap to.
pub proof fn lemma_arc(from: int, to: int)
    ensures
        arc(from, to) == if wrapped(to) >= wrapped(from) {
            wrapped(to) - wrapped(from)
        } else {
            FULL_TURN - (wrapped(from) - wrapped(to))
        },
        0 <= arc(from, to) < FULL_TURN,
        0 <= wrapped(from) < FULL_TURN,
        0 <= wrapped(to) < FULL_TURN,
        arc(wrapped(from), wrapped(to)) == arc(from, to),
        arc(wrapped(from), to) == arc(from, to),
        arc(from, wrapped(to)) == arc(from, to),
{
    let f = wrapped(from);
    let t = wrapped(to);
    let qf = from / (FULL_TURN as int);
    let qt = to / (FULL_TURN as int);
    assert(from == qf * FULL_TURN + f && to == qt * FULL_TURN + t) by {
        vstd::arithmetic::div_mod::lemma_fundamental_div_mod(from, FULL_TURN as int);
        vstd::arithmetic::div_mod::lemma_fundamental_div_mod(to, FULL_TURN as int);
    }
    if t >= f {
        lemma_wrapped(to - from, qt - qf, t - f);
        lemma_wrapped(t - f, 0, t - f);
        lemma_wrapped(to - f, qt, t - f);
        lemma_wrapped(t - from, -qf, t - f);
    } else {
        lemma_wrapped(to - from, qt - qf - 1, FULL_TURN - (f - t));
        lemma_wrapped(t - f, -1, FULL_TURN - (f - t));
        lemma_wrapped(to - f, qt - 1, FULL_TURN - (f - t));
        lemma_wrapped(t - from, -qf - 1, FULL_TURN - (f - t));
    }
}

/// Turning toward a target by less than the angle to it leaves that angle
/// less the turn; turning by the whole angle or more ends on the target.
pub proof fn lemma_turned_towards(current: int, target: int, max_step: nat)
    ensures
        0 <= turned_towards(current, target, max_step) < FULL_TURN,
        0 <= angular_distance(current, target) <= HALF_TURN,
        angular_distance(turned_towards(current, target, max_step), target) == if max_step
            >= angular_distance(current, target) {
            0
        } else {
            angular_distance(current, target) - max_step
        },
        turned_towards(current, target, max_step) == if max_step >= angular_distance(
            current,
            target,
        ) {
            wrapped(target)
        } else if arc(current, target) <= HALF_TURN {
            wrapped(wrapped(current) + max_step)
        } else if wrapped(current) >= max_step {
            wrapped(current) - max_step
        } else {
            FULL_TURN - (max_step - wrapped(current))
        },
{
    lemma_arc(current, target);
    let f = wrapped(current);
    let t = wrapped(target);
    let qf = current / (FULL_TURN as int);
    vstd::arithmetic::div_mod::lemma_fundamental_div_mod(current, FULL_TURN as int);
    let ahead = arc(current, target);
    let reached = turned_towards(current, target, max_step);
    if max_step >= angular_distance(current, target) {
        lemma_arc(t, target);
        lemma_wrapped(t, 0, t);
    } else if ahead <= HALF_TURN {
        let sum = f + max_step;
        let landed = if sum >= FULL_TURN {
            sum - FULL_TURN
        } else {
            sum
        };
        lemma_wrapped(
            current + max_step,
            if sum >= FULL_TURN {
                qf + 1
            } else {
                qf
            },
            landed,
        );
        lemma_wrapped(
            sum,
            if sum >= FULL_TURN {
                1
            } else {
                0
            },
            landed,
        );
        lemma_arc(landed, target);
        lemma_wrapped(landed, 0, landed);
    } else {
        let landed = if f >= max_step {
            f - max_step
        } else {
            FULL_TURN - (max_step - f)
        };
        lemma_wrapped(
            current - max_step,
            if f >= max_step {
                qf
            } else {
                qf - 1
            },
            landed,
        );
        lemma_arc(landed, target);
        lemma_wrapped(landed, 0, landed);
    }
}

/// The angle between two yaws, the short way round.
pub fn yaw_distance(a: u32, b: u32) -> (distance: u32)
    ensures
        distance == angular_distance(a as int, b as int),
        distance <= HALF_TURN,
{
    let from: u32 = a % FULL_TURN;
    let to: u32 = b % FULL_TURN;
    proof {
        lemma_arc(a as int, b as int);
    }
    let ahead: u32 = if to >= from {
        to - from
    } else {
        FULL_TURN - (from - to)
    };
    if ahead <= HALF_TURN {
        ahead
    } else {
        FULL_TURN - ahead
    }
}

/// Turns from `current` toward `target` the short way round by at most
/// `max_step`. The angle that is left is the angle there was less `max_step`,
/// or nothing.
pub fn rotate_towards(current: u32, target: u32, max_step: u64) -> (yaw: u32)
    ensures
        yaw == turned_towards(current as int, target as int, max_step as nat),
        yaw < FULL_TURN,
        angular_distance(yaw as int, target as int) == if max_step >= angular_distance(
            current as int,
            target as int,
        ) {
            0
        } else {
            angular_distance(current as int, target as int) - max_step
        },
{
    let from: u32 = current % FULL_TURN;
    let to: u32 = target % FULL_TURN;
    proof {
        lemma_arc(current as int, target as int);
        lemma_turned_towards(current as int, target as int, max_step as nat);
    }
    let ahead: u32 = if to >= from {
        to - from
    } else {
        FULL_TURN - (from - to)
    };
    if ahead <= HALF_TURN {
        if max_step >= ahead as u64 {
            to
        } else {
            (from + max_step as u32) % FULL_TURN
        }
    } else {
        let behind: u32 = FULL_TURN - ahead;
        if max_step >= behind as u64 {
            to
        } else if from >= max_step as u32 {
            from - max_step as u32
        } else {
            FULL_TURN - (max_step as u32 - from)
        }
    }
}

/// The yaw of an agent that faces along `bearing`.
pub fn face(bearing: u32) -> (yaw: u32)
    ensures
        yaw == facing_yaw(bearing as int),
        yaw < FULL_TURN,
{
    (bearing % FULL_TURN + HALF_TURN) % FULL_TURN
}

/// The point that an agent is on its way to.
#[derive(Clone, Copy, PartialEq, Eq, Debug, Structural)]
pub struct Destination {
    pub value: Point,
}

impl Destination {
    pub fn new(value: Point) -> (destination: Destination)
        ensures
            destination.value == value,
    {
        Destination { value }
    }
}

/// How fast an agent walks, in millionths of a world unit per simulated second.
#[derive(Clone, Copy, PartialEq, Eq, Debug, Structural)]
pub struct Speed {
    pub value: u64,
}

impl Speed {
    pub fn new(value: u64) -> (speed: Speed)
        ensures
            speed.value == value,
    {
        Speed { value }
    }
}

/// Says that an agent has reached its destination.
#[derive(Clone, Copy, PartialEq, Eq, Debug, Structural)]
pub struct ArrivedEvent {
    pub entity: usize,
}

/// What one tick of steering does to an agent that has a destination.
#[derive(Clone, Copy, PartialEq, Eq, Debug, Structural)]
pub enum Steering {
    /// The agent is within the arrival distance; it neither turns nor moves.
    Arrived,
    /// The agent turns in place to this yaw.
    Turned(u32),
    /// The agent faces its destination and walks to this point.
    Moved(Point),
}

/// What one tick of `scaled_delta` simulated microseconds does to an agent at
/// `translation` with heading `yaw` that walks at `speed` toward
/// `destination`, which lies along `bearing`.
pub open spec fn steering_outcome(
    translation: Point,
    yaw: int,
    speed: nat,
    destination: Point,
    bearing: int,
    scaled_delta: nat,
) -> Steering {
    if translation.dist_sq(destination) <= ARRIVAL_DIST_SQ {
        Steering::Arrived
    } else if angular_distance(yaw, facing_yaw(bearing)) > FACING_TOLERANCE {
        Steering::Turned(
            turned_towards(yaw, facing_yaw(bearing), accrued(MAX_TURN_RATE as nat, scaled_delta)) as u32,
        )
    } else {
        Steering::Moved(translation.moved_towards(destination, accrued(speed, scaled_delta)))
    }
}

/// The largest `u64`, or `amount` if that is smaller.
pub fn clamp_to_u64(amount: u128) -> (clamped: u64)
    ensures
        clamped == if amount > u64::MAX {
            u64::MAX as u128
        } else {
            amount
        },
{
    if amount > u64::MAX as u128 {
        u64::MAX
    } else {
        amount as u64
    }
}

/// Decides one tick of steering. Beyond the arrival distance the agent turns
/// toward the facing yaw while it is off by more than the tolerance, at the
/// maximum turn rate; once it faces its destination it walks toward it at its
/// speed and never past it.
pub fn steer(
    translation: &Point,
    yaw: u32,
    speed: &Speed,
    destination: &Destination,
    bearing: u32,
    scaled_delta: u64,
) -> (outcome: Steering)
    ensures
        outcome == steering_outcome(
            *translation,
            yaw as int,
            speed.value as nat,
            destination.value,
            bearing as int,
            scaled_delta as nat,
        ),
        outcome matches Steering::Moved(reached) ==> reached.dist_sq(destination.value)
            <= translation.dist_sq(destination.value),
        outcome matches Steering::Turned(turned) ==> turned < FULL_TURN,
{
    if translation.distance_squared(&destination.value) <= ARRIVAL_DIST_SQ {
        return Steering::Arrived;
    }
    let facing: u32 = face(bearing);
    if yaw_distance(yaw, facing) > FACING_TOLERANCE {
        let turn: u64 = clamp_to_u64(accrue(MAX_TURN_RATE, scaled_delta));
        Steering::Turned(rotate_towards(yaw, facing, turn))
    } else {
        let stride: u128 = accrue(speed.value, scaled_delta);
        proof {
            if stride > u64::MAX {
                lemma_long_stride_reaches(*translation, destination.value, stride as nat);
            }
        }
        Steering::Moved(translation.move_towards(&destination.value, clamp_to_u64(stride)))
    }
}

/// A stride too long for a `u64` reaches any point of the world, as the
/// longest stride that a `u64` holds does.
pub proof fn lemma_long_stride_reaches(from: Point, target: Point, stride: nat)
    requires
        stride > u64::MAX,
    ensures
        from.moved_towards(target, stride) == target,
        from.moved_towards(target, u64::MAX as nat) == target,
{
    crate::math::lemma_square_of_gap(from.x as int, target.x as int);
    crate::math::lemma_square_of_gap(from.y as int, target.y as int);
    crate::math::lemma_square_of_gap(from.z as int, target.z as int);
    assert(0xffff_ffff_ffff_ffff * 0xffff_ffff_ffff_ffff <= stride * stride) by (nonlinear_arith)
        requires
            stride > 0xffff_ffff_ffff_ffff,
    ;
}

impl AgentView {
    /// What one tick of steering does to the agent; `None` for an agent that
    /// has no destination, which is not steered at all.
    pub open spec fn steering(self, bearing: int, scaled_delta: nat) -> Option<Steering> {
        match self.destination {
            Some(destination) => Some(
                steering_outcome(
                    self.translation,
                    self.yaw as int,
                    self.speed.value as nat,
                    destination.value,
                    bearing,
                    scaled_delta,
                ),
            ),
            None => None,
        }
    }

    /// The agent after one tick of steering: turned, moved, or as it was.
    pub open spec fn steered(self, bearing: int, scaled_delta: nat) -> AgentView {
        match self.steering(bearing, scaled_delta) {
            Some(Steering::Turned(yaw)) => AgentView { yaw, ..self },
            Some(Steering::Moved(translation)) => AgentView { translation, ..self },
            _ => self,
        }
    }

    /// The agent once its arrival has been dealt with: it has no destination.
    pub open spec fn arrived(self) -> AgentView {
        AgentView { destination: None, ..self }
    }
}

impl Agent {
    /// Steers the agent for one tick of `scaled_delta` simulated microseconds;
    /// `bearing` is the yaw along which its destination lies. Returns whether
    /// the agent is within the arrival distance of its destination.
    pub fn steer(&mut self, bearing: u32, scaled_delta: u64) -> (arrived: bool)
        ensures
            final(self)@ == old(self)@.steered(bearing as int, scaled_delta as nat),
            arrived == (old(self)@.steering(bearing as int, scaled_delta as nat) == Some(
                Steering::Arrived,
            )),
    {
        match self.destination {
            Some(destination) => {
                match steer(
                    &self.translation,
                    self.yaw,
                    &self.speed,
                    &destination,
                    bearing,
                    scaled_delta,
                ) {
                    Steering::Arrived => true,
                    Steering::Turned(yaw) => {
                        self.yaw = yaw;
                        false
                    },
                    Steering::Moved(translation) => {
                        self.translation = translation;
                        false
                    },
                }
            },
            None => false,
        }
    }
}

/// Steers the agent `entity` for the tick that the clock last made; `bearing`
/// is the yaw along which its destination lies. An agent without a
/// destination, and an index that names no agent, are left alone.
///
/// Beyond the arrival distance the agent turns in place until it faces its
/// destination and only then walks, never past the destination. Within it the
/// agent stays as it is, and the event that says that it has arrived is
/// returned: that, and nothing else, is when one is.
pub fn update_position(
    world: &mut World,
    entity: usize,
    bearing: u32,
    time_controller: &TimeController,
) -> (arrival: Option<ArrivedEvent>)
    ensures
        entity < old(world)@.len() ==> final(world)@ == old(world)@.update(
            entity as int,
            old(world)@[entity as int].steered(bearing as int, time_controller@.scaled_delta),
        ),
        entity >= old(world)@.len() ==> final(world)@ == old(world)@,
        arrival == if entity < old(world)@.len() && old(world)@[entity as int].steering(
            bearing as int,
            time_controller@.scaled_delta,
        ) == Some(Steering::Arrived) {
            Some(ArrivedEvent { entity })
        } else {
            None
        },
{
    if entity >= world.agents.len() {
        return None;
    }
    let arrived: bool = world.agents[entity].steer(bearing, time_controller.scaled_delta());
    if arrived {
        Some(ArrivedEvent { entity })
    } else {
        None
    }
}

/// Deals with an arrival: the agent that has arrived loses its destination.
/// An event for an index that names no agent changes nothing.
pub fn on_arrive(world: &mut World, event: &ArrivedEvent)
    ensures
        final(world)@ == if event.entity < old(world)@.len() {
            old(world)@.update(event.entity as int, old(world)@[event.entity as int].arrived())
        } else {
            old(world)@
        },
{
    if event.entity < world.agents.len() {
        world.agents[event.entity].destination = None;
    }
}

/// An arrival is signalled once. The tick that finds the agent within the
/// arrival distance leaves it as it is; once the arrival has been dealt with,
/// steering the agent again, on whatever bearing and for however long,
/// signals nothing and changes nothing.
pub proof fn lemma_arrival_fires_once(
    agent: AgentView,
    bearing: int,
    scaled_delta: nat,
    again_bearing: int,
    again_delta: nat,
)
    requires
        agent.steering(bearing, scaled_delta) == Some(Steering::Arrived),
    ensures
        agent.steered(bearing, scaled_delta) == agent,
        agent.arrived().steering(again_bearing, again_delta) is None,
        agent.arrived().steered(again_bearing, again_delta) == agent.arrived(),
{
}

/// Whether an agent has arrived depends on where it stands and where it is
/// going, not on the bearing, the tick or its speed: it has exactly when its
/// squared distance to the destination is within the arrival distance.
pub proof fn lemma_arrival_is_by_distance(agent: AgentView, bearing: int, scaled_delta: nat)
    ensures
        agent.steering(bearing, scaled_delta) == Some(Steering::Arrived) <==> (agent.destination
            is Some && agent.translation.dist_sq(agent.destination->0.value) <= ARRIVAL_DIST_SQ),
{
}

} // verus!
