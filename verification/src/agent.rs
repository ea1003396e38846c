//! The agent and its two controllers: one turns it toward the target, the other
//! moves it along its heading.

use vstd::prelude::*;
use vstd::arithmetic::div_mod::lemma_fundamental_div_mod;
use vstd::arithmetic::mul::lemma_mul_is_associative;
use crate::fixed::SCALE;
use crate::fixed::clamp;
use crate::fixed::floor_div;
use crate::geometry::Direction;
use crate::geometry::Sighting;
use crate::geometry::Vec2;
use crate::geometry::Vector;
use crate::geometry::WORLD_LIMIT;

verus! {

/// An agent whose heading is less than this angle off the target counts as
/// aligned with it: a hundredth of a radian.
pub const ALIGN_TOLERANCE: u32 = 10_000;

/// The mathematical content of an agent.
pub struct AgentState {
    /// Where the agent is.
    pub position: Vector,
    /// The angle of its heading, counter-clockwise positive.
    pub orientation: int,
    /// Its speed along the heading.
    pub velocity: int,
    /// The speed it gains per second while it accelerates.
    pub max_acceleration: nat,
    /// The angle it can turn through per second.
    pub max_turn_rate: nat,
    /// Whether the last look at the target found the agent facing it.
    pub aligned: bool,
}

impl AgentState {
    /// What holds of every agent: it is inside the world, it does not move
    /// backward, and every quantity fits its machine word.
    pub open spec fn valid(self) -> bool {
        &&& self.position.in_world()
        &&& i64::MIN <= self.orientation <= i64::MAX
        &&& 0 <= self.velocity <= i64::MAX
        &&& self.max_acceleration <= u64::MAX
        &&& self.max_turn_rate <= u64::MAX
    }
}

/// The angle an agent may turn through in `dt`, rounded down.
pub open spec fn turn_budget(max_turn_rate: nat, dt: nat) -> int {
    (max_turn_rate * dt) as int / (SCALE as int)
}

/// The turn toward a target seen as `seen` at the unsigned angle `angle`: as far
/// as the rate allows but not past the target, clockwise (negative) unless the
/// target lies to the left.
pub open spec fn turn_toward(max_turn_rate: nat, seen: Sighting, angle: nat, dt: nat) -> int {
    let budget = turn_budget(max_turn_rate, dt);
    let size = if budget <= angle { budget } else { angle as int };
    if seen.right_dot >= 0 {
        -size
    } else {
        size
    }
}

/// The agent after the heading controller has run for `dt`. With nothing in sight,
/// or the target less than the tolerance off the heading, the agent is aligned and
/// keeps its orientation; else it is not aligned and turns toward the target.
pub open spec fn steered(a: AgentState, seen: Option<Sighting>, angle: nat, dt: nat) -> AgentState {
    match seen {
        Some(s) if angle >= ALIGN_TOLERANCE => AgentState {
            orientation: clamp(
                a.orientation + turn_toward(a.max_turn_rate, s, angle, dt),
                i64::MIN as int,
                i64::MAX as int,
            ),
            aligned: false,
            ..a
        },
        _ => AgentState { aligned: true, ..a },
    }
}

/// The speed an accelerating agent gains in `dt`, rounded down.
pub open spec fn speed_gain(max_acceleration: nat, dt: nat) -> int {
    (max_acceleration * dt) as int / (SCALE as int)
}

/// The speed after the speed controller has run for `dt`. An agent that is not
/// aligned gains speed. An aligned one gains and loses the same amount and is
/// stopped from going backward, so it keeps whatever forward speed it had. No
/// speed exceeds what the machine word holds.
pub open spec fn next_velocity(a: AgentState, dt: nat) -> int {
    let kept = if a.aligned {
        if a.velocity < 0 {
            0
        } else {
            a.velocity
        }
    } else {
        a.velocity + speed_gain(a.max_acceleration, dt)
    };
    if kept > i64::MAX {
        i64::MAX as int
    } else {
        kept
    }
}

/// The way made in `dt` at `velocity` along `forward`, each coordinate rounded
/// down.
pub open spec fn displacement(forward: Vector, velocity: int, dt: nat) -> Vector {
    Vector {
        x: forward.x * velocity * dt / (SCALE * SCALE),
        y: forward.y * velocity * dt / (SCALE * SCALE),
    }
}

/// The agent after the speed controller has run for `dt`: it has its next
/// velocity, and has moved at that velocity along `forward`, as far as the world
/// reaches.
pub open spec fn moved(a: AgentState, forward: Vector, dt: nat) -> AgentState {
    let velocity = next_velocity(a, dt);
    let way = displacement(forward, velocity, dt);
    AgentState {
        position: Vector {
            x: clamp(a.position.x + way.x, -WORLD_LIMIT as int, WORLD_LIMIT as int),
            y: clamp(a.position.y + way.y, -WORLD_LIMIT as int, WORLD_LIMIT as int),
        },
        velocity,
        ..a
    }
}

/// The agent after one tick: the heading controller, then the speed controller.
pub open spec fn ticked(
    a: AgentState,
    seen: Option<Sighting>,
    angle: nat,
    forward: Vector,
    dt: nat,
) -> AgentState {
    moved(steered(a, seen, angle, dt), forward, dt)
}

/// One simulated follower.
#[derive(Clone, Copy, Debug, PartialEq, Eq)]
pub struct Agent {
    position: Vec2,
    orientation: i64,
    velocity: i64,
    max_acceleration: u64,
    max_turn_rate: u64,
    aligned: bool,
}

impl View for Agent {
    type V = AgentState;

    closed spec fn view(&self) -> AgentState {
        AgentState {
            position: self.position@,
            orientation: self.orientation as int,
            velocity: self.velocity as int,
            max_acceleration: self.max_acceleration as nat,
            max_turn_rate: self.max_turn_rate as nat,
            aligned: self.aligned,
        }
    }
}

impl Agent {
    /// No agent moves backward.
    #[verifier::type_invariant]
    spec fn never_backward(self) -> bool {
        self.velocity >= 0
    }

    /// An agent at rest at `position`, with the given heading and limits. It
    /// counts as aligned until it first looks for a target.
    pub fn new(position: Vec2, orientation: i64, max_acceleration: u64, max_turn_rate: u64) -> (agent:
        Agent)
        ensures
            agent@ == (AgentState {
                position: position@,
                orientation: orientation as int,
                velocity: 0,
                max_acceleration: max_acceleration as nat,
                max_turn_rate: max_turn_rate as nat,
                aligned: true,
            }),
            agent@.valid(),
    {
        proof {
            use_type_invariant(&position);
        }
        Agent { position, orientation, velocity: 0, max_acceleration, max_turn_rate, aligned: true }
    }

    /// Where the agent is.
    pub fn position(&self) -> (position: Vec2)
        ensures
            position@ == self@.position,
    {
        self.position
    }

    /// The angle of its heading, counter-clockwise positive.
    pub fn orientation(&self) -> (orientation: i64)
        ensures
            orientation == self@.orientation,
    {
        self.orientation
    }

    /// Its speed along the heading, never negative.
    pub fn velocity(&self) -> (velocity: i64)
        ensures
            velocity == self@.velocity,
            velocity >= 0,
    {
        proof {
            use_type_invariant(self);
        }
        self.velocity
    }

    /// The speed it gains per second while it accelerates.
    pub fn max_acceleration(&self) -> (max_acceleration: u64)
        ensures
            max_acceleration == self@.max_acceleration,
    {
        self.max_acceleration
    }

    /// The angle it can turn through per second.
    pub fn max_turn_rate(&self) -> (max_turn_rate: u64)
        ensures
            max_turn_rate == self@.max_turn_rate,
    {
        self.max_turn_rate
    }

    /// Whether the heading controller last found the agent facing its target.
    pub fn aligned(&self) -> (aligned: bool)
        ensures
            aligned == self@.aligned,
    {
        self.aligned
    }
}

/// The budget of a turn is what the rate allows in the time, and not negative.
pub proof fn lemma_budget_within_rate(max_turn_rate: nat, dt: nat)
    ensures
        0 <= turn_budget(max_turn_rate, dt),
        turn_budget(max_turn_rate, dt) * SCALE <= max_turn_rate * dt,
{
    let product = (max_turn_rate * dt) as int;
    assert(0 <= product) by (nonlinear_arith)
        requires
            product == max_turn_rate * dt,
    ;
    lemma_fundamental_div_mod(product, SCALE as int);
}

/// The speed gained is never negative.
pub proof fn lemma_gain_is_not_negative(max_acceleration: nat, dt: nat)
    ensures
        speed_gain(max_acceleration, dt) >= 0,
{
    let product = (max_acceleration * dt) as int;
    assert(0 <= product) by (nonlinear_arith)
        requires
            product == max_acceleration * dt,
    ;
    lemma_fundamental_div_mod(product, SCALE as int);
}

/// In no time the heading controller changes nothing but, at most, whether the
/// agent is aligned.
pub proof fn lemma_steered_in_no_time(a: AgentState, seen: Option<Sighting>, angle: nat)
    requires
        a.valid(),
    ensures
        steered(a, seen, angle, 0) == (AgentState { aligned: steered(a, seen, angle, 0).aligned, ..a }),
{
    assert(a.max_turn_rate * 0 == 0) by (nonlinear_arith);
    assert(turn_budget(a.max_turn_rate, 0) == 0);
}

/// In no time the speed controller changes nothing.
pub proof fn lemma_moved_in_no_time(a: AgentState, forward: Vector)
    requires
        a.valid(),
    ensures
        moved(a, forward, 0) == a,
{
    assert(a.max_acceleration * 0 == 0) by (nonlinear_arith);
    assert(speed_gain(a.max_acceleration, 0) == 0);
    assert(next_velocity(a, 0) == a.velocity);
    assert(forward.x * a.velocity * 0 == 0) by (nonlinear_arith);
    assert(forward.y * a.velocity * 0 == 0) by (nonlinear_arith);
    assert(SCALE * SCALE == 1_000_000_000_000);
    assert(displacement(forward, a.velocity, 0) == Vector { x: 0, y: 0 });
}

/// The product of a rate and a time fits well inside 128 bits.
proof fn lemma_rate_times_time(rate: u64, dt: u32)
    ensures
        0 <= rate * dt <= 0xffff_ffff_ffff_ffff * 0xffff_ffff,
{
    assert(0 <= rate * dt <= 0xffff_ffff_ffff_ffff * 0xffff_ffff) by (nonlinear_arith)
        requires
            0 <= rate <= 0xffff_ffff_ffff_ffff,
            0 <= dt <= 0xffff_ffff,
    ;
}

/// The rule of the heading controller. It turns `agent` toward the target that it
/// sees as `seen`, at the unsigned angle `angle` off its heading, for the time
/// `dt`, and records whether the agent is aligned. `angle` is the angle whose
/// cosine is `seen.forward_dot`; it is not looked at when nothing is seen.
pub fn steer(agent: &mut Agent, seen: Option<Sighting>, angle: u32, dt: u32)
    ensures
        final(agent)@ == steered(old(agent)@, seen, angle as nat, dt as nat),
        final(agent)@.valid(),
        final(agent)@.aligned <==> (seen is None || angle < ALIGN_TOLERANCE),
        final(agent)@.aligned ==> final(agent)@.orientation == old(agent)@.orientation,
        ({
            let change = final(agent)@.orientation - old(agent)@.orientation;
            &&& -(old(agent)@.max_turn_rate * dt) <= change * SCALE <= old(agent)@.max_turn_rate
                * dt
            &&& -angle <= change <= angle
            &&& seen matches Some(s) ==> if s.right_dot >= 0 {
                change <= 0
            } else {
                change >= 0
            }
        }),
        dt == 0 ==> final(agent)@ == (AgentState {
            aligned: final(agent)@.aligned,
            ..old(agent)@
        }),
{
    proof {
        use_type_invariant(&*agent);
        use_type_invariant(&agent.position);
        lemma_budget_within_rate(agent.max_turn_rate as nat, dt as nat);
        if dt == 0 {
            lemma_steered_in_no_time(agent@, seen, angle as nat);
        }
    }
    let s: Sighting = match seen {
        None => {
            agent.aligned = true;
            return ;
        },
        Some(s) => s,
    };
    if angle < ALIGN_TOLERANCE {
        agent.aligned = true;
        return ;
    }
    agent.aligned = false;
    proof {
        lemma_rate_times_time(agent.max_turn_rate, dt);
    }
    let budget: u128 = (agent.max_turn_rate as u128 * dt as u128) / (SCALE as u128);
    let size: i128 = if budget <= angle as u128 {
        budget as i128
    } else {
        angle as i128
    };
    let turn: i128 = if s.right_dot >= 0 {
        -size
    } else {
        size
    };
    let turned: i128 = agent.orientation as i128 + turn;
    agent.orientation = if turned < i64::MIN as i128 {
        i64::MIN
    } else if turned > i64::MAX as i128 {
        i64::MAX
    } else {
        turned as i64
    };
}

/// The way made along one axis stays far inside 128 bits.
proof fn lemma_way_bound(component: int, velocity: int, dt: int)
    requires
        -SCALE <= component <= SCALE,
        0 <= velocity <= i64::MAX,
        0 <= dt <= u32::MAX,
    ensures
        0 <= velocity * dt <= 0x7fff_ffff_ffff_ffff * 0xffff_ffff,
        -SCALE * (0x7fff_ffff_ffff_ffff * 0xffff_ffff) <= component * (velocity * dt) <= SCALE * (
        0x7fff_ffff_ffff_ffff * 0xffff_ffff),
        component * (velocity * dt) == component * velocity * dt,
{
    let reach = velocity * dt;
    assert(0 <= reach <= 0x7fff_ffff_ffff_ffff * 0xffff_ffff) by (nonlinear_arith)
        requires
            reach == velocity * dt,
            0 <= velocity <= 0x7fff_ffff_ffff_ffff,
            0 <= dt <= 0xffff_ffff,
    ;
    assert(-SCALE * (0x7fff_ffff_ffff_ffff * 0xffff_ffff) <= component * reach <= SCALE * (
    0x7fff_ffff_ffff_ffff * 0xffff_ffff)) by (nonlinear_arith)
        requires
            -SCALE <= component <= SCALE,
            0 <= reach <= 0x7fff_ffff_ffff_ffff * 0xffff_ffff,
    ;
    lemma_mul_is_associative(component, velocity, dt);
}

/// The rule of the speed controller. It gives `agent` its next velocity and moves
/// it at that velocity along `forward` for the time `dt`.
pub fn advance(agent: &mut Agent, forward: &Direction, dt: u32)
    ensures
        final(agent)@ == moved(old(agent)@, forward@, dt as nat),
        final(agent)@.valid(),
        final(agent)@.velocity >= 0,
        old(agent)@.aligned ==> final(agent)@.velocity == old(agent)@.velocity,
        !old(agent)@.aligned ==> final(agent)@.velocity >= old(agent)@.velocity,
        dt == 0 ==> final(agent)@ == old(agent)@,
{
    proof {
        use_type_invariant(&*agent);
        use_type_invariant(&agent.position);
        use_type_invariant(forward);
        lemma_rate_times_time(agent.max_acceleration, dt);
        lemma_gain_is_not_negative(agent.max_acceleration as nat, dt as nat);
        if dt == 0 {
            lemma_moved_in_no_time(agent@, forward@);
        }
    }
    let gain: i128 = ((agent.max_acceleration as u128 * dt as u128) / (SCALE as u128)) as i128;
    let mut velocity: i128 = agent.velocity as i128 + gain;
    if agent.aligned {
        velocity = velocity - gain;
        if velocity < 0 {
            velocity = 0;
        }
    }
    if velocity > i64::MAX as i128 {
        velocity = i64::MAX as i128;
    }
    assert(velocity == next_velocity(agent@, dt as nat));
    proof {
        lemma_way_bound(forward@.x, velocity as int, dt as int);
        lemma_way_bound(forward@.y, velocity as int, dt as int);
    }
    let reach: i128 = velocity * (dt as i128);
    // an axis times a speed times a time counts in steps cubed: two scales too many
    let unit: i128 = 1_000_000_000_000;
    assert(unit == SCALE * SCALE);
    let dx: i128 = floor_div(forward.x() as i128 * reach, unit);
    let dy: i128 = floor_div(forward.y() as i128 * reach, unit);
    assert(displacement(forward@, velocity as int, dt as nat) == Vector { x: dx as int, y: dy as int });
    agent.velocity = velocity as i64;
    agent.position = agent.position.offset_by(dx, dy);
}

} // verus!
