//! The two controllers as a driver runs them, once per frame and agent. They ask
//! the caller's trigonometry for the axis of an orientation and the angle of a
//! cosine, and apply the rules of the agent to what comes back.

use vstd::prelude::*;
use crate::agent::ALIGN_TOLERANCE;
use crate::agent::Agent;
use crate::agent::AgentState;
use crate::agent::advance;
use crate::agent::moved;
use crate::agent::steer;
use crate::agent::steered;
use crate::fixed::SCALE;
use crate::geometry::Direction;
use crate::geometry::Sighting;
use crate::geometry::Vec2;
use crate::geometry::Vector;
use crate::geometry::aim;
use crate::geometry::aimed;
use crate::geometry::point_model;
use crate::geometry::sight_along;
use crate::geometry::sighting;

verus! {

/// What the heading controller found when it looked at a target.
#[derive(Clone, Copy, Debug, PartialEq, Eq)]
pub struct Look {
    /// The forward axis of the agent when it looked.
    pub forward: Direction,
    /// What it saw along that axis.
    pub seen: Sighting,
    /// The unsigned angle between that axis and the target.
    pub angle: u32,
}

/// The agent after the heading controller has run for `dt` on what it found.
pub open spec fn turned(a: AgentState, look: Option<Look>, dt: nat) -> AgentState {
    match look {
        None => steered(a, None, 0, dt),
        Some(l) => steered(a, Some(l.seen), l.angle as nat, dt),
    }
}

/// `look` is what an agent in state `a` finds of `target` with the trigonometry
/// `axis_of` and `angle_of`: nothing where there is no target or it coincides with
/// the agent; else the axis of its orientation, what it sees along that axis, and
/// the angle of the cosine it sees.
pub open spec fn found<A: Fn(i64) -> Direction, C: Fn(i64) -> u32>(
    a: AgentState,
    target: Option<Vector>,
    look: Option<Look>,
    axis_of: &A,
    angle_of: &C,
) -> bool {
    match look {
        None => aimed(a.position, target) is None,
        Some(l) => {
            &&& call_ensures(axis_of, (a.orientation as i64,), l.forward)
            &&& sighting(a.position, l.forward@, target) == Some(l.seen)
            &&& call_ensures(angle_of, (l.seen.forward_dot,), l.angle)
        },
    }
}

/// The heading controller. It looks from `agent` for `target`, turns the agent
/// toward it for the time `dt`, and records whether the agent is aligned. It
/// says what it found. `axis_of` gives the forward axis that belongs to an
/// orientation, `angle_of` the unsigned angle that belongs to a cosine between
/// minus one and one.
pub fn rotate_to_cursor<A: Fn(i64) -> Direction, C: Fn(i64) -> u32>(
    agent: &mut Agent,
    target: Option<Vec2>,
    dt: u32,
    axis_of: &A,
    angle_of: &C,
) -> (look: Option<Look>)
    requires
        forall|orientation: i64| call_requires(axis_of, (orientation,)),
        forall|cosine: i64| -SCALE <= cosine <= SCALE ==> call_requires(angle_of, (cosine,)),
    ensures
        found(old(agent)@, point_model(target), look, axis_of, angle_of),
        final(agent)@ == turned(old(agent)@, look, dt as nat),
        final(agent)@.valid(),
        target is None ==> {
            &&& look is None
            &&& final(agent)@.aligned
            &&& final(agent)@.orientation == old(agent)@.orientation
        },
        final(agent)@.aligned <==> (look matches Some(l) ==> l.angle < ALIGN_TOLERANCE),
        final(agent)@.aligned ==> final(agent)@.orientation == old(agent)@.orientation,
        ({
            let change = final(agent)@.orientation - old(agent)@.orientation;
            &&& -(old(agent)@.max_turn_rate * dt) <= change * SCALE <= old(agent)@.max_turn_rate
                * dt
            &&& look matches Some(l) ==> -l.angle <= change <= l.angle
            &&& look matches Some(l) ==> if l.seen.right_dot >= 0 {
                change <= 0
            } else {
                change >= 0
            }
        }),
        dt == 0 ==> final(agent)@ == (AgentState {
            aligned: final(agent)@.aligned,
            ..old(agent)@
        }),
{
    let position = agent.position();
    let to_target: Direction = match aim(&position, target) {
        None => {
            steer(agent, None, 0, dt);
            return None;
        },
        Some(to_target) => to_target,
    };
    let forward = axis_of(agent.orientation());
    let seen = sight_along(&forward, &to_target);
    let angle = angle_of(seen.forward_dot);
    steer(agent, Some(seen), angle, dt);
    Some(Look { forward, seen, angle })
}

/// The speed controller. It gives `agent` its next velocity and moves it at that
/// velocity along its forward axis for the time `dt`. It says along which axis
/// the agent moved. `axis_of` gives the forward axis that belongs to an
/// orientation.
pub fn update_movement<A: Fn(i64) -> Direction>(agent: &mut Agent, dt: u32, axis_of: &A) -> (forward:
    Direction)
    requires
        forall|orientation: i64| call_requires(axis_of, (orientation,)),
    ensures
        call_ensures(axis_of, (old(agent)@.orientation as i64,), forward),
        final(agent)@ == moved(old(agent)@, forward@, dt as nat),
        final(agent)@.valid(),
        final(agent)@.velocity >= 0,
        old(agent)@.aligned ==> final(agent)@.velocity == old(agent)@.velocity,
        !old(agent)@.aligned ==> final(agent)@.velocity >= old(agent)@.velocity,
        dt == 0 ==> final(agent)@ == old(agent)@,
{
    let forward = axis_of(agent.orientation());
    advance(agent, &forward, dt);
    forward
}

/// What happened in one tick of an agent.
#[derive(Clone, Copy, Debug, PartialEq, Eq)]
pub struct Frame {
    /// What the heading controller found.
    pub look: Option<Look>,
    /// The axis along which the speed controller moved the agent: the forward
    /// axis of the agent after its turn.
    pub forward: Direction,
}

/// One tick of `agent`: the heading controller, then the speed controller, which
/// moves the agent along the heading it has just been given.
pub fn tick<A: Fn(i64) -> Direction, C: Fn(i64) -> u32>(
    agent: &mut Agent,
    target: Option<Vec2>,
    dt: u32,
    axis_of: &A,
    angle_of: &C,
) -> (frame: Frame)
    requires
        forall|orientation: i64| call_requires(axis_of, (orientation,)),
        forall|cosine: i64| -SCALE <= cosine <= SCALE ==> call_requires(angle_of, (cosine,)),
    ensures
        found(old(agent)@, point_model(target), frame.look, axis_of, angle_of),
        call_ensures(
            axis_of,
            (turned(old(agent)@, frame.look, dt as nat).orientation as i64,),
            frame.forward,
        ),
        final(agent)@ == moved(turned(old(agent)@, frame.look, dt as nat), frame.forward@, dt as nat),
        final(agent)@.valid(),
        final(agent)@.velocity >= 0,
        target is None ==> {
            &&& frame.look is None
            &&& final(agent)@.aligned
            &&& final(agent)@.orientation == old(agent)@.orientation
        },
        final(agent)@.aligned <==> (frame.look matches Some(l) ==> l.angle < ALIGN_TOLERANCE),
        final(agent)@.aligned ==> final(agent)@.orientation == old(agent)@.orientation,
        ({
            let change = final(agent)@.orientation - old(agent)@.orientation;
            &&& -(old(agent)@.max_turn_rate * dt) <= change * SCALE <= old(agent)@.max_turn_rate
                * dt
            &&& frame.look matches Some(l) ==> -l.angle <= change <= l.angle
        }),
        dt == 0 ==> final(agent)@ == (AgentState {
            aligned: final(agent)@.aligned,
            ..old(agent)@
        }),
{
    let look = rotate_to_cursor(agent, target, dt, axis_of, angle_of);
    let forward = update_movement(agent, dt, axis_of);
    Frame { look, forward }
}

} // verus!
