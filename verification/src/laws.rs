//! What holds of the controllers on every agent and every input.

use vstd::prelude::*;
use vstd::arithmetic::div_mod::lemma_div_multiples_vanish;
use crate::agent::ALIGN_TOLERANCE;
use crate::agent::AgentState;
use crate::agent::lemma_budget_within_rate;
use crate::agent::lemma_gain_is_not_negative;
use crate::agent::lemma_moved_in_no_time;
use crate::agent::lemma_steered_in_no_time;
use crate::agent::moved;
use crate::agent::speed_gain;
use crate::agent::steered;
use crate::agent::ticked;
use crate::agent::turn_budget;
use crate::fixed::SCALE;
use crate::fixed::lemma_int_sqrt_unique;
use crate::geometry::COINCIDENT_SQ;
use crate::geometry::Sighting;
use crate::geometry::Vector;
use crate::geometry::sighting;

verus! {

/// One run of a controller on an agent.
pub enum Step {
    /// The heading controller, with what the agent sees and at which angle.
    Turn { seen: Option<Sighting>, angle: nat, dt: nat },
    /// The speed controller, with the axis along which the agent moves.
    Move { forward: Vector, dt: nat },
}

/// The agent after one step.
pub open spec fn stepped(a: AgentState, step: Step) -> AgentState {
    match step {
        Step::Turn { seen, angle, dt } => steered(a, seen, angle, dt),
        Step::Move { forward, dt } => moved(a, forward, dt),
    }
}

/// The agent after a run of steps, the first of them first.
pub open spec fn after(a: AgentState, steps: Seq<Step>) -> AgentState
    decreases steps.len(),
{
    if steps.len() == 0 {
        a
    } else {
        stepped(after(a, steps.drop_last()), steps.last())
    }
}

/// The heading controller keeps an agent valid.
pub proof fn lemma_steered_is_valid(a: AgentState, seen: Option<Sighting>, angle: nat, dt: nat)
    requires
        a.valid(),
    ensures
        steered(a, seen, angle, dt).valid(),
{
}

/// The speed controller keeps an agent valid; its speed in particular is never
/// negative.
pub proof fn lemma_moved_is_valid(a: AgentState, forward: Vector, dt: nat)
    requires
        a.valid(),
    ensures
        moved(a, forward, dt).valid(),
        moved(a, forward, dt).velocity >= 0,
{
    lemma_gain_is_not_negative(a.max_acceleration, dt);
}

/// In whatever order and however often the two controllers run, the agent stays
/// valid and never moves backward.
pub proof fn lemma_velocity_never_negative(a: AgentState, steps: Seq<Step>)
    requires
        a.valid(),
    ensures
        after(a, steps).valid(),
        after(a, steps).velocity >= 0,
    decreases steps.len(),
{
    if steps.len() > 0 {
        let before = after(a, steps.drop_last());
        lemma_velocity_never_negative(a, steps.drop_last());
        match steps.last() {
            Step::Turn { seen, angle, dt } => lemma_steered_is_valid(before, seen, angle, dt),
            Step::Move { forward, dt } => lemma_moved_is_valid(before, forward, dt),
        }
    }
}

/// An agent is aligned after the heading controller exactly when it saw nothing or
/// the target was less than the tolerance off its heading.
pub proof fn lemma_aligned_iff_on_target(a: AgentState, seen: Option<Sighting>, angle: nat, dt: nat)
    ensures
        steered(a, seen, angle, dt).aligned <==> (seen is None || angle < ALIGN_TOLERANCE),
{
}

/// Without a target nothing is seen, and the heading controller then leaves the
/// orientation as it was and takes the agent for aligned.
pub proof fn lemma_no_target_keeps_heading(
    a: AgentState,
    position: Vector,
    forward: Vector,
    angle: nat,
    dt: nat,
)
    ensures
        sighting(position, forward, None) is None,
        steered(a, sighting(position, forward, None), angle, dt).orientation == a.orientation,
        steered(a, sighting(position, forward, None), angle, dt).aligned,
{
}

/// A target that coincides with the agent is not seen either, with the same
/// outcome.
pub proof fn lemma_coincident_target_keeps_heading(
    a: AgentState,
    position: Vector,
    forward: Vector,
    target: Vector,
    angle: nat,
    dt: nat,
)
    requires
        target.offset_from(position).length_squared() <= COINCIDENT_SQ,
    ensures
        sighting(position, forward, Some(target)) is None,
        steered(a, sighting(position, forward, Some(target)), angle, dt).orientation
            == a.orientation,
        steered(a, sighting(position, forward, Some(target)), angle, dt).aligned,
{
}

/// A target less than the tolerance off the heading leaves the orientation as it
/// was, and the agent is aligned.
pub proof fn lemma_on_target_keeps_heading(a: AgentState, seen: Option<Sighting>, angle: nat, dt: nat)
    requires
        angle < ALIGN_TOLERANCE,
    ensures
        steered(a, seen, angle, dt).aligned,
        steered(a, seen, angle, dt).orientation == a.orientation,
{
}

/// In one run of the heading controller the orientation changes by no more than
/// the turn rate times the elapsed time.
pub proof fn lemma_turn_within_rate(a: AgentState, seen: Option<Sighting>, angle: nat, dt: nat)
    requires
        a.valid(),
    ensures
        ({
            let change = steered(a, seen, angle, dt).orientation - a.orientation;
            &&& -turn_budget(a.max_turn_rate, dt) <= change <= turn_budget(a.max_turn_rate, dt)
            &&& -(a.max_turn_rate * dt) <= change * SCALE <= a.max_turn_rate * dt
        }),
{
    lemma_budget_within_rate(a.max_turn_rate, dt);
}

/// In one run of the heading controller the orientation changes by no more than
/// the angle to the target: the agent never turns past it.
pub proof fn lemma_turn_never_overshoots(a: AgentState, seen: Option<Sighting>, angle: nat, dt: nat)
    requires
        a.valid(),
    ensures
        -angle <= steered(a, seen, angle, dt).orientation - a.orientation <= angle,
{
    lemma_budget_within_rate(a.max_turn_rate, dt);
}

/// An agent turns clockwise, to smaller orientations, unless the target lies to
/// its left; then it turns counter-clockwise.
pub proof fn lemma_turn_side(a: AgentState, seen: Sighting, angle: nat, dt: nat)
    requires
        a.valid(),
    ensures
        seen.right_dot >= 0 ==> steered(a, Some(seen), angle, dt).orientation <= a.orientation,
        seen.right_dot < 0 ==> steered(a, Some(seen), angle, dt).orientation >= a.orientation,
{
    lemma_budget_within_rate(a.max_turn_rate, dt);
}

/// An agent that faces straight up sees a target straight to its right, at any
/// distance at which it sees it at all, a quarter turn off its heading and fully
/// on its right.
pub proof fn lemma_target_to_the_right(position: Vector, distance: int)
    requires
        distance * distance > COINCIDENT_SQ,
        distance > 0,
    ensures
        sighting(
            position,
            Vector { x: 0, y: SCALE as int },
            Some(Vector { x: position.x + distance, y: position.y }),
        ) == Some(Sighting { forward_dot: 0, right_dot: SCALE }),
{
    let forward = Vector { x: 0, y: SCALE as int };
    let target = Vector { x: position.x + distance, y: position.y };
    let offset = target.offset_from(position);
    assert(offset == Vector { x: distance, y: 0 });
    assert(offset.length_squared() == distance * distance);
    assert((distance + 1) * (distance + 1) > distance * distance) by (nonlinear_arith)
        requires
            distance > 0,
    ;
    lemma_int_sqrt_unique(distance as nat, (distance * distance) as nat);
    assert(distance * SCALE == SCALE * distance) by (nonlinear_arith);
    lemma_div_multiples_vanish(SCALE as int, distance);
    assert(0 * SCALE / distance == 0) by (nonlinear_arith)
        requires
            distance > 0,
    ;
    assert(SCALE * SCALE / (SCALE as int) == SCALE) by (nonlinear_arith);
    assert(forward.right().project(offset.normalized()) == SCALE);
}

/// An agent that faces straight up and sees a target straight to its right turns
/// clockwise, whatever the distance, the angle handed in and the time.
pub proof fn lemma_target_to_the_right_turns_clockwise(
    a: AgentState,
    distance: int,
    angle: nat,
    dt: nat,
)
    requires
        a.valid(),
        distance * distance > COINCIDENT_SQ,
        distance > 0,
    ensures
        steered(
            a,
            sighting(
                a.position,
                Vector { x: 0, y: SCALE as int },
                Some(Vector { x: a.position.x + distance, y: a.position.y }),
            ),
            angle,
            dt,
        ).orientation <= a.orientation,
{
    lemma_target_to_the_right(a.position, distance);
    lemma_turn_side(a, Sighting { forward_dot: 0, right_dot: SCALE }, angle, dt);
}

/// What an agent sees depends on where the target lies from it, not on where in
/// the world the two are.
pub proof fn lemma_sighting_depends_on_offset(
    position: Vector,
    forward: Vector,
    target: Vector,
    shift: Vector,
)
    ensures
        sighting(
            Vector { x: position.x + shift.x, y: position.y + shift.y },
            forward,
            Some(Vector { x: target.x + shift.x, y: target.y + shift.y }),
        ) == sighting(position, forward, Some(target)),
{
}

/// An aligned agent keeps its speed, whatever time passes.
pub proof fn lemma_aligned_agent_keeps_speed(a: AgentState, forward: Vector, dt: nat)
    requires
        a.valid(),
        a.aligned,
    ensures
        moved(a, forward, dt).velocity == a.velocity,
{
}

/// An agent that is not aligned gains the speed its acceleration gives it, up to
/// the largest speed there is.
pub proof fn lemma_unaligned_agent_gains_speed(a: AgentState, forward: Vector, dt: nat)
    requires
        a.valid(),
        !a.aligned,
    ensures
        moved(a, forward, dt).velocity >= a.velocity,
        moved(a, forward, dt).velocity == a.velocity + speed_gain(a.max_acceleration, dt)
            || moved(a, forward, dt).velocity == i64::MAX,
{
    lemma_gain_is_not_negative(a.max_acceleration, dt);
}

/// When no time passes, a controller changes neither position, orientation nor
/// velocity; the heading controller may still change its mind on whether the agent
/// is aligned.
pub proof fn lemma_zero_time_changes_nothing(
    a: AgentState,
    seen: Option<Sighting>,
    angle: nat,
    forward: Vector,
)
    requires
        a.valid(),
    ensures
        steered(a, seen, angle, 0) == (AgentState { aligned: steered(a, seen, angle, 0).aligned, ..a }),
        moved(a, forward, 0) == a,
        ticked(a, seen, angle, forward, 0) == (AgentState {
            aligned: ticked(a, seen, angle, forward, 0).aligned,
            ..a
        }),
{
    lemma_steered_in_no_time(a, seen, angle);
    lemma_moved_in_no_time(a, forward);
    lemma_moved_in_no_time(steered(a, seen, angle, 0), forward);
}

} // verus!
