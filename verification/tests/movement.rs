use steering::tick;
use steering::advance;
use steering::steer;
use steering::update_movement;
use steering::Frame;
use steering::Look;
use steering::Agent;
use steering::Direction;
use steering::Sighting;
use steering::Vec2;
use steering::SCALE;
use steering::WORLD_LIMIT;

const QUARTER_TURN: u32 = 1_570_796;

fn up() -> Direction {
    Direction::new(0, SCALE)
}

fn off_target() -> Option<Sighting> {
    Some(Sighting { forward_dot: 0, right_dot: SCALE })
}

/// An agent that is not aligned, has not turned and has not moved.
fn unaligned(position: Vec2, max_acceleration: u64) -> Agent {
    let mut agent = Agent::new(position, 0, max_acceleration, 0);
    steer(&mut agent, off_target(), QUARTER_TURN, 0);
    assert!(!agent.aligned());
    assert_eq!(agent.orientation(), 0);
    agent
}

/// An agent at the origin that moves at `velocity` and is aligned.
fn coasting(velocity: i64, max_acceleration: u64) -> Agent {
    let mut agent = unaligned(Vec2::new(0, 0), max_acceleration);
    let dt = (velocity as u64 * 1_000_000 / max_acceleration) as u32;
    advance(&mut agent, &Direction::new(0, 0), dt);
    assert_eq!(agent.velocity(), velocity);
    assert_eq!(agent.position(), Vec2::new(0, 0));
    steer(&mut agent, None, 0, 0);
    assert!(agent.aligned());
    agent
}

#[test]
fn unaligned_agent_gains_speed() {
    // 100 units per second squared for a sixtieth of a second
    let mut agent = unaligned(Vec2::new(0, 0), 100_000_000);
    advance(&mut agent, &up(), 16_667);
    assert_eq!(agent.velocity(), 1_666_700);
    advance(&mut agent, &up(), 16_667);
    assert_eq!(agent.velocity(), 3_333_400);
}

#[test]
fn speed_gain_rounds_down() {
    // 0.333333 units per second squared for 5 microseconds: 1.666665 millionths
    let mut agent = unaligned(Vec2::new(0, 0), 333_333);
    advance(&mut agent, &up(), 5);
    assert_eq!(agent.velocity(), 1);
    advance(&mut agent, &up(), 2);
    assert_eq!(agent.velocity(), 1);
}

#[test]
fn aligned_agent_keeps_its_speed() {
    // aligned, velocity 5, acceleration 2, one second: 5 + 2 - 2 = 5
    let mut agent = coasting(5_000_000, 2_000_000);
    advance(&mut agent, &up(), 1_000_000);
    assert_eq!(agent.velocity(), 5_000_000);
    assert!(agent.aligned());
    // and it has moved 5 units along its heading
    assert_eq!(agent.position(), Vec2::new(0, 5_000_000));
}

#[test]
fn aligned_agent_at_rest_stays_at_rest() {
    let mut agent = Agent::new(Vec2::new(1_000_000, 1_000_000), 0, 2_000_000, 1_000_000);
    assert!(agent.aligned());
    advance(&mut agent, &up(), 1_000_000);
    assert_eq!(agent.velocity(), 0);
    assert_eq!(agent.position(), Vec2::new(1_000_000, 1_000_000));
}

#[test]
fn agent_moves_at_its_new_velocity() {
    // from rest, 2 units per second squared for one second: velocity 2, and the
    // step is made at that velocity already
    let mut agent = unaligned(Vec2::new(0, 0), 2_000_000);
    advance(&mut agent, &up(), 1_000_000);
    assert_eq!(agent.velocity(), 2_000_000);
    assert_eq!(agent.position(), Vec2::new(0, 2_000_000));
    advance(&mut agent, &Direction::new(SCALE, 0), 500_000);
    assert_eq!(agent.velocity(), 3_000_000);
    assert_eq!(agent.position(), Vec2::new(1_500_000, 2_000_000));
}

#[test]
fn agent_moves_along_a_slanted_axis() {
    let mut agent = coasting(5_000_000, 2_000_000);
    advance(&mut agent, &Direction::new(600_000, -800_000), 2_000_000);
    assert_eq!(agent.position(), Vec2::new(6_000_000, -8_000_000));
}

#[test]
fn displacement_rounds_down() {
    // velocity 1 for a third of a second along (0.5, -0.5): 0.1666665 units
    let mut agent = coasting(1_000_000, 1_000_000);
    advance(&mut agent, &Direction::new(500_000, -500_000), 333_333);
    assert_eq!(agent.position(), Vec2::new(166_666, -166_667));
}

#[test]
fn velocity_is_never_negative() {
    let mut agent = Agent::new(Vec2::new(0, 0), 0, 3_000_000, 1_000_000);
    let times: [u32; 6] = [0, 1, 16_667, 1_000_000, 33_333, u32::MAX];
    let mut round = 0;
    while round < 200 {
        let dt = times[round % times.len()];
        let seen = match round % 3 {
            0 => None,
            1 => Some(Sighting { forward_dot: 0, right_dot: SCALE }),
            _ => Some(Sighting { forward_dot: -SCALE, right_dot: -1 }),
        };
        let angle = if round % 5 == 0 { 5_000 } else { 2_000_000 };
        if round % 2 == 0 {
            steer(&mut agent, seen, angle, dt);
            assert!(agent.velocity() >= 0);
        }
        advance(&mut agent, &Direction::new(-SCALE, SCALE), dt);
        assert!(agent.velocity() >= 0);
        round += 1;
    }
    assert!(agent.velocity() > 0);
}

#[test]
fn velocity_stops_at_the_largest_speed() {
    let mut agent = unaligned(Vec2::new(0, 0), u64::MAX);
    advance(&mut agent, &Direction::new(0, 0), u32::MAX);
    assert_eq!(agent.velocity(), i64::MAX);
    advance(&mut agent, &Direction::new(0, 0), u32::MAX);
    assert_eq!(agent.velocity(), i64::MAX);
    // aligned, it keeps that speed
    steer(&mut agent, None, 0, 0);
    advance(&mut agent, &Direction::new(0, 0), 1_000_000);
    assert_eq!(agent.velocity(), i64::MAX);
}

#[test]
fn position_stops_at_the_border_of_the_world() {
    let mut agent = unaligned(Vec2::new(WORLD_LIMIT - 1_000_000, -WORLD_LIMIT + 1_000_000), 2_000_000);
    advance(&mut agent, &Direction::new(SCALE, -SCALE), 1_000_000);
    assert_eq!(agent.position(), Vec2::new(WORLD_LIMIT, -WORLD_LIMIT));
    let mut fast = unaligned(Vec2::new(-WORLD_LIMIT, WORLD_LIMIT), u64::MAX);
    advance(&mut fast, &Direction::new(SCALE, -SCALE), u32::MAX);
    assert_eq!(fast.position(), Vec2::new(WORLD_LIMIT, -WORLD_LIMIT));
}

#[test]
fn zero_dt_does_not_move() {
    let mut agent = coasting(5_000_000, 2_000_000);
    advance(&mut agent, &up(), 0);
    assert_eq!(agent.position(), Vec2::new(0, 0));
    assert_eq!(agent.velocity(), 5_000_000);
    assert_eq!(agent.orientation(), 0);
    steer(&mut agent, off_target(), QUARTER_TURN, 0);
    advance(&mut agent, &up(), 0);
    assert_eq!(agent.position(), Vec2::new(0, 0));
    assert_eq!(agent.velocity(), 5_000_000);
    assert_eq!(agent.orientation(), 0);
    assert!(!agent.aligned());
}

fn forward_of(orientation: i64) -> Direction {
    let theta = orientation as f64 / 1e6;
    Direction::new((-theta.sin() * 1e6).round() as i64, (theta.cos() * 1e6).round() as i64)
}

fn angle_of(cosine: i64) -> u32 {
    ((cosine as f64 / 1e6).acos() * 1e6) as u32
}

#[test]
fn speed_controller_moves_along_the_axis_of_the_orientation() {
    // a quarter turn clockwise of +Y is +X
    let mut agent = Agent::new(Vec2::new(0, 0), -1_570_796, 2_000_000, 0);
    steer(&mut agent, off_target(), QUARTER_TURN, 0);
    let forward = update_movement(&mut agent, 1_000_000, &forward_of);
    assert_eq!(forward, Direction::new(SCALE, 0));
    assert_eq!(agent.velocity(), 2_000_000);
    assert_eq!(agent.position(), Vec2::new(2_000_000, 0));
    assert_eq!(agent.orientation(), -1_570_796);
}

#[test]
fn zero_dt_tick_is_a_no_op() {
    let target = Some(Vec2::new(7_000_000, 0));
    let mut agent = coasting(5_000_000, 2_000_000);
    let mut turning = Agent::new(Vec2::new(0, 0), 0, 2_000_000, 1_570_796);
    tick(&mut agent, target, 0, &forward_of, &angle_of);
    tick(&mut turning, target, 0, &forward_of, &angle_of);
    assert_eq!(agent.position(), Vec2::new(0, 0));
    assert_eq!(agent.velocity(), 5_000_000);
    assert_eq!(agent.orientation(), 0);
    assert!(!agent.aligned());
    assert_eq!(turning.position(), Vec2::new(0, 0));
    assert_eq!(turning.velocity(), 0);
    assert_eq!(turning.orientation(), 0);
    assert!(!turning.aligned());
}

#[test]
fn tick_turns_first_and_then_moves() {
    // the agent is aligned when the tick begins; the heading controller finds it
    // a quarter turn off target, so the speed controller accelerates it in the
    // same tick, along the heading that the turn has just given it
    let target = Some(Vec2::new(7_000_000, 0));
    let mut agent = Agent::new(Vec2::new(0, 0), 0, 2_000_000, 1_570_796);
    assert!(agent.aligned());
    let frame = tick(&mut agent, target, 1_000_000, &forward_of, &angle_of);
    assert_eq!(
        frame,
        Frame {
            look: Some(Look {
                forward: Direction::new(0, SCALE),
                seen: Sighting { forward_dot: 0, right_dot: SCALE },
                angle: QUARTER_TURN,
            }),
            forward: Direction::new(SCALE, 0),
        }
    );
    assert!(!agent.aligned());
    assert_eq!(agent.orientation(), -1_570_796);
    assert_eq!(agent.velocity(), 2_000_000);
    assert_eq!(agent.position(), Vec2::new(2_000_000, 0));
    // with the target lost, the next tick keeps heading and speed
    let frame = tick(&mut agent, None, 1_000_000, &forward_of, &angle_of);
    assert_eq!(frame, Frame { look: None, forward: Direction::new(SCALE, 0) });
    assert!(agent.aligned());
    assert_eq!(agent.orientation(), -1_570_796);
    assert_eq!(agent.velocity(), 2_000_000);
    assert_eq!(agent.position(), Vec2::new(4_000_000, 0));
}

#[test]
fn tick_is_the_two_controllers_in_turn() {
    let target = Some(Vec2::new(-3_000_000, 9_000_000));
    let mut whole = Agent::new(Vec2::new(1_000_000, 1_000_000), 300_000, 5_000_000, 2_000_000);
    let mut parts = whole;
    let mut round = 0;
    while round < 40 {
        tick(&mut whole, target, 16_667, &forward_of, &angle_of);
        let seen = steering::sight(&parts.position(), &forward_of(parts.orientation()), target);
        let angle = seen.map_or(0, |s| angle_of(s.forward_dot));
        steer(&mut parts, seen, angle, 16_667);
        let forward = forward_of(parts.orientation());
        advance(&mut parts, &forward, 16_667);
        assert_eq!(whole, parts);
        round += 1;
    }
    assert!(whole.velocity() > 0);
}

#[test]
fn speed_controller_leaves_the_rest_alone() {
    let mut agent = Agent::new(Vec2::new(0, 0), 777, 2_000_000, 1_570_796);
    steer(&mut agent, off_target(), QUARTER_TURN, 0);
    advance(&mut agent, &up(), 1_000_000);
    assert_eq!(agent.orientation(), 777);
    assert_eq!(agent.max_acceleration(), 2_000_000);
    assert_eq!(agent.max_turn_rate(), 1_570_796);
    assert!(!agent.aligned());
}
