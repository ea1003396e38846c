//! Points of the world, unit axes, and what an agent sees of its target.

use vstd::prelude::*;
use vstd::arithmetic::div_mod::lemma_div_is_ordered;
use vstd::arithmetic::div_mod::lemma_div_multiples_vanish;
use crate::fixed::SCALE;
use crate::fixed::clamp;
use crate::fixed::floor_div;
use crate::fixed::int_sqrt;
use crate::fixed::is_sqrt_of;
use crate::fixed::isqrt;
use crate::fixed::lemma_square_monotonic;

verus! {

/// The world reaches this far from the origin along each axis. Coordinates beyond
/// it are pulled back onto the border.
pub const WORLD_LIMIT: i64 = 0x4000_0000_0000_0000;

/// A target whose squared distance from the agent is at most this is taken to
/// coincide with it: there is no direction to turn to.
pub const COINCIDENT_SQ: u128 = 1_000_000;

/// A pair of integers: the mathematical content of a point, an offset or an axis.
pub struct Vector {
    pub x: int,
    pub y: int,
}

impl Vector {
    /// Both coordinates lie within the world.
    pub open spec fn in_world(self) -> bool {
        &&& -WORLD_LIMIT <= self.x <= WORLD_LIMIT
        &&& -WORLD_LIMIT <= self.y <= WORLD_LIMIT
    }

    /// Both components lie between minus one and one.
    pub open spec fn is_axis(self) -> bool {
        &&& -SCALE <= self.x <= SCALE
        &&& -SCALE <= self.y <= SCALE
    }

    /// The offset that leads from `origin` to `self`.
    pub open spec fn offset_from(self, origin: Vector) -> Vector {
        Vector { x: self.x - origin.x, y: self.y - origin.y }
    }

    /// The squared length.
    pub open spec fn length_squared(self) -> int {
        self.x * self.x + self.y * self.y
    }

    /// The vector scaled to unit length, each component rounded down.
    pub open spec fn normalized(self) -> Vector {
        let len = int_sqrt(self.length_squared() as nat) as int;
        Vector { x: self.x * SCALE / len, y: self.y * SCALE / len }
    }

    /// The axis a quarter turn clockwise of `self`: for a forward axis, the one
    /// that points to the agent's right.
    pub open spec fn right(self) -> Vector {
        Vector { x: self.y, y: -self.x }
    }

    /// The component of the unit vector `unit` along the axis `self`, rounded down.
    pub open spec fn project(self, unit: Vector) -> int {
        (self.x * unit.x + self.y * unit.y) / (SCALE as int)
    }
}

/// A point of the world.
#[derive(Clone, Copy, Debug, PartialEq, Eq)]
pub struct Vec2 {
    x: i64,
    y: i64,
}

impl View for Vec2 {
    type V = Vector;

    closed spec fn view(&self) -> Vector {
        Vector { x: self.x as int, y: self.y as int }
    }
}

impl Vec2 {
    /// Every point lies within the world.
    #[verifier::type_invariant]
    pub open spec fn inside(self) -> bool {
        self@.in_world()
    }

    /// The point with the given coordinates, each limited to the world.
    pub fn new(x: i64, y: i64) -> (p: Vec2)
        ensures
            p@.x == clamp(x as int, -WORLD_LIMIT as int, WORLD_LIMIT as int),
            p@.y == clamp(y as int, -WORLD_LIMIT as int, WORLD_LIMIT as int),
            p@.in_world(),
    {
        Vec2 { x: limit(x, WORLD_LIMIT), y: limit(y, WORLD_LIMIT) }
    }

    /// The first coordinate.
    pub fn x(&self) -> (x: i64)
        ensures
            x == self@.x,
            self@.in_world(),
    {
        proof {
            use_type_invariant(self);
        }
        self.x
    }

    /// The second coordinate.
    pub fn y(&self) -> (y: i64)
        ensures
            y == self@.y,
            self@.in_world(),
    {
        proof {
            use_type_invariant(self);
        }
        self.y
    }

    /// The point moved by the offset `(dx, dy)`, each coordinate limited to the
    /// world.
    pub fn offset_by(&self, dx: i128, dy: i128) -> (p: Vec2)
        ensures
            p@.x == clamp(self@.x + dx, -WORLD_LIMIT as int, WORLD_LIMIT as int),
            p@.y == clamp(self@.y + dy, -WORLD_LIMIT as int, WORLD_LIMIT as int),
            p@.in_world(),
    {
        proof {
            use_type_invariant(self);
        }
        Vec2 { x: shift(self.x, dx), y: shift(self.y, dy) }
    }
}

/// A direction in the plane, such as the forward axis of an agent or the way to
/// its target: a unit vector, or as near to one as rounding and the caller's
/// trigonometry made it. Each component lies between minus one and one.
#[derive(Clone, Copy, Debug, PartialEq, Eq)]
pub struct Direction {
    x: i64,
    y: i64,
}

impl View for Direction {
    type V = Vector;

    closed spec fn view(&self) -> Vector {
        Vector { x: self.x as int, y: self.y as int }
    }
}

impl Direction {
    /// No component of a direction is longer than one.
    #[verifier::type_invariant]
    pub open spec fn bounded(self) -> bool {
        self@.is_axis()
    }

    /// The direction with the given components, each limited to the range from
    /// minus one to one.
    pub fn new(x: i64, y: i64) -> (d: Direction)
        ensures
            d@.x == clamp(x as int, -SCALE as int, SCALE as int),
            d@.y == clamp(y as int, -SCALE as int, SCALE as int),
            d@.is_axis(),
    {
        Direction { x: limit(x, SCALE), y: limit(y, SCALE) }
    }

    /// The first component.
    pub fn x(&self) -> (x: i64)
        ensures
            x == self@.x,
            self@.is_axis(),
    {
        proof {
            use_type_invariant(self);
        }
        self.x
    }

    /// The second component.
    pub fn y(&self) -> (y: i64)
        ensures
            y == self@.y,
            self@.is_axis(),
    {
        proof {
            use_type_invariant(self);
        }
        self.y
    }

    /// The direction a quarter turn clockwise of this one: of a forward axis, the
    /// right axis.
    pub fn right(&self) -> (r: Direction)
        ensures
            r@ == self@.right(),
    {
        proof {
            use_type_invariant(self);
        }
        Direction { x: self.y, y: -self.x }
    }
}

/// `c` limited to the range from `-bound` to `bound`.
fn limit(c: i64, bound: i64) -> (r: i64)
    requires
        bound >= 0,
    ensures
        r == clamp(c as int, -bound as int, bound as int),
{
    if c < -bound {
        -bound
    } else if c > bound {
        bound
    } else {
        c
    }
}

/// The coordinate `c` moved by `d` and limited to the world.
fn shift(c: i64, d: i128) -> (r: i64)
    requires
        -WORLD_LIMIT <= c <= WORLD_LIMIT,
    ensures
        r == clamp(c + d, -WORLD_LIMIT as int, WORLD_LIMIT as int),
{
    let reach: i128 = 2 * (WORLD_LIMIT as i128);
    if d > reach {
        WORLD_LIMIT
    } else if d < -reach {
        -WORLD_LIMIT
    } else {
        let moved: i128 = c as i128 + d;
        if moved > WORLD_LIMIT as i128 {
            WORLD_LIMIT
        } else if moved < -(WORLD_LIMIT as i128) {
            -WORLD_LIMIT
        } else {
            moved as i64
        }
    }
}

/// What an agent sees of a target that is far enough away to have a direction.
#[derive(Clone, Copy, Debug, PartialEq, Eq)]
pub struct Sighting {
    /// The cosine of the angle between the forward axis and the direction to the
    /// target, between minus one and one.
    pub forward_dot: i64,
    /// The component of the direction to the target along the right axis: zero or
    /// more when the target is not to the left.
    pub right_dot: i64,
}

/// The mathematical content of an optional point.
pub open spec fn point_model(point: Option<Vec2>) -> Option<Vector> {
    match point {
        Some(p) => Some(p@),
        None => None,
    }
}

/// The unit vector that points from `position` to `target`, where there is a
/// target and it does not coincide with the position.
pub open spec fn aimed(position: Vector, target: Option<Vector>) -> Option<Vector> {
    match target {
        None => None,
        Some(t) => {
            let offset = t.offset_from(position);
            if offset.length_squared() <= COINCIDENT_SQ {
                None
            } else {
                Some(offset.normalized())
            }
        },
    }
}

/// What an agent that faces along `forward` sees of a target in the direction
/// `to_target`: the projections of that direction on its forward axis, limited to
/// the range of a cosine, and on its right axis.
pub open spec fn seen_along(forward: Vector, to_target: Vector) -> Sighting {
    Sighting {
        forward_dot: clamp(forward.project(to_target), -SCALE as int, SCALE as int) as i64,
        right_dot: forward.right().project(to_target) as i64,
    }
}

/// What an agent at `position`, facing along `forward`, sees of `target`: nothing
/// when there is no target or it coincides with the agent; else what it sees along
/// `forward` in the direction of the target.
pub open spec fn sighting(position: Vector, forward: Vector, target: Option<Vector>) -> Option<
    Sighting,
> {
    match aimed(position, target) {
        None => None,
        Some(to_target) => Some(seen_along(forward, to_target)),
    }
}

/// The square of a coordinate difference fits well inside 128 bits.
proof fn lemma_square_bound(d: int)
    requires
        -2 * WORLD_LIMIT <= d <= 2 * WORLD_LIMIT,
    ensures
        0 <= d * d <= 0x4000_0000_0000_0000_0000_0000_0000_0000,
{
    assert(0 <= d * d <= 0x4000_0000_0000_0000_0000_0000_0000_0000) by (nonlinear_arith)
        requires
            -0x8000_0000_0000_0000 <= d <= 0x8000_0000_0000_0000,
    ;
}

/// No component of a vector is longer than the vector.
proof fn lemma_component_within_length(v: Vector, len: nat)
    requires
        is_sqrt_of(len, v.length_squared() as nat),
    ensures
        -len <= v.x <= len,
        -len <= v.y <= len,
{
    assert(v.x * v.x >= 0 && v.y * v.y >= 0) by (nonlinear_arith);
    let ax: nat = if v.x >= 0 { v.x as nat } else { (-v.x) as nat };
    let ay: nat = if v.y >= 0 { v.y as nat } else { (-v.y) as nat };
    assert(ax * ax == v.x * v.x) by (nonlinear_arith)
        requires
            ax == v.x || ax == -v.x,
    ;
    assert(ay * ay == v.y * v.y) by (nonlinear_arith)
        requires
            ay == v.y || ay == -v.y,
    ;
    if ax > len {
        lemma_square_monotonic(len + 1, ax);
    }
    if ay > len {
        lemma_square_monotonic(len + 1, ay);
    }
}

/// A component that is no longer than `len`, divided by `len`, lies between minus
/// one and one.
proof fn lemma_unit_component(c: int, len: int)
    requires
        len > 0,
        -len <= c <= len,
    ensures
        -SCALE <= c * SCALE / len <= SCALE,
{
    let scaled = c * SCALE;
    let most = len * SCALE;
    let least = len * (-SCALE);
    assert(least <= scaled <= most) by (nonlinear_arith)
        requires
            -len <= c <= len,
            scaled == c * SCALE,
            most == len * SCALE,
            least == len * (-SCALE),
    ;
    lemma_div_is_ordered(scaled, most, len);
    lemma_div_is_ordered(least, scaled, len);
    lemma_div_multiples_vanish(SCALE as int, len);
    lemma_div_multiples_vanish(-SCALE as int, len);
    assert(most / len == SCALE);
    assert(least / len == -SCALE);
}

/// The product of two components that each lie between minus one and one.
proof fn lemma_axis_product(a: int, b: int)
    requires
        -SCALE <= a <= SCALE,
        -SCALE <= b <= SCALE,
    ensures
        -SCALE * SCALE <= a * b <= SCALE * SCALE,
{
    assert(-SCALE * SCALE <= a * b <= SCALE * SCALE) by (nonlinear_arith)
        requires
            -SCALE <= a <= SCALE,
            -SCALE <= b <= SCALE,
    ;
}

/// The direction from `position` to `target`: none when there is no target, or
/// when the two coincide.
pub fn aim(position: &Vec2, target: Option<Vec2>) -> (to_target: Option<Direction>)
    ensures
        match to_target {
            Some(unit) => aimed(position@, point_model(target)) == Some(unit@),
            None => aimed(position@, point_model(target)) is None,
        },
        target is None ==> to_target is None,
{
    let t: Vec2 = match target {
        None => {
            return None;
        },
        Some(t) => t,
    };
    proof {
        use_type_invariant(position);
        use_type_invariant(&t);
    }
    let dx: i128 = t.x as i128 - position.x as i128;
    let dy: i128 = t.y as i128 - position.y as i128;
    let ghost offset = t@.offset_from(position@);
    proof {
        lemma_square_bound(dx as int);
        lemma_square_bound(dy as int);
    }
    let len_sq: u128 = (dx * dx) as u128 + (dy * dy) as u128;
    assert(len_sq == offset.length_squared());
    if len_sq <= COINCIDENT_SQ {
        return None;
    }
    let len: u64 = isqrt(len_sq);
    proof {
        lemma_component_within_length(offset, len as nat);
        assert(len > 0) by (nonlinear_arith)
            requires
                len_sq > 1,
                len_sq < (len as nat + 1) * (len as nat + 1),
        ;
        lemma_unit_component(dx as int, len as int);
        lemma_unit_component(dy as int, len as int);
    }
    let x: i128 = floor_div(dx * (SCALE as i128), len as i128);
    let y: i128 = floor_div(dy * (SCALE as i128), len as i128);
    assert(offset.normalized() == Vector { x: x as int, y: y as int });
    Some(Direction { x: x as i64, y: y as i64 })
}

/// Looks along `forward` in the direction `to_target`.
pub fn sight_along(forward: &Direction, to_target: &Direction) -> (seen: Sighting)
    ensures
        seen == seen_along(forward@, to_target@),
        -SCALE <= seen.forward_dot <= SCALE,
{
    proof {
        use_type_invariant(forward);
        use_type_invariant(to_target);
    }
    let fx: i128 = forward.x as i128;
    let fy: i128 = forward.y as i128;
    let tx: i128 = to_target.x as i128;
    let ty: i128 = to_target.y as i128;
    proof {
        lemma_axis_product(fx as int, tx as int);
        lemma_axis_product(fy as int, ty as int);
        lemma_axis_product(fy as int, tx as int);
        lemma_axis_product(fx as int, ty as int);
    }
    let along: i128 = floor_div(fx * tx + fy * ty, SCALE as i128);
    let across: i128 = floor_div(fy * tx - fx * ty, SCALE as i128);
    proof {
        assert(fy * tx + (-fx) * ty == fy * tx - fx * ty) by (nonlinear_arith);
        assert(along == forward@.project(to_target@));
        assert(across == forward@.right().project(to_target@));
        assert(-2 * SCALE - 1 <= across <= 2 * SCALE);
    }
    let forward_dot: i128 = if along < -(SCALE as i128) {
        -(SCALE as i128)
    } else if along > SCALE as i128 {
        SCALE as i128
    } else {
        along
    };
    Sighting { forward_dot: forward_dot as i64, right_dot: across as i64 }
}

/// Looks from `position` along `forward` for `target`. `forward` is the forward
/// axis of the agent that stands at `position`.
pub fn sight(position: &Vec2, forward: &Direction, target: Option<Vec2>) -> (seen: Option<Sighting>)
    ensures
        seen == sighting(position@, forward@, point_model(target)),
        target is None ==> seen is None,
        seen matches Some(s) ==> -SCALE <= s.forward_dot <= SCALE,
{
    match aim(position, target) {
        None => None,
        Some(to_target) => Some(sight_along(forward, &to_target)),
    }
}

} // verus!
