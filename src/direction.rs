use vstd::prelude::*;
use crate::{coord_ok, Vec2, COORD_LIMIT};

verus! {

/// One of the four cardinal directions an actor can face.
#[derive(PartialEq, Eq, Structural, Clone, Copy, Debug, Hash)]
pub enum Direction {
    East,
    North,
    West,
    South,
}

/// Absolute value of an integer.
pub open spec fn abs(v: int) -> int {
    if v < 0 { -v } else { v }
}

/// Direction of the dominant axis of `(dx, dy)`: the vertical axis wins only
/// when its magnitude is strictly larger.
pub open spec fn long_seek_spec(dx: int, dy: int) -> Direction {
    if abs(dx) < abs(dy) {
        if dy > 0 { Direction::North } else { Direction::South }
    } else {
        if dx > 0 { Direction::East } else { Direction::West }
    }
}

/// Heading used while walking toward a point: inside the dead zone (either
/// axis closer than `margin`) it is the long seek; outside it the actor
/// takes the axis of larger magnitude, the horizontal one on a tie.
pub open spec fn short_seek_spec(dx: int, dy: int, margin: int) -> Direction {
    if abs(dx) < margin || abs(dy) < margin {
        long_seek_spec(dx, dy)
    } else if abs(dx) >= abs(dy) {
        if dx > 0 { Direction::East } else { Direction::West }
    } else {
        if dy > 0 { Direction::North } else { Direction::South }
    }
}

/// Facing chosen from two input axes: a still stick keeps `current`, and
/// ties between the axes favour the horizontal one.
pub open spec fn facing_from_axes_spec(x: int, y: int, current: Direction) -> Direction {
    if x == 0 && y == 0 {
        current
    } else if abs(x) >= abs(y) {
        if x >= 0 { Direction::East } else { Direction::West }
    } else {
        if y >= 0 { Direction::North } else { Direction::South }
    }
}

/// The unit vector `u` scaled by `k`.
pub open spec fn scaled(u: (int, int), k: int) -> Vec2 {
    Vec2 { x: (u.0 * k) as i64, y: (u.1 * k) as i64 }
}

/// Absolute value of a coordinate in range.
fn abs_coord(v: i64) -> (r: i64)
    requires
        coord_ok(v as int),
    ensures
        r as int == abs(v as int),
        0 <= r <= COORD_LIMIT,
{
    if v < 0 { -v } else { v }
}

impl Direction {
    /// Unit vector of the direction; north is positive `y`.
    pub open spec fn unit(self) -> (int, int) {
        match self {
            Direction::East => (1, 0),
            Direction::North => (0, 1),
            Direction::West => (-1, 0),
            Direction::South => (0, -1),
        }
    }

    /// The direction a quarter turn clockwise.
    pub open spec fn clockwise_spec(self) -> Direction {
        match self {
            Direction::East => Direction::South,
            Direction::South => Direction::West,
            Direction::West => Direction::North,
            Direction::North => Direction::East,
        }
    }

    /// All four directions, counter-clockwise from east.
    pub open spec fn all() -> Seq<Direction> {
        seq![Direction::East, Direction::North, Direction::West, Direction::South]
    }

    /// All four directions, counter-clockwise from east.
    pub fn vec() -> (r: Vec<Direction>)
        ensures
            r@ == Self::all(),
    {
        let r = vec![Direction::East, Direction::North, Direction::West, Direction::South];
        assert(r@ =~= Self::all());
        r
    }

    /// Unit vector of the direction.
    pub fn tilts(&self) -> (r: Vec2)
        ensures
            (r.x as int, r.y as int) == self.unit(),
            -1 <= r.x <= 1 && -1 <= r.y <= 1,
    {
        match self {
            Direction::East => Vec2 { x: 1, y: 0 },
            Direction::North => Vec2 { x: 0, y: 1 },
            Direction::West => Vec2 { x: -1, y: 0 },
            Direction::South => Vec2 { x: 0, y: -1 },
        }
    }

    /// The unit vector of the direction scaled by the speed `k`.
    pub fn scaled_by(&self, k: i64) -> (r: Vec2)
        requires
            coord_ok(k as int),
        ensures
            r == scaled(self.unit(), k as int),
    {
        match self {
            Direction::East => Vec2 { x: k, y: 0 },
            Direction::North => Vec2 { x: 0, y: k },
            Direction::West => Vec2 { x: -k, y: 0 },
            Direction::South => Vec2 { x: 0, y: -k },
        }
    }

    /// The direction a quarter turn clockwise.
    pub fn clockwise(&self) -> (r: Direction)
        ensures
            r == self.clockwise_spec(),
    {
        match self {
            Direction::East => Direction::South,
            Direction::South => Direction::West,
            Direction::West => Direction::North,
            Direction::North => Direction::East,
        }
    }

    /// A direction drawn at random from two coin flips.
    pub fn pick() -> (r: Direction) {
        let first = coin_flip();
        let second = coin_flip();
        Self::from_coins(first, second)
    }

    /// The direction that two coin flips select: heads first gives east or
    /// north, tails first gives west or south.
    pub fn from_coins(first: bool, second: bool) -> (r: Direction)
        ensures
            r == (if first {
                if second { Direction::East } else { Direction::North }
            } else {
                if second { Direction::West } else { Direction::South }
            }),
    {
        if first {
            if second { Direction::East } else { Direction::North }
        } else {
            if second { Direction::West } else { Direction::South }
        }
    }

    /// Heading toward `(dx, dy)` with a dead zone of `margin` on each axis.
    pub fn short_seek(dx: i64, dy: i64, margin: i64) -> (r: Direction)
        requires
            coord_ok(dx as int),
            coord_ok(dy as int),
        ensures
            r == short_seek_spec(dx as int, dy as int, margin as int),
    {
        let ax = abs_coord(dx);
        let ay = abs_coord(dy);
        if ax < margin || ay < margin {
            Self::long_seek(dx, dy)
        } else if ax >= ay {
            if dx > 0 { Direction::East } else { Direction::West }
        } else {
            if dy > 0 { Direction::North } else { Direction::South }
        }
    }

    /// Direction of the dominant axis of `(dx, dy)`.
    pub fn long_seek(dx: i64, dy: i64) -> (r: Direction)
        requires
            coord_ok(dx as int),
            coord_ok(dy as int),
        ensures
            r == long_seek_spec(dx as int, dy as int),
    {
        let ax = abs_coord(dx);
        let ay = abs_coord(dy);
        if ax < ay {
            if dy > 0 { Direction::North } else { Direction::South }
        } else {
            if dx > 0 { Direction::East } else { Direction::West }
        }
    }

    /// Facing that two input axes ask for; see `facing_from_axes_spec`.
    pub fn from_axes(x: i64, y: i64, current: Direction) -> (r: Direction)
        requires
            coord_ok(x as int),
            coord_ok(y as int),
        ensures
            r == facing_from_axes_spec(x as int, y as int, current),
    {
        if x == 0 && y == 0 {
            current
        } else if abs_coord(x) >= abs_coord(y) {
            if x >= 0 { Direction::East } else { Direction::West }
        } else {
            if y >= 0 { Direction::North } else { Direction::South }
        }
    }
}

/// Relies on rand::random::<bool>: a fair coin from the thread-local
/// generator. Nothing is known of the outcome.
#[verifier::external_body]
fn coin_flip() -> (r: bool) {
    rand::random::<bool>()
}

/// How an animation behaves once its last frame is reached.
#[derive(PartialEq, Eq, Structural, Clone, Copy, Debug, Hash)]
pub enum EndControl {
    Loop,
    Stay,
}

/// An animation clip: its kind and the direction it faces.
#[derive(PartialEq, Eq, Structural, Clone, Copy, Debug, Hash)]
pub enum AnimationId {
    Walk(Direction),
    Attack(Direction),
    Idle(Direction),
    Staggered(Direction),
}

impl AnimationId {
    /// The direction the clip faces.
    pub open spec fn direction_spec(self) -> Direction {
        match self {
            AnimationId::Walk(d) => d,
            AnimationId::Attack(d) => d,
            AnimationId::Idle(d) => d,
            AnimationId::Staggered(d) => d,
        }
    }

    /// The direction the clip faces.
    pub fn direction(&self) -> (r: Direction)
        ensures
            r == self.direction_spec(),
    {
        match self {
            AnimationId::Walk(d) => *d,
            AnimationId::Attack(d) => *d,
            AnimationId::Idle(d) => *d,
            AnimationId::Staggered(d) => *d,
        }
    }

    /// Whether the clip is an attack.
    pub fn is_attack(&self) -> (r: bool)
        ensures
            r == (self matches AnimationId::Attack(_)),
    {
        match self {
            AnimationId::Attack(_) => true,
            _ => false,
        }
    }
}

} // verus!
