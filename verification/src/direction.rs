//! Directions on the grid, opposite/turn relations, and the mapping from
//! buffered turn requests to signed turns.

use vstd::prelude::*;

verus! {

/// A heading on the grid.
#[derive(Clone, Copy, Debug, PartialEq, Eq, Structural)]
pub enum Direction {
    Left,
    Right,
    Up,
    Down,
}

/// An abstract direction request produced by the input layer.
#[derive(Clone, Copy, Debug, PartialEq, Eq, Structural)]
pub enum RequestDirection {
    Left,
    Right,
    Up,
    Down,
}

/// The sign of a turn: left is counterclockwise, right is clockwise.
#[derive(Clone, Copy, Debug, PartialEq, Eq, Structural)]
pub enum TurnDirection {
    Left,
    Right,
}

impl Direction {
    /// The heading after a half turn.
    pub open spec fn opposite_spec(self) -> Direction {
        match self {
            Direction::Left => Direction::Right,
            Direction::Right => Direction::Left,
            Direction::Up => Direction::Down,
            Direction::Down => Direction::Up,
        }
    }

    /// The heading after a quarter turn counterclockwise.
    pub open spec fn left_of(self) -> Direction {
        match self {
            Direction::Right => Direction::Up,
            Direction::Up => Direction::Left,
            Direction::Left => Direction::Down,
            Direction::Down => Direction::Right,
        }
    }

    /// The heading after a quarter turn clockwise.
    pub open spec fn right_of(self) -> Direction {
        match self {
            Direction::Right => Direction::Down,
            Direction::Down => Direction::Left,
            Direction::Left => Direction::Up,
            Direction::Up => Direction::Right,
        }
    }

    pub fn opposite(&self) -> (r: Direction)
        ensures
            r == self.opposite_spec(),
    {
        match self {
            Direction::Left => Direction::Right,
            Direction::Right => Direction::Left,
            Direction::Up => Direction::Down,
            Direction::Down => Direction::Up,
        }
    }
}

impl RequestDirection {
    /// The heading that this request asks for.
    pub open spec fn direction_spec(self) -> Direction {
        match self {
            RequestDirection::Left => Direction::Left,
            RequestDirection::Right => Direction::Right,
            RequestDirection::Up => Direction::Up,
            RequestDirection::Down => Direction::Down,
        }
    }

    pub fn direction(&self) -> (r: Direction)
        ensures
            r == self.direction_spec(),
    {
        match self {
            RequestDirection::Left => Direction::Left,
            RequestDirection::Right => Direction::Right,
            RequestDirection::Up => Direction::Up,
            RequestDirection::Down => Direction::Down,
        }
    }
}

/// The signed turn that takes `from` to `to`: `None` when the headings are
/// equal or opposite (continuing straight, or a reversal, which is never a
/// single turn).
pub open spec fn turn_between_spec(from: Direction, to: Direction) -> Option<TurnDirection> {
    if to == from.left_of() {
        Some(TurnDirection::Left)
    } else if to == from.right_of() {
        Some(TurnDirection::Right)
    } else {
        None
    }
}

/// The signed turn between two headings of consecutive fragments.
pub fn turn_direction_from_directions(first: Direction, second: Direction) -> (r: Option<
    TurnDirection,
>)
    ensures
        r == turn_between_spec(first, second),
{
    match first {
        Direction::Up => match second {
            Direction::Left => Some(TurnDirection::Left),
            Direction::Right => Some(TurnDirection::Right),
            _ => None,
        },
        Direction::Down => match second {
            Direction::Left => Some(TurnDirection::Right),
            Direction::Right => Some(TurnDirection::Left),
            _ => None,
        },
        Direction::Left => match second {
            Direction::Up => Some(TurnDirection::Right),
            Direction::Down => Some(TurnDirection::Left),
            _ => None,
        },
        Direction::Right => match second {
            Direction::Up => Some(TurnDirection::Left),
            Direction::Down => Some(TurnDirection::Right),
            _ => None,
        },
    }
}

impl TurnDirection {
    /// The sign as a factor for the host's rotation math: counterclockwise
    /// turns are negative.
    pub fn sign(&self) -> (r: i32)
        ensures
            *self == TurnDirection::Left ==> r == -1,
            *self == TurnDirection::Right ==> r == 1,
    {
        match self {
            TurnDirection::Left => -1,
            TurnDirection::Right => 1,
        }
    }

    /// The signed turn, if any, that a buffered request asks of a snake
    /// currently heading in `current`. A request for the current heading or
    /// for its opposite yields `None`: continuing straight needs no turn, and
    /// a reversal is rejected.
    pub fn from_turn_request(current: Direction, request: RequestDirection) -> (r: Option<
        TurnDirection,
    >)
        ensures
            r == turn_between_spec(current, request.direction_spec()),
            (r is None) <==> (request.direction_spec() == current || request.direction_spec()
                == current.opposite_spec()),
    {
        turn_direction_from_directions(current, request.direction())
    }
}

/// The signed turn from one heading to a second that is not its reverse:
/// `None` exactly when the two are equal (continuing straight). A reversal is
/// undefined here; callers must never ask for one.
pub fn turn_between(from: Direction, to: Direction) -> (r: Option<TurnDirection>)
    requires
        to != from.opposite_spec(),
    ensures
        r == turn_between_spec(from, to),
        (r is None) <==> from == to,
{
    turn_direction_from_directions(from, to)
}

/// Taking the opposite heading twice returns to the original heading.
pub proof fn lemma_opposite_involution(d: Direction)
    ensures
        d.opposite_spec().opposite_spec() == d,
{
}

/// A request for the exact opposite of the current heading never yields a
/// turn: reversing through the body is rejected.
pub proof fn lemma_reverse_request_rejected(d: Direction)
    ensures
        turn_between_spec(d, d.opposite_spec()) == None::<TurnDirection>,
{
}

} // verus!
