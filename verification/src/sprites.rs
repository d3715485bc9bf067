//! Sprite selection: which atlas tile each fragment shows, from its role,
//! heading and the corner it is rendering, and the frame cycling of animated
//! consumables.

use vstd::prelude::*;

use crate::body::FragmentType;
use crate::direction::{Direction, TurnDirection};

verus! {

/// The sprite-atlas tile for a fragment: straight body pieces by axis, corner
/// pieces by heading and turn sign, head and tail pieces by heading.
pub open spec fn animation_index_spec(
    fragment_type: FragmentType,
    direction: Direction,
    turn: Option<TurnDirection>,
) -> usize {
    match fragment_type {
        FragmentType::Body => match direction {
            Direction::Up => match turn {
                Some(TurnDirection::Left) => 2usize,
                Some(TurnDirection::Right) => 0usize,
                None => 7usize,
            },
            Direction::Down => match turn {
                Some(TurnDirection::Left) => 5usize,
                Some(TurnDirection::Right) => 12usize,
                None => 7usize,
            },
            Direction::Left => match turn {
                Some(TurnDirection::Left) => 0usize,
                Some(TurnDirection::Right) => 5usize,
                None => 1usize,
            },
            Direction::Right => match turn {
                Some(TurnDirection::Left) => 12usize,
                Some(TurnDirection::Right) => 2usize,
                None => 1usize,
            },
        },
        FragmentType::Head | FragmentType::HeadAndTail => match direction {
            Direction::Up => 3usize,
            Direction::Down => 9usize,
            Direction::Left => 8usize,
            Direction::Right => 4usize,
        },
        FragmentType::Tail => match direction {
            Direction::Up => 13usize,
            Direction::Down => 19usize,
            Direction::Left => 18usize,
            Direction::Right => 14usize,
        },
    }
}

/// The sprite-atlas tile a fragment shows.
pub fn animation_index(
    fragment_type: &FragmentType,
    direction: &Direction,
    turn: &Option<TurnDirection>,
) -> (r: usize)
    ensures
        r == animation_index_spec(*fragment_type, *direction, *turn),
{
    match fragment_type {
        FragmentType::Body => match direction {
            Direction::Up => match turn {
                Some(TurnDirection::Left) => 2,
                Some(TurnDirection::Right) => 0,
                None => 7,
            },
            Direction::Down => match turn {
                Some(TurnDirection::Left) => 5,
                Some(TurnDirection::Right) => 12,
                None => 7,
            },
            Direction::Left => match turn {
                Some(TurnDirection::Left) => 0,
                Some(TurnDirection::Right) => 5,
                None => 1,
            },
            Direction::Right => match turn {
                Some(TurnDirection::Left) => 12,
                Some(TurnDirection::Right) => 2,
                None => 1,
            },
        },
        FragmentType::Head | FragmentType::HeadAndTail => match direction {
            Direction::Up => 3,
            Direction::Down => 9,
            Direction::Left => 8,
            Direction::Right => 4,
        },
        FragmentType::Tail => match direction {
            Direction::Up => 13,
            Direction::Down => 19,
            Direction::Left => 18,
            Direction::Right => 14,
        },
    }
}

/// Advances a cyclic animation one frame: the frame after the last wraps to
/// the first. Returns the new cursor and the atlas tile it selects.
pub fn next_frame(current: usize, indices: &Vec<usize>) -> (r: (usize, usize))
    requires
        indices@.len() > 0,
        current < indices@.len(),
    ensures
        r.0 == if current == indices@.len() - 1 {
            0int
        } else {
            current + 1
        },
        r.1 == indices@[r.0 as int],
{
    let next = if current == indices.len() - 1 {
        0
    } else {
        current + 1
    };
    (next, indices[next])
}

} // verus!
