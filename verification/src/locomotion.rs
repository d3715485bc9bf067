//! Per-player locomotion: fixed-point progress toward the next cell, discrete
//! cell transitions at boundaries, and turn application decoupled from the
//! visual turn animation. Progress and arc length are measured in fixed-point
//! units of [`crate::PROGRESS_ONE`] per cell, so a frame's advance is
//! `delta_time * speed` converted to those units by the host.

use vstd::prelude::*;

use crate::PROGRESS_ONE;
use crate::direction::{turn_between_spec, Direction, RequestDirection, TurnDirection};
use crate::field::{Cell, Field, WorldVec};
use crate::turn_buffer::TurnRequestsBuffer;

verus! {

/// Fixed-point units of visual turn progress that make up a full quarter
/// turn.
pub const TURN_COMPLETE: u64 = 1_000_000;

/// An in-flight visual turn: its sign and its progress toward the
/// quarter-turn threshold.
#[derive(Clone, Copy, Debug, PartialEq, Eq, Structural)]
pub struct TurningValue {
    pub direction: TurnDirection,
    pub progress: u64,
}

/// Emitted exactly when the head moves onto a new cell.
#[derive(Clone, Copy, Debug, PartialEq, Eq, Structural)]
pub struct MovedOntoNewCellEvent {
    pub cell: Cell,
}

/// Head of one player: its grid cell, logical heading, progress across the
/// current cell, the visual turn in flight if any, and the cumulative arc
/// length travelled.
pub struct HeadState {
    pub cell: Cell,
    pub direction: Direction,
    pub progress: u64,
    pub turning: Option<TurningValue>,
    pub distance_passed: u64,
}

/// The turning sub-state after advancing the turn animation: finished turns
/// are cleared at the quarter-turn threshold, so no drift accumulates across
/// many turns.
pub open spec fn turning_after(t: Option<TurningValue>, turn_advance: u64) -> Option<
    TurningValue,
> {
    match t {
        None => None,
        Some(tv) => if tv.progress + turn_advance >= TURN_COMPLETE {
            None
        } else {
            Some(TurningValue { direction: tv.direction, progress: (tv.progress + turn_advance) as u64 })
        },
    }
}

impl HeadState {
    /// Progress stays below one whole cell, the cell stays on the grid, and
    /// any in-flight turn is short of its threshold.
    pub open spec fn wf(self, field: Field) -> bool {
        &&& self.progress < PROGRESS_ONE
        &&& field.in_bounds(self.cell)
        &&& match self.turning {
            None => true,
            Some(tv) => tv.progress < TURN_COMPLETE,
        }
    }
}

/// Advances the visual turn animation; the logical heading is unaffected,
/// having changed already at the cell boundary that began the turn.
pub fn update_turning(head: &mut HeadState, turn_advance: u64)
    requires
        turn_advance <= TURN_COMPLETE,
        match old(head).turning {
            None => true,
            Some(tv) => tv.progress < TURN_COMPLETE,
        },
    ensures
        final(head).turning == turning_after(old(head).turning, turn_advance),
        final(head).cell == old(head).cell,
        final(head).direction == old(head).direction,
        final(head).progress == old(head).progress,
        final(head).distance_passed == old(head).distance_passed,
{
    match head.turning {
        None => {},
        Some(tv) => {
            let new_progress = tv.progress + turn_advance;
            if new_progress >= TURN_COMPLETE {
                head.turning = None;
            } else {
                head.turning = Some(TurningValue { direction: tv.direction, progress: new_progress });
            }
        },
    }
}

/// One tick of head movement: advances the turn animation, integrates
/// progress by `advance` fixed-point units, and on reaching a whole cell
/// steps the head one toroidal cell along its heading, carrying the progress
/// remainder. Crossing a boundary emits the event for the new cell.
pub fn move_head(head: &mut HeadState, field: &Field, advance: u64, turn_advance: u64) -> (ev:
    Option<MovedOntoNewCellEvent>)
    requires
        field.wf(),
        old(head).wf(*field),
        advance <= PROGRESS_ONE,
        turn_advance <= TURN_COMPLETE,
        old(head).distance_passed + advance <= u64::MAX,
    ensures
        final(head).wf(*field),
        final(head).turning == turning_after(old(head).turning, turn_advance),
        final(head).direction == old(head).direction,
        final(head).distance_passed == old(head).distance_passed + advance,
        old(head).progress + advance >= PROGRESS_ONE ==> {
            &&& (final(head).cell.i as int, final(head).cell.j as int) == field.step_spec(
                old(head).cell,
                old(head).direction,
                1,
            )
            &&& final(head).progress == old(head).progress + advance - PROGRESS_ONE
            &&& ev == Some(MovedOntoNewCellEvent { cell: final(head).cell })
        },
        old(head).progress + advance < PROGRESS_ONE ==> {
            &&& final(head).cell == old(head).cell
            &&& final(head).progress == old(head).progress + advance
            &&& ev is None
        },
{
    update_turning(head, turn_advance);
    head.distance_passed = head.distance_passed + advance;
    let new_progress = head.progress + advance;
    if new_progress >= PROGRESS_ONE {
        head.cell = field.single_step_into(&head.cell, &head.direction);
        head.progress = new_progress - PROGRESS_ONE;
        Some(MovedOntoNewCellEvent { cell: head.cell })
    } else {
        head.progress = new_progress;
        None
    }
}

/// What sampling the turn-request buffer at a cell boundary does to the
/// heading, the turning sub-state and the buffer: nothing unless a boundary
/// was crossed; on a crossing the oldest request is popped, and a quarter
/// turn changes the heading immediately and begins the visual turn, while a
/// request to continue straight or to reverse is dropped.
pub open spec fn apply_input_spec(
    direction: Direction,
    turning: Option<TurningValue>,
    moved: bool,
    buf: Seq<RequestDirection>,
) -> (Direction, Option<TurningValue>, Seq<RequestDirection>) {
    if !moved || buf.len() == 0 {
        (direction, turning, buf)
    } else {
        match turn_between_spec(direction, buf[0].direction_spec()) {
            Some(sign) => (
                buf[0].direction_spec(),
                Some(TurningValue { direction: sign, progress: 0 }),
                buf.skip(1),
            ),
            None => (direction, turning, buf.skip(1)),
        }
    }
}

/// Samples the turn-request buffer, once per cell-boundary crossing and only
/// then: pops the oldest pending request; a request for a quarter turn
/// changes the logical heading immediately and begins the visual turn, while
/// a request to continue straight or to reverse is silently dropped.
pub fn handle_input(head: &mut HeadState, input: &mut TurnRequestsBuffer, moved: bool)
    ensures
        final(head).cell == old(head).cell,
        final(head).progress == old(head).progress,
        final(head).distance_passed == old(head).distance_passed,
        ({
            let outcome = apply_input_spec(
                old(head).direction,
                old(head).turning,
                moved,
                old(input)@,
            );
            &&& final(head).direction == outcome.0
            &&& final(head).turning == outcome.1
            &&& final(input)@ == outcome.2
        }),
{
    if !moved {
        return ;
    }
    match input.pop() {
        None => {},
        Some(turn_request) => {
            match TurnDirection::from_turn_request(head.direction, turn_request) {
                Some(new_direction) => {
                    head.direction = turn_request.direction();
                    head.turning = Some(
                        TurningValue { direction: new_direction, progress: 0 },
                    );
                },
                None => {},
            }
        },
    }
}

/// Derives the head's cell from its continuous world position and reports a
/// crossing: when the position's cell differs from the stored one, the stored
/// cell is replaced and the event for the new cell is emitted.
pub fn check_if_on_new_cell(current: &mut Cell, field: &Field, position: WorldVec) -> (ev: Option<
    MovedOntoNewCellEvent,
>)
    requires
        field.wf(),
        field.on_field(position),
    ensures
        ({
            let c = field.cell_spec(position.x as int, position.y as int);
            if (old(current).i as int, old(current).j as int) == c {
                *final(current) == *old(current) && ev is None
            } else {
                (final(current).i as int, final(current).j as int) == c && ev == Some(
                    MovedOntoNewCellEvent { cell: *final(current) },
                )
            }
        }),
        field.in_bounds(*final(current)) || *final(current) == *old(current),
{
    let c = field.cell(position);
    if c.i != current.i || c.j != current.j {
        *current = c;
        Some(MovedOntoNewCellEvent { cell: c })
    } else {
        None
    }
}

/// No reverse: sampling a pending request for the exact opposite of the
/// current heading at a cell boundary yields no turn and leaves the heading
/// and the turning sub-state exactly as they were; the request is dropped.
pub proof fn lemma_no_reverse_at_boundary(
    d: Direction,
    t: Option<TurningValue>,
    buf: Seq<RequestDirection>,
)
    requires
        buf.len() > 0,
        buf[0].direction_spec() == d.opposite_spec(),
    ensures
        turn_between_spec(d, buf[0].direction_spec()) is None,
        apply_input_spec(d, t, true, buf).0 == d,
        apply_input_spec(d, t, true, buf).1 == t,
        apply_input_spec(d, t, true, buf).2 == buf.skip(1),
{
}

} // verus!
