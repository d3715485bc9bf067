//! One player's whole simulation state and the fixed-order tick that drives
//! it: movement and progress integration, cell-boundary detection, history
//! recording, collision detection, turn application, and fragment
//! repositioning. Growth runs separately, once per collision event, as the
//! host consumes those events.

use vstd::prelude::*;

use crate::PROGRESS_ONE;
use crate::body::{lerp_spec, Fragment, FragmentType};
use crate::direction::Direction;
use crate::field::{cell_xy, pos_xy, Cell, Field, WorldVec};
use crate::growth::{check_collision, collisions_spec, CollisionEvent, Consumable, PlayerId};
use crate::locomotion::{
    apply_input_spec, handle_input, move_head, turning_after, HeadState, MovedOntoNewCellEvent,
    TURN_COMPLETE,
};
use crate::trailing::{
    distances_sorted, move_body, trailed_fragment, BodyInfo, DistancePassed, PreviousHeadPositions,
};
use crate::turn_buffer::TurnRequestsBuffer;

verus! {

/// Where a player starts: its cell, heading, speed in progress units per
/// second, and the arc-length gap between body fragments.
pub struct PlayerStartSetting {
    pub cell: Cell,
    pub direction: Direction,
    pub speed: u64,
    pub gap: u64,
}

/// Everything the simulation owns for one player, including whether the last
/// tick crossed a cell boundary: that crossing's turn sampling takes effect
/// at the start of the next tick, so a turn never changes the cell used for
/// collision matching in the tick that entered it.
pub struct PlayerState {
    pub head: HeadState,
    pub history: PreviousHeadPositions,
    pub info: BodyInfo,
    pub pending_crossing: bool,
}

/// The head's continuous world position: between the centre of its cell and
/// the centre of the next cell along its heading, by its progress.
pub open spec fn head_pose_spec(field: Field, head: HeadState) -> (int, int) {
    let base = field.center_spec(head.cell);
    let stepped = field.step_spec(head.cell, head.direction, 1);
    let next = field.center_spec(Cell { i: stepped.0 as i32, j: stepped.1 as i32 });
    (
        lerp_spec(base.0, next.0, head.progress as int),
        lerp_spec(base.1, next.1, head.progress as int),
    )
}

/// The head's continuous world position, for recording into the history and
/// for rendering.
pub fn head_world_position(field: &Field, head: &HeadState) -> (r: WorldVec)
    requires
        field.wf(),
        field.in_bounds(head.cell),
        head.progress <= PROGRESS_ONE,
    ensures
        pos_xy(r) == head_pose_spec(*field, *head),
{
    let next_cell = field.single_step_into(&head.cell, &head.direction);
    let base = field.translation_of_cell(&head.cell);
    let next = field.translation_of_cell(&next_cell);
    proof {
        crate::body::lemma_lerp_span_in_range(*field, base, next);
        let stepped = field.step_spec(head.cell, head.direction, 1);
        assert(next_cell.i == stepped.0 as i32 && next_cell.j == stepped.1 as i32);
    }
    WorldVec {
        x: crate::body::lerp_coord(base.x, next.x, head.progress),
        y: crate::body::lerp_coord(base.y, next.y, head.progress),
    }
}

impl PlayerState {
    /// The standing invariant of a player: a well-formed head, a non-empty
    /// history of in-bounds samples sorted by arc length and none newer than
    /// the head, in-bounds fragment cells, and room in the arc-length
    /// arithmetic for the whole chain.
    pub open spec fn wf(self, field: Field) -> bool {
        &&& self.head.wf(field)
        &&& self.history.0@.len() > 0
        &&& distances_sorted(self.history.0@)
        &&& forall|i: int|
            0 <= i < self.history.0@.len() ==> #[trigger] self.history.0@[i].distance_passed.0
                <= self.head.distance_passed
        &&& forall|i: int|
            0 <= i < self.history.0@.len() ==> field.in_bounds(
                #[trigger] self.history.0@[i].cell,
            )
        &&& forall|k: int|
            0 <= k < self.info.body@.len() ==> field.in_bounds(#[trigger] self.info.body@[k].cell)
        &&& self.info.first_gap + self.info.body@.len() * self.info.gap <= u64::MAX
    }
}

/// The fragment a fresh body starts with at slot `k`: at the head's start
/// cell and position, ordinal `k`, the last one the tail.
pub open spec fn initial_fragment(
    field: Field,
    cell: Cell,
    direction: Direction,
    k: int,
    count: int,
) -> Fragment {
    Fragment {
        number: k as u32,
        fragment_type: if k == count - 1 {
            FragmentType::Tail
        } else {
            FragmentType::Body
        },
        cell,
        direction,
        turn: None,
        position: WorldVec {
            x: field.center_spec(cell).0 as i64,
            y: field.center_spec(cell).1 as i64,
        },
    }
}

/// Creates a player at its start setting: the head on its start cell with no
/// progress and no distance, a history holding that one starting sample, and
/// `fragment_count` fragments stacked on the start cell.
pub fn setup(field: &Field, settings: &PlayerStartSetting, fragment_count: usize) -> (r:
    PlayerState)
    requires
        field.wf(),
        field.in_bounds(settings.cell),
        1 <= fragment_count,
        settings.gap > 0,
        settings.gap <= 0xffff_ffff,
        fragment_count <= 0xffff_ffff,
    ensures
        r.wf(*field),
        r.head.cell == settings.cell,
        r.head.direction == settings.direction,
        r.head.progress == 0,
        r.head.turning is None,
        r.head.distance_passed == 0,
        !r.pending_crossing,
        r.info.first_gap == settings.gap,
        r.info.gap == settings.gap,
        r.info.body@.len() == fragment_count,
        forall|k: int|
            0 <= k < fragment_count ==> #[trigger] r.info.body@[k] == initial_fragment(
                *field,
                settings.cell,
                settings.direction,
                k,
                fragment_count as int,
            ),
        r.history.0@.len() == 1,
        r.history.0@[0].cell == settings.cell,
        r.history.0@[0].distance_passed.0 == 0,
        pos_xy(r.history.0@[0].position) == field.center_spec(settings.cell),
{
    let position = field.translation_of_cell(&settings.cell);
    let head = HeadState {
        cell: settings.cell,
        direction: settings.direction,
        progress: 0,
        turning: None,
        distance_passed: 0,
    };
    let mut history = PreviousHeadPositions(Vec::new());
    history.record(position, settings.cell, DistancePassed(0));
    let mut body: Vec<Fragment> = Vec::new();
    let mut k: usize = 0;
    while k < fragment_count
        invariant
            field.wf(),
            field.in_bounds(settings.cell),
            fragment_count <= 0xffff_ffff,
            k <= fragment_count,
            pos_xy(position) == field.center_spec(settings.cell),
            body@.len() == k,
            forall|m: int|
                0 <= m < k ==> #[trigger] body@[m] == initial_fragment(
                    *field,
                    settings.cell,
                    settings.direction,
                    m,
                    fragment_count as int,
                ),
        decreases fragment_count - k,
    {
        let fragment_type = if k == fragment_count - 1 {
            FragmentType::Tail
        } else {
            FragmentType::Body
        };
        body.push(
            Fragment {
                number: k as u32,
                fragment_type,
                cell: settings.cell,
                direction: settings.direction,
                turn: None,
                position,
            },
        );
        k = k + 1;
    }
    proof {
        let g = settings.gap as int;
        let n = fragment_count as int;
        assert(g + n * g <= u64::MAX) by (nonlinear_arith)
            requires
                0 < g <= 0xffff_ffff,
                1 <= n <= 0xffff_ffff,
        ;
    }
    PlayerState {
        head,
        history,
        info: BodyInfo { body, first_gap: settings.gap, gap: settings.gap },
        pending_crossing: false,
    }
}

/// One simulation tick for one player, in the fixed order the design owes:
/// the previous tick's boundary crossing, if any, samples the turn buffer and
/// may change the heading; the head then moves (finishing any turn animation
/// and crossing at most one cell boundary); the new head sample is recorded;
/// collisions are checked against the cell the head just entered, before any
/// later turn can change it; and the body fragments are repositioned from the
/// history. Growth runs separately, as the host consumes the collision
/// events. Returns the boundary event, if any, and the collision events.
pub fn tick(
    state: &mut PlayerState,
    field: &Field,
    player: PlayerId,
    advance: u64,
    turn_advance: u64,
    input: &mut TurnRequestsBuffer,
    consumables: &Vec<Consumable>,
) -> (r: (Option<MovedOntoNewCellEvent>, Vec<CollisionEvent>))
    requires
        field.wf(),
        old(state).wf(*field),
        advance <= PROGRESS_ONE,
        turn_advance <= TURN_COMPLETE,
        old(state).head.distance_passed + advance <= u64::MAX,
    ensures
        final(state).wf(*field),
        final(state).head.distance_passed == old(state).head.distance_passed + advance,
        final(state).info.first_gap == old(state).info.first_gap,
        final(state).info.gap == old(state).info.gap,
        final(state).info.body@.len() == old(state).info.body@.len(),
        ({
            let fin = *final(state);
            let fin_input = *final(input);
            let outcome = apply_input_spec(
                old(state).head.direction,
                old(state).head.turning,
                old(state).pending_crossing,
                old(input)@,
            );
            let crossed = old(state).head.progress + advance >= PROGRESS_ONE;
            let moved_cell = field.step_spec(old(state).head.cell, outcome.0, 1);
            &&& fin.head.direction == outcome.0
            &&& fin.head.turning == turning_after(outcome.1, turn_advance)
            &&& fin_input@ == outcome.2
            &&& ((r.0 is Some) <==> crossed)
            &&& fin.pending_crossing == crossed
            &&& (crossed ==> cell_xy(fin.head.cell) == moved_cell
                && fin.head.progress == old(state).head.progress + advance - PROGRESS_ONE
                && r.0 == Some(MovedOntoNewCellEvent { cell: fin.head.cell }))
            &&& (!crossed ==> fin.head.cell == old(state).head.cell
                && fin.head.progress == old(state).head.progress + advance)
            &&& (crossed ==> r.1@ == collisions_spec(consumables@, player, fin.head.cell))
            &&& (!crossed ==> r.1@ == Seq::<CollisionEvent>::empty())
        }),
        final(state).history.0@.len() == old(state).history.0@.len() + 1,
        final(state).history.0@.take(old(state).history.0@.len() as int) == old(state).history.0@,
        ({
            let s = final(state).history.0@.last();
            &&& s.distance_passed.0 == old(state).head.distance_passed + advance
            &&& s.cell == final(state).head.cell
        }),
        forall|k: int|
            0 <= k < old(state).info.body@.len() ==> #[trigger] final(state).info.body@[k]
                == trailed_fragment(
                final(state).history.0@,
                (old(state).head.distance_passed + advance) as int,
                old(state).info.first_gap + k * old(state).info.gap,
                old(state).info.body@[k],
            ),
{
    let moved = state.pending_crossing;
    handle_input(&mut state.head, input, moved);
    let ev = move_head(&mut state.head, field, advance, turn_advance);
    let position = head_world_position(field, &state.head);
    state.history.record(position, state.head.cell, DistancePassed(state.head.distance_passed));
    let collisions = match &ev {
        Some(event) => check_collision(player, event.cell, consumables),
        None => Vec::new(),
    };
    state.pending_crossing = ev.is_some();
    proof {
        let h = state.history.0@;
        let n = old(state).history.0@.len() as int;
        assert(h.take(n) =~= old(state).history.0@);
        assert forall|i: int|
            0 <= i < h.len() implies #[trigger] h[i].distance_passed.0
            <= state.head.distance_passed by {
            if i < n {
                assert(h[i] == old(state).history.0@[i]);
            }
        }
        assert forall|i: int| 0 <= i < h.len() implies field.in_bounds(#[trigger] h[i].cell) by {
            if i < n {
                assert(h[i] == old(state).history.0@[i]);
            }
        }
    }
    move_body(&mut state.info, &state.history, DistancePassed(state.head.distance_passed));
    proof {
        let h = state.history.0@;
        assert(h.take(old(state).history.0@.len() as int) =~= old(state).history.0@);
        assert forall|k: int|
            0 <= k < state.info.body@.len() implies field.in_bounds(
            #[trigger] state.info.body@[k].cell,
        ) by {
            crate::trailing::lemma_sample_index_props(
                h,
                state.head.distance_passed as int,
                old(state).info.first_gap + k * old(state).info.gap,
            );
        }
    }
    (ev, collisions)
}

} // verus!
