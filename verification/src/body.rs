//! The chain of body fragments on the grid: discrete cell stepping one step
//! behind the head, tailward propagation of headings and turn signs, and
//! world-space placement interpolated between cell centres.

use vstd::prelude::*;

use crate::PROGRESS_ONE;
use crate::direction::{turn_between_spec, turn_direction_from_directions, Direction, TurnDirection};
use crate::field::{Cell, Field, WorldVec};

verus! {

use vstd::arithmetic::div_mod::{
    lemma_fundamental_div_mod,
    lemma_fundamental_div_mod_converse_div,
    lemma_div_pos_is_pos,
    lemma_div_is_ordered,
    lemma_div_multiples_vanish,
};

/// Role of a fragment within the chain, for sprite selection and growth.
#[derive(Clone, Copy, Debug, PartialEq, Eq, Structural)]
pub enum FragmentType {
    Head,
    Tail,
    Body,
    HeadAndTail,
}

impl FragmentType {
    pub fn is_head(&self) -> (r: bool)
        ensures
            r == (*self == FragmentType::Head || *self == FragmentType::HeadAndTail),
    {
        matches!(self, FragmentType::Head | FragmentType::HeadAndTail)
    }

    pub fn is_tail(&self) -> (r: bool)
        ensures
            r == (*self == FragmentType::Tail || *self == FragmentType::HeadAndTail),
    {
        matches!(self, FragmentType::Tail | FragmentType::HeadAndTail)
    }
}

/// One body segment: its ordinal (0 nearest the head), role, grid cell,
/// heading, the sign of the turn it is rendering if any, and its world
/// position.
#[derive(Clone, Copy, Debug, PartialEq)]
pub struct Fragment {
    pub number: u32,
    pub fragment_type: FragmentType,
    pub cell: Cell,
    pub direction: Direction,
    pub turn: Option<TurnDirection>,
    pub position: WorldVec,
}

/// Linear interpolation between two coordinates by a fixed-point fraction of
/// [`PROGRESS_ONE`], rounded toward the lower coordinate.
pub open spec fn lerp_spec(a: int, b: int, p: int) -> int {
    a + (b - a) * p / (PROGRESS_ONE as int)
}

/// Largest coordinate magnitude the interpolation accepts.
pub const MAX_LERP_COORD: i64 = 4_000_000_000_000;

/// Largest coordinate difference the interpolation accepts.
pub const MAX_LERP_SPAN: i64 = 1_000_000_000_000;

pub(crate) fn lerp_coord(a: i64, b: i64, p: u64) -> (r: i64)
    requires
        p <= PROGRESS_ONE,
        -MAX_LERP_COORD <= a <= MAX_LERP_COORD,
        -MAX_LERP_COORD <= b <= MAX_LERP_COORD,
        -MAX_LERP_SPAN <= b - a <= MAX_LERP_SPAN,
    ensures
        r as int == lerp_spec(a as int, b as int, p as int),
        a <= b ==> a <= r <= b,
        b <= a ==> b <= r <= a,
{
    let diff = b - a;
    proof {
        let d = diff as int;
        let pi = p as int;
        let one = PROGRESS_ONE as int;
        assert(-MAX_LERP_SPAN * (PROGRESS_ONE as int) <= d * pi <= MAX_LERP_SPAN * (
        PROGRESS_ONE as int)) by (nonlinear_arith)
            requires
                -MAX_LERP_SPAN <= d <= MAX_LERP_SPAN,
                0 <= pi <= PROGRESS_ONE,
        ;
        if d >= 0 {
            lemma_div_pos_is_pos(d * pi, one);
            assert(d * pi <= one * d) by (nonlinear_arith)
                requires
                    d >= 0,
                    0 <= pi <= one,
            ;
            lemma_div_is_ordered(d * pi, one * d, one);
            lemma_div_multiples_vanish(d, one);
        } else {
            assert(one * d <= d * pi <= 0) by (nonlinear_arith)
                requires
                    d < 0,
                    0 <= pi <= one,
                    0 < one,
            ;
            lemma_div_is_ordered(one * d, d * pi, one);
            lemma_div_is_ordered(d * pi, 0, one);
            lemma_div_multiples_vanish(d, one);
            assert((0int) / one == 0);
        }
    }
    let prod = diff * (p as i64);
    let q = floor_div(prod, PROGRESS_ONE as i64);
    a + q
}

/// Floor division by a positive divisor: the quotient the mathematical
/// division gives, also for negative dividends.
fn floor_div(a: i64, b: i64) -> (r: i64)
    requires
        0 < b,
        -4_000_000_000_000_000_000 <= a <= 4_000_000_000_000_000_000,
    ensures
        r as int == (a as int) / (b as int),
{
    if a >= 0 {
        a / b
    } else {
        let q = (-a) / b;
        let m = (-a) % b;
        if m == 0 {
            proof {
                lemma_fundamental_div_mod(-(a as int), b as int);
                assert(a as int == (-(q as int)) * (b as int) + 0) by (nonlinear_arith)
                    requires
                        -(a as int) == (b as int) * (q as int),
                ;
                lemma_fundamental_div_mod_converse_div(a as int, b as int, -(q as int), 0);
            }
            -q
        } else {
            proof {
                lemma_fundamental_div_mod(-(a as int), b as int);
                assert(a as int == (-(q as int) - 1) * (b as int) + ((b as int) - (m as int)))
                    by (nonlinear_arith)
                    requires
                        -(a as int) == (b as int) * (q as int) + (m as int),
                ;
                lemma_fundamental_div_mod_converse_div(
                    a as int,
                    b as int,
                    -(q as int) - 1,
                    (b - m) as int,
                );
            }
            -q - 1
        }
    }
}

/// A fragment after one toroidal step along its own heading.
pub open spec fn stepped_fragment(field: Field, f: Fragment) -> Fragment {
    let stepped = field.step_spec(f.cell, f.direction, 1);
    Fragment { cell: Cell { i: stepped.0 as i32, j: stepped.1 as i32 }, ..f }
}

/// Fragment `m` of the chain after headings shifted one place tailward: the
/// first takes the lead heading, every other the heading of its predecessor.
pub open spec fn shifted_fragment(s: Seq<Fragment>, lead: Direction, m: int) -> Fragment {
    Fragment {
        direction: if m == 0 {
            lead
        } else {
            s[m - 1].direction
        },
        ..s[m]
    }
}

/// Fragment `m` of the chain with its turn sign recomputed from its own
/// heading and the heading of the piece ahead of it.
pub open spec fn turned_fragment(s: Seq<Fragment>, lead: Direction, m: int) -> Fragment {
    Fragment {
        turn: turn_between_spec(
            s[m].direction,
            if m == 0 {
                lead
            } else {
                s[m - 1].direction
            },
        ),
        ..s[m]
    }
}

/// Steps every fragment one toroidal cell along its own heading; everything
/// else about each fragment is untouched. Run once per cell-boundary
/// crossing, before headings are shifted tailward.
pub fn move_onto_new_cell(fragments: &mut Vec<Fragment>, field: &Field)
    requires
        field.wf(),
        forall|k: int|
            0 <= k < old(fragments)@.len() ==> field.in_bounds(#[trigger] old(fragments)@[k].cell),
    ensures
        final(fragments)@.len() == old(fragments)@.len(),
        forall|k: int|
            0 <= k < old(fragments)@.len() ==> #[trigger] final(fragments)@[k] == stepped_fragment(
                *field,
                old(fragments)@[k],
            ),
        forall|k: int|
            0 <= k < old(fragments)@.len() ==> field.in_bounds(
                #[trigger] final(fragments)@[k].cell,
            ),
{
    let mut k: usize = 0;
    while k < fragments.len()
        invariant
            field.wf(),
            k <= fragments@.len(),
            fragments@.len() == old(fragments)@.len(),
            forall|m: int|
                0 <= m < old(fragments)@.len() ==> field.in_bounds(
                    #[trigger] old(fragments)@[m].cell,
                ),
            forall|m: int| k <= m < fragments@.len() ==> fragments@[m] == old(fragments)@[m],
            forall|m: int|
                0 <= m < k ==> #[trigger] fragments@[m] == stepped_fragment(
                    *field,
                    old(fragments)@[m],
                ),
            forall|m: int| 0 <= m < k ==> field.in_bounds(#[trigger] fragments@[m].cell),
        decreases fragments@.len() - k,
    {
        let f = fragments[k];
        let new_cell = field.single_step_into(&f.cell, &f.direction);
        proof {
            let stepped = field.step_spec(f.cell, f.direction, 1);
            assert(new_cell.i == stepped.0 as i32 && new_cell.j == stepped.1 as i32);
        }
        fragments.set(k, Fragment { cell: new_cell, ..f });
        k = k + 1;
    }
}

/// Shifts headings one place tailward at a cell boundary: the first fragment
/// takes the heading the head had when it crossed, and every other fragment
/// takes the heading its predecessor had, so each follows the path of the one
/// before it.
pub fn update_direction(fragments: &mut Vec<Fragment>, lead_direction: Direction)
    ensures
        final(fragments)@.len() == old(fragments)@.len(),
        forall|k: int|
            0 <= k < old(fragments)@.len() ==> #[trigger] final(fragments)@[k] == shifted_fragment(
                old(fragments)@,
                lead_direction,
                k,
            ),
{
    let mut prev = lead_direction;
    let mut k: usize = 0;
    while k < fragments.len()
        invariant
            k <= fragments@.len(),
            fragments@.len() == old(fragments)@.len(),
            prev == if k == 0 {
                lead_direction
            } else {
                old(fragments)@[k - 1].direction
            },
            forall|m: int| k <= m < fragments@.len() ==> fragments@[m] == old(fragments)@[m],
            forall|m: int|
                0 <= m < k ==> #[trigger] fragments@[m] == shifted_fragment(
                    old(fragments)@,
                    lead_direction,
                    m,
                ),
        decreases fragments@.len() - k,
    {
        let f = fragments[k];
        fragments.set(k, Fragment { direction: prev, ..f });
        prev = f.direction;
        k = k + 1;
    }
}

/// Recomputes each fragment's turn sign from its own heading and the heading
/// of the piece ahead of it (the head for the first fragment): the sign of
/// the corner it is currently rendering, `None` on a straight run. Run after
/// the headings have been shifted.
pub fn update_turns(fragments: &mut Vec<Fragment>, lead_direction: Direction)
    ensures
        final(fragments)@.len() == old(fragments)@.len(),
        forall|k: int|
            0 <= k < old(fragments)@.len() ==> #[trigger] final(fragments)@[k] == turned_fragment(
                old(fragments)@,
                lead_direction,
                k,
            ),
{
    let mut prev = lead_direction;
    let mut k: usize = 0;
    while k < fragments.len()
        invariant
            k <= fragments@.len(),
            fragments@.len() == old(fragments)@.len(),
            prev == if k == 0 {
                lead_direction
            } else {
                old(fragments)@[k - 1].direction
            },
            forall|m: int| k <= m < fragments@.len() ==> fragments@[m] == old(fragments)@[m],
            forall|m: int|
                0 <= m < k ==> #[trigger] fragments@[m] == turned_fragment(
                    old(fragments)@,
                    lead_direction,
                    m,
                ),
        decreases fragments@.len() - k,
    {
        let f = fragments[k];
        let new_turn = turn_direction_from_directions(f.direction, prev);
        fragments.set(k, Fragment { turn: new_turn, ..f });
        prev = f.direction;
        k = k + 1;
    }
}

/// Where a fragment stands in world space, given the player's progress toward
/// the next cell: interpolated between its cell's centre and the next cell's
/// centre, except that a mid-chain fragment rendering a corner snaps to the
/// next cell's centre.
pub open spec fn fragment_pose_spec(field: Field, f: Fragment, progress: u64) -> (int, int) {
    let base = field.center_spec(f.cell);
    let stepped = field.step_spec(f.cell, f.direction, 1);
    let next = field.center_spec(Cell { i: stepped.0 as i32, j: stepped.1 as i32 });
    if f.turn is Some && f.fragment_type == FragmentType::Body {
        next
    } else {
        (lerp_spec(base.0, next.0, progress as int), lerp_spec(base.1, next.1, progress as int))
    }
}

/// A fragment placed in world space by [`fragment_pose_spec`].
pub open spec fn posed_fragment(field: Field, f: Fragment, progress: u64) -> Fragment {
    let pose = fragment_pose_spec(field, f, progress);
    Fragment { position: WorldVec { x: pose.0 as i64, y: pose.1 as i64 }, ..f }
}

/// Places every fragment in world space for rendering, by
/// [`fragment_pose_spec`]; only the positions change.
pub fn position_fragments(fragments: &mut Vec<Fragment>, field: &Field, progress: u64)
    requires
        field.wf(),
        progress <= PROGRESS_ONE,
        forall|k: int|
            0 <= k < old(fragments)@.len() ==> field.in_bounds(#[trigger] old(fragments)@[k].cell),
    ensures
        final(fragments)@.len() == old(fragments)@.len(),
        forall|k: int|
            0 <= k < old(fragments)@.len() ==> #[trigger] final(fragments)@[k] == posed_fragment(
                *field,
                old(fragments)@[k],
                progress,
            ),
{
    let mut k: usize = 0;
    while k < fragments.len()
        invariant
            field.wf(),
            progress <= PROGRESS_ONE,
            k <= fragments@.len(),
            fragments@.len() == old(fragments)@.len(),
            forall|m: int|
                0 <= m < old(fragments)@.len() ==> field.in_bounds(
                    #[trigger] old(fragments)@[m].cell,
                ),
            forall|m: int| k <= m < fragments@.len() ==> fragments@[m] == old(fragments)@[m],
            forall|m: int|
                0 <= m < k ==> #[trigger] fragments@[m] == posed_fragment(
                    *field,
                    old(fragments)@[m],
                    progress,
                ),
        decreases fragments@.len() - k,
    {
        let f = fragments[k];
        let next_cell = field.single_step_into(&f.cell, &f.direction);
        let base = field.translation_of_cell(&f.cell);
        let next = field.translation_of_cell(&next_cell);
        let is_corner_body = f.turn.is_some() && matches!(f.fragment_type, FragmentType::Body);
        let position = if is_corner_body {
            next
        } else {
            proof {
                lemma_lerp_span_in_range(*field, base, next);
            }
            WorldVec {
                x: lerp_coord(base.x, next.x, progress),
                y: lerp_coord(base.y, next.y, progress),
            }
        };
        proof {
            let stepped = field.step_spec(f.cell, f.direction, 1);
            assert(next_cell.i == stepped.0 as i32 && next_cell.j == stepped.1 as i32);
        }
        fragments.set(k, Fragment { position, ..f });
        k = k + 1;
    }
}

/// Two positions on one well-formed field are close enough for the
/// interpolation's bounds.
pub(crate) proof fn lemma_lerp_span_in_range(field: Field, a: WorldVec, b: WorldVec)
    requires
        field.wf(),
        field.on_field(a),
        field.on_field(b),
    ensures
        -MAX_LERP_COORD <= a.x <= MAX_LERP_COORD,
        -MAX_LERP_COORD <= a.y <= MAX_LERP_COORD,
        -MAX_LERP_COORD <= b.x <= MAX_LERP_COORD,
        -MAX_LERP_COORD <= b.y <= MAX_LERP_COORD,
        -MAX_LERP_SPAN <= b.x - a.x <= MAX_LERP_SPAN,
        -MAX_LERP_SPAN <= b.y - a.y <= MAX_LERP_SPAN,
{
    assert(0 < field.cell_size * field.dim_x <= (crate::field::MAX_CELL_SIZE as int) * (
    crate::field::MAX_DIM as int)) by (nonlinear_arith)
        requires
            0 < field.cell_size <= crate::field::MAX_CELL_SIZE,
            0 < field.dim_x <= crate::field::MAX_DIM,
    ;
    assert(0 < field.cell_size * field.dim_y <= (crate::field::MAX_CELL_SIZE as int) * (
    crate::field::MAX_DIM as int)) by (nonlinear_arith)
        requires
            0 < field.cell_size <= crate::field::MAX_CELL_SIZE,
            0 < field.dim_y <= crate::field::MAX_DIM,
    ;
}

} // verus!
