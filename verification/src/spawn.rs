//! Spawning consumables at a random valid cell of the field.

use vstd::prelude::*;

use crate::field::{Cell, Field};

verus! {

/// Relies on rand::random_range: a sample drawn from `0..bound` lies in that
/// range; the range is non-empty, so the call returns.
#[verifier::external_body]
fn random_below(bound: i32) -> (r: i32)
    requires
        bound > 0,
    ensures
        0 <= r < bound,
{
    rand::random_range(0..bound)
}

/// Picks a uniformly random cell of the field for a new consumable; whatever
/// the draw, the cell is within the grid bounds.
pub fn spawn_food(field: &Field) -> (r: Cell)
    requires
        field.wf(),
    ensures
        field.in_bounds(r),
{
    let i = random_below(field.dim().0);
    let j = random_below(field.dim().1);
    Cell::new(i, j)
}

} // verus!
