//! Collision with consumables and collision-driven growth: the head entering
//! an occupied cell raises a collision event, and each event appends one new
//! tail fragment one step behind the current tail.

use vstd::prelude::*;

use crate::body::{Fragment, FragmentType};
use crate::direction::Direction;
use crate::field::{cell_xy, Cell, Field};
use crate::trailing::BodyInfo;

verus! {

/// Identifier of one player.
#[derive(Clone, Copy, Debug, PartialEq, Eq, Structural)]
pub struct PlayerId(pub i32);

/// An entity the head can collide with, as the host hands it over: an opaque
/// entity id and the cell it occupies.
#[derive(Clone, Copy, Debug, PartialEq, Eq, Structural)]
pub struct Consumable {
    pub entity: u64,
    pub cell: Cell,
}

/// Emitted when the head enters a cell occupied by a consumable.
#[derive(Clone, Copy, Debug, PartialEq, Eq, Structural)]
pub struct CollisionEvent {
    pub player: PlayerId,
    pub other: u64,
}

/// The collision events for a player entering `cell`: one per consumable
/// occupying that cell, in the order the consumables are listed.
pub open spec fn collisions_spec(s: Seq<Consumable>, player: PlayerId, cell: Cell) -> Seq<
    CollisionEvent,
>
    decreases s.len(),
{
    if s.len() == 0 {
        Seq::empty()
    } else {
        let rest = collisions_spec(s.drop_last(), player, cell);
        if s.last().cell == cell {
            rest.push(CollisionEvent { player, other: s.last().entity })
        } else {
            rest
        }
    }
}

/// The consumables that survive despawning of one entity id.
pub open spec fn without_entity(s: Seq<Consumable>, entity: u64) -> Seq<Consumable>
    decreases s.len(),
{
    if s.len() == 0 {
        Seq::empty()
    } else {
        let rest = without_entity(s.drop_last(), entity);
        if s.last().entity == entity {
            rest
        } else {
            rest.push(s.last())
        }
    }
}

/// Compares the cell the head just entered against every consumable's cell
/// and returns one collision event per match.
pub fn check_collision(player: PlayerId, new_cell: Cell, others: &Vec<Consumable>) -> (r: Vec<
    CollisionEvent,
>)
    ensures
        r@ == collisions_spec(others@, player, new_cell),
{
    let mut r: Vec<CollisionEvent> = Vec::new();
    let mut k: usize = 0;
    while k < others.len()
        invariant
            k <= others@.len(),
            r@ == collisions_spec(others@.take(k as int), player, new_cell),
        decreases others@.len() - k,
    {
        proof {
            assert(others@.take(k + 1).drop_last() =~= others@.take(k as int));
            assert(others@.take(k + 1).last() == others@[k as int]);
        }
        let c = others[k];
        if c.cell.i == new_cell.i && c.cell.j == new_cell.j {
            r.push(CollisionEvent { player, other: c.entity });
        }
        k = k + 1;
    }
    proof {
        assert(others@.take(others@.len() as int) =~= others@);
    }
    r
}

/// Drops every consumable that carries the collided entity id, as the host
/// does when it despawns the eaten food.
pub fn handle_collision(consumables: &mut Vec<Consumable>, event: &CollisionEvent)
    ensures
        final(consumables)@ == without_entity(old(consumables)@, event.other),
{
    let mut kept: Vec<Consumable> = Vec::new();
    let mut k: usize = 0;
    while k < consumables.len()
        invariant
            k <= consumables@.len(),
            consumables@ == old(consumables)@,
            kept@ == without_entity(consumables@.take(k as int), event.other),
        decreases consumables@.len() - k,
    {
        proof {
            assert(consumables@.take(k + 1).drop_last() =~= consumables@.take(k as int));
            assert(consumables@.take(k + 1).last() == consumables@[k as int]);
        }
        let c = consumables[k];
        if c.entity != event.other {
            kept.push(c);
        }
        k = k + 1;
    }
    proof {
        assert(consumables@.take(consumables@.len() as int) =~= consumables@);
    }
    *consumables = kept;
}

/// The tail fragment's role after it hands the tail over to a new fragment.
pub open spec fn demoted_tail_type(t: FragmentType) -> FragmentType {
    if t == FragmentType::HeadAndTail {
        FragmentType::Head
    } else {
        FragmentType::Body
    }
}

/// Grows the body by exactly one fragment on a collision event. The tail's
/// direction of motion comes from the last two fragment cells (or from the
/// head's heading when the body has a single fragment); the new fragment is
/// placed one toroidal step behind the tail, opposite that motion, facing
/// along it, and takes the next ordinal. The old tail stops being the tail.
pub fn grow_snake_on_feeding(info: &mut BodyInfo, field: &Field, head_direction: Direction)
    requires
        field.wf(),
        old(info).body@.len() >= 1,
        old(info).body@.last().number < u32::MAX,
        forall|k: int|
            0 <= k < old(info).body@.len() ==> field.in_bounds(#[trigger] old(info).body@[k].cell),
        old(info).body@.len() >= 2 ==> field.adjacent(
            old(info).body@[old(info).body@.len() - 2].cell,
            old(info).body@.last().cell,
        ),
    ensures
        final(info).first_gap == old(info).first_gap,
        final(info).gap == old(info).gap,
        final(info).body@.len() == old(info).body@.len() + 1,
        forall|k: int|
            0 <= k < old(info).body@.len() - 1 ==> #[trigger] final(info).body@[k] == old(
                info,
            ).body@[k],
        ({
            let n = old(info).body@.len() as int;
            let tail = old(info).body@[n - 1];
            let f = final(info).body@[n];
            &&& final(info).body@[n - 1] == (Fragment {
                fragment_type: demoted_tail_type(tail.fragment_type),
                ..tail
            })
            &&& f.number == tail.number + 1
            &&& f.fragment_type == FragmentType::Tail
            &&& f.turn is None
            &&& (n >= 2 ==> cell_xy(old(info).body@[n - 2].cell) == field.step_spec(
                tail.cell,
                f.direction,
                1,
            ))
            &&& (n == 1 ==> f.direction == head_direction)
            &&& cell_xy(f.cell) == field.step_spec(tail.cell, f.direction.opposite_spec(), 1)
            &&& field.in_bounds(f.cell)
            &&& field.adjacent(f.cell, tail.cell)
            &&& crate::field::pos_xy(f.position) == field.center_spec(f.cell)
        }),
{
    let len = info.body.len();
    let tail = info.body[len - 1];
    let motion = if len >= 2 {
        let ahead = info.body[len - 2];
        field.direction(&ahead.cell, &tail.cell)
    } else {
        head_direction
    };
    let new_cell = field.single_step_into(&tail.cell, &motion.opposite());
    let position = field.translation_of_cell(&new_cell);
    let new_fragment = Fragment {
        number: tail.number + 1,
        fragment_type: FragmentType::Tail,
        cell: new_cell,
        direction: motion,
        turn: None,
        position,
    };
    let demoted = if tail.fragment_type.is_tail() && tail.fragment_type.is_head() {
        FragmentType::Head
    } else {
        FragmentType::Body
    };
    info.body.set(len - 1, Fragment { fragment_type: demoted, ..tail });
    info.body.push(new_fragment);
    proof {
        assert(field.adjacent(new_fragment.cell, tail.cell));
    }
}

} // verus!
