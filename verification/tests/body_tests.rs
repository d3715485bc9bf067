use snake_core::body::{
    move_onto_new_cell, position_fragments, update_direction, update_turns, Fragment, FragmentType,
};
use snake_core::direction::{Direction, TurnDirection};
use snake_core::field::{Cell, Field, WorldVec};
use snake_core::growth::{
    check_collision, grow_snake_on_feeding, handle_collision, CollisionEvent, Consumable, PlayerId,
};
use snake_core::sprites::{animation_index, next_frame};
use snake_core::trailing::BodyInfo;
use snake_core::PROGRESS_ONE;

fn fragment(number: u32, fragment_type: FragmentType, cell: Cell, direction: Direction) -> Fragment {
    Fragment {
        number,
        fragment_type,
        cell,
        direction,
        turn: None,
        position: WorldVec { x: 0, y: 0 },
    }
}

#[test]
fn test_move_onto_new_cell_steps_each_fragment() {
    let field = Field::new((5, 5), (50, 50), (0, 0));
    let mut fragments = vec![
        fragment(0, FragmentType::Body, Cell::new(2, 2), Direction::Right),
        fragment(1, FragmentType::Tail, Cell::new(4, 2), Direction::Up),
    ];
    move_onto_new_cell(&mut fragments, &field);
    assert_eq!(fragments[0].cell, Cell::new(3, 2));
    assert_eq!(fragments[1].cell, Cell::new(4, 3));
    assert_eq!(fragments[0].direction, Direction::Right);
}

#[test]
fn test_update_direction_shifts_tailward() {
    let mut fragments = vec![
        fragment(0, FragmentType::Body, Cell::new(2, 2), Direction::Right),
        fragment(1, FragmentType::Body, Cell::new(1, 2), Direction::Up),
        fragment(2, FragmentType::Tail, Cell::new(1, 1), Direction::Left),
    ];
    update_direction(&mut fragments, Direction::Down);
    assert_eq!(fragments[0].direction, Direction::Down);
    assert_eq!(fragments[1].direction, Direction::Right);
    assert_eq!(fragments[2].direction, Direction::Up);
}

#[test]
fn test_update_turns_marks_corners() {
    let mut fragments = vec![
        fragment(0, FragmentType::Body, Cell::new(2, 2), Direction::Right),
        fragment(1, FragmentType::Tail, Cell::new(1, 2), Direction::Right),
    ];
    update_turns(&mut fragments, Direction::Up);
    // the first fragment heads Right while the head heads Up: a left turn
    assert_eq!(fragments[0].turn, Some(TurnDirection::Left));
    // the tail follows a straight run
    assert_eq!(fragments[1].turn, None);
}

#[test]
fn test_position_fragments_interpolates() {
    let field = Field::new((10, 10), (100, 100), (0, 0));
    let mut fragments = vec![fragment(
        0,
        FragmentType::Tail,
        Cell::new(4, 4),
        Direction::Right,
    )];
    position_fragments(&mut fragments, &field, PROGRESS_ONE / 2);
    // centre of (4,4) is (-5,-5), centre of (5,4) is (5,-5); halfway is (0,-5)
    assert_eq!(fragments[0].position, WorldVec { x: 0, y: -5 });
}

#[test]
fn test_position_fragments_corner_snaps() {
    let field = Field::new((10, 10), (100, 100), (0, 0));
    let mut fragments = vec![Fragment {
        turn: Some(TurnDirection::Left),
        ..fragment(0, FragmentType::Body, Cell::new(4, 4), Direction::Right)
    }];
    position_fragments(&mut fragments, &field, 0);
    // a mid-chain corner piece snaps to the next cell's centre
    assert_eq!(fragments[0].position, WorldVec { x: 5, y: -5 });
}

#[test]
fn test_check_collision_matches_cell() {
    let consumables = vec![
        Consumable {
            entity: 7,
            cell: Cell::new(1, 1),
        },
        Consumable {
            entity: 8,
            cell: Cell::new(2, 2),
        },
        Consumable {
            entity: 9,
            cell: Cell::new(1, 1),
        },
    ];
    let events = check_collision(PlayerId(0), Cell::new(1, 1), &consumables);
    assert_eq!(events.len(), 2);
    assert_eq!(events[0].other, 7);
    assert_eq!(events[1].other, 9);
    let none = check_collision(PlayerId(0), Cell::new(3, 3), &consumables);
    assert!(none.is_empty());
}

#[test]
fn test_handle_collision_despawns_entity() {
    let mut consumables = vec![
        Consumable {
            entity: 7,
            cell: Cell::new(1, 1),
        },
        Consumable {
            entity: 8,
            cell: Cell::new(2, 2),
        },
    ];
    handle_collision(
        &mut consumables,
        &CollisionEvent {
            player: PlayerId(0),
            other: 7,
        },
    );
    assert_eq!(consumables.len(), 1);
    assert_eq!(consumables[0].entity, 8);
}

#[test]
fn test_grow_appends_behind_tail() {
    let field = Field::new((10, 10), (100, 100), (0, 0));
    let mut info = BodyInfo {
        body: vec![
            fragment(0, FragmentType::Body, Cell::new(3, 3), Direction::Right),
            fragment(1, FragmentType::Tail, Cell::new(2, 3), Direction::Right),
        ],
        first_gap: PROGRESS_ONE,
        gap: PROGRESS_ONE,
    };
    let before = info.body.len();
    grow_snake_on_feeding(&mut info, &field, Direction::Right);
    assert_eq!(info.body.len(), before + 1);
    let new_fragment = info.body[2];
    // the tail was moving Right, so the new fragment sits one cell to the Left
    assert_eq!(new_fragment.cell, Cell::new(1, 3));
    assert_eq!(new_fragment.direction, Direction::Right);
    assert_eq!(new_fragment.number, 2);
    assert_eq!(new_fragment.fragment_type, FragmentType::Tail);
    // the old tail becomes a plain body piece
    assert_eq!(info.body[1].fragment_type, FragmentType::Body);
}

#[test]
fn test_grow_single_fragment_uses_head_direction() {
    let field = Field::new((10, 10), (100, 100), (0, 0));
    let mut info = BodyInfo {
        body: vec![fragment(
            0,
            FragmentType::HeadAndTail,
            Cell::new(0, 0),
            Direction::Up,
        )],
        first_gap: PROGRESS_ONE,
        gap: PROGRESS_ONE,
    };
    grow_snake_on_feeding(&mut info, &field, Direction::Up);
    assert_eq!(info.body.len(), 2);
    // one step behind Up wraps off the bottom edge
    assert_eq!(info.body[1].cell, Cell::new(0, 9));
    assert_eq!(info.body[0].fragment_type, FragmentType::Head);
}

#[test]
fn test_animation_index_table() {
    assert_eq!(
        animation_index(&FragmentType::Head, &Direction::Up, &None),
        3
    );
    assert_eq!(
        animation_index(&FragmentType::Tail, &Direction::Left, &None),
        18
    );
    assert_eq!(
        animation_index(&FragmentType::Body, &Direction::Right, &None),
        1
    );
    assert_eq!(
        animation_index(
            &FragmentType::Body,
            &Direction::Right,
            &Some(TurnDirection::Left)
        ),
        12
    );
    assert_eq!(
        animation_index(
            &FragmentType::Body,
            &Direction::Up,
            &Some(TurnDirection::Right)
        ),
        0
    );
}

#[test]
fn test_next_frame_cycles() {
    let indices = vec![4, 9, 2];
    assert_eq!(next_frame(0, &indices), (1, 9));
    assert_eq!(next_frame(1, &indices), (2, 2));
    assert_eq!(next_frame(2, &indices), (0, 4));
}

#[test]
fn test_fragment_type_roles() {
    assert!(FragmentType::Head.is_head());
    assert!(FragmentType::HeadAndTail.is_head());
    assert!(FragmentType::HeadAndTail.is_tail());
    assert!(FragmentType::Tail.is_tail());
    assert!(!FragmentType::Body.is_head());
    assert!(!FragmentType::Body.is_tail());
}
