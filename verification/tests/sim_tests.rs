use snake_core::direction::{Direction, RequestDirection, TurnDirection};
use snake_core::field::{Cell, Field, WorldVec};
use snake_core::growth::{grow_snake_on_feeding, Consumable, PlayerId};
use snake_core::locomotion::{move_head, update_turning, HeadState, TurningValue, TURN_COMPLETE};
use snake_core::trailing::DistancePassed;
use snake_core::sim::{head_world_position, setup, tick, PlayerStartSetting, PlayerState};
use snake_core::turn_buffer::TurnRequestsBuffer;
use snake_core::PROGRESS_ONE;

fn ten_by_ten() -> Field {
    Field::new((10, 10), (100, 100), (0, 0))
}

fn player_at(field: &Field, cell: Cell, direction: Direction, fragments: usize) -> PlayerState {
    let settings = PlayerStartSetting {
        cell,
        direction,
        speed: PROGRESS_ONE,
        gap: PROGRESS_ONE,
    };
    setup(field, &settings, fragments)
}

#[test]
fn test_scenario_three_ticks_then_left_turn() {
    // 10x10 field, head starts at (4,4) facing Right, one cell per tick
    let field = ten_by_ten();
    let mut state = player_at(&field, Cell::new(4, 4), Direction::Right, 3);
    let mut input = TurnRequestsBuffer::new();
    let consumables: Vec<Consumable> = Vec::new();
    for _ in 0..3 {
        tick(
            &mut state,
            &field,
            PlayerId(0),
            PROGRESS_ONE,
            TURN_COMPLETE,
            &mut input,
            &consumables,
        );
    }
    assert_eq!(state.head.cell, Cell::new(7, 4));
    assert_eq!(state.head.progress, 0);
    assert_eq!(state.head.direction, Direction::Right);
    // an Up request is a left turn from Right; pushed before tick 4
    input.push(RequestDirection::Up);
    let (ev, _) = tick(
        &mut state,
        &field,
        PlayerId(0),
        PROGRESS_ONE,
        TURN_COMPLETE,
        &mut input,
        &consumables,
    );
    assert_eq!(state.head.direction, Direction::Up);
    assert_eq!(state.head.cell, Cell::new(7, 5));
    assert_eq!(ev.unwrap().cell, Cell::new(7, 5));
}

#[test]
fn test_scenario_reverse_request_ignored() {
    let field = ten_by_ten();
    let mut state = player_at(&field, Cell::new(4, 4), Direction::Right, 1);
    let mut input = TurnRequestsBuffer::new();
    let consumables: Vec<Consumable> = Vec::new();
    // cross one boundary so the next tick samples the buffer
    tick(
        &mut state,
        &field,
        PlayerId(0),
        PROGRESS_ONE,
        TURN_COMPLETE,
        &mut input,
        &consumables,
    );
    input.push(RequestDirection::Left);
    tick(
        &mut state,
        &field,
        PlayerId(0),
        PROGRESS_ONE,
        TURN_COMPLETE,
        &mut input,
        &consumables,
    );
    // the reverse request was dropped: still heading Right, straight on
    assert_eq!(state.head.direction, Direction::Right);
    assert_eq!(state.head.cell, Cell::new(6, 4));
    assert_eq!(input.pop(), None);
}

#[test]
fn test_scenario_wrap_around() {
    // field width 5: stepping Right off column 4 lands on column 0
    let field = Field::new((5, 5), (50, 50), (0, 0));
    let mut state = player_at(&field, Cell::new(4, 2), Direction::Right, 1);
    let mut input = TurnRequestsBuffer::new();
    let consumables: Vec<Consumable> = Vec::new();
    let (ev, _) = tick(
        &mut state,
        &field,
        PlayerId(0),
        PROGRESS_ONE,
        TURN_COMPLETE,
        &mut input,
        &consumables,
    );
    assert_eq!(state.head.cell, Cell::new(0, 2));
    assert_eq!(ev.unwrap().cell, Cell::new(0, 2));
}

#[test]
fn test_scenario_consumable_collision_and_growth() {
    // a consumable at (7,5); the head reaches it after a left turn
    let field = ten_by_ten();
    let mut state = player_at(&field, Cell::new(4, 4), Direction::Right, 1);
    let mut input = TurnRequestsBuffer::new();
    let consumables = vec![Consumable {
        entity: 42,
        cell: Cell::new(7, 5),
    }];
    for _ in 0..3 {
        let (_, collisions) = tick(
            &mut state,
            &field,
            PlayerId(3),
            PROGRESS_ONE,
            TURN_COMPLETE,
            &mut input,
            &consumables,
        );
        assert!(collisions.is_empty());
    }
    input.push(RequestDirection::Up);
    let (ev, collisions) = tick(
        &mut state,
        &field,
        PlayerId(3),
        PROGRESS_ONE,
        TURN_COMPLETE,
        &mut input,
        &consumables,
    );
    // the event reports (7,5) and exactly one collision fires
    assert_eq!(ev.unwrap().cell, Cell::new(7, 5));
    assert_eq!(collisions.len(), 1);
    assert_eq!(collisions[0].player, PlayerId(3));
    assert_eq!(collisions[0].other, 42);
    // growth on that event adds exactly one fragment
    let previous_len = state.info.body.len();
    grow_snake_on_feeding(&mut state.info, &field, state.head.direction);
    assert_eq!(state.info.body.len(), previous_len + 1);
}

#[test]
fn test_scenario_fragments_trail_straight_line() {
    // gap of one cell: after a straight run, fragment k sits on the head's
    // cell from exactly k+1 cells earlier
    let field = ten_by_ten();
    let mut state = player_at(&field, Cell::new(2, 4), Direction::Right, 3);
    let mut input = TurnRequestsBuffer::new();
    let consumables: Vec<Consumable> = Vec::new();
    for _ in 0..6 {
        tick(
            &mut state,
            &field,
            PlayerId(0),
            PROGRESS_ONE,
            TURN_COMPLETE,
            &mut input,
            &consumables,
        );
    }
    assert_eq!(state.head.cell, Cell::new(8, 4));
    assert_eq!(state.info.body[0].cell, Cell::new(7, 4));
    assert_eq!(state.info.body[1].cell, Cell::new(6, 4));
    assert_eq!(state.info.body[2].cell, Cell::new(5, 4));
}

#[test]
fn test_scenario_fragments_follow_around_corner() {
    // fragments replay the head's exact path, corners included
    let field = ten_by_ten();
    let mut state = player_at(&field, Cell::new(2, 4), Direction::Right, 2);
    let mut input = TurnRequestsBuffer::new();
    let consumables: Vec<Consumable> = Vec::new();
    for _ in 0..3 {
        tick(
            &mut state,
            &field,
            PlayerId(0),
            PROGRESS_ONE,
            TURN_COMPLETE,
            &mut input,
            &consumables,
        );
    }
    // head at (5,4); turn up, then two more ticks: head goes (5,5), (5,6)
    input.push(RequestDirection::Up);
    for _ in 0..2 {
        tick(
            &mut state,
            &field,
            PlayerId(0),
            PROGRESS_ONE,
            TURN_COMPLETE,
            &mut input,
            &consumables,
        );
    }
    assert_eq!(state.head.cell, Cell::new(5, 6));
    // the first fragment is one cell behind along the head's own path
    assert_eq!(state.info.body[0].cell, Cell::new(5, 5));
    // the second is two cells behind: still before the corner
    assert_eq!(state.info.body[1].cell, Cell::new(5, 4));
}

#[test]
fn test_clamps_to_oldest_sample_at_start() {
    // right after setup the history has one sample: every fragment clamps to it
    let field = ten_by_ten();
    let mut state = player_at(&field, Cell::new(4, 4), Direction::Right, 3);
    let mut input = TurnRequestsBuffer::new();
    let consumables: Vec<Consumable> = Vec::new();
    tick(
        &mut state,
        &field,
        PlayerId(0),
        PROGRESS_ONE / 2,
        TURN_COMPLETE,
        &mut input,
        &consumables,
    );
    for k in 0..3 {
        assert_eq!(state.info.body[k].cell, Cell::new(4, 4));
    }
}

#[test]
fn test_move_head_carries_progress_remainder() {
    let field = ten_by_ten();
    let mut head = HeadState {
        cell: Cell::new(1, 1),
        direction: Direction::Up,
        progress: 0,
        turning: None,
        distance_passed: 0,
    };
    let ev = move_head(&mut head, &field, 700_000, 0);
    assert!(ev.is_none());
    assert_eq!(head.progress, 700_000);
    assert_eq!(head.cell, Cell::new(1, 1));
    let ev = move_head(&mut head, &field, 700_000, 0);
    // crossed the boundary with a remainder of 0.4 cells
    assert_eq!(ev.unwrap().cell, Cell::new(1, 2));
    assert_eq!(head.progress, 400_000);
    assert_eq!(head.distance_passed, 1_400_000);
}

#[test]
fn test_update_turning_completes_at_threshold() {
    let mut head = HeadState {
        cell: Cell::new(0, 0),
        direction: Direction::Right,
        progress: 0,
        turning: Some(TurningValue {
            direction: TurnDirection::Left,
            progress: 0,
        }),
        distance_passed: 0,
    };
    update_turning(&mut head, TURN_COMPLETE / 2);
    assert_eq!(
        head.turning,
        Some(TurningValue {
            direction: TurnDirection::Left,
            progress: TURN_COMPLETE / 2,
        })
    );
    update_turning(&mut head, TURN_COMPLETE / 2);
    assert_eq!(head.turning, None);
    assert_eq!(head.direction, Direction::Right);
}

#[test]
fn test_head_world_position_interpolates() {
    let field = ten_by_ten();
    let head = HeadState {
        cell: Cell::new(4, 4),
        direction: Direction::Right,
        progress: PROGRESS_ONE / 2,
        turning: None,
        distance_passed: 0,
    };
    assert_eq!(head_world_position(&field, &head), WorldVec { x: 0, y: -5 });
}

#[test]
fn test_spawned_food_is_on_the_field() {
    let field = Field::new((3, 7), (21, 49), (0, 0));
    for _ in 0..200 {
        let cell = snake_core::spawn::spawn_food(&field);
        assert!(cell.i() >= 0 && cell.i() < 3);
        assert!(cell.j() >= 0 && cell.j() < 7);
    }
}

#[test]
fn test_truncate_history_moves_no_fragment() {
    let field = ten_by_ten();
    let mut state = player_at(&field, Cell::new(2, 4), Direction::Right, 3);
    let mut input = TurnRequestsBuffer::new();
    let consumables: Vec<Consumable> = Vec::new();
    for _ in 0..7 {
        tick(
            &mut state,
            &field,
            PlayerId(0),
            PROGRESS_ONE,
            TURN_COMPLETE,
            &mut input,
            &consumables,
        );
    }
    let cells_before: Vec<Cell> = state.info.body.iter().map(|f| f.cell).collect();
    let len_before = state.history.0.len();
    let max_offset = state.info.max_needed_offset();
    state
        .history
        .truncate(DistancePassed(state.head.distance_passed), max_offset);
    assert!(state.history.0.len() < len_before);
    // one more tick: the fragments sit where they would have without eviction
    tick(
        &mut state,
        &field,
        PlayerId(0),
        PROGRESS_ONE,
        TURN_COMPLETE,
        &mut input,
        &consumables,
    );
    assert_eq!(state.head.cell, Cell::new(0, 4));
    assert_eq!(state.info.body[0].cell, Cell::new(9, 4));
    assert_eq!(state.info.body[1].cell, Cell::new(8, 4));
    assert_eq!(state.info.body[2].cell, Cell::new(7, 4));
    let _ = cells_before;
}
