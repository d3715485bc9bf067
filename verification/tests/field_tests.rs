use snake_core::direction::Direction;
use snake_core::field::{Cell, Field, WorldVec};

#[test]
fn test_field_translation() {
    let field = Field::new((10, 10), (100, 100), (0, 0));
    let translation = WorldVec { x: 27, y: 23 };
    let cell = field.cell(translation);
    assert_eq!(cell, Cell::new(7, 7));
    assert_eq!(field.translation_of_cell(&cell), WorldVec { x: 25, y: 25 });
}

#[test]
fn test_field_local_coordinates() {
    let field = Field::new((10, 10), (100, 100), (0, 0));
    let translation = WorldVec { x: 27, y: 23 };
    let local_translation = field.cell_local_translation(translation);
    assert_eq!(local_translation, WorldVec { x: 7, y: 3 });
}

#[test]
fn test_round_trip_every_cell() {
    let field = Field::new((10, 10), (100, 100), (3, -7));
    for i in 0..10 {
        for j in 0..10 {
            let cell = Cell::new(i, j);
            let center = field.translation_of_cell(&cell);
            assert_eq!(field.cell(center), cell);
        }
    }
}

#[test]
fn test_wrap_right_edge() {
    let field = Field::new((5, 5), (50, 50), (0, 0));
    for j in 0..5 {
        let stepped = field.step_into(&Cell::new(4, j), &Direction::Right, 1);
        assert_eq!(stepped, Cell::new(0, j));
    }
}

#[test]
fn test_wrap_all_edges() {
    let field = Field::new((5, 4), (50, 40), (0, 0));
    assert_eq!(
        field.single_step_into(&Cell::new(0, 2), &Direction::Left),
        Cell::new(4, 2)
    );
    assert_eq!(
        field.single_step_into(&Cell::new(4, 2), &Direction::Right),
        Cell::new(0, 2)
    );
    assert_eq!(
        field.single_step_into(&Cell::new(2, 3), &Direction::Up),
        Cell::new(2, 0)
    );
    assert_eq!(
        field.single_step_into(&Cell::new(2, 0), &Direction::Down),
        Cell::new(2, 3)
    );
    // every step from every cell stays on the grid
    for i in 0..5 {
        for j in 0..4 {
            for d in [
                Direction::Left,
                Direction::Right,
                Direction::Up,
                Direction::Down,
            ] {
                let c = field.single_step_into(&Cell::new(i, j), &d);
                assert!(c.i() >= 0 && c.i() < 5 && c.j() >= 0 && c.j() < 4);
            }
        }
    }
}

#[test]
fn test_step_distance() {
    let field = Field::new((10, 10), (100, 100), (0, 0));
    assert_eq!(
        field.step_into(&Cell::new(2, 2), &Direction::Right, 3),
        Cell::new(5, 2)
    );
    assert_eq!(
        field.step_into(&Cell::new(2, 2), &Direction::Down, 4),
        Cell::new(2, 8)
    );
}

#[test]
fn test_try_new_rejects_bad_geometry() {
    // zero width
    assert!(Field::try_new((0, 10), (100, 100), (0, 0)).is_none());
    // zero height
    assert!(Field::try_new((10, 0), (100, 100), (0, 0)).is_none());
    // size not divisible by the dimension
    assert!(Field::try_new((10, 10), (105, 100), (0, 0)).is_none());
    // cells not square
    assert!(Field::try_new((10, 10), (100, 200), (0, 0)).is_none());
    // negative size
    assert!(Field::try_new((10, 10), (-100, -100), (0, 0)).is_none());
    // a valid one
    let field = Field::try_new((10, 10), (100, 100), (0, 0)).unwrap();
    assert_eq!(field.cell_size(), 10);
    assert_eq!(field.dim(), (10, 10));
    assert_eq!(field.size(), (100, 100));
    assert_eq!(field.offset(), (0, 0));
}

#[test]
fn test_direction_between_cells() {
    let field = Field::new((5, 5), (50, 50), (0, 0));
    assert_eq!(
        field.direction(&Cell::new(3, 2), &Cell::new(2, 2)),
        Direction::Right
    );
    assert_eq!(
        field.direction(&Cell::new(2, 3), &Cell::new(2, 2)),
        Direction::Up
    );
    // across the wrap edge: from (4, 1) one step Right lands on (0, 1)
    assert_eq!(
        field.direction(&Cell::new(0, 1), &Cell::new(4, 1)),
        Direction::Right
    );
}

#[test]
fn test_resize_picks_smaller_ratio() {
    let mut field = Field::new((10, 10), (100, 100), (0, 0));
    field.resize((800, 600));
    assert_eq!(field.cell_size(), 60);
    assert_eq!(field.size(), (600, 600));
    assert_eq!(field.dim(), (10, 10));
}
