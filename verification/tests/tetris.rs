use gameserver::grid::{is_full_row, new_field, push_garbage_rows, remove_full_rows};
use gameserver::tetris::{
    get_tetromino_matrix, Action, ActionResult, CellType, Chance, Rotation, StepResult, Tetris,
    Tetromino, TetrominoType,
};

const SHAPES: [TetrominoType; 7] = [
    TetrominoType::I,
    TetrominoType::J,
    TetrominoType::L,
    TetrominoType::O,
    TetrominoType::S,
    TetrominoType::T,
    TetrominoType::Z,
];

const ROTATIONS: [Rotation; 4] = [Rotation::R0, Rotation::R90, Rotation::R180, Rotation::R270];

fn cells(shape: TetrominoType, rotation: Rotation) -> Vec<(usize, usize)> {
    let mut out = Vec::new();
    for y in 0..4 {
        for x in 0..4 {
            if shape.get_cell(x, y, &rotation) {
                out.push((x, y));
            }
        }
    }
    out
}

fn chance(shape: TetrominoType, hole: usize) -> Chance {
    Chance { shape, hole }
}

#[test]
fn rotation_turns_in_cyclic_order() {
    assert_eq!(Rotation::R0.rotate_right(), Rotation::R90);
    assert_eq!(Rotation::R90.rotate_right(), Rotation::R180);
    assert_eq!(Rotation::R180.rotate_right(), Rotation::R270);
    assert_eq!(Rotation::R270.rotate_right(), Rotation::R0);
    assert_eq!(Rotation::R0.rotate_left(), Rotation::R270);
    assert_eq!(Rotation::R90.rotate_left(), Rotation::R0);
    assert_eq!(Rotation::R180.rotate_left(), Rotation::R90);
    assert_eq!(Rotation::R270.rotate_left(), Rotation::R180);
}

#[test]
fn four_turns_restore_rotation_and_cells() {
    for shape in SHAPES {
        for rotation in ROTATIONS {
            let right = rotation.rotate_right().rotate_right().rotate_right().rotate_right();
            let left = rotation.rotate_left().rotate_left().rotate_left().rotate_left();
            assert_eq!(right, rotation);
            assert_eq!(left, rotation);
            assert_eq!(cells(shape, right), cells(shape, rotation));
            assert_eq!(cells(shape, left), cells(shape, rotation));
        }
    }
}

#[test]
fn opposite_turns_cancel() {
    for rotation in ROTATIONS {
        assert_eq!(rotation.rotate_right().rotate_left(), rotation);
        assert_eq!(rotation.rotate_left().rotate_right(), rotation);
    }
}

#[test]
fn rotation_sum_is_cyclic() {
    assert_eq!(Rotation::R90 + Rotation::R90, Rotation::R180);
    assert_eq!(Rotation::R270 + Rotation::R90, Rotation::R0);
    assert_eq!(Rotation::R180 + Rotation::R270, Rotation::R90);
    assert_eq!(Rotation::R270 + Rotation::R270, Rotation::R180);
    for a in ROTATIONS {
        assert_eq!(a + Rotation::R0, a);
        for b in ROTATIONS {
            assert_eq!(a + b, b + a);
            for c in ROTATIONS {
                assert_eq!((a + b) + c, a + (b + c));
            }
        }
    }
}

#[test]
fn shape_from_number() {
    assert_eq!(TetrominoType::new(0), TetrominoType::I);
    assert_eq!(TetrominoType::new(1), TetrominoType::J);
    assert_eq!(TetrominoType::new(2), TetrominoType::L);
    assert_eq!(TetrominoType::new(3), TetrominoType::O);
    assert_eq!(TetrominoType::new(4), TetrominoType::S);
    assert_eq!(TetrominoType::new(5), TetrominoType::T);
    assert_eq!(TetrominoType::new(6), TetrominoType::Z);
    assert_eq!(TetrominoType::new(7), TetrominoType::I);
    assert_eq!(TetrominoType::new(u32::MAX), TetrominoType::I);
}

#[test]
fn random_shape_is_a_shape() {
    for _ in 0..50 {
        let shape = TetrominoType::random();
        assert!(SHAPES.contains(&shape));
    }
}

#[test]
fn shape_sizes() {
    assert_eq!(TetrominoType::I.get_width(&Rotation::R0), 4);
    assert_eq!(TetrominoType::I.get_height(&Rotation::R0), 1);
    assert_eq!(TetrominoType::I.get_width(&Rotation::R90), 1);
    assert_eq!(TetrominoType::I.get_height(&Rotation::R90), 4);
    assert_eq!(TetrominoType::O.get_width(&Rotation::R270), 2);
    assert_eq!(TetrominoType::O.get_height(&Rotation::R270), 2);
    for shape in [
        TetrominoType::J,
        TetrominoType::L,
        TetrominoType::S,
        TetrominoType::T,
        TetrominoType::Z,
    ] {
        assert_eq!(shape.get_width(&Rotation::R0), 3);
        assert_eq!(shape.get_height(&Rotation::R0), 2);
        assert_eq!(shape.get_width(&Rotation::R90), 2);
        assert_eq!(shape.get_height(&Rotation::R90), 3);
        assert_eq!(shape.get_width(&Rotation::R180), 3);
        assert_eq!(shape.get_height(&Rotation::R180), 2);
        assert_eq!(shape.get_width(&Rotation::R270), 2);
        assert_eq!(shape.get_height(&Rotation::R270), 3);
    }
}

#[test]
fn shape_cells_in_canonical_orientation() {
    assert_eq!(cells(TetrominoType::I, Rotation::R0), vec![(0, 0), (1, 0), (2, 0), (3, 0)]);
    assert_eq!(cells(TetrominoType::J, Rotation::R0), vec![(0, 0), (0, 1), (1, 1), (2, 1)]);
    assert_eq!(cells(TetrominoType::L, Rotation::R0), vec![(2, 0), (0, 1), (1, 1), (2, 1)]);
    assert_eq!(cells(TetrominoType::O, Rotation::R0), vec![(0, 0), (1, 0), (0, 1), (1, 1)]);
    assert_eq!(cells(TetrominoType::S, Rotation::R0), vec![(1, 0), (2, 0), (0, 1), (1, 1)]);
    assert_eq!(cells(TetrominoType::T, Rotation::R0), vec![(1, 0), (0, 1), (1, 1), (2, 1)]);
    assert_eq!(cells(TetrominoType::Z, Rotation::R0), vec![(0, 0), (1, 0), (1, 1), (2, 1)]);
}

#[test]
fn shape_cells_turned() {
    assert_eq!(cells(TetrominoType::I, Rotation::R90), vec![(0, 0), (0, 1), (0, 2), (0, 3)]);
    assert_eq!(cells(TetrominoType::T, Rotation::R90), vec![(0, 0), (0, 1), (1, 1), (0, 2)]);
    assert_eq!(cells(TetrominoType::T, Rotation::R180), vec![(0, 0), (1, 0), (2, 0), (1, 1)]);
    assert_eq!(cells(TetrominoType::T, Rotation::R270), vec![(1, 0), (0, 1), (1, 1), (1, 2)]);
    assert_eq!(cells(TetrominoType::J, Rotation::R90), vec![(0, 0), (1, 0), (0, 1), (0, 2)]);
    assert_eq!(cells(TetrominoType::L, Rotation::R180), vec![(0, 0), (1, 0), (2, 0), (0, 1)]);
    assert_eq!(cells(TetrominoType::S, Rotation::R270), vec![(0, 0), (0, 1), (1, 1), (1, 2)]);
}

#[test]
fn every_shape_has_four_cells() {
    for shape in SHAPES {
        for rotation in ROTATIONS {
            assert_eq!(cells(shape, rotation).len(), 4);
        }
    }
}

#[test]
fn quarter_turn_moves_cells() {
    for shape in SHAPES {
        for rotation in ROTATIONS {
            let height = shape.get_height(&rotation);
            let turned = rotation.rotate_right();
            assert_eq!(shape.get_width(&turned), height);
            assert_eq!(shape.get_height(&turned), shape.get_width(&rotation));
            for y in 0..shape.get_height(&turned) {
                for x in 0..shape.get_width(&turned) {
                    assert_eq!(
                        shape.get_cell(x, y, &turned),
                        shape.get_cell(y, height - 1 - x, &rotation)
                    );
                }
            }
        }
    }
}

#[test]
fn cell_outside_box_is_not_occupied() {
    assert!(!TetrominoType::O.get_cell(2, 0, &Rotation::R0));
    assert!(!TetrominoType::I.get_cell(0, 1, &Rotation::R0));
    assert!(!TetrominoType::I.get_cell(1, 0, &Rotation::R90));
    assert!(!TetrominoType::T.get_cell(7, 9, &Rotation::R180));
    assert!(!TetrominoType::T.get_cell(usize::MAX, usize::MAX, &Rotation::R270));
}

#[test]
fn matrix_agrees_with_shape() {
    for shape in SHAPES {
        let matrix = get_tetromino_matrix(&shape);
        for rotation in ROTATIONS {
            assert_eq!(matrix.get_width(&rotation), shape.get_width(&rotation));
            assert_eq!(matrix.get_height(&rotation), shape.get_height(&rotation));
            for y in 0..5 {
                for x in 0..5 {
                    assert_eq!(matrix.get_cell(x, y, &rotation), shape.get_cell(x, y, &rotation));
                }
            }
        }
    }
}

#[test]
fn cell_types() {
    assert_eq!(TetrominoType::I.get_cell_type(), CellType::I);
    assert_eq!(TetrominoType::J.get_cell_type(), CellType::J);
    assert_eq!(TetrominoType::L.get_cell_type(), CellType::L);
    assert_eq!(TetrominoType::O.get_cell_type(), CellType::O);
    assert_eq!(TetrominoType::S.get_cell_type(), CellType::S);
    assert_eq!(TetrominoType::T.get_cell_type(), CellType::T);
    assert_eq!(TetrominoType::Z.get_cell_type(), CellType::Z);
}

#[test]
fn tetromino_new_keeps_its_arguments() {
    let piece = Tetromino::new(TetrominoType::S, Rotation::R180, -3, 7);
    assert_eq!(piece.tetromino_type, TetrominoType::S);
    assert_eq!(piece.rotation, Rotation::R180);
    assert_eq!(piece.x, -3);
    assert_eq!(piece.y, 7);
}

#[test]
fn intersects_field_borders() {
    let field = new_field(10, 20);
    assert!(!Tetromino::new(TetrominoType::O, Rotation::R0, 0, 0).intersects(&field));
    assert!(!Tetromino::new(TetrominoType::O, Rotation::R0, 8, 18).intersects(&field));
    assert!(Tetromino::new(TetrominoType::O, Rotation::R0, -1, 0).intersects(&field));
    assert!(Tetromino::new(TetrominoType::O, Rotation::R0, 0, -1).intersects(&field));
    assert!(Tetromino::new(TetrominoType::O, Rotation::R0, 9, 0).intersects(&field));
    assert!(Tetromino::new(TetrominoType::O, Rotation::R0, 0, 19).intersects(&field));
    assert!(!Tetromino::new(TetrominoType::I, Rotation::R0, 6, 19).intersects(&field));
    assert!(Tetromino::new(TetrominoType::I, Rotation::R0, 7, 19).intersects(&field));
    assert!(!Tetromino::new(TetrominoType::I, Rotation::R90, 9, 16).intersects(&field));
    assert!(Tetromino::new(TetrominoType::I, Rotation::R90, 9, 17).intersects(&field));
    assert!(Tetromino::new(TetrominoType::I, Rotation::R0, isize::MAX, 0).intersects(&field));
    assert!(Tetromino::new(TetrominoType::I, Rotation::R0, 0, isize::MAX).intersects(&field));
    assert!(Tetromino::new(TetrominoType::I, Rotation::R0, isize::MIN, isize::MIN)
        .intersects(&field));
}

#[test]
fn intersects_field_without_rows() {
    let field: Vec<Vec<CellType>> = Vec::new();
    assert!(Tetromino::new(TetrominoType::O, Rotation::R0, 0, 0).intersects(&field));
    let narrow = new_field(0, 4);
    assert!(Tetromino::new(TetrominoType::O, Rotation::R0, 0, 0).intersects(&narrow));
}

#[test]
fn intersects_filled_cells() {
    let mut field = new_field(10, 20);
    field[19][4] = CellType::T;
    assert!(Tetromino::new(TetrominoType::O, Rotation::R0, 3, 18).intersects(&field));
    assert!(Tetromino::new(TetrominoType::O, Rotation::R0, 4, 18).intersects(&field));
    assert!(!Tetromino::new(TetrominoType::O, Rotation::R0, 5, 18).intersects(&field));
    assert!(!Tetromino::new(TetrominoType::O, Rotation::R0, 3, 17).intersects(&field));
    // The cell of the bounding box that the shape leaves free may be filled.
    assert!(!Tetromino::new(TetrominoType::Z, Rotation::R0, 4, 18).intersects(&field));
    assert!(!Tetromino::new(TetrominoType::T, Rotation::R180, 4, 18).intersects(&field));
    assert!(Tetromino::new(TetrominoType::J, Rotation::R0, 4, 18).intersects(&field));
    assert!(Tetromino::new(TetrominoType::J, Rotation::R0, 3, 18).intersects(&field));
}

#[test]
fn draw_inside_field() {
    let mut field = new_field(5, 4);
    Tetromino::new(TetrominoType::T, Rotation::R0, 1, 2).draw(&mut field);
    let e = CellType::Empty;
    let t = CellType::T;
    assert_eq!(
        field,
        vec![
            vec![e, e, e, e, e],
            vec![e, e, e, e, e],
            vec![e, e, t, e, e],
            vec![e, t, t, t, e],
        ]
    );
}

#[test]
fn draw_over_the_border_is_partial() {
    let e = CellType::Empty;
    let o = CellType::O;
    let i = CellType::I;
    let mut field = new_field(3, 3);
    Tetromino::new(TetrominoType::O, Rotation::R0, -1, -1).draw(&mut field);
    assert_eq!(field, vec![vec![o, e, e], vec![e, e, e], vec![e, e, e]]);
    Tetromino::new(TetrominoType::I, Rotation::R0, 1, 2).draw(&mut field);
    assert_eq!(field, vec![vec![o, e, e], vec![e, e, e], vec![e, i, i]]);
    Tetromino::new(TetrominoType::I, Rotation::R90, 2, 1).draw(&mut field);
    assert_eq!(field, vec![vec![o, e, e], vec![e, e, i], vec![e, i, i]]);
    Tetromino::new(TetrominoType::O, Rotation::R0, isize::MAX, isize::MAX).draw(&mut field);
    Tetromino::new(TetrominoType::O, Rotation::R0, isize::MIN, 0).draw(&mut field);
    Tetromino::new(TetrominoType::O, Rotation::R0, 5, 5).draw(&mut field);
    assert_eq!(field, vec![vec![o, e, e], vec![e, e, i], vec![e, i, i]]);
}

#[test]
fn draw_overwrites_filled_cells() {
    let mut field = new_field(2, 2);
    field[0][0] = CellType::Z;
    field[1][1] = CellType::Z;
    Tetromino::new(TetrominoType::O, Rotation::R0, 0, 0).draw(&mut field);
    assert_eq!(field, vec![vec![CellType::O, CellType::O], vec![CellType::O, CellType::O]]);
}

#[test]
fn full_rows_are_removed() {
    let e = CellType::Empty;
    let t = CellType::T;
    let z = CellType::Z;
    let mut field = vec![
        vec![e, t, e],
        vec![z, z, z],
        vec![t, e, t],
        vec![t, t, t],
    ];
    assert!(!is_full_row(&field[0]));
    assert!(is_full_row(&field[1]));
    let count = remove_full_rows(&mut field);
    assert_eq!(count, 2);
    assert_eq!(
        field,
        vec![vec![e, e, e], vec![e, e, e], vec![e, t, e], vec![t, e, t]]
    );
    let count = remove_full_rows(&mut field);
    assert_eq!(count, 0);
    assert_eq!(
        field,
        vec![vec![e, e, e], vec![e, e, e], vec![e, t, e], vec![t, e, t]]
    );
}

#[test]
fn rows_without_cells_are_never_full() {
    let empty: Vec<CellType> = Vec::new();
    assert!(!is_full_row(&empty));
    let mut field = new_field(0, 3);
    assert_eq!(remove_full_rows(&mut field), 0);
    assert_eq!(field.len(), 3);
}

#[test]
fn garbage_rows_come_in_from_below() {
    let e = CellType::Empty;
    let t = CellType::T;
    let z = CellType::Z;
    let mut field = vec![vec![t, e, e], vec![e, t, e], vec![e, e, t]];
    push_garbage_rows(&mut field, 1, 1);
    assert_eq!(field, vec![vec![e, t, e], vec![e, e, t], vec![z, e, z]]);
    push_garbage_rows(&mut field, 0, 1);
    assert_eq!(field, vec![vec![e, t, e], vec![e, e, t], vec![z, e, z]]);
    push_garbage_rows(&mut field, 2, 0);
    assert_eq!(field, vec![vec![z, e, z], vec![e, z, z], vec![e, z, z]]);
    push_garbage_rows(&mut field, 7, 2);
    assert_eq!(field, vec![vec![z, z, e], vec![z, z, e], vec![z, z, e]]);
    push_garbage_rows(&mut field, usize::MAX, 5);
    assert_eq!(field, vec![vec![z, z, z], vec![z, z, z], vec![z, z, z]]);
}

#[test]
fn new_board_is_empty() {
    let board = Tetris::new(10, 20);
    assert_eq!(board.get_field().len(), 20);
    for row in board.get_field() {
        assert_eq!(row.len(), 10);
        assert!(row.iter().all(|c| *c == CellType::Empty));
    }
    assert!(board.get_current().is_none());
    assert!(SHAPES.contains(board.get_next()));
    assert!(!board.is_game_over());
}

#[test]
fn default_board_is_ten_by_twenty() {
    let board = Tetris::default();
    assert_eq!(board.get_field().len(), 20);
    assert_eq!(board.get_field()[0].len(), 10);
    assert!(board.get_current().is_none());
}

#[test]
fn spawn_places_next_shape_at_top_centre() {
    let mut board = Tetris::with_next(10, 20, TetrominoType::T);
    assert!(board.place_new_tetromino_with(TetrominoType::S));
    let piece = board.get_current().unwrap();
    assert_eq!(piece, Tetromino::new(TetrominoType::T, Rotation::R0, 3, 0));
    assert_eq!(*board.get_next(), TetrominoType::S);
    let mut board = Tetris::with_next(7, 5, TetrominoType::I);
    assert!(board.place_new_tetromino());
    assert_eq!(board.get_current().unwrap(), Tetromino::new(TetrominoType::I, Rotation::R0, 1, 0));
}

#[test]
fn spawn_fails_without_room() {
    let mut board = Tetris::with_next(3, 5, TetrominoType::O);
    // Three columns: the piece would start at column -1.
    assert!(!board.place_new_tetromino_with(TetrominoType::S));
    assert!(board.get_current().is_none());
    assert_eq!(*board.get_next(), TetrominoType::O);
    assert!(!board.is_game_over());
    let mut board = Tetris::with_next(4, 1, TetrominoType::O);
    assert!(!board.place_new_tetromino());
    assert!(board.get_current().is_none());
}

#[test]
fn moves_and_turns() {
    let mut board = Tetris::with_next(10, 20, TetrominoType::T);
    assert!(!board.move_down());
    assert!(!board.change_current_tetromino(0, 0, Rotation::R0));
    assert!(board.place_new_tetromino_with(TetrominoType::T));
    assert!(board.move_left());
    assert_eq!(board.get_current().unwrap(), Tetromino::new(TetrominoType::T, Rotation::R0, 2, 0));
    assert!(board.move_right());
    assert!(board.move_right());
    assert_eq!(board.get_current().unwrap(), Tetromino::new(TetrominoType::T, Rotation::R0, 4, 0));
    assert!(board.move_down());
    assert_eq!(board.get_current().unwrap(), Tetromino::new(TetrominoType::T, Rotation::R0, 4, 1));
    assert!(board.rotate_right());
    assert_eq!(board.get_current().unwrap(), Tetromino::new(TetrominoType::T, Rotation::R90, 4, 1));
    assert!(board.rotate_left());
    assert!(board.rotate_left());
    assert_eq!(
        board.get_current().unwrap(),
        Tetromino::new(TetrominoType::T, Rotation::R270, 4, 1)
    );
    assert!(board.change_current_tetromino(-2, 3, Rotation::R180));
    assert_eq!(board.get_current().unwrap(), Tetromino::new(TetrominoType::T, Rotation::R90, 2, 4));
}

#[test]
fn moves_that_collide_are_rejected() {
    let mut board = Tetris::with_next(4, 4, TetrominoType::I);
    assert!(board.place_new_tetromino_with(TetrominoType::I));
    let start = board.get_current().unwrap();
    assert_eq!(start, Tetromino::new(TetrominoType::I, Rotation::R0, 0, 0));
    assert!(!board.move_left());
    assert!(!board.move_right());
    assert!(!board.change_current_tetromino(0, -1, Rotation::R0));
    assert!(!board.change_current_tetromino(isize::MAX, 0, Rotation::R0));
    assert!(!board.change_current_tetromino(0, isize::MAX, Rotation::R0));
    assert!(!board.change_current_tetromino(isize::MIN, isize::MIN, Rotation::R0));
    assert_eq!(board.get_current().unwrap(), start);
    assert!(board.rotate_right());
    assert!(!board.move_down());
    assert!(board.rotate_left());
    assert_eq!(board.get_current().unwrap(), start);
}

#[test]
fn step_lets_a_free_piece_fall_by_one_row() {
    let mut board = Tetris::with_next(10, 20, TetrominoType::L);
    assert!(board.place_new_tetromino_with(TetrominoType::J));
    for row in 1..=18 {
        assert_eq!(board.step_with(TetrominoType::Z), StepResult::Moved);
        assert_eq!(
            board.get_current().unwrap(),
            Tetromino::new(TetrominoType::L, Rotation::R0, 3, row)
        );
        assert_eq!(*board.get_next(), TetrominoType::J);
    }
    assert_eq!(board.step(), StepResult::LineCleared(0));
}

#[test]
fn first_step_brings_the_first_piece_in() {
    let mut board = Tetris::with_next(10, 20, TetrominoType::S);
    assert_eq!(board.step_with(TetrominoType::Z), StepResult::LineCleared(0));
    assert_eq!(board.get_current().unwrap(), Tetromino::new(TetrominoType::S, Rotation::R0, 3, 0));
    assert_eq!(*board.get_next(), TetrominoType::Z);
}

#[test]
fn o_piece_locks_after_eighteen_rows() {
    let mut board = Tetris::with_next(10, 20, TetrominoType::O);
    assert!(board.place_new_tetromino_with(TetrominoType::T));
    assert_eq!(board.get_current().unwrap(), Tetromino::new(TetrominoType::O, Rotation::R0, 3, 0));
    for _ in 0..18 {
        assert!(board.move_down());
    }
    assert_eq!(board.get_current().unwrap(), Tetromino::new(TetrominoType::O, Rotation::R0, 3, 18));
    assert!(!board.move_down());
    assert_eq!(board.step_with(TetrominoType::J), StepResult::LineCleared(0));
    for (y, row) in board.get_field().iter().enumerate() {
        for (x, cell) in row.iter().enumerate() {
            let expected = if (y == 18 || y == 19) && (x == 3 || x == 4) {
                CellType::O
            } else {
                CellType::Empty
            };
            assert_eq!(*cell, expected);
        }
    }
    assert_eq!(board.get_current().unwrap(), Tetromino::new(TetrominoType::T, Rotation::R0, 3, 0));
    assert_eq!(*board.get_next(), TetrominoType::J);
    assert!(!board.is_game_over());
}

#[test]
fn lock_clears_full_rows() {
    let e = CellType::Empty;
    let o = CellType::O;
    let mut board = Tetris::with_next(4, 4, TetrominoType::O);
    assert_eq!(board.step_with(TetrominoType::O), StepResult::LineCleared(0));
    assert!(board.move_right());
    assert!(board.move_right());
    assert!(!board.move_right());
    assert_eq!(board.add_action_with(Action::Drop, chance(TetrominoType::I, 0)),
        ActionResult::Dropped(StepResult::LineCleared(0)));
    assert_eq!(
        *board.get_field(),
        vec![vec![e, e, e, e], vec![e, e, e, e], vec![e, e, o, o], vec![e, e, o, o]]
    );
    assert_eq!(board.get_current().unwrap(), Tetromino::new(TetrominoType::O, Rotation::R0, 0, 0));
    assert_eq!(board.step_with(TetrominoType::T), StepResult::Moved);
    assert_eq!(board.step_with(TetrominoType::T), StepResult::Moved);
    assert_eq!(board.step_with(TetrominoType::T), StepResult::LineCleared(2));
    assert_eq!(*board.get_field(), new_field(4, 4));
    assert_eq!(board.get_current().unwrap(), Tetromino::new(TetrominoType::I, Rotation::R0, 0, 0));
    assert_eq!(*board.get_next(), TetrominoType::T);
}

#[test]
fn lock_clears_only_the_full_row() {
    let e = CellType::Empty;
    let t = CellType::T;
    let mut board = Tetris::with_next(4, 4, TetrominoType::T);
    assert_eq!(board.step_with(TetrominoType::I), StepResult::LineCleared(0));
    assert_eq!(
        board.add_action_with(Action::Drop, chance(TetrominoType::O, 0)),
        ActionResult::Dropped(StepResult::LineCleared(0))
    );
    let settled = vec![vec![e, e, e, e], vec![e, e, e, e], vec![e, t, e, e], vec![t, t, t, e]];
    assert_eq!(*board.get_field(), settled);
    // The bar comes to rest on the T and fills the second row, which goes.
    assert_eq!(board.get_current().unwrap(), Tetromino::new(TetrominoType::I, Rotation::R0, 0, 0));
    assert_eq!(
        board.add_action_with(Action::Drop, chance(TetrominoType::S, 0)),
        ActionResult::Dropped(StepResult::LineCleared(1))
    );
    assert_eq!(*board.get_field(), settled);
    assert_eq!(board.get_current().unwrap(), Tetromino::new(TetrominoType::O, Rotation::R0, 0, 0));
    assert_eq!(*board.get_next(), TetrominoType::S);
}

#[test]
fn game_is_over_when_the_next_piece_has_no_room() {
    let mut board = Tetris::with_next(4, 2, TetrominoType::O);
    assert_eq!(board.step_with(TetrominoType::O), StepResult::LineCleared(0));
    assert_eq!(board.step_with(TetrominoType::O), StepResult::GameOver);
    assert!(board.is_game_over());
    assert!(board.get_current().is_none());
    let field = board.get_field().clone();
    assert_eq!(field[0][0], CellType::O);
    // Nothing changes after the end.
    assert_eq!(board.step_with(TetrominoType::I), StepResult::GameOver);
    assert_eq!(board.step(), StepResult::GameOver);
    assert!(!board.place_new_tetromino_with(TetrominoType::I));
    assert!(!board.move_left());
    assert_eq!(board.add_action(Action::Drop), ActionResult::Rejected);
    assert_eq!(board.add_action(Action::BottomRefill), ActionResult::Rejected);
    board.add_external_rows_with(1, 0);
    board.draw_current();
    assert_eq!(*board.get_field(), field);
    assert!(board.is_game_over());
}

#[test]
fn game_is_over_on_first_step_without_room() {
    let mut board = Tetris::with_next(2, 2, TetrominoType::O);
    assert_eq!(board.step(), StepResult::GameOver);
    assert!(board.is_game_over());
}

#[test]
fn penalty_rows_push_the_field_up() {
    let e = CellType::Empty;
    let o = CellType::O;
    let z = CellType::Z;
    let mut board = Tetris::with_next(4, 4, TetrominoType::O);
    assert_eq!(board.step_with(TetrominoType::I), StepResult::LineCleared(0));
    assert_eq!(board.add_action_with(Action::Drop, chance(TetrominoType::I, 0)),
        ActionResult::Dropped(StepResult::LineCleared(0)));
    board.add_external_rows_with(1, 3);
    assert_eq!(
        *board.get_field(),
        vec![vec![e, e, e, e], vec![o, o, e, e], vec![o, o, e, e], vec![z, z, z, e]]
    );
    assert_eq!(board.get_current().unwrap(), Tetromino::new(TetrominoType::I, Rotation::R0, 0, 0));
    assert!(!board.is_game_over());
}

#[test]
fn penalty_rows_under_the_piece_end_the_game_at_the_next_step() {
    let mut board = Tetris::with_next(4, 2, TetrominoType::O);
    assert_eq!(board.step_with(TetrominoType::I), StepResult::LineCleared(0));
    board.add_external_rows_with(1, 3);
    assert!(!board.is_game_over());
    assert_eq!(board.get_current().unwrap(), Tetromino::new(TetrominoType::O, Rotation::R0, 0, 0));
    assert_eq!(board.step_with(TetrominoType::I), StepResult::GameOver);
    assert!(board.is_game_over());
}

#[test]
fn random_penalty_rows_have_one_hole() {
    for _ in 0..20 {
        let mut board = Tetris::with_next(6, 5, TetrominoType::O);
        board.add_external_rows(2);
        let field = board.get_field();
        for y in 0..3 {
            assert!(field[y].iter().all(|c| *c == CellType::Empty));
        }
        let holes: Vec<usize> = (0..6).filter(|x| field[3][*x] == CellType::Empty).collect();
        assert_eq!(holes.len(), 1);
        for x in 0..6 {
            assert_eq!(field[3][x], field[4][x]);
            if x != holes[0] {
                assert_eq!(field[3][x], CellType::Z);
            }
        }
    }
}

#[test]
fn chance_stays_inside_the_board() {
    let board = Tetris::with_next(3, 5, TetrominoType::O);
    for _ in 0..100 {
        let drawn = board.draw_chance();
        assert!(drawn.hole < 3);
        assert!(SHAPES.contains(&drawn.shape));
    }
    let flat = Tetris::with_next(0, 5, TetrominoType::O);
    assert_eq!(flat.draw_chance().hole, 0);
}

#[test]
fn actions_move_the_piece() {
    let mut board = Tetris::with_next(10, 20, TetrominoType::J);
    let c = chance(TetrominoType::S, 2);
    assert_eq!(board.add_action_with(Action::MoveLeft, c), ActionResult::Rejected);
    assert_eq!(board.add_action_with(Action::Drop, c), ActionResult::Rejected);
    assert!(board.place_new_tetromino_with(TetrominoType::L));
    assert_eq!(board.add_action_with(Action::MoveLeft, c), ActionResult::Applied);
    assert_eq!(board.get_current().unwrap(), Tetromino::new(TetrominoType::J, Rotation::R0, 2, 0));
    assert_eq!(board.add_action_with(Action::MoveRight, c), ActionResult::Applied);
    assert_eq!(board.add_action_with(Action::MoveDown, c), ActionResult::Applied);
    assert_eq!(board.get_current().unwrap(), Tetromino::new(TetrominoType::J, Rotation::R0, 3, 1));
    assert_eq!(board.add_action_with(Action::RotateRight, c), ActionResult::Applied);
    assert_eq!(board.get_current().unwrap(), Tetromino::new(TetrominoType::J, Rotation::R90, 3, 1));
    assert_eq!(board.add_action_with(Action::RotateLeft, c), ActionResult::Applied);
    assert_eq!(board.add_action(Action::RotateLeft), ActionResult::Applied);
    assert_eq!(
        board.get_current().unwrap(),
        Tetromino::new(TetrominoType::J, Rotation::R270, 3, 1)
    );
    assert_eq!(*board.get_next(), TetrominoType::L);
    assert_eq!(board.add_action_with(Action::BottomRefill, c), ActionResult::Applied);
    assert_eq!(board.get_field()[19][2], CellType::Empty);
    assert_eq!(board.get_field()[19][3], CellType::Z);
    assert_eq!(board.get_field()[18][3], CellType::Empty);
}

#[test]
fn drop_falls_to_rest_and_locks() {
    let mut board = Tetris::with_next(10, 20, TetrominoType::I);
    assert!(board.place_new_tetromino_with(TetrominoType::O));
    assert!(board.rotate_right());
    assert_eq!(
        board.add_action_with(Action::Drop, chance(TetrominoType::T, 0)),
        ActionResult::Dropped(StepResult::LineCleared(0))
    );
    for y in 0..20 {
        let expected = if y >= 16 { CellType::I } else { CellType::Empty };
        assert_eq!(board.get_field()[y][3], expected);
        assert_eq!(board.get_field()[y][4], CellType::Empty);
    }
    assert_eq!(board.get_current().unwrap(), Tetromino::new(TetrominoType::O, Rotation::R0, 3, 0));
    assert_eq!(*board.get_next(), TetrominoType::T);
}

#[test]
fn draw_current_locks_the_piece() {
    let mut board = Tetris::with_next(4, 4, TetrominoType::O);
    board.draw_current();
    assert_eq!(*board.get_field(), new_field(4, 4));
    assert!(board.place_new_tetromino_with(TetrominoType::I));
    board.draw_current();
    assert!(board.get_current().is_none());
    assert_eq!(board.get_field()[0][0], CellType::O);
    assert_eq!(board.get_field()[1][1], CellType::O);
    assert_eq!(board.get_field()[0][2], CellType::Empty);
}

#[test]
fn game_state_is_a_snapshot() {
    let mut board = Tetris::with_next(4, 4, TetrominoType::O);
    assert!(board.place_new_tetromino_with(TetrominoType::I));
    board.add_external_rows_with(1, 2);
    let state = board.get_game_state();
    assert_eq!(state.field, *board.get_field());
    assert_eq!(state.current, *board.get_current());
    assert_eq!(state.next, TetrominoType::I);
    assert!(!state.game_over);
    assert!(board.move_right());
    assert_eq!(state.current.unwrap().x, 0);
}

#[test]
fn accepted_actions_leave_the_piece_inside_on_empty_cells() {
    let actions = [
        Action::MoveLeft,
        Action::RotateRight,
        Action::MoveDown,
        Action::BottomRefill,
        Action::MoveRight,
        Action::RotateLeft,
        Action::MoveLeft,
        Action::MoveLeft,
        Action::MoveLeft,
        Action::MoveLeft,
        Action::MoveLeft,
        Action::RotateRight,
        Action::Drop,
        Action::MoveRight,
        Action::MoveDown,
        Action::RotateLeft,
        Action::Drop,
    ];
    let mut board = Tetris::with_next(6, 8, TetrominoType::L);
    assert_eq!(board.step_with(TetrominoType::S), StepResult::LineCleared(0));
    let mut turn = 0;
    for _ in 0..12 {
        for action in actions {
            turn += 1;
            let result = board.add_action_with(action, chance(TetrominoType::new(turn % 7), 1));
            if let Some(piece) = *board.get_current() {
                let width = piece.tetromino_type.get_width(&piece.rotation) as isize;
                let height = piece.tetromino_type.get_height(&piece.rotation) as isize;
                assert!(0 <= piece.x && piece.x + width <= 6);
                assert!(0 <= piece.y && piece.y + height <= 8);
                if result == ActionResult::Applied && action != Action::BottomRefill {
                    assert!(!piece.intersects(board.get_field()));
                }
            }
        }
    }
}
