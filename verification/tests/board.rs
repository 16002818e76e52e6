use tic_tac_toe_evolution::board::{Board, OutOfBounds, PlayerMark};

#[test]
fn board_test_constructor() {
    let width = 123;
    let height = 456;

    let board = Board::new(width, height);

    assert_eq!(board.width(), width);
    assert_eq!(board.height(), height);
    assert_eq!(board.cells().len(), width * height);
}

#[test]
fn test_cells() {
    let x = 1;
    let y = 1;

    let mut board = Board::new(x * 2 + 1, y * 2 + 1);

    assert_eq!(board.get(x, y), None);

    board.set(x, y, Some(PlayerMark::X));
    assert_eq!(board.get(x, y), Some(PlayerMark::X));

    board.set(x, y, Some(PlayerMark::O));
    assert_eq!(board.get(x, y), Some(PlayerMark::O));
}

#[test]
fn test_display() {
    let mut board = Board::new(3, 3);
    board.set(1, 0, Some(PlayerMark::X));
    board.set(2, 1, Some(PlayerMark::O));
    board.set(2, 2, Some(PlayerMark::X));
    board.set(1, 2, Some(PlayerMark::O));
    board.set(0, 2, Some(PlayerMark::X));

    let string = board.render();

    assert_eq!(string, " x \n  o\nxox\n");
}

#[test]
fn new_board_is_empty() {
    let board = Board::new(4, 3);

    assert_eq!(board.cells().len(), 12);
    for y in 0..3 {
        for x in 0..4 {
            assert_eq!(board.get(x, y), None);
        }
    }
}

#[test]
fn x_at_width_is_out_of_bounds() {
    let width = 2;
    let height = 2;

    let board = Board::new(width, height);

    assert_eq!(board.check_bounds(width, 0), Err(OutOfBounds::X { width: 2, x: 2 }));
    assert_eq!(board.check_bounds(7, 1), Err(OutOfBounds::X { width: 2, x: 7 }));
}

#[test]
fn y_at_height_is_out_of_bounds() {
    let width = 2;
    let height = 2;

    let board = Board::new(width, height);

    assert_eq!(board.check_bounds(0, height), Err(OutOfBounds::Y { height: 2, y: 2 }));
    assert_eq!(board.check_bounds(1, 9), Err(OutOfBounds::Y { height: 2, y: 9 }));
}

#[test]
fn x_is_checked_before_y() {
    let board = Board::new(3, 5);

    assert_eq!(board.check_bounds(3, 5), Err(OutOfBounds::X { width: 3, x: 3 }));
}

#[test]
fn last_cell_is_in_bounds() {
    let mut board = Board::new(7, 4);

    assert_eq!(board.check_bounds(6, 3), Ok(()));
    assert_eq!(board.check_bounds(0, 0), Ok(()));
    board.set(6, 3, Some(PlayerMark::O));
    assert_eq!(board.get(6, 3), Some(PlayerMark::O));
}

#[test]
fn set_changes_one_cell_only() {
    let mut board = Board::new(3, 2);

    board.set(2, 0, Some(PlayerMark::X));
    board.set(0, 1, Some(PlayerMark::O));

    let expected = vec![
        None,
        None,
        Some(PlayerMark::X),
        Some(PlayerMark::O),
        None,
        None,
    ];
    assert_eq!(*board.cells(), expected);
    assert_eq!(board.width(), 3);
    assert_eq!(board.height(), 2);
}

#[test]
fn set_can_clear_a_cell() {
    let mut board = Board::new(2, 2);

    board.set(1, 1, Some(PlayerMark::X));
    board.set(1, 1, None);

    assert_eq!(board.get(1, 1), None);
}

#[test]
fn every_cell_reads_back_every_value() {
    let mut board = Board::new(4, 3);
    for y in 0..3 {
        for x in 0..4 {
            for cell in [Some(PlayerMark::X), Some(PlayerMark::O), None, Some(PlayerMark::O)] {
                board.set(x, y, cell);
                assert_eq!(board.get(x, y), cell);
            }
        }
    }
}

#[test]
fn render_of_a_single_empty_cell() {
    let board = Board::new(1, 1);

    assert_eq!(board.render(), " \n");
}

#[test]
fn render_of_a_wide_board() {
    let mut board = Board::new(4, 2);
    board.set(0, 0, Some(PlayerMark::O));
    board.set(3, 1, Some(PlayerMark::X));

    assert_eq!(board.render(), "o   \n   x\n");
}
