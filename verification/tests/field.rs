use titlis::block::Block;
use titlis::board::index_at;
use titlis::board::Board;
use titlis::board::BOARD_CELLS;
use titlis::board::BOARD_HEIGHT;
use titlis::board::BOARD_WIDTH;
use titlis::tetromino::Tetromino;

const X: Tetromino = Tetromino::X;

/// The rows of the field from the bottom up.
fn rows(board: &Board) -> Vec<Vec<Tetromino>> {
    (0..BOARD_HEIGHT)
        .map(|y| (0..BOARD_WIDTH).map(|x| board.kind_at(x, y)).collect())
        .collect()
}

fn empty_row() -> Vec<Tetromino> {
    vec![X; BOARD_WIDTH as usize]
}

/// A horizontal I piece that covers columns `x..x + 4` of row `y`.
fn bar(x: i32, y: i32) -> Block {
    let block = Block::spawn(Tetromino::I, x + 1, y + 2).rotate_right();
    assert_eq!(
        [block.point(0), block.point(1), block.point(2), block.point(3)],
        [(x, y), (x + 1, y), (x + 2, y), (x + 3, y)]
    );
    block
}

/// An O piece that covers columns `x..x + 2` of rows `y..y + 2`.
fn square(x: i32, y: i32) -> Block {
    Block::spawn(Tetromino::O, x, y + 1)
}

fn put(board: &mut Board, block: Block) {
    assert!(board.fits(&block));
    board.lock(&block);
}

/// Fills row `y` and, with the upper half of a square, columns 8 and 9 of
/// row `y + 1`.
fn fill_row(board: &mut Board, y: i32) {
    put(board, bar(0, y));
    put(board, bar(4, y));
    put(board, square(8, y));
}

#[test]
fn dimensions() {
    assert_eq!(BOARD_WIDTH, 10);
    assert_eq!(BOARD_HEIGHT, 22);
    assert_eq!(BOARD_CELLS, 220);
    assert_eq!(BOARD_CELLS, (BOARD_WIDTH * BOARD_HEIGHT) as usize);
}

#[test]
fn index_at_is_row_major() {
    assert_eq!(index_at(0, 0), 0);
    assert_eq!(index_at(9, 0), 9);
    assert_eq!(index_at(0, 1), 10);
    assert_eq!(index_at(3, 2), 23);
    assert_eq!(index_at(9, 21), 219);
    for y in 0..BOARD_HEIGHT {
        for x in 0..BOARD_WIDTH {
            assert_eq!(index_at(x, y), (x + y * BOARD_WIDTH) as usize);
        }
    }
}

#[test]
fn new_board_is_free() {
    let board = Board::new();
    for y in 0..BOARD_HEIGHT {
        for x in 0..BOARD_WIDTH {
            assert_eq!(board.kind_at(x, y), X);
            assert!(!board.is_occupied(x, y));
        }
        assert!(!board.row_is_full(y));
    }
}

#[test]
fn in_bounds_at_the_edges() {
    assert!(Board::in_bounds(0, 0));
    assert!(Board::in_bounds(9, 0));
    assert!(Board::in_bounds(0, 21));
    assert!(Board::in_bounds(9, 21));
    assert!(Board::in_bounds(4, 11));
    assert!(!Board::in_bounds(-1, 0));
    assert!(!Board::in_bounds(10, 0));
    assert!(!Board::in_bounds(0, -1));
    assert!(!Board::in_bounds(0, 22));
    assert!(!Board::in_bounds(10, 22));
    assert!(!Board::in_bounds(i32::MIN, 0));
    assert!(!Board::in_bounds(0, i32::MAX));
}

#[test]
fn fits_on_a_free_board() {
    let board = Board::new();
    assert!(board.fits(&Block::spawn(Tetromino::O, 5, 21)));
    assert!(board.fits(&Block::spawn(Tetromino::I, 5, 21)));
    assert!(board.fits(&Block::spawn(Tetromino::O, 0, 1)));
    assert!(board.fits(&Block::spawn(Tetromino::O, 8, 1)));
}

#[test]
fn fits_refuses_a_cell_outside_the_board() {
    let board = Board::new();
    // right edge
    assert!(!board.fits(&Block::spawn(Tetromino::O, 9, 21)));
    // left edge
    assert!(!board.fits(&Block::spawn(Tetromino::O, -1, 5)));
    // top edge
    assert!(!board.fits(&Block::spawn(Tetromino::O, 5, 22)));
    // bottom edge
    assert!(!board.fits(&Block::spawn(Tetromino::O, 5, 0)));
    // far away
    assert!(!board.fits(&Block::spawn(Tetromino::O, 1000, -1000)));
}

#[test]
fn fits_refuses_an_occupied_cell() {
    let mut board = Board::new();
    put(&mut board, square(5, 0));
    assert!(!board.fits(&square(5, 0)));
    assert!(!board.fits(&square(6, 0)));
    assert!(!board.fits(&square(4, 1)));
    assert!(!board.fits(&square(6, 1)));
    assert!(board.fits(&square(7, 0)));
    assert!(board.fits(&square(3, 0)));
    assert!(board.fits(&square(5, 2)));
}

#[test]
fn fits_changes_nothing() {
    let mut board = Board::new();
    put(&mut board, square(5, 0));
    let before = board;
    assert!(!board.fits(&square(5, 1)));
    assert!(board.fits(&square(0, 0)));
    assert_eq!(board, before);
}

#[test]
fn lock_writes_the_kind_into_the_four_cells() {
    let mut board = Board::new();
    let block = Block::spawn(Tetromino::T, 4, 7);
    put(&mut board, block);
    let covered = [(3, 7), (4, 7), (5, 7), (4, 6)];
    for y in 0..BOARD_HEIGHT {
        for x in 0..BOARD_WIDTH {
            let expected = if covered.contains(&(x, y)) { Tetromino::T } else { X };
            assert_eq!(board.kind_at(x, y), expected, "cell ({}, {})", x, y);
            assert_eq!(board.is_occupied(x, y), covered.contains(&(x, y)));
        }
    }
}

#[test]
fn lock_keeps_what_was_locked_before() {
    let mut board = Board::new();
    put(&mut board, square(0, 0));
    put(&mut board, bar(2, 0));
    put(&mut board, Block::spawn(Tetromino::Z, 7, 2));
    let expected_bottom = [
        Tetromino::O,
        Tetromino::O,
        Tetromino::I,
        Tetromino::I,
        Tetromino::I,
        Tetromino::I,
        X,
        Tetromino::Z,
        X,
        X,
    ];
    assert_eq!(rows(&board)[0], expected_bottom.to_vec());
    assert_eq!(board.kind_at(0, 1), Tetromino::O);
    assert_eq!(board.kind_at(7, 1), Tetromino::Z);
    assert_eq!(board.kind_at(8, 1), Tetromino::Z);
    assert_eq!(board.kind_at(8, 2), Tetromino::Z);
}

#[test]
fn row_is_full_needs_every_column() {
    let mut board = Board::new();
    put(&mut board, bar(0, 3));
    put(&mut board, bar(4, 3));
    assert!(!board.row_is_full(3));
    put(&mut board, square(8, 3));
    assert!(board.row_is_full(3));
    assert!(!board.row_is_full(4));
    assert!(!board.row_is_full(2));
}

#[test]
fn remove_row_shifts_the_rows_above_down() {
    let mut board = Board::new();
    put(&mut board, bar(0, 0));
    put(&mut board, bar(3, 1));
    put(&mut board, bar(6, 2));
    put(&mut board, bar(1, 21));
    let before = rows(&board);
    board.remove_row(1);
    let mut expected = before.clone();
    expected.remove(1);
    expected.push(empty_row());
    assert_eq!(rows(&board), expected);
    assert_eq!(rows(&board)[0], before[0]);
    assert_eq!(rows(&board)[1], before[2]);
    assert_eq!(rows(&board)[20], before[21]);
    assert_eq!(rows(&board)[21], empty_row());
}

#[test]
fn remove_row_at_the_top_frees_it() {
    let mut board = Board::new();
    put(&mut board, bar(1, 21));
    put(&mut board, bar(1, 20));
    let before = rows(&board);
    board.remove_row(21);
    assert_eq!(rows(&board)[20], before[20]);
    assert_eq!(rows(&board)[21], empty_row());
}

#[test]
fn clear_takes_out_the_one_full_row() {
    let mut board = Board::new();
    put(&mut board, bar(0, 0));
    put(&mut board, bar(6, 1));
    fill_row(&mut board, 2);
    put(&mut board, Block::spawn(Tetromino::T, 1, 5));
    let before = rows(&board);
    assert!(board.row_is_full(2));

    assert_eq!(board.clear_completed_lines(), 1);

    let after = rows(&board);
    // rows below the full row are untouched
    assert_eq!(after[0], before[0]);
    assert_eq!(after[1], before[1]);
    // every row above it has moved down by one
    for y in 2..21 {
        assert_eq!(after[y], before[y + 1], "row {}", y);
    }
    // the top row is free
    assert_eq!(after[21], empty_row());
    // spot checks
    assert_eq!(board.kind_at(8, 2), Tetromino::O);
    assert_eq!(board.kind_at(9, 2), Tetromino::O);
    assert_eq!(board.kind_at(0, 2), X);
    assert_eq!(board.kind_at(1, 3), Tetromino::T);
    assert_eq!(board.kind_at(0, 4), Tetromino::T);
    assert_eq!(board.kind_at(0, 0), Tetromino::I);
    assert_eq!(board.kind_at(9, 1), Tetromino::I);
}

#[test]
fn clear_takes_out_a_full_row_at_every_height() {
    for r in 0..BOARD_HEIGHT - 1 {
        let mut board = Board::new();
        if r >= 2 {
            put(&mut board, bar(2, r - 2));
        }
        fill_row(&mut board, r);
        if r + 3 < BOARD_HEIGHT {
            put(&mut board, bar(5, r + 3));
        }
        let before = rows(&board);
        assert_eq!(board.clear_completed_lines(), 1, "row {}", r);
        let mut expected = before.clone();
        expected.remove(r as usize);
        expected.push(empty_row());
        assert_eq!(rows(&board), expected, "row {}", r);
    }
}

#[test]
fn clear_with_no_full_row_changes_nothing() {
    let mut board = Board::new();
    put(&mut board, bar(0, 0));
    put(&mut board, bar(4, 0));
    put(&mut board, Block::spawn(Tetromino::S, 5, 6));
    let before = board;
    assert_eq!(board.clear_completed_lines(), 0);
    assert_eq!(board, before);
    let mut free = Board::new();
    assert_eq!(free.clear_completed_lines(), 0);
    assert_eq!(free, Board::new());
}

#[test]
fn clear_takes_out_two_adjacent_full_rows() {
    let mut board = Board::new();
    for x in [0, 2, 4, 6, 8] {
        put(&mut board, square(x, 0));
    }
    put(&mut board, bar(3, 2));
    let before = rows(&board);
    assert_eq!(board.clear_completed_lines(), 2);
    let after = rows(&board);
    assert_eq!(after[0], before[2]);
    for y in 1..22 {
        assert_eq!(after[y], empty_row());
    }
}

#[test]
fn clear_takes_out_full_rows_that_are_apart() {
    let mut board = Board::new();
    fill_row(&mut board, 0);
    put(&mut board, bar(1, 2));
    fill_row(&mut board, 3);
    fill_row(&mut board, 6);
    put(&mut board, bar(0, 8));
    let before = rows(&board);
    assert!(board.row_is_full(0));
    assert!(board.row_is_full(3));
    assert!(board.row_is_full(6));

    assert_eq!(board.clear_completed_lines(), 3);

    let mut expected: Vec<Vec<Tetromino>> = Vec::new();
    for y in 0..22 {
        if y != 0 && y != 3 && y != 6 {
            expected.push(before[y].clone());
        }
    }
    while expected.len() < 22 {
        expected.push(empty_row());
    }
    assert_eq!(rows(&board), expected);
    for y in 0..BOARD_HEIGHT {
        assert!(!board.row_is_full(y));
    }
}

#[test]
fn clear_empties_a_board_that_is_full() {
    let mut board = Board::new();
    for y in 0..11 {
        for x in [0, 2, 4, 6, 8] {
            put(&mut board, square(x, 2 * y));
        }
    }
    for y in 0..BOARD_HEIGHT {
        assert!(board.row_is_full(y));
    }
    assert_eq!(board.clear_completed_lines(), 22);
    assert_eq!(board, Board::new());
}

#[test]
fn clear_twice_finds_nothing_the_second_time() {
    let mut board = Board::new();
    fill_row(&mut board, 0);
    put(&mut board, bar(0, 1));
    put(&mut board, bar(4, 1));
    assert_eq!(board.clear_completed_lines(), 2);
    let after = board;
    assert_eq!(board.clear_completed_lines(), 0);
    assert_eq!(board, after);
}
