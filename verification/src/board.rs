//! The playing field: a grid of cells, each free or holding the kind of the
//! piece that was locked there.

use crate::block::Block;
use crate::model::grid::lemma_filter_first;
use crate::model::grid::Grid;
use crate::tetromino::Tetromino;
use vstd::prelude::*;

verus! {


/// The number of columns of the field.
pub const BOARD_WIDTH: i32 = 10;

/// The number of rows of the field.
pub const BOARD_HEIGHT: i32 = 22;

/// The number of cells of the field.
pub const BOARD_CELLS: usize = 220;

/// The place of cell `(x, y)` in row-major storage.
pub fn index_at(x: i32, y: i32) -> (i: usize)
    requires
        i32::MIN <= y * BOARD_WIDTH <= i32::MAX,
        0 <= y * BOARD_WIDTH + x <= i32::MAX,
    ensures
        i == y * BOARD_WIDTH + x,
{
    (y * BOARD_WIDTH + x) as usize
}

/// The place of a cell in row-major storage.
spec fn flat(cell: (int, int)) -> int {
    cell.1 * BOARD_WIDTH + cell.0
}

/// The field of the game.
#[derive(Copy, Clone, Debug, PartialEq, Eq)]
pub struct Board {
    cells: [Tetromino; BOARD_CELLS],
}

impl View for Board {
    type V = Grid;

    closed spec fn view(&self) -> Grid {
        Grid {
            rows: Seq::new(
                BOARD_HEIGHT as nat,
                |y: int| Seq::new(BOARD_WIDTH as nat, |x: int| self.cells[y * BOARD_WIDTH + x]),
            ),
        }
    }
}

impl Board {
    /// A field with every cell free.
    pub fn new() -> (board: Board)
        ensures
            board@ == Grid::empty(),
    {
        let board = Board { cells: [Tetromino::X; BOARD_CELLS] };
        assert(board@.rows =~~= Grid::empty().rows);
        board
    }

    /// True if `(x, y)` is a cell of the field.
    pub fn in_bounds(x: i32, y: i32) -> (inside: bool)
        ensures
            inside == Grid::in_bounds(x as int, y as int),
    {
        0 <= x && x < BOARD_WIDTH && 0 <= y && y < BOARD_HEIGHT
    }

    /// The kind held by cell `(x, y)`; `X` if the cell is free.
    pub fn kind_at(&self, x: i32, y: i32) -> (kind: Tetromino)
        requires
            Grid::in_bounds(x as int, y as int),
        ensures
            kind == self@.at(x as int, y as int),
    {
        self.cells[index_at(x, y)]
    }

    /// True if cell `(x, y)` holds a locked piece.
    pub fn is_occupied(&self, x: i32, y: i32) -> (occupied: bool)
        requires
            Grid::in_bounds(x as int, y as int),
        ensures
            occupied == self@.is_occupied(x as int, y as int),
    {
        self.cells[index_at(x, y)] != Tetromino::X
    }

    /// Every stored field has the dimensions of the board.
    pub proof fn lemma_wf(&self)
        ensures
            self@.wf(),
    {
    }

    /// True if the piece could stand where it is: each of its cells lies on
    /// the field and is free. A piece so far away that a cell coordinate
    /// would not fit in an `i32` does not fit.
    pub fn fits(&self, block: &Block) -> (ok: bool)
        ensures
            ok == self@.fits(block@),
    {
        for i in 0..4
            invariant
                forall|j: int|
                    0 <= j < i ==> {
                        &&& Grid::in_bounds((#[trigger] block@.cell(j)).0, block@.cell(j).1)
                        &&& !self@.is_occupied(block@.cell(j).0, block@.cell(j).1)
                    },
        {
            let (dx, dy) = block.offset(i);
            let x: i64 = block.x() as i64 + dx as i64;
            let y: i64 = block.y() as i64 + dy as i64;
            assert((x as int, y as int) == block@.cell(i as int));
            if x < 0 || x >= BOARD_WIDTH as i64 || y < 0 || y >= BOARD_HEIGHT as i64 {
                return false;
            }
            if self.cells[index_at(x as i32, y as i32)] != Tetromino::X {
                return false;
            }
        }
        true
    }

    /// Writes the kind of the piece into the cells that it covers.
    pub fn lock(&mut self, block: &Block)
        requires
            old(self)@.fits(block@),
        ensures
            final(self)@ == old(self)@.locked(block@),
            final(self)@.wf(),
    {
        let kind = block.kind();
        for i in 0..4
            invariant
                old(self)@.fits(block@),
                kind == block@.kind,
                forall|k: int|
                    0 <= k < BOARD_CELLS ==> #[trigger] self.cells[k] == if exists|j: int|
                        0 <= j < i && flat(#[trigger] block@.cell(j)) == k {
                        kind
                    } else {
                        old(self).cells[k]
                    },
        {
            let (x, y) = block.point(i);
            self.cells[index_at(x, y)] = kind;
        }
        assert(self@.rows =~~= old(self)@.locked(block@).rows);
    }

    /// True if row `y` has no free cell.
    pub fn row_is_full(&self, y: i32) -> (full: bool)
        requires
            0 <= y < BOARD_HEIGHT,
        ensures
            full == Grid::row_full(self@.rows[y as int]),
    {
        for x in 0..BOARD_WIDTH
            invariant
                0 <= y < BOARD_HEIGHT,
                forall|c: int| 0 <= c < x ==> #[trigger] self@.rows[y as int][c] != Tetromino::X,
        {
            if self.cells[index_at(x, y)] == Tetromino::X {
                assert(self@.rows[y as int][x as int] == Tetromino::X);
                return false;
            }
        }
        true
    }

    /// Takes row `y` out: every row above it moves down by one, and the top
    /// row becomes free.
    pub fn remove_row(&mut self, y: i32)
        requires
            0 <= y < BOARD_HEIGHT,
        ensures
            final(self)@.rows == old(self)@.rows.remove(y as int).push(Grid::empty_row()),
            final(self)@.wf(),
    {
        for dy in y..BOARD_HEIGHT - 1
            invariant
                0 <= y < BOARD_HEIGHT,
                forall|k: int|
                    0 <= k < BOARD_CELLS ==> #[trigger] self.cells[k] == if y * BOARD_WIDTH <= k
                        < dy * BOARD_WIDTH {
                        old(self).cells[k + BOARD_WIDTH]
                    } else {
                        old(self).cells[k]
                    },
        {
            for x in 0..BOARD_WIDTH
                invariant
                    0 <= y <= dy < BOARD_HEIGHT - 1,
                    forall|k: int|
                        0 <= k < BOARD_CELLS ==> #[trigger] self.cells[k] == if y * BOARD_WIDTH
                            <= k < dy * BOARD_WIDTH + x {
                            old(self).cells[k + BOARD_WIDTH]
                        } else {
                            old(self).cells[k]
                        },
            {
                self.cells[index_at(x, dy)] = self.cells[index_at(x, dy + 1)];
            }
        }
        for x in 0..BOARD_WIDTH
            invariant
                0 <= y < BOARD_HEIGHT,
                forall|k: int|
                    0 <= k < BOARD_CELLS ==> #[trigger] self.cells[k] == if k >= (BOARD_HEIGHT - 1)
                        * BOARD_WIDTH {
                        if k < (BOARD_HEIGHT - 1) * BOARD_WIDTH + x {
                            Tetromino::X
                        } else {
                            old(self).cells[k]
                        }
                    } else if y * BOARD_WIDTH <= k {
                        old(self).cells[k + BOARD_WIDTH]
                    } else {
                        old(self).cells[k]
                    },
        {
            self.cells[index_at(x, BOARD_HEIGHT - 1)] = Tetromino::X;
        }
        assert(self@.rows =~~= old(self)@.rows.remove(y as int).push(Grid::empty_row()));
    }

    /// Takes every full row out of the field and says how many there were.
    /// The rows that stay keep their order and sink to the bottom; free rows
    /// take the place of the full ones at the top.
    pub fn clear_completed_lines(&mut self) -> (line_count: u32)
        ensures
            final(self)@ == old(self)@.cleared(),
            line_count == old(self)@.full_count(),
            line_count <= BOARD_HEIGHT,
            final(self)@.wf(),
    {
        let ghost rows = self@.rows;
        let ghost top = BOARD_HEIGHT as int;
        let mut line_count: u32 = 0;
        let mut y: i32 = BOARD_HEIGHT;
        while y > 0
            invariant
                0 <= y <= BOARD_HEIGHT,
                top == BOARD_HEIGHT,
                rows == old(self)@.rows,
                rows.len() == top,
                self@.wf(),
                self@.rows.subrange(0, y as int) == rows.subrange(0, y as int),
                self@.rows.subrange(y as int, top) == rows.subrange(y as int, top).filter(
                    Grid::keeps(),
                ) + Seq::new(line_count as nat, |i: int| Grid::empty_row()),
                line_count + rows.subrange(y as int, top).filter(Grid::keeps()).len() == top - y,
            decreases y,
        {
            y -= 1;
            let ghost before = self@.rows;
            proof {
                assert(rows[y as int] == rows.subrange(0, y + 1)[y as int]);
                lemma_filter_first(rows, y as int);
            }
            if self.row_is_full(y) {
                line_count += 1;
                self.remove_row(y);
            } else {
                proof {
                    assert(self@.rows.subrange(y as int, top) =~= seq![rows[y as int]]
                        + before.subrange(y + 1, top));
                }
            }
        }
        proof {
            assert(rows.subrange(0, top) =~= rows);
            assert(self@.rows.subrange(0, top) =~= self@.rows);
        }
        line_count
    }
}

} // verus!
