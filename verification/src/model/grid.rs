//! The mathematical value of the field, what locking a piece and clearing
//! lines do to it, and what holds of them.

use crate::board::BOARD_HEIGHT;
use crate::board::BOARD_WIDTH;
use crate::model::piece::lemma_offsets_bounded;
use crate::model::piece::lemma_representable;
use crate::model::piece::lemma_rotated_wf;
use crate::model::piece::BlockView;
use crate::tetromino::Tetromino;
use vstd::prelude::*;

verus! {

/// The mathematical value of a [`crate::board::Board`]: its rows from the
/// bottom up, each from left to right.
pub struct Grid {
    pub rows: Seq<Seq<Tetromino>>,
}

impl Grid {
    /// The field has the dimensions of the board.
    pub open spec fn wf(self) -> bool {
        &&& self.rows.len() == BOARD_HEIGHT
        &&& forall|y: int| 0 <= y < BOARD_HEIGHT ==> (#[trigger] self.rows[y]).len() == BOARD_WIDTH
    }

    /// True if `(x, y)` is a cell of the field.
    pub open spec fn in_bounds(x: int, y: int) -> bool {
        0 <= x < BOARD_WIDTH && 0 <= y < BOARD_HEIGHT
    }

    /// The kind held by cell `(x, y)`; `X` if the cell is free.
    pub open spec fn at(self, x: int, y: int) -> Tetromino {
        self.rows[y][x]
    }

    /// True if cell `(x, y)` holds a locked piece.
    pub open spec fn is_occupied(self, x: int, y: int) -> bool {
        self.at(x, y) != Tetromino::X
    }

    /// Every cell of the piece lies on the field and is free.
    pub open spec fn fits(self, b: BlockView) -> bool {
        forall|i: int|
            0 <= i < 4 ==> {
                &&& Grid::in_bounds((#[trigger] b.cell(i)).0, b.cell(i).1)
                &&& !self.is_occupied(b.cell(i).0, b.cell(i).1)
            }
    }

    /// The field with the kind of `b` written into the cells that `b` covers.
    pub open spec fn locked(self, b: BlockView) -> Grid {
        Grid {
            rows: Seq::new(
                BOARD_HEIGHT as nat,
                |y: int|
                    Seq::new(
                        BOARD_WIDTH as nat,
                        |x: int|
                            if b.covers(x, y) {
                                b.kind
                            } else {
                                self.at(x, y)
                            },
                    ),
            ),
        }
    }

    /// A row with no free cell.
    pub open spec fn row_full(row: Seq<Tetromino>) -> bool {
        forall|x: int| 0 <= x < row.len() ==> #[trigger] row[x] != Tetromino::X
    }

    /// The rows that a line clear leaves in place.
    pub open spec fn keeps() -> spec_fn(Seq<Tetromino>) -> bool {
        |row: Seq<Tetromino>| !Grid::row_full(row)
    }

    /// A row of free cells.
    pub open spec fn empty_row() -> Seq<Tetromino> {
        Seq::new(BOARD_WIDTH as nat, |x: int| Tetromino::X)
    }

    /// The field with every cell free.
    pub open spec fn empty() -> Grid {
        Grid { rows: Seq::new(BOARD_HEIGHT as nat, |y: int| Grid::empty_row()) }
    }

    /// Every row has a free cell.
    pub open spec fn no_full_row(self) -> bool {
        forall|y: int| 0 <= y < self.rows.len() ==> !Grid::row_full(#[trigger] self.rows[y])
    }

    /// The number of rows with no free cell.
    pub open spec fn full_count(self) -> int {
        self.rows.len() - self.rows.filter(Grid::keeps()).len()
    }

    /// The field after a line clear: the rows that are not full, in their
    /// order from the bottom, with free rows on top in place of the full ones.
    pub open spec fn cleared(self) -> Grid {
        Grid {
            rows: self.rows.filter(Grid::keeps()) + Seq::new(
                self.full_count() as nat,
                |y: int| Grid::empty_row(),
            ),
        }
    }

    /// Where a piece comes to rest when it moves straight down for as long as
    /// the next position fits.
    pub open spec fn landing(self, b: BlockView) -> BlockView
        decreases b.y,
    {
        if b.y > 0 && self.fits(b.down()) {
            self.landing(b.down())
        } else {
            b
        }
    }
}

/// A well-formed piece that fits has its anchor on the field.
pub proof fn lemma_fits_anchor(g: Grid, b: BlockView)
    requires
        b.wf(),
        g.fits(b),
    ensures
        Grid::in_bounds(b.x, b.y),
{
    lemma_offsets_bounded(b);
    let i = choose|i: int| 0 <= i < 4 && #[trigger] b.offsets[i] == (0int, 0int);
    assert(b.cell(i) == (b.x, b.y));
}

/// A well-formed piece that fits has its anchor on the field. Wherever it
/// is asked to go next (one step to the left, to the right or down, or a
/// quarter turn either way), the piece it would be there is well formed and
/// has cell coordinates that fit in an `i32`.
pub proof fn lemma_next_places(g: Grid, b: BlockView)
    requires
        b.wf(),
        g.fits(b),
    ensures
        Grid::in_bounds(b.x, b.y),
        b.left().wf() && b.left().representable(),
        b.right().wf() && b.right().representable(),
        b.down().wf() && b.down().representable(),
        b.rotated(true).wf() && b.rotated(true).representable(),
        b.rotated(false).wf() && b.rotated(false).representable(),
{
    lemma_fits_anchor(g, b);
    lemma_rotated_wf(b, true);
    lemma_rotated_wf(b, false);
    lemma_representable(b.left());
    lemma_representable(b.right());
    lemma_representable(b.down());
    lemma_representable(b.rotated(true));
    lemma_representable(b.rotated(false));
}

/// A piece that fits and falls straight down lands below or at the place it
/// fell from, having fitted at every row on its way. It fits where it
/// lands, and would not fit one row further down.
pub proof fn lemma_landing(g: Grid, b: BlockView)
    requires
        b.wf(),
        g.fits(b),
    ensures
        g.landing(b).y <= b.y,
        g.landing(b) == b.shifted(0, g.landing(b).y - b.y),
        forall|k: int| 0 <= k <= b.y - g.landing(b).y ==> g.fits(#[trigger] b.shifted(0, -k)),
        g.fits(g.landing(b)),
        !g.fits(g.landing(b).down()),
    decreases b.y,
{
    if b.y > 0 && g.fits(b.down()) {
        let d = b.down();
        lemma_landing(g, d);
        let l = g.landing(b);
        assert forall|k: int| 0 <= k <= b.y - l.y implies g.fits(#[trigger] b.shifted(0, -k)) by {
            if k > 0 {
                assert(b.shifted(0, -k) == d.shifted(0, -(k - 1)));
            }
        }
    } else if g.fits(b.down()) {
        lemma_fits_anchor(g, b.down());
    }
}

/// There are no more elements that fail than there are places where an
/// element may fail.
proof fn lemma_few_fail<A>(s: Seq<A>, pred: spec_fn(A) -> bool, places: Seq<int>)
    requires
        forall|i: int| 0 <= i < s.len() && !pred(#[trigger] s[i]) ==> places.contains(i),
    ensures
        s.len() - s.filter(pred).len() <= places.len(),
    decreases s.len(),
{
    reveal(Seq::filter);
    if s.len() > 0 {
        let front = s.drop_last();
        let n = s.len() - 1;
        if pred(s[n]) {
            lemma_few_fail(front, pred, places);
        } else {
            let at = choose|at: int| 0 <= at < places.len() && places[at] == n;
            let rest = places.remove(at);
            assert forall|i: int| 0 <= i < front.len() && !pred(
                #[trigger] front[i],
            ) implies rest.contains(i) by {
                let j = choose|j: int| 0 <= j < places.len() && places[j] == i;
                if j < at {
                    assert(rest[j] == i);
                } else {
                    assert(rest[j - 1] == i);
                }
            }
            lemma_few_fail(front, pred, rest);
        }
    }
}

/// Locking a piece onto a field with no full row fills at most four rows.
pub proof fn lemma_lock_fills_few(g: Grid, b: BlockView)
    requires
        g.wf(),
        g.no_full_row(),
    ensures
        0 <= g.locked(b).full_count() <= 4,
{
    let rows = g.locked(b).rows;
    let places = seq![b.cell(0).1, b.cell(1).1, b.cell(2).1, b.cell(3).1];
    assert forall|y: int| 0 <= y < rows.len() && !(Grid::keeps())(
        #[trigger] rows[y],
    ) implies places.contains(y) by {
        let x = choose|x: int| 0 <= x < g.rows[y].len() && g.rows[y][x] == Tetromino::X;
        assert(rows[y][x] != Tetromino::X);
    }
    lemma_few_fail(rows, Grid::keeps(), places);
}

/// Filtering keeps a sequence whose elements all pass as it is.
pub proof fn lemma_filter_all<A>(s: Seq<A>, pred: spec_fn(A) -> bool)
    requires
        forall|i: int| 0 <= i < s.len() ==> pred(#[trigger] s[i]),
    ensures
        s.filter(pred) == s,
    decreases s.len(),
{
    reveal(Seq::filter);
    if s.len() > 0 {
        lemma_filter_all(s.drop_last(), pred);
    }
}

/// What filtering keeps was there before.
proof fn lemma_filter_from<A>(s: Seq<A>, pred: spec_fn(A) -> bool)
    ensures
        forall|i: int| 0 <= i < s.filter(pred).len() ==> s.contains(#[trigger] s.filter(pred)[i]),
    decreases s.len(),
{
    reveal(Seq::filter);
    if s.len() > 0 {
        let front = s.drop_last();
        lemma_filter_from(front, pred);
        assert forall|i: int| 0 <= i < s.filter(pred).len() implies s.contains(
            #[trigger] s.filter(pred)[i],
        ) by {
            if i < front.filter(pred).len() {
                let j = choose|j: int| 0 <= j < front.len() && front[j] == front.filter(pred)[i];
                assert(s[j] == front[j]);
            }
        }
    }
}

/// The free field has the dimensions of the board and no full row.
pub proof fn lemma_empty_grid()
    ensures
        Grid::empty().wf(),
        Grid::empty().no_full_row(),
        Grid::empty().full_count() == 0,
{
    let rows = Grid::empty().rows;
    assert forall|y: int| 0 <= y < rows.len() implies !Grid::row_full(#[trigger] rows[y]) by {
        assert(rows[y][0] == Tetromino::X);
    }
    lemma_filter_all(rows, Grid::keeps());
}

/// A line clear leaves a field of the same dimensions with no full row.
pub proof fn lemma_cleared(g: Grid)
    requires
        g.wf(),
    ensures
        g.cleared().wf(),
        0 <= g.full_count() <= BOARD_HEIGHT,
        g.cleared().no_full_row(),
        g.cleared().full_count() == 0,
{
    let kept = g.rows.filter(Grid::keeps());
    let after = g.cleared().rows;
    lemma_filter_from(g.rows, Grid::keeps());
    assert forall|y: int| 0 <= y < BOARD_HEIGHT implies (#[trigger] after[y]).len() == BOARD_WIDTH
        && !Grid::row_full(after[y]) by {
        if y >= kept.len() {
            assert(Grid::empty_row()[0] == Tetromino::X);
        }
    }
    lemma_filter_all(after, Grid::keeps());
}

/// Where one row is full and no other, a line clear takes that row out and
/// counts one line. The rows below it stay, each row above it moves down by
/// one, and the top row becomes free.
pub proof fn lemma_clear_one_row(g: Grid, r: int)
    requires
        g.wf(),
        0 <= r < BOARD_HEIGHT,
        Grid::row_full(g.rows[r]),
        forall|y: int| 0 <= y < BOARD_HEIGHT && y != r ==> !Grid::row_full(#[trigger] g.rows[y]),
    ensures
        g.full_count() == 1,
        g.cleared().rows == g.rows.remove(r).push(Grid::empty_row()),
        forall|y: int| 0 <= y < r ==> #[trigger] g.cleared().rows[y] == g.rows[y],
        forall|y: int|
            r <= y < BOARD_HEIGHT - 1 ==> #[trigger] g.cleared().rows[y] == g.rows[y + 1],
        g.cleared().rows[BOARD_HEIGHT - 1] == Grid::empty_row(),
{
    let top = BOARD_HEIGHT as int;
    let below = g.rows.subrange(0, r);
    let above = g.rows.subrange(r + 1, top);
    assert(g.rows =~= below + g.rows.subrange(r, top));
    lemma_filter_first(g.rows, r);
    lemma_filter_all(below, Grid::keeps());
    lemma_filter_all(above, Grid::keeps());
}

/// Filtering the rows from `y` up keeps row `y` in front if it is not full,
/// and otherwise gives what filtering the rows above `y` gives.
pub proof fn lemma_filter_first(rows: Seq<Seq<Tetromino>>, y: int)
    requires
        0 <= y < rows.len(),
    ensures
        rows.subrange(y, rows.len() as int).filter(Grid::keeps()) == if Grid::row_full(rows[y]) {
            rows.subrange(y + 1, rows.len() as int).filter(Grid::keeps())
        } else {
            seq![rows[y]] + rows.subrange(y + 1, rows.len() as int).filter(Grid::keeps())
        },
{
    let top = rows.len() as int;
    let first = seq![rows[y]];
    assert(rows.subrange(y, top) =~= first + rows.subrange(y + 1, top));
    reveal_with_fuel(Seq::filter, 2);
}

} // verus!
