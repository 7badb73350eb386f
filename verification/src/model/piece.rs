//! The mathematical value of a piece, and what holds of it.

use crate::tetromino::Tetromino;
use vstd::prelude::*;

verus! {

/// One quarter turn of an offset about the anchor.
pub open spec fn turn(o: (int, int), clockwise: bool) -> (int, int) {
    if clockwise {
        (o.1, -o.0)
    } else {
        (-o.1, o.0)
    }
}

/// The offsets after `quarter_turns` clockwise quarter turns, for
/// `quarter_turns` in `0..4`.
pub open spec fn turned(offsets: Seq<(int, int)>, quarter_turns: int) -> Seq<(int, int)> {
    offsets.map_values(
        |o: (int, int)|
            if quarter_turns == 0 {
                o
            } else if quarter_turns == 1 {
                (o.1, -o.0)
            } else if quarter_turns == 2 {
                (-o.0, -o.1)
            } else {
                (-o.1, o.0)
            },
    )
}

/// The mathematical value of a [`crate::block::Block`].
pub struct BlockView {
    pub kind: Tetromino,
    pub offsets: Seq<(int, int)>,
    pub x: int,
    pub y: int,
}

impl BlockView {
    /// The offsets are the kind's shape in one of its four orientations.
    pub open spec fn wf(self) -> bool {
        ||| self.offsets == turned(self.kind.spec_shape(), 0)
        ||| self.offsets == turned(self.kind.spec_shape(), 1)
        ||| self.offsets == turned(self.kind.spec_shape(), 2)
        ||| self.offsets == turned(self.kind.spec_shape(), 3)
    }

    /// The piece that stands for "no active piece".
    pub open spec fn empty() -> BlockView {
        BlockView { kind: Tetromino::X, offsets: Tetromino::X.spec_shape(), x: 0, y: 0 }
    }

    /// A piece of `kind` in spawn orientation whose highest cell is in row `y`.
    pub open spec fn spawn(kind: Tetromino, x: int, y: int) -> BlockView {
        BlockView { kind, offsets: kind.spec_shape(), x, y: y - kind.spec_top() }
    }

    /// True if the piece stands for "no active piece".
    pub open spec fn is_empty(self) -> bool {
        self.kind == Tetromino::X
    }

    /// The absolute position of cell `i`.
    pub open spec fn cell(self, i: int) -> (int, int) {
        (self.x + self.offsets[i].0, self.y + self.offsets[i].1)
    }

    /// True if one of the four cells is at `(x, y)`.
    pub open spec fn covers(self, x: int, y: int) -> bool {
        exists|i: int| 0 <= i < 4 && #[trigger] self.cell(i) == (x, y)
    }

    /// Every cell coordinate fits in an `i32`.
    pub open spec fn representable(self) -> bool {
        forall|i: int|
            0 <= i < 4 ==> {
                &&& i32::MIN <= (#[trigger] self.cell(i)).0 <= i32::MAX
                &&& i32::MIN <= self.cell(i).1 <= i32::MAX
            }
    }

    /// The piece with its anchor moved by `(dx, dy)`.
    pub open spec fn shifted(self, dx: int, dy: int) -> BlockView {
        BlockView { x: self.x + dx, y: self.y + dy, ..self }
    }

    /// The piece one column to the left.
    pub open spec fn left(self) -> BlockView {
        self.shifted(-1, 0)
    }

    /// The piece one column to the right.
    pub open spec fn right(self) -> BlockView {
        self.shifted(1, 0)
    }

    /// The piece one row further down.
    pub open spec fn down(self) -> BlockView {
        self.shifted(0, -1)
    }

    /// A quarter turn about the anchor: clockwise sends `(dx, dy)` to
    /// `(dy, -dx)`, counterclockwise to `(-dy, dx)`.
    pub open spec fn rotated(self, clockwise: bool) -> BlockView {
        BlockView { offsets: self.offsets.map_values(|o: (int, int)| turn(o, clockwise)), ..self }
    }
}

/// A well-formed piece has four offsets, none further than two steps from
/// the anchor, and one of them at the anchor itself.
pub proof fn lemma_offsets_bounded(b: BlockView)
    requires
        b.wf(),
    ensures
        b.offsets.len() == 4,
        forall|i: int|
            0 <= i < 4 ==> -2 <= (#[trigger] b.offsets[i]).0 <= 2 && -2 <= b.offsets[i].1 <= 2,
        exists|i: int| 0 <= i < 4 && #[trigger] b.offsets[i] == (0int, 0int),
{
    let s = b.kind.spec_shape();
    let k = if s[0] == (0int, 0int) {
        0int
    } else if s[1] == (0int, 0int) {
        1int
    } else {
        2int
    };
    assert(b.offsets[k] == (0int, 0int));
}

/// The cells of a well-formed piece whose anchor is at least two steps from
/// the limits of `i32` have coordinates that fit in an `i32`.
pub proof fn lemma_representable(b: BlockView)
    requires
        b.wf(),
        i32::MIN + 2 <= b.x <= i32::MAX - 2,
        i32::MIN + 2 <= b.y <= i32::MAX - 2,
    ensures
        b.representable(),
{
}

/// Turning a well-formed piece leaves it well formed.
pub proof fn lemma_rotated_wf(b: BlockView, clockwise: bool)
    requires
        b.wf(),
    ensures
        b.rotated(clockwise).wf(),
{
    let s = b.kind.spec_shape();
    let r = b.rotated(clockwise).offsets;
    if b.offsets == turned(s, 0) {
        if clockwise {
            assert(r =~= turned(s, 1));
        } else {
            assert(r =~= turned(s, 3));
        }
    } else if b.offsets == turned(s, 1) {
        if clockwise {
            assert(r =~= turned(s, 2));
        } else {
            assert(r =~= turned(s, 0));
        }
    } else if b.offsets == turned(s, 2) {
        if clockwise {
            assert(r =~= turned(s, 3));
        } else {
            assert(r =~= turned(s, 1));
        }
    } else {
        if clockwise {
            assert(r =~= turned(s, 0));
        } else {
            assert(r =~= turned(s, 2));
        }
    }
}

/// Four quarter turns in the same direction give back the piece that was
/// turned: the same kind, the same anchor and the same offsets in the same
/// order.
pub proof fn lemma_four_turns(b: BlockView, clockwise: bool)
    ensures
        b.rotated(clockwise).rotated(clockwise).rotated(clockwise).rotated(clockwise) == b,
{
    let r = b.rotated(clockwise).rotated(clockwise).rotated(clockwise).rotated(clockwise);
    assert(r.offsets =~= b.offsets);
}

/// A quarter turn one way followed by a quarter turn the other way gives
/// back the piece that was turned.
pub proof fn lemma_turn_back(b: BlockView, clockwise: bool)
    ensures
        b.rotated(clockwise).rotated(!clockwise) == b,
{
    assert(b.rotated(clockwise).rotated(!clockwise).offsets =~= b.offsets);
}

/// The four cells of a well-formed solid piece are four different cells.
pub proof fn lemma_cells_distinct(b: BlockView)
    requires
        b.wf(),
        b.kind.is_solid(),
    ensures
        forall|i: int, j: int| 0 <= i < j < 4 ==> #[trigger] b.cell(i) != #[trigger] b.cell(j),
{
}

/// A spawned piece is well formed, none of its cells lies above the row it
/// was spawned at, and one of them lies in that row.
pub proof fn lemma_spawn_alignment(kind: Tetromino, x: int, y: int)
    ensures
        BlockView::spawn(kind, x, y).wf(),
        forall|i: int| 0 <= i < 4 ==> (#[trigger] BlockView::spawn(kind, x, y).cell(i)).1 <= y,
        exists|i: int| 0 <= i < 4 && (#[trigger] BlockView::spawn(kind, x, y).cell(i)).1 == y,
{
    let b = BlockView::spawn(kind, x, y);
    let s = kind.spec_shape();
    assert(b.offsets =~= turned(s, 0));
    let top = kind.spec_top();
    let k = if s[0].1 == top {
        0int
    } else if s[1].1 == top {
        1int
    } else if s[2].1 == top {
        2int
    } else {
        3int
    };
    assert(b.cell(k).1 == y);
}

} // verus!
